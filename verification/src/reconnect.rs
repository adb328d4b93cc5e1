//! Finding a USB serial port again after the device re-enumerated (a reset
//! can bring it back under another node name).
use crate::error::Error;
use crate::port::PortInfo;
use vstd::prelude::*;
use vstd::utf8::encode_utf8;

verus! {

/// How long the flasher waits for a lost port to come back (milliseconds).
pub const REOPEN_WAIT_TIMEOUT_MS: u64 = 4500;

/// How often it looks for the port meanwhile (milliseconds).
pub const REOPEN_POLL_INTERVAL_MS: u64 = 40;

/// How many times opening a port is tried.
pub const MAX_OPEN_PORT_ATTEMPTS: u32 = 3;

/// The pause between two tries to open a port (milliseconds).
pub const OPEN_RETRY_DELAY_MS: u64 = 500;

/// What identifies a USB serial device across re-enumeration.
#[derive(Debug, Clone)]
pub struct UsbFingerprint {
    /// USB vendor ID.
    pub vid: u16,
    /// USB product ID.
    pub pid: u16,
    /// Manufacturer string, if the device reports one.
    pub manufacturer: Option<String>,
    /// Product string, if the device reports one.
    pub product: Option<String>,
    /// Serial number, if the device reports one.
    pub serial_number: Option<String>,
}

/// The text of an optional string.
pub open spec fn opt_text(o: Option<String>) -> Option<Seq<char>> {
    match o {
        Some(s) => Some(s@),
        None => None,
    }
}

/// The index of the first port named `name`, or -1.
pub open spec fn first_named(ports: Seq<PortInfo>, name: Seq<char>, i: int) -> int
    decreases ports.len() - i,
{
    if i < 0 || i >= ports.len() {
        -1
    } else if ports[i].name@ == name {
        i
    } else {
        first_named(ports, name, i + 1)
    }
}

/// The fingerprint of the port named `name` among `ports`: that of the
/// first port of that name, if it has USB ids.
pub open spec fn fingerprint_in(ports: Seq<PortInfo>, name: Seq<char>) -> Option<UsbFingerprint> {
    let k = first_named(ports, name, 0);
    if k < 0 {
        None
    } else {
        let p = ports[k];
        match (p.vid, p.pid) {
            (Some(v), Some(q)) => Some(
                UsbFingerprint {
                    vid: v,
                    pid: q,
                    manufacturer: p.manufacturer,
                    product: p.product,
                    serial_number: p.serial_number,
                },
            ),
            _ => None,
        }
    }
}

/// Whether a port is the fingerprinted device by ids and serial number.
pub open spec fn exact_match(p: PortInfo, f: UsbFingerprint) -> bool {
    p.vid == Some(f.vid) && p.pid == Some(f.pid) && opt_text(p.serial_number) == opt_text(f.serial_number)
}

/// Whether a port has the fingerprint's ids, and its manufacturer and
/// product where the fingerprint has them.
pub open spec fn loose_match(p: PortInfo, f: UsbFingerprint) -> bool {
    &&& p.vid == Some(f.vid)
    &&& p.pid == Some(f.pid)
    &&& (f.manufacturer is Some ==> opt_text(p.manufacturer) == opt_text(f.manufacturer))
    &&& (f.product is Some ==> opt_text(p.product) == opt_text(f.product))
}

/// Whether byte string `a` sorts before `b` (as `str` orders them:
/// bytewise, a proper prefix first).
pub open spec fn bytes_lt(a: Seq<u8>, b: Seq<u8>) -> bool
    decreases a.len(),
{
    if a.len() == 0 {
        b.len() > 0
    } else if b.len() == 0 {
        false
    } else if a[0] != b[0] {
        a[0] < b[0]
    } else {
        bytes_lt(a.drop_first(), b.drop_first())
    }
}

/// Whether port name `a` sorts before port name `b`.
pub open spec fn name_lt(a: String, b: String) -> bool {
    bytes_lt(encode_utf8(a@), encode_utf8(b@))
}

/// The index of the first port that matches by ids and serial number, or -1.
pub open spec fn first_exact(ports: Seq<PortInfo>, f: UsbFingerprint, i: int) -> int
    decreases ports.len() - i,
{
    if i < 0 || i >= ports.len() {
        -1
    } else if exact_match(ports[i], f) {
        i
    } else {
        first_exact(ports, f, i + 1)
    }
}

/// Whether port `j` is the first of the loosely matching ports with the
/// least name.
pub open spec fn least_loose(ports: Seq<PortInfo>, f: UsbFingerprint, j: int) -> bool {
    &&& 0 <= j < ports.len()
    &&& loose_match(ports[j], f)
    &&& forall|i: int| 0 <= i < ports.len() && loose_match(#[trigger] ports[i], f) ==> !name_lt(ports[i].name, ports[j].name)
    &&& forall|i: int| 0 <= i < j && loose_match(#[trigger] ports[i], f) ==> ports[i].name@ != ports[j].name@
}

/// Strings are ordered by their bytes: `<` is transitive.
proof fn lemma_bytes_lt_transitive(a: Seq<u8>, b: Seq<u8>, c: Seq<u8>)
    requires
        bytes_lt(a, b),
        bytes_lt(b, c),
    ensures
        bytes_lt(a, c),
    decreases a.len(),
{
    if a.len() > 0 && b.len() > 0 && c.len() > 0 && a[0] == b[0] && b[0] == c[0] {
        lemma_bytes_lt_transitive(a.drop_first(), b.drop_first(), c.drop_first());
    }
}

/// No string sorts before itself.
proof fn lemma_bytes_lt_irreflexive(a: Seq<u8>)
    ensures
        !bytes_lt(a, a),
    decreases a.len(),
{
    if a.len() > 0 {
        lemma_bytes_lt_irreflexive(a.drop_first());
    }
}

fn text_eq_opt(a: &Option<String>, b: &Option<String>) -> (r: bool)
    ensures
        r == (opt_text(*a) == opt_text(*b)),
{
    match (a, b) {
        (Some(x), Some(y)) => crate::text::text_eq(x.as_str(), y.as_str()),
        (None, None) => true,
        _ => false,
    }
}

fn is_exact(p: &PortInfo, f: &UsbFingerprint) -> (r: bool)
    ensures
        r == exact_match(*p, *f),
{
    p.vid == Some(f.vid) && p.pid == Some(f.pid) && text_eq_opt(&p.serial_number, &f.serial_number)
}

fn is_loose(p: &PortInfo, f: &UsbFingerprint) -> (r: bool)
    ensures
        r == loose_match(*p, *f),
{
    if !(p.vid == Some(f.vid) && p.pid == Some(f.pid)) {
        return false;
    }
    if f.manufacturer.is_some() && !text_eq_opt(&p.manufacturer, &f.manufacturer) {
        return false;
    }
    if f.product.is_some() && !text_eq_opt(&p.product, &f.product) {
        return false;
    }
    true
}

/// Compares two names bytewise.
fn less_name(a: &String, b: &String) -> (r: bool)
    ensures
        r == name_lt(*a, *b),
{
    let x = a.as_str().as_bytes();
    let y = b.as_str().as_bytes();
    let mut i: usize = 0;
    assert(x@.skip(0) =~= x@ && y@.skip(0) =~= y@);
    while i < x.len() && i < y.len()
        invariant
            i <= x@.len(),
            i <= y@.len(),
            x@ == encode_utf8(a@),
            y@ == encode_utf8(b@),
            bytes_lt(x@, y@) == bytes_lt(x@.skip(i as int), y@.skip(i as int)),
        decreases x@.len() - i,
    {
        if x[i] != y[i] {
            assert(x@.skip(i as int)[0] == x@[i as int] && y@.skip(i as int)[0] == y@[i as int]);
            return x[i] < y[i];
        }
        assert(x@.skip(i as int).drop_first() =~= x@.skip(i + 1));
        assert(y@.skip(i as int).drop_first() =~= y@.skip(i + 1));
        i = i + 1;
    }
    i == x.len() && i < y.len()
}

/// The fingerprint of the port named `port_name` among `ports` (see
/// [`fingerprint_in`]).
pub fn fingerprint_of(ports: &[PortInfo], port_name: &str) -> (r: Option<UsbFingerprint>)
    ensures
        match (r, fingerprint_in(ports@, port_name@)) {
            (Some(a), Some(b)) => a.vid == b.vid && a.pid == b.pid && opt_text(a.manufacturer) == opt_text(
                b.manufacturer,
            ) && opt_text(a.product) == opt_text(b.product) && opt_text(a.serial_number) == opt_text(
                b.serial_number,
            ),
            (None, None) => true,
            _ => false,
        },
{
    let mut i: usize = 0;
    while i < ports.len()
        invariant
            i <= ports@.len(),
            first_named(ports@, port_name@, 0) == first_named(ports@, port_name@, i as int),
        decreases ports@.len() - i,
    {
        if crate::text::text_eq(ports[i].name.as_str(), port_name) {
            let p = &ports[i];
            return match (p.vid, p.pid) {
                (Some(vid), Some(pid)) => Some(
                    UsbFingerprint {
                        vid,
                        pid,
                        manufacturer: p.manufacturer.clone(),
                        product: p.product.clone(),
                        serial_number: p.serial_number.clone(),
                    },
                ),
                _ => None,
            };
        }
        i = i + 1;
    }
    None
}

/// Which port to reopen among `ports`: the node it had, while that still exists;
/// else, with a fingerprint, the first port with its ids and serial
/// number, or else the first of those with its ids (and its manufacturer
/// and product, where known) whose name sorts least; else none
/// (`DeviceNotFound`).
pub fn resolve_port_in(ports: &[PortInfo], initial_name: &str, fp: Option<&UsbFingerprint>) -> (r: Result<
    String,
    Error,
>)
    ensures
        first_named(ports@, initial_name@, 0) >= 0 ==> (r matches Ok(s) && s@ == initial_name@),
        first_named(ports@, initial_name@, 0) < 0 ==> match fp {
            None => r matches Err(Error::DeviceNotFound),
            Some(f) => if first_exact(ports@, *f, 0) >= 0 {
                r matches Ok(s) && s@ == ports@[first_exact(ports@, *f, 0)].name@
            } else if exists|j: int| 0 <= j < ports@.len() && loose_match(#[trigger] ports@[j], *f) {
                r matches Ok(s) && exists|j: int| least_loose(ports@, *f, j) && s@ == ports@[j].name@
            } else {
                r matches Err(Error::DeviceNotFound)
            },
        },
{
    let mut i: usize = 0;
    while i < ports.len()
        invariant
            i <= ports@.len(),
            first_named(ports@, initial_name@, 0) == first_named(ports@, initial_name@, i as int),
        decreases ports@.len() - i,
    {
        if crate::text::text_eq(ports[i].name.as_str(), initial_name) {
            return Ok(initial_name.to_string());
        }
        i = i + 1;
    }
    let f = match fp {
        Some(f) => f,
        None => return Err(Error::DeviceNotFound),
    };
    let mut i: usize = 0;
    while i < ports.len()
        invariant
            i <= ports@.len(),
            first_named(ports@, initial_name@, 0) < 0,
            fp == Some(f),
            first_exact(ports@, *f, 0) == first_exact(ports@, *f, i as int),
        decreases ports@.len() - i,
    {
        if is_exact(&ports[i], f) {
            return Ok(ports[i].name.clone());
        }
        i = i + 1;
    }
    assert(first_exact(ports@, *f, 0) < 0);
    let mut best: Option<usize> = None;
    let mut i: usize = 0;
    while i < ports.len()
        invariant
            i <= ports@.len(),
            first_named(ports@, initial_name@, 0) < 0,
            fp == Some(f),
            first_exact(ports@, *f, 0) < 0,
            match best {
                None => forall|k: int| 0 <= k < i ==> !loose_match(#[trigger] ports@[k], *f),
                Some(b) => b < i && least_loose(ports@.subrange(0, i as int), *f, b as int),
            },
        decreases ports@.len() - i,
    {
        let ghost pre = ports@.subrange(0, i as int);
        let ghost next = ports@.subrange(0, i + 1);
        if is_loose(&ports[i], f) {
            match best {
                None => {
                    best = Some(i);
                    proof {
                        lemma_bytes_lt_irreflexive(encode_utf8(ports@[i as int].name@));
                        assert forall|k: int| 0 <= k < next.len() && loose_match(#[trigger] next[k], *f) implies !name_lt(
                            next[k].name,
                            next[i as int].name,
                        ) by {
                            assert(k == i);
                        }
                    }
                },
                Some(b) => {
                    if less_name(&ports[i].name, &ports[b].name) {
                        best = Some(i);
                        proof {
                            lemma_bytes_lt_irreflexive(encode_utf8(ports@[i as int].name@));
                            assert forall|k: int| 0 <= k < next.len() && loose_match(#[trigger] next[k], *f) implies !name_lt(
                                next[k].name,
                                next[i as int].name,
                            ) by {
                                if k < i {
                                    assert(pre[k] == next[k]);
                                    assert(!name_lt(pre[k].name, pre[b as int].name));
                                    if name_lt(next[k].name, next[i as int].name) {
                                        lemma_bytes_lt_transitive(
                                            encode_utf8(next[k].name@),
                                            encode_utf8(next[i as int].name@),
                                            encode_utf8(pre[b as int].name@),
                                        );
                                    }
                                }
                            }
                            assert forall|k: int| 0 <= k < i && loose_match(#[trigger] next[k], *f) implies next[k].name@
                                != next[i as int].name@ by {
                                assert(pre[k] == next[k]);
                                assert(!name_lt(pre[k].name, pre[b as int].name));
                            }
                        }
                    } else {
                        proof {
                            assert forall|k: int| 0 <= k < next.len() && loose_match(#[trigger] next[k], *f) implies !name_lt(
                                next[k].name,
                                next[b as int].name,
                            ) by {
                                if k < i {
                                    assert(pre[k] == next[k]);
                                }
                            }
                            assert forall|k: int| 0 <= k < b && loose_match(#[trigger] next[k], *f) implies next[k].name@
                                != next[b as int].name@ by {
                                assert(pre[k] == next[k]);
                            }
                        }
                    }
                },
            }
        } else {
            proof {
                match best {
                    None => {},
                    Some(b) => {
                        assert forall|k: int| 0 <= k < next.len() && loose_match(#[trigger] next[k], *f) implies !name_lt(
                            next[k].name,
                            next[b as int].name,
                        ) by {
                            if k < i {
                                assert(pre[k] == next[k]);
                            }
                        }
                        assert forall|k: int| 0 <= k < b && loose_match(#[trigger] next[k], *f) implies next[k].name@
                            != next[b as int].name@ by {
                            assert(pre[k] == next[k]);
                        }
                    },
                }
            }
        }
        i = i + 1;
    }
    assert(ports@.subrange(0, ports@.len() as int) =~= ports@);
    match best {
        Some(b) => Ok(ports[b].name.clone()),
        None => Err(Error::DeviceNotFound),
    }
}

} // verus!
