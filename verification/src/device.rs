//! Device discovery and classification: which USB bridge a serial endpoint
//! belongs to, and which endpoint to pick.
//!
//! Enumerating the endpoints of the machine is I/O and happens outside the
//! library; the functions here work on the list it produced.
use crate::error::Error;
use crate::port::PortInfo;
use crate::text::{hex_text, push_hex, str_contains, text_contains};
use vstd::prelude::*;

verus! {

/// Transport type for discovered endpoints.
#[derive(Debug, Clone, Copy, PartialEq, Eq, Structural)]
pub enum TransportKind {
    /// Serial transport (UART/USB CDC).
    Serial,
    /// Unknown or unclassified transport.
    Unknown,
}

/// Known USB bridge/device kinds commonly used with HiSilicon boards.
#[derive(Debug, Clone, Copy, PartialEq, Eq, Structural)]
pub enum DeviceKind {
    /// CH340/CH341 USB-to-Serial converter.
    Ch340,
    /// Silicon Labs CP210x USB-to-Serial converter.
    Cp210x,
    /// FTDI FT232/FT2232/FT4232 USB-to-Serial converter.
    Ftdi,
    /// Prolific PL2303 USB-to-Serial converter.
    Prolific,
    /// HiSilicon native USB device.
    HiSilicon,
    /// Unknown device.
    Unknown,
}

/// Legacy name of [`DeviceKind`].
pub type UsbDevice = DeviceKind;

/// The device kind of a USB vendor/product pair: CH340 (0x1A86 with PID
/// 0x7523, 0x7522, 0x5523, 0x5512, 0x55D4), CP210x (0x10C4 with 0xEA60,
/// 0xEA70, 0xEA71, 0xEA63), FTDI (0x0403 with 0x6001, 0x6010, 0x6011,
/// 0x6014, 0x6015), PL2303 (0x067B with 0x2303, 0x23A3, 0x23C3, 0x23D3),
/// HiSilicon (0x12D1, any PID).
pub open spec fn device_kind_of(vid: u16, pid: u16) -> DeviceKind {
    if vid == 0x1A86 && (pid == 0x7523 || pid == 0x7522 || pid == 0x5523 || pid == 0x5512 || pid
        == 0x55D4) {
        DeviceKind::Ch340
    } else if vid == 0x10C4 && (pid == 0xEA60 || pid == 0xEA70 || pid == 0xEA71 || pid == 0xEA63) {
        DeviceKind::Cp210x
    } else if vid == 0x0403 && (pid == 0x6001 || pid == 0x6010 || pid == 0x6011 || pid == 0x6014
        || pid == 0x6015) {
        DeviceKind::Ftdi
    } else if vid == 0x067B && (pid == 0x2303 || pid == 0x23A3 || pid == 0x23C3 || pid == 0x23D3) {
        DeviceKind::Prolific
    } else if vid == 0x12D1 {
        DeviceKind::HiSilicon
    } else {
        DeviceKind::Unknown
    }
}

/// The display name of a device kind.
pub open spec fn device_name(k: DeviceKind) -> Seq<char> {
    match k {
        DeviceKind::Ch340 => "CH340/CH341"@,
        DeviceKind::Cp210x => "CP210x"@,
        DeviceKind::Ftdi => "FTDI"@,
        DeviceKind::Prolific => "PL2303"@,
        DeviceKind::HiSilicon => "HiSilicon"@,
        DeviceKind::Unknown => "Unknown"@,
    }
}

/// Whether a device kind is one of the known bridges.
pub open spec fn kind_known(k: DeviceKind) -> bool {
    k != DeviceKind::Unknown
}

/// Whether a device kind is preferred during auto-selection.
pub open spec fn kind_high_priority(k: DeviceKind) -> bool {
    k == DeviceKind::HiSilicon || k == DeviceKind::Ch340 || k == DeviceKind::Cp210x
}

impl DeviceKind {
    /// Classifies a USB vendor/product pair (see [`device_kind_of`]).
    pub fn from_vid_pid(vid: u16, pid: u16) -> (r: DeviceKind)
        ensures
            r == device_kind_of(vid, pid),
    {
        if vid == 0x1A86 && (pid == 0x7523 || pid == 0x7522 || pid == 0x5523 || pid == 0x5512
            || pid == 0x55D4) {
            DeviceKind::Ch340
        } else if vid == 0x10C4 && (pid == 0xEA60 || pid == 0xEA70 || pid == 0xEA71 || pid
            == 0xEA63) {
            DeviceKind::Cp210x
        } else if vid == 0x0403 && (pid == 0x6001 || pid == 0x6010 || pid == 0x6011 || pid
            == 0x6014 || pid == 0x6015) {
            DeviceKind::Ftdi
        } else if vid == 0x067B && (pid == 0x2303 || pid == 0x23A3 || pid == 0x23C3 || pid
            == 0x23D3) {
            DeviceKind::Prolific
        } else if vid == 0x12D1 {
            DeviceKind::HiSilicon
        } else {
            DeviceKind::Unknown
        }
    }

    /// A human-readable name for the device kind.
    pub fn name(&self) -> (r: &'static str)
        ensures
            r@ == device_name(*self),
    {
        match self {
            DeviceKind::Ch340 => "CH340/CH341",
            DeviceKind::Cp210x => "CP210x",
            DeviceKind::Ftdi => "FTDI",
            DeviceKind::Prolific => "PL2303",
            DeviceKind::HiSilicon => "HiSilicon",
            DeviceKind::Unknown => "Unknown",
        }
    }

    /// Whether this is a known device kind.
    pub fn is_known(&self) -> (r: bool)
        ensures
            r == kind_known(*self),
    {
        !matches!(self, DeviceKind::Unknown)
    }

    /// Whether this kind is preferred during auto-selection (HiSilicon,
    /// CH340, CP210x).
    pub fn is_high_priority(&self) -> (r: bool)
        ensures
            r == kind_high_priority(*self),
    {
        matches!(self, DeviceKind::HiSilicon | DeviceKind::Ch340 | DeviceKind::Cp210x)
    }
}

/// Discovered device endpoint information.
#[derive(Debug, Clone)]
pub struct DetectedPort {
    /// Endpoint name/path (e.g., "/dev/ttyUSB0" or "COM3").
    pub name: String,
    /// Transport type.
    pub transport: TransportKind,
    /// Classified device kind.
    pub device: DeviceKind,
    /// USB Vendor ID (if available).
    pub vid: Option<u16>,
    /// USB Product ID (if available).
    pub pid: Option<u16>,
    /// Device manufacturer string (if available).
    pub manufacturer: Option<String>,
    /// Device product string (if available).
    pub product: Option<String>,
    /// Serial number (if available).
    pub serial: Option<String>,
}

impl DetectedPort {
    /// Whether this endpoint is likely a HiSilicon development board: its
    /// device kind is known.
    pub fn is_likely_hisilicon(&self) -> (r: bool)
        ensures
            r == kind_known(self.device),
    {
        self.device.is_known()
    }

    /// An equal copy of this endpoint record.
    pub fn duplicate(&self) -> (r: DetectedPort)
        ensures
            r == *self,
    {
        DetectedPort {
            name: self.name.clone(),
            transport: self.transport,
            device: self.device,
            vid: self.vid,
            pid: self.pid,
            manufacturer: copy_text(&self.manufacturer),
            product: copy_text(&self.product),
            serial: copy_text(&self.serial),
        }
    }
}

fn copy_text(s: &Option<String>) -> (r: Option<String>)
    ensures
        r == *s,
{
    match s {
        Some(t) => Some(t.clone()),
        None => None,
    }
}

/// The index of the first port at or after `i` whose device satisfies `f`,
/// or -1.
pub open spec fn first_port_from(
    ports: Seq<DetectedPort>,
    f: spec_fn(DeviceKind) -> bool,
    i: int,
) -> int
    decreases ports.len() - i,
{
    if i < 0 || i >= ports.len() {
        -1
    } else if f(ports[i].device) {
        i
    } else {
        first_port_from(ports, f, i + 1)
    }
}

/// Which port auto-detection picks: the first HiSilicon device, else the
/// first high-priority bridge, else the first other known bridge; -1 when
/// no port is of a known device kind.
pub open spec fn auto_pick(ports: Seq<DetectedPort>) -> int {
    let a = first_port_from(ports, |k: DeviceKind| k == DeviceKind::HiSilicon, 0);
    let b = first_port_from(ports, |k: DeviceKind| kind_high_priority(k), 0);
    let c = first_port_from(ports, |k: DeviceKind| kind_known(k), 0);
    if a >= 0 {
        a
    } else if b >= 0 {
        b
    } else if c >= 0 {
        c
    } else {
        -1
    }
}

proof fn lemma_first_port_bounds(ports: Seq<DetectedPort>, f: spec_fn(DeviceKind) -> bool, i: int)
    requires
        0 <= i,
    ensures
        first_port_from(ports, f, i) == -1 || (i <= first_port_from(ports, f, i) < ports.len()),
        first_port_from(ports, f, i) >= 0 ==> f(ports[first_port_from(ports, f, i)].device),
        first_port_from(ports, f, i) == -1 ==> forall|j: int| i <= j < ports.len() ==> !f(#[trigger] ports[j].device),
    decreases ports.len() - i,
{
    if i < ports.len() && !f(ports[i].device) {
        lemma_first_port_bounds(ports, f, i + 1);
    }
}

/// Auto-detection picks a port of the list whose device kind is known,
/// and none only when no port is of a known kind.
pub proof fn lemma_auto_pick_bounds(ports: Seq<DetectedPort>)
    ensures
        auto_pick(ports) < ports.len(),
        auto_pick(ports) >= -1,
        auto_pick(ports) >= 0 ==> kind_known(ports[auto_pick(ports)].device),
        auto_pick(ports) == -1 <==> (forall|i: int| 0 <= i < ports.len() ==> !kind_known(#[trigger] ports[i].device)),
{
    lemma_first_port_bounds(ports, |k: DeviceKind| k == DeviceKind::HiSilicon, 0);
    lemma_first_port_bounds(ports, |k: DeviceKind| kind_high_priority(k), 0);
    lemma_first_port_bounds(ports, |k: DeviceKind| kind_known(k), 0);
    let known = |k: DeviceKind| kind_known(k);
    if first_port_from(ports, known, 0) == -1 {
        assert forall|i: int| 0 <= i < ports.len() implies !kind_known(#[trigger] ports[i].device) by {
            assert(!known(ports[i].device));
        }
    } else {
        assert(kind_known(ports[first_port_from(ports, known, 0)].device));
    }
}

fn find_kind(ports: &[DetectedPort], which: u8) -> (r: Option<usize>)
    requires
        which < 3,
    ensures
        ({
            let f = if which == 0 {
                |k: DeviceKind| k == DeviceKind::HiSilicon
            } else if which == 1 {
                |k: DeviceKind| kind_high_priority(k)
            } else {
                |k: DeviceKind| kind_known(k)
            };
            match r {
                Some(i) => first_port_from(ports@, f, 0) == i && i < ports@.len(),
                None => first_port_from(ports@, f, 0) == -1,
            }
        }),
{
    let ghost f = if which == 0 {
        |k: DeviceKind| k == DeviceKind::HiSilicon
    } else if which == 1 {
        |k: DeviceKind| kind_high_priority(k)
    } else {
        |k: DeviceKind| kind_known(k)
    };
    let mut i: usize = 0;
    while i < ports.len()
        invariant
            i <= ports@.len(),
            f == (if which == 0 {
                |k: DeviceKind| k == DeviceKind::HiSilicon
            } else if which == 1 {
                |k: DeviceKind| kind_high_priority(k)
            } else {
                |k: DeviceKind| kind_known(k)
            }),
            first_port_from(ports@, f, 0) == first_port_from(ports@, f, i as int),
        decreases ports@.len() - i,
    {
        let d = ports[i].device;
        let hit = if which == 0 {
            d == DeviceKind::HiSilicon
        } else if which == 1 {
            d.is_high_priority()
        } else {
            d.is_known()
        };
        if hit {
            return Some(i);
        }
        i = i + 1;
    }
    None
}

/// Picks the endpoint auto-detection would use (see [`auto_pick`]), or
/// `DeviceNotFound` when no endpoint is of a known device kind.
pub fn auto_detect_port(ports: &[DetectedPort]) -> (r: Result<DetectedPort, Error>)
    ensures
        auto_pick(ports@) >= 0 ==> r == Ok::<DetectedPort, Error>(ports@[auto_pick(ports@)]),
        auto_pick(ports@) < 0 ==> (r matches Err(Error::DeviceNotFound)),
{
    let idx = match find_kind(ports, 0) {
        Some(i) => i,
        None => match find_kind(ports, 1) {
            Some(i) => i,
            None => match find_kind(ports, 2) {
                Some(i) => i,
                None => {
                    return Err(Error::DeviceNotFound);
                },
            },
        },
    };
    Ok(ports[idx].duplicate())
}

/// The endpoints whose device kind is known, in order.
pub fn detect_hisilicon_ports(ports: &[DetectedPort]) -> (r: Vec<DetectedPort>)
    ensures
        r@ == ports@.filter(|p: DetectedPort| kind_known(p.device)),
{
    let ghost pred = |p: DetectedPort| kind_known(p.device);
    let mut r: Vec<DetectedPort> = Vec::new();
    let mut i: usize = 0;
    while i < ports.len()
        invariant
            i <= ports@.len(),
            pred == (|p: DetectedPort| kind_known(p.device)),
            r@ == ports@.subrange(0, i as int).filter(pred),
        decreases ports@.len() - i,
    {
        proof {
            reveal_with_fuel(Seq::<_>::filter, 1);
            assert(ports@.subrange(0, i + 1).drop_last() =~= ports@.subrange(0, i as int));
        }
        if ports[i].is_likely_hisilicon() {
            r.push(ports[i].duplicate());
        }
        i = i + 1;
    }
    assert(ports@.subrange(0, ports@.len() as int) =~= ports@);
    r
}

/// The index of the first port at or after `i` whose name contains
/// `pattern`, or -1.
pub open spec fn first_named_from(ports: Seq<DetectedPort>, pattern: Seq<char>, i: int) -> int
    decreases ports.len() - i,
{
    if i < 0 || i >= ports.len() {
        -1
    } else if text_contains(ports[i].name@, pattern) {
        i
    } else {
        first_named_from(ports, pattern, i + 1)
    }
}

/// The index that [`first_named_from`] finds lies in the list.
pub proof fn lemma_first_named_bounds(ports: Seq<DetectedPort>, pattern: Seq<char>, i: int)
    requires
        0 <= i,
    ensures
        first_named_from(ports, pattern, i) == -1 || (i <= first_named_from(ports, pattern, i)
            < ports.len()),
    decreases ports.len() - i,
{
    if i < ports.len() && !text_contains(ports[i].name@, pattern) {
        lemma_first_named_bounds(ports, pattern, i + 1);
    }
}

/// The first endpoint whose name contains `pattern` (as bytes), or
/// `DeviceNotFound`.
pub fn find_port_by_pattern(ports: &[DetectedPort], pattern: &str) -> (r: Result<DetectedPort, Error>)
    ensures
        first_named_from(ports@, pattern@, 0) >= 0 ==> r == Ok::<DetectedPort, Error>(
            ports@[first_named_from(ports@, pattern@, 0)],
        ),
        first_named_from(ports@, pattern@, 0) < 0 ==> (r matches Err(Error::DeviceNotFound)),
{
    let mut i: usize = 0;
    while i < ports.len()
        invariant
            i <= ports@.len(),
            first_named_from(ports@, pattern@, 0) == first_named_from(ports@, pattern@, i as int),
        decreases ports@.len() - i,
    {
        if str_contains(ports[i].name.as_str(), pattern) {
            return Ok(ports[i].duplicate());
        }
        i = i + 1;
    }
    Err(Error::DeviceNotFound)
}

/// The device part of a port's display line.
pub open spec fn device_info(p: DetectedPort) -> Seq<char> {
    if kind_known(p.device) {
        " ["@ + device_name(p.device) + "]"@
    } else {
        match (p.vid, p.pid) {
            (Some(vid), Some(pid)) => " [VID:"@ + hex_text(vid as nat, 4) + " PID:"@ + hex_text(
                pid as nat,
                4,
            ) + "]"@,
            _ => Seq::empty(),
        }
    }
}

/// The product part of a port's display line.
pub open spec fn product_info(p: DetectedPort) -> Seq<char> {
    match p.product {
        Some(s) => " - "@ + s@,
        None => Seq::empty(),
    }
}

/// The display line of a port: name, device information, product.
pub open spec fn port_line(p: DetectedPort) -> Seq<char> {
    p.name@ + device_info(p) + product_info(p)
}

fn format_port(p: &DetectedPort) -> (r: String)
    ensures
        r@ == port_line(*p),
{
    let mut s = String::new();
    s.append(p.name.as_str());
    if p.device.is_known() {
        s.append(" [");
        s.append(p.device.name());
        s.append("]");
    } else {
        match (p.vid, p.pid) {
            (Some(vid), Some(pid)) => {
                s.append(" [VID:");
                push_hex(&mut s, vid as u64, 4);
                s.append(" PID:");
                push_hex(&mut s, pid as u64, 4);
                s.append("]");
            },
            _ => {},
        }
    }
    match &p.product {
        Some(prod) => {
            s.append(" - ");
            s.append(prod.as_str());
        },
        None => {},
    }
    s
}

/// One display line per endpoint (see [`port_line`]).
pub fn format_port_list(ports: &[DetectedPort]) -> (r: Vec<String>)
    ensures
        r@.len() == ports@.len(),
        forall|i: int| 0 <= i < ports@.len() ==> #[trigger] r@[i]@ == port_line(ports@[i]),
{
    let mut r: Vec<String> = Vec::new();
    let mut i: usize = 0;
    while i < ports.len()
        invariant
            i <= ports@.len(),
            r@.len() == i,
            forall|j: int| 0 <= j < i ==> #[trigger] r@[j]@ == port_line(ports@[j]),
        decreases ports@.len() - i,
    {
        let line = format_port(&ports[i]);
        r.push(line);
        i = i + 1;
    }
    r
}

/// The display lines of the endpoints that were found.
pub fn list_ports_pretty(ports: &[DetectedPort]) -> (r: Vec<String>)
    ensures
        r@.len() == ports@.len(),
        forall|i: int| 0 <= i < ports@.len() ==> #[trigger] r@[i]@ == port_line(ports@[i]),
{
    format_port_list(ports)
}


/// The device kind of a port with the given USB ids; unknown without them.
pub open spec fn kind_of_ids(vid: Option<u16>, pid: Option<u16>) -> DeviceKind {
    match (vid, pid) {
        (Some(v), Some(p)) => device_kind_of(v, p),
        _ => DeviceKind::Unknown,
    }
}

/// The endpoint record of a listed serial port: a serial transport, its
/// strings, and its device kind classified by its USB ids.
pub open spec fn detected_of(p: PortInfo) -> DetectedPort {
    DetectedPort {
        name: p.name,
        transport: TransportKind::Serial,
        device: kind_of_ids(p.vid, p.pid),
        vid: p.vid,
        pid: p.pid,
        manufacturer: p.manufacturer,
        product: p.product,
        serial: p.serial_number,
    }
}

/// The endpoint records of listed serial ports, in order.
pub fn classify_ports(ports: Vec<PortInfo>) -> (r: Vec<DetectedPort>)
    ensures
        r@ == ports@.map_values(|p: PortInfo| detected_of(p)),
{
    let ghost orig = ports@;
    let mut rest = ports;
    let mut r: Vec<DetectedPort> = Vec::new();
    let ghost mut k: int = 0;
    while rest.len() > 0
        invariant
            0 <= k <= orig.len(),
            rest@ == orig.subrange(k, orig.len() as int),
            r@ == orig.subrange(0, k).map_values(|p: PortInfo| detected_of(p)),
        decreases rest@.len(),
    {
        let p = rest.remove(0);
        assert(p == orig[k]);
        let device = match (p.vid, p.pid) {
            (Some(v), Some(q)) => DeviceKind::from_vid_pid(v, q),
            _ => DeviceKind::Unknown,
        };
        r.push(
            DetectedPort {
                name: p.name,
                transport: TransportKind::Serial,
                device,
                vid: p.vid,
                pid: p.pid,
                manufacturer: p.manufacturer,
                product: p.product,
                serial: p.serial_number,
            },
        );
        proof {
            k = k + 1;
            assert(rest@ =~= orig.subrange(k, orig.len() as int));
            assert(r@ =~= orig.subrange(0, k).map_values(|p: PortInfo| detected_of(p)));
        }
    }
    assert(orig.subrange(0, orig.len() as int) =~= orig);
    r
}

/// Which bridge a USB device is goes by its vendor: vendor 0x1A86 is CH340
/// (for its bridge products 0x7523, 0x7522, 0x5523, 0x5512, 0x55D4),
/// 0x10C4 CP210x (0xEA60, 0xEA70, 0xEA71, 0xEA63), 0x0403 FTDI (0x6001,
/// 0x6010, 0x6011, 0x6014, 0x6015), 0x067B PL2303 (0x2303, 0x23A3, 0x23C3,
/// 0x23D3), and every product of 0x12D1 is a HiSilicon device; any other
/// device is unknown.
pub proof fn lemma_device_kind_by_vendor(vid: u16, pid: u16)
    ensures
        vid == 0x1A86 ==> device_kind_of(vid, pid) == (if pid == 0x7523 || pid == 0x7522 || pid == 0x5523 || pid
            == 0x5512 || pid == 0x55D4 { DeviceKind::Ch340 } else { DeviceKind::Unknown }),
        vid == 0x10C4 ==> device_kind_of(vid, pid) == (if pid == 0xEA60 || pid == 0xEA70 || pid == 0xEA71 || pid
            == 0xEA63 { DeviceKind::Cp210x } else { DeviceKind::Unknown }),
        vid == 0x0403 ==> device_kind_of(vid, pid) == (if pid == 0x6001 || pid == 0x6010 || pid == 0x6011 || pid
            == 0x6014 || pid == 0x6015 { DeviceKind::Ftdi } else { DeviceKind::Unknown }),
        vid == 0x067B ==> device_kind_of(vid, pid) == (if pid == 0x2303 || pid == 0x23A3 || pid == 0x23C3 || pid
            == 0x23D3 { DeviceKind::Prolific } else { DeviceKind::Unknown }),
        vid == 0x12D1 ==> device_kind_of(vid, pid) == DeviceKind::HiSilicon,
        vid != 0x1A86 && vid != 0x10C4 && vid != 0x0403 && vid != 0x067B && vid != 0x12D1 ==> device_kind_of(vid, pid)
            == DeviceKind::Unknown,
{
}

} // verus!
