//! What the command line front end decides: argument parsing of addresses
//! and `file:address` pairs, chip names, locale names, exit codes and labels.
use crate::chip::{family_of_name, ChipFamily};
use crate::config::Config;
use crate::error::Error;
use crate::fwpkg::PartitionType;
use crate::text::{ascii_lower_seq, hex_digit, hex_digit_lower, hex_text, hex_text_lower, pow16};
use vstd::prelude::*;
use vstd::std_specs::convert::FromSpecImpl;
use vstd::string::{StrSliceExecFns, StringSliceAdditionalSpecFns};

verus! {

/// Whether `c` is white space in Unicode's sense (what `char::is_whitespace`
/// and `str::trim` go by).
pub open spec fn is_ws(c: char) -> bool {
    let n = c as int;
    ||| 9 <= n <= 13
    ||| n == 32
    ||| n == 0x85
    ||| n == 0xA0
    ||| n == 0x1680
    ||| 0x2000 <= n <= 0x200A
    ||| n == 0x2028
    ||| n == 0x2029
    ||| n == 0x202F
    ||| n == 0x205F
    ||| n == 0x3000
}

fn is_ws_char(c: char) -> (r: bool)
    ensures
        r == is_ws(c),
{
    let n = c as u32;
    (9 <= n && n <= 13) || n == 32 || n == 0x85 || n == 0xA0 || n == 0x1680 || (0x2000 <= n && n <= 0x200A)
        || n == 0x2028 || n == 0x2029 || n == 0x202F || n == 0x205F || n == 0x3000
}

/// `s` without leading white space.
pub open spec fn trim_start(s: Seq<char>) -> Seq<char>
    decreases s.len(),
{
    if s.len() > 0 && is_ws(s[0]) {
        trim_start(s.drop_first())
    } else {
        s
    }
}

/// `s` without trailing white space.
pub open spec fn trim_end(s: Seq<char>) -> Seq<char>
    decreases s.len(),
{
    if s.len() > 0 && is_ws(s.last()) {
        trim_end(s.drop_last())
    } else {
        s
    }
}

/// `s` without leading and trailing white space.
pub open spec fn trim(s: Seq<char>) -> Seq<char> {
    trim_end(trim_start(s))
}

/// `s` with every leading repetition of the (non-empty) prefix `p` removed.
pub open spec fn strip_all(s: Seq<char>, p: Seq<char>) -> Seq<char>
    decreases s.len(),
{
    if p.len() > 0 && s.len() >= p.len() && s.subrange(0, p.len() as int) == p {
        strip_all(s.subrange(p.len() as int, s.len() as int), p)
    } else {
        s
    }
}

/// The value of a hexadecimal digit, if `c` is one.
pub open spec fn hex_value(c: char) -> Option<nat> {
    let n = c as int;
    if 48 <= n <= 57 {
        Some((n - 48) as nat)
    } else if 65 <= n <= 70 {
        Some((n - 55) as nat)
    } else if 97 <= n <= 102 {
        Some((n - 87) as nat)
    } else {
        None
    }
}

/// The number that the hexadecimal digits `s` stand for, if all of them
/// are digits.
pub open spec fn hex_number(s: Seq<char>) -> Option<nat>
    decreases s.len(),
{
    if s.len() == 0 {
        Some(0)
    } else {
        match (hex_number(s.drop_last()), hex_value(s.last())) {
            (Some(v), Some(d)) => Some(v * 16 + d),
            _ => None,
        }
    }
}

/// What std's `u32::from_str_radix(s, 16)` accepts: an optional `+`, then
/// at least one hexadecimal digit, of a value that fits in 32 bits.
pub open spec fn u32_from_hex(s: Seq<char>) -> Option<u32> {
    let digits = if s.len() > 0 && s[0] == '+' { s.drop_first() } else { s };
    if digits.len() == 0 {
        None
    } else {
        match hex_number(digits) {
            Some(v) => if v <= u32::MAX { Some(v as u32) } else { None },
            None => None,
        }
    }
}

/// The address that `parse_hex_u32` reads from `s`: white space trimmed,
/// leading "0x" and then "0X" prefixes removed, underscores dropped, the rest
/// read as hexadecimal.
pub open spec fn hex_address(s: Seq<char>) -> Option<u32> {
    let t = strip_all(strip_all(trim(s), seq!['0', 'x']), seq!['0', 'X']);
    u32_from_hex(address_digits(t))
}

/// The characters of `s` other than underscores.
pub open spec fn address_digits(s: Seq<char>) -> Seq<char> {
    s.filter(|c: char| c != '_')
}

fn chars_of(s: &str) -> (r: Vec<char>)
    ensures
        r@ == s@,
{
    let n = s.unicode_len();
    let mut out: Vec<char> = Vec::new();
    let mut i: usize = 0;
    while i < n
        invariant
            n == s@.len(),
            i <= n,
            out@ == s@.subrange(0, i as int),
        decreases n - i,
    {
        out.push(s.get_char(i));
        i = i + 1;
        assert(out@ =~= s@.subrange(0, i as int));
    }
    assert(s@.subrange(0, n as int) =~= s@);
    out
}

fn copy_range(s: &Vec<char>, lo: usize, hi: usize) -> (r: Vec<char>)
    requires
        lo <= hi <= s@.len(),
    ensures
        r@ == s@.subrange(lo as int, hi as int),
{
    let mut out: Vec<char> = Vec::new();
    let mut i = lo;
    while i < hi
        invariant
            lo <= i <= hi,
            hi <= s@.len(),
            out@ == s@.subrange(lo as int, i as int),
        decreases hi - i,
    {
        out.push(s[i]);
        i = i + 1;
        assert(out@ =~= s@.subrange(lo as int, i as int));
    }
    out
}

proof fn lemma_trim_start_skip(s: Seq<char>, i: int)
    requires
        0 <= i <= s.len(),
        forall|j: int| 0 <= j < i ==> is_ws(#[trigger] s[j]),
    ensures
        trim_start(s) == trim_start(s.subrange(i, s.len() as int)),
    decreases i,
{
    if i > 0 {
        assert(s.drop_first() =~= s.subrange(1, s.len() as int));
        lemma_trim_start_skip(s.drop_first(), i - 1);
        assert(s.drop_first().subrange(i - 1, s.drop_first().len() as int) =~= s.subrange(i, s.len() as int));
    } else {
        assert(s.subrange(0, s.len() as int) =~= s);
    }
}

proof fn lemma_trim_end_skip(s: Seq<char>, k: int)
    requires
        0 <= k <= s.len(),
        forall|j: int| k <= j < s.len() ==> is_ws(#[trigger] s[j]),
    ensures
        trim_end(s) == trim_end(s.subrange(0, k)),
    decreases s.len() - k,
{
    if k < s.len() {
        assert(s.drop_last() =~= s.subrange(0, s.len() - 1));
        lemma_trim_end_skip(s.drop_last(), k);
        assert(s.drop_last().subrange(0, k) =~= s.subrange(0, k));
    } else {
        assert(s.subrange(0, k) =~= s);
    }
}

fn trimmed(s: &Vec<char>) -> (r: Vec<char>)
    ensures
        r@ == trim(s@),
{
    let n = s.len();
    let mut i: usize = 0;
    while i < n && is_ws_char(s[i])
        invariant
            n == s@.len(),
            i <= n,
            forall|j: int| 0 <= j < i ==> is_ws(#[trigger] s@[j]),
        decreases n - i,
    {
        i = i + 1;
    }
    proof {
        lemma_trim_start_skip(s@, i as int);
    }
    let ghost t = s@.subrange(i as int, n as int);
    assert(t.len() == 0 || !is_ws(t[0]));
    assert(trim_start(t) == t);
    let mut k: usize = n;
    while k > i && is_ws_char(s[k - 1])
        invariant
            n == s@.len(),
            i <= k <= n,
            forall|j: int| k <= j < n ==> is_ws(#[trigger] s@[j]),
        decreases k,
    {
        k = k - 1;
    }
    proof {
        lemma_trim_end_skip(t, k - i);
        assert(t.subrange(0, k - i) =~= s@.subrange(i as int, k as int));
        let u = s@.subrange(i as int, k as int);
        assert(u.len() == 0 || !is_ws(u.last()));
    }
    copy_range(s, i, k)
}

fn starts_with2(s: &Vec<char>, at: usize, a: char, b: char) -> (r: bool)
    requires
        at <= s@.len(),
    ensures
        r == (s@.len() >= at + 2 && s@.subrange(at as int, at + 2) == seq![a, b]),
{
    if s.len() - at >= 2 {
        let r = s[at] == a && s[at + 1] == b;
        assert(r == (s@.subrange(at as int, at + 2) =~= seq![a, b]));
        r
    } else {
        false
    }
}

fn stripped(s: &Vec<char>, a: char, b: char) -> (r: Vec<char>)
    ensures
        r@ == strip_all(s@, seq![a, b]),
{
    let ghost p = seq![a, b];
    let n = s.len();
    let mut i: usize = 0;
    assert(s@.subrange(0, n as int) =~= s@);
    while starts_with2(s, i, a, b)
        invariant
            i <= s@.len(),
            n == s@.len(),
            p == seq![a, b],
            strip_all(s@, p) == strip_all(s@.subrange(i as int, n as int), p),
        decreases s@.len() - i,
    {
        let ghost t = s@.subrange(i as int, n as int);
        assert(t.subrange(0, 2) =~= s@.subrange(i as int, i + 2));
        assert(t.subrange(2, t.len() as int) =~= s@.subrange(i + 2, n as int));
        i = i + 2;
    }
    let ghost t = s@.subrange(i as int, n as int);
    assert(t.len() >= 2 ==> t.subrange(0, 2) =~= s@.subrange(i as int, i + 2));
    copy_range(s, i, n)
}

fn without_underscores(s: &Vec<char>) -> (r: Vec<char>)
    ensures
        r@ == s@.filter(|c: char| c != '_'),
{
    let ghost pred = |c: char| c != '_';
    let mut out: Vec<char> = Vec::new();
    let mut i: usize = 0;
    while i < s.len()
        invariant
            i <= s@.len(),
            pred == (|c: char| c != '_'),
            out@ == s@.subrange(0, i as int).filter(pred),
        decreases s@.len() - i,
    {
        proof {
            reveal_with_fuel(Seq::<_>::filter, 1);
            assert(s@.subrange(0, i + 1).drop_last() =~= s@.subrange(0, i as int));
        }
        if s[i] != '_' {
            out.push(s[i]);
        }
        i = i + 1;
    }
    assert(s@.subrange(0, s@.len() as int) =~= s@);
    out
}

fn hex_digit_value(c: char) -> (r: Option<u32>)
    ensures
        match hex_value(c) {
            Some(d) => r == Some(d as u32),
            None => r is None,
        },
{
    let n = c as u32;
    if 48 <= n && n <= 57 {
        Some(n - 48)
    } else if 65 <= n && n <= 70 {
        Some(n - 55)
    } else if 97 <= n && n <= 102 {
        Some(n - 87)
    } else {
        None
    }
}

proof fn lemma_hex_number_grows(s: Seq<char>, i: int)
    requires
        0 <= i <= s.len(),
        hex_number(s) is Some,
    ensures
        hex_number(s.subrange(0, i)) is Some,
        hex_number(s.subrange(0, i))->0 <= hex_number(s)->0,
    decreases s.len() - i,
{
    if i < s.len() {
        assert(s.drop_last() =~= s.subrange(0, s.len() - 1));
        lemma_hex_number_grows(s.drop_last(), i);
        assert(s.drop_last().subrange(0, i) =~= s.subrange(0, i));
    } else {
        assert(s.subrange(0, i) =~= s);
    }
}

/// Which way reading an address failed (as std's `ParseIntError` says).
pub enum HexError {
    /// Nothing to read.
    Empty,
    /// A character that is no hexadecimal digit.
    InvalidDigit,
    /// The value does not fit in 32 bits.
    Overflow,
}

fn read_hex(s: &Vec<char>) -> (r: Result<u32, HexError>)
    ensures
        r is Ok <==> u32_from_hex(s@) is Some,
        r matches Ok(v) ==> u32_from_hex(s@) == Some(v),
{
    let ghost digits = if s@.len() > 0 && s@[0] == '+' { s@.drop_first() } else { s@ };
    let start: usize = if s.len() > 0 && s[0] == '+' { 1 } else { 0 };
    assert(digits =~= s@.subrange(start as int, s@.len() as int));
    if start == 1 && s.len() == 1 {
        return Err(HexError::InvalidDigit);
    }
    if s.len() == 0 {
        return Err(HexError::Empty);
    }
    let mut v: u64 = 0;
    let mut i: usize = start;
    while i < s.len()
        invariant
            start <= i <= s@.len(),
            digits == s@.subrange(start as int, s@.len() as int),
            digits == (if s@.len() > 0 && s@[0] == '+' { s@.drop_first() } else { s@ }),
            hex_number(digits.subrange(0, i - start)) == Some(v as nat),
            v <= u32::MAX,
        decreases s@.len() - i,
    {
        assert(digits.subrange(0, i + 1 - start).drop_last() =~= digits.subrange(0, i - start));
        assert(digits.subrange(0, i + 1 - start).last() == s@[i as int]);
        match hex_digit_value(s[i]) {
            Some(d) => {
                let w = v * 16 + d as u64;
                assert(hex_number(digits.subrange(0, i + 1 - start)) == Some(w as nat));
                if w > 0xFFFF_FFFF {
                    proof {
                        if hex_number(digits) is Some {
                            lemma_hex_number_grows(digits, i + 1 - start);
                        }
                    }
                    return Err(HexError::Overflow);
                }
                v = w;
            },
            None => {
                assert(hex_number(digits.subrange(0, i + 1 - start)) is None);
                proof {
                    if hex_number(digits) is Some {
                        lemma_hex_number_grows(digits, i + 1 - start);
                    }
                }
                return Err(HexError::InvalidDigit);
            },
        }
        i = i + 1;
    }
    assert(digits.subrange(0, i - start) =~= digits);
    Ok(v as u32)
}

/// Parses a hexadecimal address: surrounding white space is ignored, as are
/// leading "0x" and then "0X" prefixes and underscores anywhere.
pub fn parse_hex_u32(s: &str) -> (r: Result<u32, String>)
    ensures
        r is Ok <==> hex_address(s@) is Some,
        r matches Ok(v) ==> hex_address(s@) == Some(v),
{
    let chars = chars_of(s);
    let t = trimmed(&chars);
    let t1 = stripped(&t, '0', 'x');
    let t2 = stripped(&t1, '0', 'X');
    let t3 = without_underscores(&t2);
    match read_hex(&t3) {
        Ok(v) => Ok(v),
        Err(e) => {
            let mut msg = String::from_str("Invalid hex address: ");
            match e {
                HexError::Empty => msg.append("cannot parse integer from empty string"),
                HexError::InvalidDigit => msg.append("invalid digit found in string"),
                HexError::Overflow => msg.append("number too large to fit in target type"),
            }
            Err(msg)
        },
    }
}

/// Whether `c` may stand in the digits of an address: a hexadecimal digit
/// of either case, or an underscore.
pub open spec fn address_char(c: char) -> bool {
    c == '_' || hex_value(c) is Some
}

proof fn lemma_hex_digit_value(d: nat)
    requires
        d < 16,
    ensures
        hex_value(hex_digit(d as int)) == Some(d),
        hex_value(hex_digit_lower(d as int)) == Some(d),
{
}

/// The `width` lowest hexadecimal digits of `v` (zero padded), in lower
/// or upper case.
pub open spec fn hex_text_case(v: nat, width: nat, lower: bool) -> Seq<char> {
    if lower {
        hex_text_lower(v, width)
    } else {
        hex_text(v, width)
    }
}

proof fn lemma_hex_text_digits(v: nat, width: nat, lower: bool)
    requires
        v < pow16(width),
    ensures
        hex_text_case(v, width, lower).len() == width,
        hex_number(hex_text_case(v, width, lower)) == Some(v),
        forall|i: int| 0 <= i < width ==> hex_value(#[trigger] hex_text_case(v, width, lower)[i]) is Some,
    decreases width,
{
    let t = hex_text_case(v, width, lower);
    if width > 0 {
        let w1 = (width - 1) as nat;
        assert(v / 16 < pow16(w1));
        lemma_hex_text_digits(v / 16, w1, lower);
        let d = v % 16;
        lemma_hex_digit_value(d);
        let t1 = hex_text_case(v / 16, w1, lower);
        let c = t.last();
        if lower {
            assert(t == t1.push(hex_digit_lower(d as int)));
        } else {
            assert(t == t1.push(hex_digit(d as int)));
        }
        assert(hex_value(c) == Some(d));
        assert(t.drop_last() =~= t1);
        assert(v == (v / 16) * 16 + d);
        assert forall|i: int| 0 <= i < width implies hex_value(#[trigger] t[i]) is Some by {
            if i < width - 1 {
                assert(t[i] == t1[i]);
            }
        }
    } else {
        assert(v == 0);
        assert(t =~= Seq::<char>::empty());
    }
}

proof fn lemma_filter_keeps_all(s: Seq<char>)
    requires
        forall|i: int| 0 <= i < s.len() ==> s[i] != '_',
    ensures
        address_digits(s) == s,
    decreases s.len(),
{
    reveal_with_fuel(Seq::<_>::filter, 1);
    if s.len() > 0 {
        lemma_filter_keeps_all(s.drop_last());
        assert(s.drop_last().push(s.last()) =~= s);
    } else {
        assert(address_digits(s) =~= s);
    }
}

proof fn lemma_filtered_digits(s: Seq<char>)
    requires
        forall|i: int| 0 <= i < s.len() ==> address_char(#[trigger] s[i]),
    ensures
        forall|i: int| 0 <= i < address_digits(s).len() ==> hex_value(
            #[trigger] address_digits(s)[i],
        ) is Some,
        hex_number(address_digits(s)) is Some,
        (exists|i: int| 0 <= i < s.len() && s[i] != '_') ==> address_digits(s).len() > 0,
    decreases s.len(),
{
    reveal_with_fuel(Seq::<_>::filter, 1);
    let f = address_digits(s);
    if s.len() > 0 {
        let r = s.drop_last();
        assert forall|i: int| 0 <= i < r.len() implies address_char(#[trigger] r[i]) by {
            assert(r[i] == s[i]);
        }
        lemma_filtered_digits(r);
        let fr = address_digits(r);
        if s.last() != '_' {
            assert(f == fr.push(s.last()));
            assert(f.drop_last() =~= fr);
            assert forall|i: int| 0 <= i < f.len() implies hex_value(#[trigger] f[i]) is Some by {
                if i < fr.len() {
                    assert(f[i] == fr[i]);
                }
            }
        } else {
            assert(f == fr);
            if exists|i: int| 0 <= i < s.len() && s[i] != '_' {
                let i = choose|i: int| 0 <= i < s.len() && s[i] != '_';
                assert(r[i] == s[i]);
            }
        }
    } else {
        assert(f =~= Seq::<char>::empty());
    }
}

proof fn lemma_trim_around(lead: Seq<char>, t: Seq<char>, trail: Seq<char>)
    requires
        forall|i: int| 0 <= i < lead.len() ==> is_ws(#[trigger] lead[i]),
        forall|i: int| 0 <= i < trail.len() ==> is_ws(#[trigger] trail[i]),
        t.len() > 0,
        !is_ws(t[0]),
        !is_ws(t.last()),
    ensures
        trim_start(lead + t + trail) == t + trail,
        trim_end(t + trail) == t,
    decreases lead.len() + trail.len(),
{
    if lead.len() > 0 {
        let l1 = lead.drop_first();
        assert forall|i: int| 0 <= i < l1.len() implies is_ws(#[trigger] l1[i]) by {
            assert(l1[i] == lead[i + 1]);
        }
        lemma_trim_around(l1, t, trail);
        assert((lead + t + trail).drop_first() =~= l1 + t + trail);
        assert((lead + t + trail)[0] == lead[0]);
    } else {
        assert(lead + t + trail =~= t + trail);
        assert((t + trail)[0] == t[0]);
        if trail.len() > 0 {
            let tr1 = trail.drop_last();
            assert forall|i: int| 0 <= i < tr1.len() implies is_ws(#[trigger] tr1[i]) by {
                assert(tr1[i] == trail[i]);
            }
            lemma_trim_around(lead, t, tr1);
            assert((t + trail).drop_last() =~= t + tr1);
            assert((t + trail).last() == trail.last());
        } else {
            assert(t + trail =~= t);
        }
    }
}

proof fn lemma_strip_prefix(prefix: Seq<char>, body: Seq<char>)
    requires
        prefix == Seq::<char>::empty() || prefix == seq!['0', 'x'] || prefix == seq!['0', 'X'],
        forall|i: int| 0 <= i < body.len() ==> address_char(#[trigger] body[i]),
    ensures
        strip_all(strip_all(prefix + body, seq!['0', 'x']), seq!['0', 'X']) == body,
{
    let t = prefix + body;
    assert(strip_all(body, seq!['0', 'x']) == body) by {
        if body.len() >= 2 && body.subrange(0, 2) == seq!['0', 'x'] {
            assert(body.subrange(0, 2)[1] == body[1]);
            assert(address_char(body[1]));
        }
    }
    assert(strip_all(body, seq!['0', 'X']) == body) by {
        if body.len() >= 2 && body.subrange(0, 2) == seq!['0', 'X'] {
            assert(body.subrange(0, 2)[1] == body[1]);
            assert(address_char(body[1]));
        }
    }
    if prefix.len() > 0 {
        assert(t.subrange(0, 2) =~= prefix);
        assert(t.subrange(2, t.len() as int) =~= body);
        if prefix == seq!['0', 'x'] {
            assert(strip_all(t, seq!['0', 'x']) == body);
        } else {
            assert(t.subrange(0, 2)[1] == 'X');
            assert(strip_all(t, seq!['0', 'x']) == t);
            assert(strip_all(t, seq!['0', 'X']) == body);
        }
    } else {
        assert(t =~= body);
    }
}

/// What [`parse_hex_u32`] reads from an address in any of the forms it
/// takes: white space around it, an optional "0x" or "0X", then hexadecimal
/// digits of either case with underscores anywhere among them (at least one
/// digit). It reads the value of the digits, and nothing (an error) when
/// that value does not fit in 32 bits.
pub proof fn lemma_hex_address_forms(lead: Seq<char>, prefix: Seq<char>, body: Seq<char>, trail: Seq<char>)
    requires
        forall|i: int| 0 <= i < lead.len() ==> is_ws(#[trigger] lead[i]),
        forall|i: int| 0 <= i < trail.len() ==> is_ws(#[trigger] trail[i]),
        prefix == Seq::<char>::empty() || prefix == seq!['0', 'x'] || prefix == seq!['0', 'X'],
        forall|i: int| 0 <= i < body.len() ==> address_char(#[trigger] body[i]),
        exists|i: int| 0 <= i < body.len() && body[i] != '_',
    ensures
        hex_number(address_digits(body)) is Some,
        hex_address(lead + prefix + body + trail) == (if hex_number(address_digits(body))->0 <= u32::MAX {
            Some(hex_number(address_digits(body))->0 as u32)
        } else {
            None::<u32>
        }),
{
    lemma_filtered_digits(body);
    let t = prefix + body;
    assert(body.len() > 0);
    assert(address_char(body[0]));
    assert(address_char(body.last()));
    assert(t[0] == if prefix.len() > 0 { '0' } else { body[0] });
    assert(t.last() == body.last());
    lemma_trim_around(lead, t, trail);
    assert(lead + prefix + body + trail =~= lead + t + trail);
    assert(trim(lead + t + trail) == t);
    lemma_strip_prefix(prefix, body);
    let d = address_digits(body);
    assert(d.len() > 0);
    assert(hex_value(d[0]) is Some);
    assert(d[0] != '+');
}

/// An address printed as hexadecimal digits of either case, zero padded to
/// any width that shows it (as "0x{:08X}" and "{:08x}" print it, or
/// unpadded as "{:X}" does), after "0x", "0X" or nothing, is read back by
/// [`parse_hex_u32`] as the same address.
pub proof fn lemma_hex_address_round_trip(v: u32, width: nat, lower: bool, prefix: Seq<char>)
    requires
        1 <= width,
        v < pow16(width),
        prefix == Seq::<char>::empty() || prefix == seq!['0', 'x'] || prefix == seq!['0', 'X'],
    ensures
        hex_address(prefix + hex_text_case(v as nat, width, lower)) == Some(v),
{
    let h = hex_text_case(v as nat, width, lower);
    lemma_hex_text_digits(v as nat, width, lower);
    assert forall|i: int| 0 <= i < h.len() implies address_char(#[trigger] h[i]) by {
        assert(hex_value(h[i]) is Some);
    }
    assert forall|i: int| 0 <= i < h.len() implies h[i] != '_' by {
        assert(hex_value(h[i]) is Some);
    }
    assert(hex_value(h[0]) is Some);
    lemma_filter_keeps_all(h);
    let e = Seq::<char>::empty();
    lemma_hex_address_forms(e, prefix, h, e);
    assert(e + prefix + h + e =~= prefix + h);
}

/// The position of the last ':' in `s`, or -1.
pub open spec fn last_colon(s: Seq<char>) -> int
    decreases s.len(),
{
    if s.len() == 0 {
        -1
    } else if s.last() == ':' {
        s.len() - 1
    } else {
        last_colon(s.drop_last())
    }
}

/// What `parse_bin_arg` reads from `file:address`: the text before the last
/// ':' and the address after it, both non-empty.
pub open spec fn bin_arg(s: Seq<char>) -> Option<(Seq<char>, u32)> {
    let i = last_colon(s);
    if i < 0 || i == 0 || i == s.len() - 1 {
        None
    } else {
        match hex_address(s.subrange(i + 1, s.len() as int)) {
            Some(a) => Some((s.subrange(0, i), a)),
            None => None,
        }
    }
}

proof fn lemma_last_colon(s: Seq<char>)
    ensures
        -1 <= last_colon(s) < s.len(),
        last_colon(s) >= 0 ==> s[last_colon(s)] == ':',
        forall|j: int| last_colon(s) < j < s.len() ==> s[j] != ':',
    decreases s.len(),
{
    if s.len() > 0 && s.last() != ':' {
        lemma_last_colon(s.drop_last());
        assert forall|j: int| last_colon(s) < j < s.len() implies s[j] != ':' by {
            if j < s.len() - 1 {
                assert(s.drop_last()[j] == s[j]);
            }
        }
    }
}

fn string_of(chars: &Vec<char>) -> (r: String)
    ensures
        r@ == chars@,
{
    let mut out = String::new();
    let mut i: usize = 0;
    while i < chars.len()
        invariant
            i <= chars@.len(),
            out@ == chars@.subrange(0, i as int),
        decreases chars@.len() - i,
    {
        out.push(chars[i]);
        i = i + 1;
        assert(out@ =~= chars@.subrange(0, i as int));
    }
    assert(chars@.subrange(0, chars@.len() as int) =~= chars@);
    out
}

/// Parses a `file:address` argument (the address after the last ':').
pub fn parse_bin_arg(s: &str) -> (r: Result<(String, u32), String>)
    ensures
        r is Ok <==> bin_arg(s@) is Some,
        r matches Ok((path, addr)) ==> bin_arg(s@) == Some((path@, addr)),
{
    let chars = chars_of(s);
    let n = chars.len();
    let mut i: usize = n;
    while i > 0 && chars[i - 1] != ':'
        invariant
            i <= n,
            n == chars@.len(),
            forall|j: int| i <= j < n ==> chars@[j] != ':',
        decreases i,
    {
        i = i - 1;
    }
    proof {
        lemma_last_colon(chars@);
    }
    let mut msg = String::from_str("Invalid format: '");
    msg.append(s);
    msg.append("'. Expected 'file:address' (e.g., 'firmware.bin:0x00800000')");
    if i == 0 {
        proof {
            if last_colon(s@) >= 0 {
                assert(s@[last_colon(s@)] == ':');
            }
        }
        return Err(msg);
    }
    let colon = i - 1;
    assert(last_colon(s@) == colon as int) by {
        lemma_last_colon(s@);
        if last_colon(s@) > colon {
            assert(s@[last_colon(s@)] == ':');
        }
        if last_colon(s@) < colon {
            assert(s@[colon as int] == ':');
        }
    }
    if colon == 0 || colon + 1 == n {
        return Err(msg);
    }
    let path = copy_range(&chars, 0, colon);
    let addr = copy_range(&chars, colon + 1, n);
    let addr_text = string_of(&addr);
    match parse_hex_u32(addr_text.as_str()) {
        Ok(a) => Ok((string_of(&path), a)),
        Err(e) => Err(e),
    }
}

/// The locales the messages are translated into.
pub open spec fn supported_locale(l: Seq<char>) -> bool {
    l == seq!['e', 'n'] || l == seq!['z', 'h', '-', 'C', 'N']
}

/// The text before the first occurrence of `sep` (all of `s` without one).
pub open spec fn before_first(s: Seq<char>, sep: char) -> Seq<char>
    decreases s.len(),
{
    if s.len() == 0 {
        s
    } else if s[0] == sep {
        Seq::empty()
    } else {
        seq![s[0]] + before_first(s.drop_first(), sep)
    }
}

/// ASCII lower case of one character.
pub open spec fn lower_char(c: char) -> char {
    if 'A' <= c <= 'Z' {
        ((c as int) + 32) as char
    } else {
        c
    }
}

/// The locale that messages use for a system locale such as "zh_CN.UTF-8":
/// the part before any '.', with '_' read as '-'; kept if supported, else
/// "zh-CN" for any Chinese and "en" for everything else.
pub open spec fn locale_for(system: Seq<char>) -> Seq<char> {
    let l = before_first(system, '.').map_values(|c: char| if c == '_' { '-' } else { c });
    if supported_locale(l) {
        l
    } else if before_first(l, '-').map_values(|c: char| lower_char(c)) == seq!['z', 'h'] {
        seq!['z', 'h', '-', 'C', 'N']
    } else {
        seq!['e', 'n']
    }
}

proof fn lemma_before_first(s: Seq<char>, sep: char, i: int)
    requires
        0 <= i <= s.len(),
        forall|j: int| 0 <= j < i ==> s[j] != sep,
        i == s.len() || s[i] == sep,
    ensures
        before_first(s, sep) == s.subrange(0, i),
    decreases i,
{
    if i > 0 {
        lemma_before_first(s.drop_first(), sep, i - 1);
        assert(seq![s[0]] + s.drop_first().subrange(0, i - 1) =~= s.subrange(0, i));
    } else {
        if s.len() > 0 {
            assert(s[0] == sep);
        }
        assert(s.subrange(0, 0) =~= Seq::<char>::empty());
    }
}

fn prefix_before(s: &Vec<char>, sep: char) -> (r: Vec<char>)
    ensures
        r@ == before_first(s@, sep),
{
    let mut i: usize = 0;
    while i < s.len() && s[i] != sep
        invariant
            i <= s@.len(),
            forall|j: int| 0 <= j < i ==> s@[j] != sep,
        decreases s@.len() - i,
    {
        i = i + 1;
    }
    proof {
        lemma_before_first(s@, sep, i as int);
    }
    copy_range(s, 0, i)
}

fn chars_equal(a: &Vec<char>, b: &[char]) -> (r: bool)
    ensures
        r == (a@ == b@),
{
    if a.len() != b.len() {
        return false;
    }
    let mut i: usize = 0;
    while i < a.len()
        invariant
            i <= a@.len(),
            a@.len() == b@.len(),
            forall|j: int| 0 <= j < i ==> a@[j] == b@[j],
        decreases a@.len() - i,
    {
        if a[i] != b[i] {
            return false;
        }
        i = i + 1;
    }
    assert(a@ =~= b@);
    true
}

/// The locale that messages use for the system locale `locale`.
pub fn match_locale(locale: &str) -> (r: String)
    ensures
        r@ == locale_for(locale@),
{
    let chars = chars_of(locale);
    let head = prefix_before(&chars, '.');
    let mut l: Vec<char> = Vec::new();
    let mut i: usize = 0;
    while i < head.len()
        invariant
            i <= head@.len(),
            l@ == head@.subrange(0, i as int).map_values(|c: char| if c == '_' { '-' } else { c }),
        decreases head@.len() - i,
    {
        let c = head[i];
        l.push(if c == '_' { '-' } else { c });
        i = i + 1;
        assert(l@ =~= head@.subrange(0, i as int).map_values(|c: char| if c == '_' { '-' } else { c }));
    }
    assert(head@.subrange(0, head@.len() as int) =~= head@);
    let en: [char; 2] = ['e', 'n'];
    let zh_cn: [char; 5] = ['z', 'h', '-', 'C', 'N'];
    let zh: [char; 2] = ['z', 'h'];
    assert(en@ =~= seq!['e', 'n']);
    assert(zh_cn@ =~= seq!['z', 'h', '-', 'C', 'N']);
    assert(zh@ =~= seq!['z', 'h']);
    if chars_equal(&l, en.as_slice()) || chars_equal(&l, zh_cn.as_slice()) {
        return string_of(&l);
    }
    let lang = prefix_before(&l, '-');
    let mut lower: Vec<char> = Vec::new();
    let mut k: usize = 0;
    while k < lang.len()
        invariant
            k <= lang@.len(),
            lower@ == lang@.subrange(0, k as int).map_values(|c: char| lower_char(c)),
        decreases lang@.len() - k,
    {
        let c = lang[k];
        let lc = if 'A' <= c && c <= 'Z' { ((c as u32) + 32) as u8 as char } else { c };
        assert(lc == lower_char(c)) by {
            if 'A' <= c && c <= 'Z' {
                assert((c as u32 + 32) < 128);
            }
        }
        lower.push(lc);
        k = k + 1;
        assert(lower@ =~= lang@.subrange(0, k as int).map_values(|c: char| lower_char(c)));
    }
    assert(lang@.subrange(0, lang@.len() as int) =~= lang@);
    proof {
        reveal_strlit("zh-CN");
        reveal_strlit("en");
    }
    if chars_equal(&lower, zh.as_slice()) {
        String::from_str("zh-CN")
    } else {
        String::from_str("en")
    }
}

/// The label of a partition type in listings.
pub open spec fn partition_label(pt: PartitionType) -> Seq<char> {
    match pt {
        PartitionType::Loader => "Loader"@,
        PartitionType::Normal => "Normal"@,
        PartitionType::KvNv => "KV-NV"@,
        PartitionType::Efuse => "eFuse"@,
        PartitionType::Otp => "OTP"@,
        PartitionType::Flashboot => "FlashBoot"@,
        PartitionType::Factory => "Factory"@,
        PartitionType::Version => "Version"@,
        PartitionType::SecurityA => "Security-A"@,
        PartitionType::SecurityB => "Security-B"@,
        PartitionType::SecurityC => "Security-C"@,
        PartitionType::ProtocolA => "Protocol-A"@,
        PartitionType::AppsA => "Apps-A"@,
        PartitionType::RadioConfig => "RadioConfig"@,
        PartitionType::Rom => "ROM"@,
        PartitionType::Emmc => "eMMC"@,
        PartitionType::Database => "Database"@,
        PartitionType::Unknown(_) => "Unknown"@,
    }
}

/// The label of a partition type in listings.
pub fn partition_type_str(pt: PartitionType) -> (r: &'static str)
    ensures
        r@ == partition_label(pt),
{
    match pt {
        PartitionType::Loader => "Loader",
        PartitionType::Normal => "Normal",
        PartitionType::KvNv => "KV-NV",
        PartitionType::Efuse => "eFuse",
        PartitionType::Otp => "OTP",
        PartitionType::Flashboot => "FlashBoot",
        PartitionType::Factory => "Factory",
        PartitionType::Version => "Version",
        PartitionType::SecurityA => "Security-A",
        PartitionType::SecurityB => "Security-B",
        PartitionType::SecurityC => "Security-C",
        PartitionType::ProtocolA => "Protocol-A",
        PartitionType::AppsA => "Apps-A",
        PartitionType::RadioConfig => "RadioConfig",
        PartitionType::Rom => "ROM",
        PartitionType::Emmc => "eMMC",
        PartitionType::Database => "Database",
        PartitionType::Unknown(_) => "Unknown",
    }
}

/// Chip types the command line accepts.
#[derive(Debug, Clone, Copy, PartialEq, Eq, Structural)]
pub enum Chip {
    /// WS63 chip (WiFi + BLE, default).
    Ws63,
    /// BS2X series (BS21, BLE only).
    Bs2x,
    /// BS25 (BLE with enhanced features).
    Bs25,
}

/// The chip family of a chip type.
pub open spec fn chip_family(chip: Chip) -> ChipFamily {
    match chip {
        Chip::Ws63 => ChipFamily::Ws63,
        Chip::Bs2x => ChipFamily::Bs2x,
        Chip::Bs25 => ChipFamily::Bs25,
    }
}

impl From<Chip> for ChipFamily {
    fn from(chip: Chip) -> (r: ChipFamily) {
        match chip {
            Chip::Ws63 => ChipFamily::Ws63,
            Chip::Bs2x => ChipFamily::Bs2x,
            Chip::Bs25 => ChipFamily::Bs25,
        }
    }
}

impl FromSpecImpl<Chip> for ChipFamily {
    open spec fn obeys_from_spec() -> bool {
        true
    }

    open spec fn from_spec(chip: Chip) -> ChipFamily {
        chip_family(chip)
    }
}

impl Chip {
    /// The chip type a configuration file names, for the families the
    /// command line can flash.
    pub fn from_config_name(name: &str) -> (r: Option<Chip>)
        ensures
            r == match family_of_name(ascii_lower_seq(name.spec_bytes())) {
                Some(ChipFamily::Ws63) => Some(Chip::Ws63),
                Some(ChipFamily::Bs2x) => Some(Chip::Bs2x),
                Some(ChipFamily::Bs25) => Some(Chip::Bs25),
                _ => None::<Chip>,
            },
    {
        match ChipFamily::from_name(name) {
            Some(ChipFamily::Ws63) => Some(Chip::Ws63),
            Some(ChipFamily::Bs2x) => Some(Chip::Bs2x),
            Some(ChipFamily::Bs25) => Some(Chip::Bs25),
            _ => None,
        }
    }
}

/// Errors of the command line front end, each with its exit code.
#[derive(Debug)]
pub enum CliError {
    /// Wrong usage (exit code 2).
    Usage(String),
    /// A bad configuration (exit code 3).
    Config(String),
    /// The user cancelled (exit code 130).
    Cancelled(String),
}

impl CliError {
    /// The process exit code for this error.
    pub fn exit_code(&self) -> (r: i32)
        ensures
            r == match *self {
                CliError::Usage(_) => 2i32,
                CliError::Config(_) => 3i32,
                CliError::Cancelled(_) => 130i32,
            },
    {
        match self {
            CliError::Usage(_) => 2,
            CliError::Config(_) => 3,
            CliError::Cancelled(_) => 130,
        }
    }
}

/// The process exit code for a library error: 4 when no device was found,
/// 3 for configuration errors, 5 for unsupported operations, else 1.
pub fn library_exit_code(e: &Error) -> (r: i32)
    ensures
        r == match *e {
            Error::DeviceNotFound => 4i32,
            Error::Config(_) => 3i32,
            Error::Unsupported(_) => 5i32,
            _ => 1i32,
        },
{
    match e {
        Error::DeviceNotFound => 4,
        Error::Config(_) => 3,
        Error::Unsupported(_) => 5,
        _ => 1,
    }
}

/// The settings of a command line invocation that a configuration file
/// can supply.
#[derive(Debug, Clone, Copy, PartialEq, Eq)]
pub struct CliSettings {
    /// Baud rate.
    pub baud: u32,
    /// Target chip.
    pub chip: Chip,
    /// Late baud switch (for the commands that have it).
    pub late_baud: bool,
    /// Skip verification (for the commands that have it).
    pub skip_verify: bool,
}

/// Which settings came from where: the baud rate and chip are defaults
/// unless given; the flags exist only for some commands and count only when
/// given on the command line.
#[derive(Debug, Clone, Copy)]
pub struct SettingSources {
    /// The baud rate is the built-in default.
    pub baud_is_default: bool,
    /// The chip is the built-in default.
    pub chip_is_default: bool,
    /// The command has a late-baud flag.
    pub has_late_baud: bool,
    /// The late-baud flag was given on the command line.
    pub late_baud_given: bool,
    /// The command has a skip-verify flag.
    pub has_skip_verify: bool,
    /// The skip-verify flag was given on the command line.
    pub skip_verify_given: bool,
}

/// Fills the settings that were not given on the command line from the
/// configuration: its baud rate and chip replace the built-in defaults (an
/// unknown chip name is a configuration error, the settings unchanged), and
/// its flags replace those not given.
pub fn apply_config_defaults(settings: &mut CliSettings, sources: SettingSources, config: &Config) -> (r: Result<(), CliError>)
    ensures
        ({
            let chip_name = config.flash.chip;
            let bad_chip = sources.chip_is_default && (chip_name matches Some(n) && family_chip(n@) is None);
            if bad_chip {
                r matches Err(CliError::Config(_)) && *final(settings) == *old(settings)
            } else {
                &&& r is Ok
                &&& final(settings).baud == (if sources.baud_is_default && config.port.connection.baud is Some {
                    config.port.connection.baud->0
                } else {
                    old(settings).baud
                })
                &&& final(settings).chip == (if sources.chip_is_default && chip_name is Some {
                    family_chip(chip_name->0@)->0
                } else {
                    old(settings).chip
                })
                &&& final(settings).late_baud == (if sources.has_late_baud && !sources.late_baud_given {
                    config.flash.late_baud
                } else {
                    old(settings).late_baud
                })
                &&& final(settings).skip_verify == (if sources.has_skip_verify && !sources.skip_verify_given {
                    config.flash.skip_verify
                } else {
                    old(settings).skip_verify
                })
            }
        }),
{
    let mut next = *settings;
    if sources.baud_is_default {
        match config.port.connection.baud {
            Some(b) => {
                next.baud = b;
            },
            None => {},
        }
    }
    if sources.chip_is_default {
        match &config.flash.chip {
            Some(name) => match Chip::from_config_name(name.as_str()) {
                Some(c) => {
                    next.chip = c;
                },
                None => {
                    let mut msg = String::from_str("Invalid chip '");
                    msg.append(name.as_str());
                    msg.append("' in configuration (supported: ws63, bs2x, bs25)");
                    return Err(CliError::Config(msg));
                },
            },
            None => {},
        }
    }
    if sources.has_late_baud && !sources.late_baud_given {
        next.late_baud = config.flash.late_baud;
    }
    if sources.has_skip_verify && !sources.skip_verify_given {
        next.skip_verify = config.flash.skip_verify;
    }
    *settings = next;
    Ok(())
}

/// The chip type a configuration file's chip name stands for, if the
/// command line can flash it.
pub open spec fn family_chip(name: Seq<char>) -> Option<Chip> {
    match family_of_name(ascii_lower_seq(vstd::utf8::encode_utf8(name))) {
        Some(ChipFamily::Ws63) => Some(Chip::Ws63),
        Some(ChipFamily::Bs2x) => Some(Chip::Bs2x),
        Some(ChipFamily::Bs25) => Some(Chip::Bs25),
        _ => None,
    }
}

} // verus!
