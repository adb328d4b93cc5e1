//! Serial monitor text handling: cutting received bytes at the last whole
//! UTF-8 character, normalising line ends for a raw terminal, time stamps,
//! and recognising the signs of a device reset in its log.
use crate::text::{ascii_lower_seq, bytes_contain_folded, dec_digit, seq_contains_seq};
use vstd::prelude::*;
use vstd::string::StringSliceAdditionalSpecFns;
use vstd::utf8::{
    codepoint_width_1, codepoint_width_2, codepoint_width_3, codepoint_width_4, decode_first_codepoint,
    length_of_first_scalar, not_overlong_encoding, not_surrogate, partial_valid_utf8, valid_first_scalar,
    valid_utf8,
};

verus! {

fn first_scalar_len(b: &[u8], i: usize) -> (r: usize)
    requires
        i < b@.len(),
    ensures
        r > 0 ==> valid_first_scalar(b@.subrange(i as int, b@.len() as int)) && r == length_of_first_scalar(
            b@.subrange(i as int, b@.len() as int),
        ),
        r == 0 ==> !valid_first_scalar(b@.subrange(i as int, b@.len() as int)),
{
    let ghost s = b@.subrange(i as int, b@.len() as int);
    let n = b.len() - i;
    let b0 = b[i];
    assert(s[0] == b0);
    if b0 <= 0x7f {
        let cp: u32 = (b0 & 0x7F) as u32;
        assert(cp == decode_first_codepoint(s));
        assert(cp == codepoint_width_1(b0));
        assert(cp <= 0x7f) by (bit_vector)
            requires
                cp == (b0 & 0x7F) as u32,
        ;
        return 1;
    }
    if 0xc0 <= b0 && b0 <= 0xdf {
        if n < 2 {
            return 0;
        }
        let b1 = b[i + 1];
        assert(s[1] == b1);
        if !(0x80 <= b1 && b1 <= 0xbf) {
            return 0;
        }
        let cp: u32 = (((b0 & 0x1F) as u32) << 6) | ((b1 & 0x3f) as u32);
        assert(cp == codepoint_width_2(b0, b1));
        if 0x80 <= cp && !(0xD800 <= cp && cp <= 0xDFFF) {
            return 2;
        }
        return 0;
    }
    if 0xe0 <= b0 && b0 <= 0xef {
        if n < 3 {
            return 0;
        }
        let b1 = b[i + 1];
        let b2 = b[i + 2];
        assert(s[1] == b1 && s[2] == b2);
        if !(0x80 <= b1 && b1 <= 0xbf && 0x80 <= b2 && b2 <= 0xbf) {
            return 0;
        }
        let cp: u32 = (((b0 & 0x0F) as u32) << 12) | (((b1 & 0x3f) as u32) << 6) | ((b2 & 0x3f) as u32);
        assert(cp == codepoint_width_3(b0, b1, b2));
        if 0x800 <= cp && !(0xD800 <= cp && cp <= 0xDFFF) {
            return 3;
        }
        return 0;
    }
    if 0xf0 <= b0 && b0 <= 0xf7 {
        if n < 4 {
            return 0;
        }
        let b1 = b[i + 1];
        let b2 = b[i + 2];
        let b3 = b[i + 3];
        assert(s[1] == b1 && s[2] == b2 && s[3] == b3);
        if !(0x80 <= b1 && b1 <= 0xbf && 0x80 <= b2 && b2 <= 0xbf && 0x80 <= b3 && b3 <= 0xbf) {
            return 0;
        }
        let cp: u32 = (((b0 & 0x07) as u32) << 18) | (((b1 & 0x3f) as u32) << 12) | (((b2 & 0x3f) as u32) << 6) | ((
        b3 & 0x3f) as u32);
        assert(cp == codepoint_width_4(b0, b1, b2, b3));
        if 0x10000 <= cp && cp <= 0x10ffff && !(0xD800 <= cp && cp <= 0xDFFF) {
            return 4;
        }
        return 0;
    }
    0
}

/// std's `str::from_utf8`, on bytes already known to be valid UTF-8: the
/// text whose UTF-8 encoding they are.
#[verifier::external_body]
fn utf8_text(b: &[u8]) -> (r: &str)
    requires
        valid_utf8(b@),
    ensures
        r.spec_bytes() == b@,
{
    std::str::from_utf8(b).unwrap_or_default()
}

/// Splits received bytes into the longest prefix that is valid UTF-8, as
/// text, and the rest (an incomplete or invalid character and what
/// follows), to be completed by the next read.
pub fn split_utf8(bytes: &[u8]) -> (r: (&str, &[u8]))
    ensures
        r.0.spec_bytes() + r.1@ == bytes@,
        valid_utf8(r.0.spec_bytes()),
        r.1@.len() == 0 || !valid_first_scalar(r.1@),
{
    let n = bytes.len();
    let mut i: usize = 0;
    let mut stuck = false;
    assert(bytes@.subrange(0, 0) =~= Seq::<u8>::empty());
    while i < n && !stuck
        invariant
            n == bytes@.len(),
            i <= n,
            partial_valid_utf8(bytes@, i as int),
            stuck ==> i < n && !valid_first_scalar(bytes@.subrange(i as int, n as int)),
        decreases n - i, if stuck { 0int } else { 1int },
    {
        let k = first_scalar_len(bytes, i);
        if k == 0 {
            stuck = true;
        } else {
            proof {
                vstd::utf8::partial_valid_utf8_extend(bytes@, i as int);
            }
            i = i + k;
        }
    }
    let valid = utf8_text(&bytes[0..i]);
    let rest = &bytes[i..n];
    assert(valid.spec_bytes() + rest@ =~= bytes@);
    (valid, rest)
}

/// Whether a log text shows that the device reset: it contains, ignoring
/// ASCII case, "boot.", "flash init", "verify_", "reset cause" or "bootrom".
pub open spec fn reset_evidence(text: Seq<u8>) -> bool {
    let l = ascii_lower_seq(text);
    ||| seq_contains_seq(l, "boot."@.map_values(|c: char| c as u8))
    ||| seq_contains_seq(l, "flash init"@.map_values(|c: char| c as u8))
    ||| seq_contains_seq(l, "verify_"@.map_values(|c: char| c as u8))
    ||| seq_contains_seq(l, "reset cause"@.map_values(|c: char| c as u8))
    ||| seq_contains_seq(l, "bootrom"@.map_values(|c: char| c as u8))
}

fn ascii_bytes(s: &str) -> (r: Vec<u8>)
    requires
        s.is_ascii(),
    ensures
        r@ == s@.map_values(|c: char| c as u8),
{
    proof {
        vstd::string::is_ascii_spec_bytes(s);
    }
    let b = s.as_bytes();
    let mut out: Vec<u8> = Vec::new();
    let mut i: usize = 0;
    while i < b.len()
        invariant
            i <= b@.len(),
            b@ == s.spec_bytes(),
            s.spec_bytes() =~= Seq::new(s@.len(), |j: int| s@[j] as u8),
            out@ == b@.subrange(0, i as int),
        decreases b@.len() - i,
    {
        out.push(b[i]);
        i = i + 1;
        assert(out@ =~= b@.subrange(0, i as int));
    }
    assert(out@ =~= s@.map_values(|c: char| c as u8));
    out
}

/// Whether a log text shows that the device reset (see [`reset_evidence`]).
pub fn contains_reset_evidence(text: &str) -> (r: bool)
    ensures
        r == reset_evidence(text.spec_bytes()),
{
    let bytes = text.as_bytes();
    proof {
        reveal_strlit("boot.");
        reveal_strlit("flash init");
        reveal_strlit("verify_");
        reveal_strlit("reset cause");
        reveal_strlit("bootrom");
    }
    let p1 = ascii_bytes("boot.");
    let p2 = ascii_bytes("flash init");
    let p3 = ascii_bytes("verify_");
    let p4 = ascii_bytes("reset cause");
    let p5 = ascii_bytes("bootrom");
    bytes_contain_folded(bytes, p1.as_slice()) || bytes_contain_folded(bytes, p2.as_slice()) || bytes_contain_folded(
        bytes,
        p3.as_slice(),
    ) || bytes_contain_folded(bytes, p4.as_slice()) || bytes_contain_folded(bytes, p5.as_slice())
}

/// `v` in decimal with at least `width` digits (zero padded).
pub open spec fn padded(v: nat, width: nat) -> Seq<char>
    decreases width, v,
{
    if width <= 1 && v < 10 {
        seq![dec_digit(v as int)]
    } else if width == 0 {
        padded(v / 10, 0).push(dec_digit((v % 10) as int))
    } else {
        padded(v / 10, (width - 1) as nat).push(dec_digit((v % 10) as int))
    }
}

/// The time of day of `ms` milliseconds since midnight of some day, as
/// "HH:MM:SS.mmm" (hours modulo 24).
pub open spec fn clock_text(ms: nat) -> Seq<char> {
    padded((ms / 3_600_000) % 24, 2) + seq![':'] + padded((ms / 60_000) % 60, 2) + seq![':'] + padded(
        (ms / 1000) % 60,
        2,
    ) + seq!['.'] + padded(ms % 1000, 3)
}

/// The grey time stamp put before each line: ESC "[90m[" time "]" ESC "[0m ".
pub open spec fn stamp_text(ms: nat) -> Seq<char> {
    seq!['\u{1b}', '[', '9', '0', 'm', '['] + clock_text(ms) + seq![']', '\u{1b}', '[', '0', 'm', ' ']
}

/// The text to show for `text`, and whether the output then stands at the
/// start of a line: "\n", "\r\n" and a lone "\r" each become "\r\n"; with
/// time stamps on, a stamp goes before the first character of each line.
pub open spec fn monitor_output(text: Seq<char>, timestamps: bool, at_line_start: bool, stamp: Seq<char>) -> (Seq<char>, bool)
    decreases text.len(),
{
    if text.len() == 0 {
        (Seq::empty(), at_line_start)
    } else if text[0] == '\r' && text.len() > 1 && text[1] == '\n' {
        let rest = monitor_output(text.subrange(2, text.len() as int), timestamps, true, stamp);
        (seq!['\r', '\n'] + rest.0, rest.1)
    } else if text[0] == '\n' || text[0] == '\r' {
        let rest = monitor_output(text.drop_first(), timestamps, true, stamp);
        (seq!['\r', '\n'] + rest.0, rest.1)
    } else {
        let rest = monitor_output(text.drop_first(), timestamps, false, stamp);
        (if timestamps && at_line_start { stamp } else { Seq::empty() } + seq![text[0]] + rest.0, rest.1)
    }
}


/// Formatting text in two pieces, the second starting where the first left
/// the line, gives what formatting it at once gives (with one time stamp
/// text), unless the first piece ends with "\r" and the second starts with
/// "\n": each piece then shows its own line end.
pub proof fn lemma_format_in_pieces(a: Seq<char>, b: Seq<char>, timestamps: bool, at_line_start: bool, stamp: Seq<char>)
    requires
        !(a.len() > 0 && a.last() == '\r' && b.len() > 0 && b[0] == '\n'),
    ensures
        ({
            let first = monitor_output(a, timestamps, at_line_start, stamp);
            let second = monitor_output(b, timestamps, first.1, stamp);
            monitor_output(a + b, timestamps, at_line_start, stamp) == (first.0 + second.0, second.1)
        }),
    decreases a.len(),
{
    let ab = a + b;
    if a.len() == 0 {
        assert(ab =~= b);
        assert(Seq::<char>::empty() + monitor_output(b, timestamps, at_line_start, stamp).0 =~= monitor_output(
            b,
            timestamps,
            at_line_start,
            stamp,
        ).0);
    } else if a[0] == '\r' && a.len() > 1 && a[1] == '\n' {
        let a2 = a.subrange(2, a.len() as int);
        assert(ab.subrange(2, ab.len() as int) =~= a2 + b);
        lemma_format_in_pieces(a2, b, timestamps, true, stamp);
        let f = monitor_output(a2, timestamps, true, stamp);
        let g = monitor_output(b, timestamps, f.1, stamp);
        assert(seq!['\r', '\n'] + f.0 + g.0 =~= seq!['\r', '\n'] + (f.0 + g.0));
    } else {
        let a1 = a.drop_first();
        assert(ab.drop_first() =~= a1 + b);
        if a[0] == '\n' || a[0] == '\r' {
            if a[0] == '\r' && a.len() == 1 {
                assert(a.last() == '\r');
            }
            lemma_format_in_pieces(a1, b, timestamps, true, stamp);
            let f = monitor_output(a1, timestamps, true, stamp);
            let g = monitor_output(b, timestamps, f.1, stamp);
            assert(seq!['\r', '\n'] + f.0 + g.0 =~= seq!['\r', '\n'] + (f.0 + g.0));
        } else {
            lemma_format_in_pieces(a1, b, timestamps, false, stamp);
            let f = monitor_output(a1, timestamps, false, stamp);
            let g = monitor_output(b, timestamps, f.1, stamp);
            let head = if timestamps && at_line_start { stamp } else { Seq::empty() } + seq![a[0]];
            assert(head + f.0 + g.0 =~= head + (f.0 + g.0));
        }
    }
}

fn push_padded(s: &mut String, v: u64, width: u32)
    requires
        width <= 3,
    ensures
        final(s)@ == old(s)@ + padded(v as nat, width as nat),
    decreases width, v,
{
    if width <= 1 && v < 10 {
        s.push(crate::text::dec_digit_char(v as u8));
    } else if width == 0 {
        push_padded(s, v / 10, 0);
        s.push(crate::text::dec_digit_char((v % 10) as u8));
    } else {
        push_padded(s, v / 10, width - 1);
        s.push(crate::text::dec_digit_char((v % 10) as u8));
    }
}

fn stamp_for(ms: u64) -> (r: String)
    ensures
        r@ == stamp_text(ms as nat),
{
    let mut s = String::new();
    s.push('\u{1b}');
    s.push('[');
    s.push('9');
    s.push('0');
    s.push('m');
    s.push('[');
    push_padded(&mut s, (ms / 3_600_000) % 24, 2);
    s.push(':');
    push_padded(&mut s, (ms / 60_000) % 60, 2);
    s.push(':');
    push_padded(&mut s, (ms / 1000) % 60, 2);
    s.push('.');
    push_padded(&mut s, ms % 1000, 3);
    s.push(']');
    s.push('\u{1b}');
    s.push('[');
    s.push('0');
    s.push('m');
    s.push(' ');
    assert(s@ =~= stamp_text(ms as nat));
    s
}

/// Formats received text for a raw terminal at the time `ms` (milliseconds
/// since the Unix epoch), updating whether the output stands at the start
/// of a line (see [`monitor_output`]).
pub fn format_monitor_output_at(text: &str, timestamps: bool, at_line_start: &mut bool, ms: u64) -> (r: String)
    ensures
        (r@, *final(at_line_start)) == monitor_output(text@, timestamps, *old(at_line_start), stamp_text(ms as nat)),
{
    let stamp = stamp_for(ms);
    let n = text.unicode_len();
    let mut out = String::new();
    let mut i: usize = 0;
    let ghost start = *at_line_start;
    let ghost whole = monitor_output(text@, timestamps, start, stamp@);
    assert(text@.subrange(0, n as int) =~= text@);
    assert(out@ =~= Seq::<char>::empty());
    while i < n
        invariant
            n == text@.len(),
            i <= n,
            stamp@ == stamp_text(ms as nat),
            whole == monitor_output(text@, timestamps, start, stamp@),
            whole.0 == out@ + monitor_output(text@.subrange(i as int, n as int), timestamps, *at_line_start, stamp@).0,
            whole.1 == monitor_output(text@.subrange(i as int, n as int), timestamps, *at_line_start, stamp@).1,
        decreases n - i,
    {
        let ghost t = text@.subrange(i as int, n as int);
        let c = text.get_char(i);
        assert(t[0] == c);
        if c == '\r' && i + 1 < n && text.get_char(i + 1) == '\n' {
            assert(t[1] == '\n');
            assert(t.subrange(2, t.len() as int) =~= text@.subrange(i + 2, n as int));
            out.push('\r');
            out.push('\n');
            *at_line_start = true;
            i = i + 2;
        } else if c == '\n' || c == '\r' {
            proof {
                if c == '\r' && i + 1 < n {
                    assert(t[1] == text@[i + 1]);
                }
            }
            assert(t.drop_first() =~= text@.subrange(i + 1, n as int));
            out.push('\r');
            out.push('\n');
            *at_line_start = true;
            i = i + 1;
        } else {
            assert(t.drop_first() =~= text@.subrange(i + 1, n as int));
            if timestamps && *at_line_start {
                out.append(stamp.as_str());
            }
            out.push(c);
            *at_line_start = false;
            i = i + 1;
        }
    }
    assert(text@.subrange(0, n as int) =~= text@);
    assert(text@.subrange(n as int, n as int) =~= Seq::<char>::empty());
    out
}

/// The time, in milliseconds since the Unix epoch, from std's
/// `SystemTime::now`; it depends on the clock, so nothing is claimed of it.
#[verifier::external_body]
fn now_millis() -> u64 {
    std::time::SystemTime::now().duration_since(std::time::UNIX_EPOCH).map_or(0, |d| u64::try_from(d.as_millis()).unwrap_or(u64::MAX))
}

/// Formats received text for a raw terminal, time stamps taken from the
/// system clock (see [`monitor_output`]).
pub fn format_monitor_output(text: &str, timestamps: bool, at_line_start: &mut bool) -> (r: String)
    ensures
        exists|ms: u64| (r@, *final(at_line_start)) == monitor_output(text@, timestamps, *old(at_line_start), stamp_text(ms as nat)),
{
    let ms = now_millis();
    format_monitor_output_at(text, timestamps, at_line_start, ms)
}

/// Whether a character is shown by the cleaned monitor output: anything but
/// control characters, except line feed, carriage return and tab.
pub open spec fn shown_clean(c: char) -> bool {
    let n = c as u32;
    !((n < 0x20 || (0x7F <= n && n <= 0x9F)) && c != '\n' && c != '\r' && c != '\t')
}

/// Filters non-printable control characters out of received text, keeping
/// line feeds, carriage returns and tabs.
pub fn clean_monitor_text(text: &str) -> (r: String)
    ensures
        r@ == text@.filter(|c: char| shown_clean(c)),
{
    let ghost pred = |c: char| shown_clean(c);
    let n = text.unicode_len();
    let mut out = String::new();
    let mut i: usize = 0;
    while i < n
        invariant
            n == text@.len(),
            i <= n,
            pred == (|c: char| shown_clean(c)),
            out@ == text@.subrange(0, i as int).filter(pred),
        decreases n - i,
    {
        proof {
            reveal_with_fuel(Seq::<_>::filter, 1);
            assert(text@.subrange(0, i + 1).drop_last() =~= text@.subrange(0, i as int));
        }
        let c = text.get_char(i);
        let v = c as u32;
        if !((v < 0x20 || (0x7F <= v && v <= 0x9F)) && c != '\n' && c != '\r' && c != '\t') {
            out.push(c);
        }
        i = i + 1;
    }
    assert(text@.subrange(0, n as int) =~= text@);
    out
}

/// How many bytes at the start of `b` form whole, valid UTF-8 characters.
pub open spec fn utf8_prefix_len(b: Seq<u8>) -> int
    decreases b.len(),
{
    if b.len() == 0 || !valid_first_scalar(b) {
        0
    } else {
        let k = length_of_first_scalar(b);
        if 0 < k <= b.len() {
            k + utf8_prefix_len(b.subrange(k, b.len() as int))
        } else {
            0
        }
    }
}

/// Whether `rest` is the beginning of a character whose remaining bytes
/// have not arrived yet.
pub open spec fn incomplete_char(rest: Seq<u8>) -> bool {
    &&& 0 < rest.len()
    &&& ({
        let b0 = rest[0];
        ||| (0xC0 <= b0 <= 0xDF && rest.len() < 2)
        ||| (0xE0 <= b0 <= 0xEF && rest.len() < 3)
        ||| (0xF0 <= b0 <= 0xF7 && rest.len() < 4)
    })
    &&& forall|j: int| 1 <= j < rest.len() ==> 0x80 <= #[trigger] rest[j] <= 0xBF
}

/// What draining a receive buffer gives: the text of its whole characters,
/// each invalid byte shown as U+FFFD, and the bytes of a character not yet
/// complete at its end, which stay for the next read.
pub open spec fn drained(buf: Seq<u8>) -> (Seq<char>, Seq<u8>)
    decreases buf.len(),
{
    let p = utf8_prefix_len(buf);
    if p < 0 || p > buf.len() {
        (Seq::empty(), buf)
    } else {
        let head = vstd::utf8::decode_utf8(buf.subrange(0, p));
        let rest = buf.subrange(p, buf.len() as int);
        if rest.len() == 0 {
            (head, rest)
        } else if incomplete_char(rest) {
            (head, rest)
        } else {
            let tail = drained(rest.drop_first());
            (head + seq!['\u{FFFD}'] + tail.0, tail.1)
        }
    }
}

proof fn lemma_prefix_len_valid(b: Seq<u8>)
    ensures
        0 <= utf8_prefix_len(b) <= b.len(),
        valid_utf8(b.subrange(0, utf8_prefix_len(b))),
        utf8_prefix_len(b) < b.len() ==> !valid_first_scalar(b.subrange(utf8_prefix_len(b), b.len() as int)),
    decreases b.len(),
{
    if b.len() == 0 || !valid_first_scalar(b) {
        assert(b.subrange(0, 0) =~= Seq::<u8>::empty());
        if b.len() > 0 {
            assert(b.subrange(0, b.len() as int) =~= b);
        }
    } else {
        let k = length_of_first_scalar(b);
        let t = b.subrange(k, b.len() as int);
        lemma_prefix_len_valid(t);
        let q = utf8_prefix_len(t);
        let pre = b.subrange(0, k + q);
        assert(pre.subrange(0, k) =~= b.subrange(0, k));
        assert(valid_first_scalar(pre)) by {
            assert(pre[0] == b[0]);
            if k >= 2 {
                assert(pre[1] == b[1]);
            }
            if k >= 3 {
                assert(pre[2] == b[2]);
            }
            if k >= 4 {
                assert(pre[3] == b[3]);
            }
        }
        assert(vstd::utf8::pop_first_scalar(pre) =~= t.subrange(0, q));
        assert(b.subrange(k + q, b.len() as int) =~= t.subrange(q, t.len() as int));
    }
}


/// Two byte strings that agree on the bytes of a valid first character of
/// one start with the same valid character.
proof fn lemma_same_first_scalar(x: Seq<u8>, y: Seq<u8>)
    requires
        valid_first_scalar(x),
        length_of_first_scalar(x) <= y.len(),
        forall|i: int| 0 <= i < length_of_first_scalar(x) ==> x[i] == y[i],
    ensures
        valid_first_scalar(y),
        length_of_first_scalar(y) == length_of_first_scalar(x),
        vstd::utf8::decode_first_scalar(y) == vstd::utf8::decode_first_scalar(x),
{
    let k = length_of_first_scalar(x);
    assert(x[0] == y[0]);
    if k >= 2 {
        assert(x[1] == y[1]);
    }
    if k >= 3 {
        assert(x[2] == y[2]);
    }
    if k >= 4 {
        assert(x[3] == y[3]);
    }
}

/// Draining, one step at a time: a valid first character is decoded and
/// the rest drained; an unfinished character at the end stays; any other
/// first byte becomes U+FFFD and the rest is drained.
proof fn lemma_drained_step(s: Seq<u8>)
    requires
        s.len() > 0,
    ensures
        valid_first_scalar(s) ==> drained(s) == ({
            let k = length_of_first_scalar(s);
            let t = drained(s.subrange(k, s.len() as int));
            (seq![vstd::utf8::decode_first_scalar(s) as char] + t.0, t.1)
        }),
        !valid_first_scalar(s) && incomplete_char(s) ==> drained(s) == (Seq::<char>::empty(), s),
        !valid_first_scalar(s) && !incomplete_char(s) ==> drained(s) == ({
            let t = drained(s.drop_first());
            (seq!['\u{FFFD}'] + t.0, t.1)
        }),
{
    lemma_prefix_len_valid(s);
    if valid_first_scalar(s) {
        let k = length_of_first_scalar(s);
        let t = s.subrange(k, s.len() as int);
        lemma_prefix_len_valid(t);
        let q = utf8_prefix_len(t);
        let p = k + q;
        assert(utf8_prefix_len(s) == p);
        let pre = s.subrange(0, p);
        lemma_same_first_scalar(s, pre);
        assert(vstd::utf8::pop_first_scalar(pre) =~= t.subrange(0, q));
        assert(vstd::utf8::decode_utf8(pre) == seq![vstd::utf8::decode_first_scalar(pre) as char]
            + vstd::utf8::decode_utf8(t.subrange(0, q)));
        assert(s.subrange(p, s.len() as int) =~= t.subrange(q, t.len() as int));
        let rest = t.subrange(q, t.len() as int);
        if rest.len() == 0 {
        } else if incomplete_char(rest) {
        } else {
            let tail = drained(rest.drop_first());
            assert(drained(t) == (vstd::utf8::decode_utf8(t.subrange(0, q)) + seq!['\u{FFFD}'] + tail.0, tail.1));
            assert(drained(s).0 =~= seq![vstd::utf8::decode_first_scalar(s) as char] + drained(t).0);
        }
    } else {
        assert(utf8_prefix_len(s) == 0);
        assert(s.subrange(0, 0) =~= Seq::<u8>::empty());
        assert(s.subrange(0, s.len() as int) =~= s);
        assert(vstd::utf8::decode_utf8(Seq::<u8>::empty()) =~= Seq::<char>::empty());
        if !incomplete_char(s) {
            let t = drained(s.drop_first());
            assert(Seq::<char>::empty() + seq!['\u{FFFD}'] + t.0 =~= seq!['\u{FFFD}'] + t.0);
        }
    }
}

/// A byte string that is neither a valid first character nor an unfinished
/// one stays so whatever follows it.
proof fn lemma_invalid_start_stays(a: Seq<u8>, b: Seq<u8>)
    requires
        a.len() > 0,
        !valid_first_scalar(a),
        !incomplete_char(a),
    ensures
        !valid_first_scalar(a + b),
        !incomplete_char(a + b),
{
    let ab = a + b;
    if valid_first_scalar(ab) {
        let k = length_of_first_scalar(ab);
        if k <= a.len() {
            lemma_same_first_scalar(ab, a);
        } else {
            assert(forall|j: int| 1 <= j < a.len() ==> a[j] == ab[j]);
            assert(incomplete_char(a));
        }
    }
    if incomplete_char(ab) {
        assert(forall|j: int| 1 <= j < a.len() ==> a[j] == ab[j]);
        assert(incomplete_char(a));
    }
}

/// Decoding what arrives in pieces gives what decoding it at once gives:
/// draining `a`, then draining what stayed followed by `b`, yields the
/// text and the leftover of draining `a + b`.
pub proof fn lemma_drain_in_pieces(a: Seq<u8>, b: Seq<u8>)
    ensures
        drained(a).0 + drained(drained(a).1 + b).0 == drained(a + b).0,
        drained(drained(a).1 + b).1 == drained(a + b).1,
    decreases a.len(),
{
    if a.len() == 0 {
        assert(a.subrange(0, 0) =~= a);
        assert(vstd::utf8::decode_utf8(a) =~= Seq::<char>::empty());
        assert(drained(a) == (Seq::<char>::empty(), a));
        assert(a + b =~= b);
        assert(Seq::<char>::empty() + drained(b).0 =~= drained(b).0);
    } else {
        let ab = a + b;
        lemma_drained_step(a);
        lemma_drained_step(ab);
        if valid_first_scalar(a) {
            let k = length_of_first_scalar(a);
            lemma_same_first_scalar(a, ab);
            let a1 = a.subrange(k, a.len() as int);
            assert(ab.subrange(k, ab.len() as int) =~= a1 + b);
            lemma_drain_in_pieces(a1, b);
            let c = seq![vstd::utf8::decode_first_scalar(a) as char];
            assert(c + drained(a1).0 + drained(drained(a1).1 + b).0 =~= c + (drained(a1).0 + drained(
                drained(a1).1 + b,
            ).0));
        } else if incomplete_char(a) {
            assert(Seq::<char>::empty() + drained(ab).0 =~= drained(ab).0);
        } else {
            lemma_invalid_start_stays(a, b);
            let a1 = a.drop_first();
            assert(ab.drop_first() =~= a1 + b);
            lemma_drain_in_pieces(a1, b);
            let c = seq!['\u{FFFD}'];
            assert(c + drained(a1).0 + drained(drained(a1).1 + b).0 =~= c + (drained(a1).0 + drained(
                drained(a1).1 + b,
            ).0));
        }
    }
}

/// Scans one maximal run of whole characters from `i`; returns where it ends.
fn scan_valid(b: &[u8], i: usize) -> (r: usize)
    requires
        i <= b@.len(),
    ensures
        r == i + utf8_prefix_len(b@.subrange(i as int, b@.len() as int)),
    decreases b@.len() - i,
{
    if i == b.len() {
        assert(b@.subrange(i as int, b@.len() as int).len() == 0);
        return i;
    }
    let k = first_scalar_len(b, i);
    let ghost s = b@.subrange(i as int, b@.len() as int);
    if k == 0 {
        return i;
    }
    proof {
        lemma_first_scalar_fits(s);
    }
    assert(s.subrange(k as int, s.len() as int) =~= b@.subrange(i + k, b@.len() as int));
    scan_valid(b, i + k)
}

proof fn lemma_first_scalar_fits(s: Seq<u8>)
    requires
        valid_first_scalar(s),
    ensures
        0 < length_of_first_scalar(s) <= s.len(),
{
}

fn incomplete_at(b: &[u8], p: usize) -> (r: bool)
    requires
        p < b@.len(),
    ensures
        r == incomplete_char(b@.subrange(p as int, b@.len() as int)),
{
    let ghost rest = b@.subrange(p as int, b@.len() as int);
    let blen = b.len();
    let n = blen - p;
    let b0 = b[p];
    let starts = (0xC0 <= b0 && b0 <= 0xDF && n < 2) || (0xE0 <= b0 && b0 <= 0xEF && n < 3) || (0xF0 <= b0 && b0 <= 0xF7 && n < 4);
    if !starts {
        return false;
    }
    let mut j: usize = 1;
    while j < n
        invariant
            1 <= j <= n,
            n == rest.len(),
            blen == b@.len(),
            p < blen,
            p + n == blen,
            rest == b@.subrange(p as int, b@.len() as int),
            forall|m: int| 1 <= m < j ==> 0x80 <= #[trigger] rest[m] <= 0xBF,
        decreases n - j,
    {
        let c = b[p + j];
        assert(rest[j as int] == c);
        if !(0x80 <= c && c <= 0xBF) {
            return false;
        }
        j = j + 1;
    }
    true
}

/// Decodes what the receive buffer holds (see [`drained`]): the text comes
/// back, and only the bytes of an unfinished character stay in the buffer.
pub fn drain_utf8_lossy(buf: &mut Vec<u8>) -> (r: String)
    ensures
        (r@, final(buf)@) == drained(old(buf)@),
{
    let ghost orig = buf@;
    let bytes = buf.as_slice();
    let n = bytes.len();
    let mut out = String::new();
    let mut i: usize = 0;
    let mut keep_from: usize = n;
    let mut done = false;
    assert(orig.subrange(0, n as int) =~= orig);
    while i < n && !done
        invariant
            n == bytes@.len(),
            bytes@ == orig,
            i <= n,
            keep_from <= n,
            !done ==> keep_from == n,
            !done ==> drained(orig) == (out@ + drained(orig.subrange(i as int, n as int)).0, drained(orig.subrange(i as int, n as int)).1),
            done ==> drained(orig) == (out@, orig.subrange(keep_from as int, n as int)),
        decreases n - i, if done { 0int } else { 1int },
    {
        let ghost s = orig.subrange(i as int, n as int);
        let p = scan_valid(bytes, i);
        proof {
            lemma_prefix_len_valid(s);
        }
        assert(bytes@.subrange(i as int, p as int) =~= s.subrange(0, p - i));
        let text = utf8_text(&bytes[i..p]);
        proof {
            vstd::utf8::encode_utf8_decode_utf8(text@);
        }
        let ghost before = out@;
        out.append(text);
        assert(s.subrange(p - i, s.len() as int) =~= orig.subrange(p as int, n as int));
        assert(text@ == vstd::utf8::decode_utf8(s.subrange(0, p - i)));
        if p == n {
            assert(drained(s) == (text@, s.subrange(p - i, s.len() as int)));
            assert(orig.subrange(n as int, n as int) =~= Seq::<u8>::empty());
            i = n;
            keep_from = n;
            done = true;
        } else if incomplete_at(bytes, p) {
            assert(drained(s) == (text@, orig.subrange(p as int, n as int)));
            keep_from = p;
            done = true;
        } else {
            assert(orig.subrange(p as int, n as int).drop_first() =~= orig.subrange(p + 1, n as int));
            assert(drained(s) == (text@ + seq!['\u{FFFD}'] + drained(orig.subrange(p + 1, n as int)).0, drained(orig.subrange(p + 1, n as int)).1));
            out.push('\u{FFFD}');
            assert(out@ == before + text@ + seq!['\u{FFFD}']);
            i = p + 1;
        }
    }
    proof {
        if !done {
            let e = orig.subrange(n as int, n as int);
            assert(e =~= Seq::<u8>::empty());
            assert(utf8_prefix_len(e) == 0);
            assert(e.subrange(0, 0) =~= Seq::<u8>::empty());
            assert(vstd::utf8::decode_utf8(e.subrange(0, 0)) =~= Seq::<char>::empty());
            assert(drained(e).0 =~= Seq::<char>::empty());
            assert(out@ + drained(e).0 =~= out@);
            assert(drained(e).1 =~= Seq::<u8>::empty());
        }
    }
    let mut rest: Vec<u8> = Vec::new();
    let mut k = keep_from;
    while k < n
        invariant
            keep_from <= k <= n,
            n == bytes@.len(),
            rest@ == bytes@.subrange(keep_from as int, k as int),
        decreases n - k,
    {
        rest.push(bytes[k]);
        k = k + 1;
        assert(rest@ =~= bytes@.subrange(keep_from as int, k as int));
    }
    *buf = rest;
    assert(out@ =~= drained(orig).0);
    assert(buf@ =~= drained(orig).1);
    out
}


/// The modifier keys held with a key press, as the monitor tells them
/// apart: none, Shift alone, Control alone, or any other combination.
#[derive(Debug, Clone, Copy, PartialEq, Eq, Structural)]
pub enum KeyMods {
    /// No modifier.
    Plain,
    /// Shift alone.
    Shift,
    /// Control alone.
    Control,
    /// Any other combination.
    Other,
}

/// A key press in the monitor.
#[derive(Debug, Clone, Copy, PartialEq, Eq, Structural)]
pub enum MonitorKey {
    /// A character key with its modifiers.
    Char(char, KeyMods),
    /// Enter.
    Enter,
    /// Backspace.
    Backspace,
    /// Tab.
    Tab,
    /// Escape.
    Esc,
    /// Any other key.
    Other,
}

/// What the monitor does for a key press.
#[derive(Debug)]
pub enum MonitorAction {
    /// Leave the monitor (Ctrl+C).
    Exit,
    /// Reset the device through DTR/RTS (Ctrl+R).
    Reset,
    /// Turn time stamps on or off (Ctrl+T).
    ToggleTimestamps,
    /// Send this text to the device.
    Send(String),
    /// Nothing.
    Ignore,
}

/// The text a key press sends to the device, if it sends any: Enter sends
/// CR LF (which devices expecting either line end accept), an unmodified or
/// shifted character itself, Backspace, Tab and Escape their control
/// characters.
pub open spec fn key_text(key: MonitorKey) -> Option<Seq<char>> {
    match key {
        MonitorKey::Enter => Some(seq!['\r', '\n']),
        MonitorKey::Char(c, m) => if m == KeyMods::Plain || m == KeyMods::Shift {
            Some(seq![c])
        } else {
            None
        },
        MonitorKey::Backspace => Some(seq!['\u{8}']),
        MonitorKey::Tab => Some(seq!['\t']),
        MonitorKey::Esc => Some(seq!['\u{1b}']),
        MonitorKey::Other => None,
    }
}

/// What a key press does: Ctrl+C leaves, Ctrl+R resets the device, Ctrl+T
/// toggles time stamps; other keys send [`key_text`] or nothing.
pub fn monitor_key_action(key: MonitorKey) -> (r: MonitorAction)
    ensures
        key == MonitorKey::Char('c', KeyMods::Control) ==> r is Exit,
        key == MonitorKey::Char('r', KeyMods::Control) ==> r is Reset,
        key == MonitorKey::Char('t', KeyMods::Control) ==> r is ToggleTimestamps,
        key != MonitorKey::Char('c', KeyMods::Control) && key != MonitorKey::Char('r', KeyMods::Control) && key
            != MonitorKey::Char('t', KeyMods::Control) ==> match key_text(key) {
            Some(t) => r matches MonitorAction::Send(s) && s@ == t,
            None => r is Ignore,
        },
{
    let mut s = String::new();
    match key {
        MonitorKey::Char(c, KeyMods::Control) => {
            if c == 'c' {
                return MonitorAction::Exit;
            } else if c == 'r' {
                return MonitorAction::Reset;
            } else if c == 't' {
                return MonitorAction::ToggleTimestamps;
            }
            return MonitorAction::Ignore;
        },
        MonitorKey::Enter => {
            s.push('\r');
            s.push('\n');
        },
        MonitorKey::Char(c, KeyMods::Plain) | MonitorKey::Char(c, KeyMods::Shift) => {
            s.push(c);
        },
        MonitorKey::Char(_, KeyMods::Other) | MonitorKey::Other => {
            return MonitorAction::Ignore;
        },
        MonitorKey::Backspace => {
            s.push('\u{8}');
        },
        MonitorKey::Tab => {
            s.push('\t');
        },
        MonitorKey::Esc => {
            s.push('\u{1b}');
        },
    }
    MonitorAction::Send(s)
}

/// One step of the monitor's reset pulse.
#[derive(Debug, Clone, Copy, PartialEq, Eq, Structural)]
pub enum PinStep {
    /// Set the DTR line.
    Dtr(bool),
    /// Set the RTS line.
    Rts(bool),
    /// Wait this many milliseconds.
    WaitMs(u64),
}

/// The reset pulse of the monitor, in order.
pub open spec fn reset_pulse_spec() -> Seq<PinStep> {
    seq![
        PinStep::Dtr(false),
        PinStep::Rts(false),
        PinStep::WaitMs(100),
        PinStep::Dtr(true),
        PinStep::Rts(true),
        PinStep::WaitMs(100),
        PinStep::Dtr(false),
    ]
}

/// The reset pulse of the monitor (Ctrl+R): both lines low, then high, then
/// DTR low again, 100 ms apart.
pub fn reset_pulse() -> (r: Vec<PinStep>)
    ensures
        r@ == reset_pulse_spec(),
{
    let r = vec![
        PinStep::Dtr(false),
        PinStep::Rts(false),
        PinStep::WaitMs(100),
        PinStep::Dtr(true),
        PinStep::Rts(true),
        PinStep::WaitMs(100),
        PinStep::Dtr(false),
    ];
    assert(r@ =~= reset_pulse_spec());
    r
}

/// How long after a reset pulse the monitor looks for signs of a reset.
pub const RESET_VERIFY_TIMEOUT_MS: u64 = 2000;

/// The pause in received data that counts as the device going quiet.
pub const RESET_SILENCE_GAP_MS: u64 = 120;

/// What the monitor concluded about a reset pulse.
#[derive(Debug, Clone, Copy, PartialEq, Eq, Structural)]
pub enum ResetVerdict {
    /// Still watching.
    Pending,
    /// The device log showed signs of a reset.
    Evidence,
    /// Data resumed after a pause, but without signs of a reset.
    Weak,
    /// Nothing confirmed the reset in time.
    Unconfirmed,
}

/// Watching the device after a reset pulse.
#[derive(Debug, Clone, Copy)]
pub struct ResetCheck {
    /// When the watch started (milliseconds).
    pub start_ms: u64,
    /// How many log chunks had shown reset signs before the pulse.
    pub before_hits: u64,
    /// When data last arrived, as far as the watch has seen.
    pub last_seen_rx_ms: u64,
    /// Whether the device has gone quiet since the watch started.
    pub saw_silence_gap: bool,
}

/// `a - b`, or 0 when `b` is larger.
pub open spec fn sat_sub(a: u64, b: u64) -> int {
    if a >= b {
        a - b
    } else {
        0
    }
}

/// One look at the device: timed out after [`RESET_VERIFY_TIMEOUT_MS`];
/// else a sign of a reset since the pulse confirms it; else a pause of
/// [`RESET_SILENCE_GAP_MS`] is noted, and data that arrives after a noted
/// pause is weak evidence.
pub open spec fn reset_poll(c: ResetCheck, now_ms: u64, hits: u64, last_rx_ms: u64) -> (ResetCheck, ResetVerdict) {
    if sat_sub(now_ms, c.start_ms) >= RESET_VERIFY_TIMEOUT_MS {
        (c, ResetVerdict::Unconfirmed)
    } else if hits > c.before_hits {
        (c, ResetVerdict::Evidence)
    } else {
        let gap = c.saw_silence_gap || sat_sub(now_ms, last_rx_ms) >= RESET_SILENCE_GAP_MS;
        if last_rx_ms > c.last_seen_rx_ms {
            if gap {
                (ResetCheck { saw_silence_gap: gap, ..c }, ResetVerdict::Weak)
            } else {
                (ResetCheck { saw_silence_gap: gap, last_seen_rx_ms: last_rx_ms, ..c }, ResetVerdict::Pending)
            }
        } else {
            (ResetCheck { saw_silence_gap: gap, ..c }, ResetVerdict::Pending)
        }
    }
}

impl ResetCheck {
    /// A watch that starts at `start_ms`, with data last seen at
    /// `before_rx_ms` and `before_hits` reset signs counted before the pulse.
    pub fn new(start_ms: u64, before_rx_ms: u64, before_hits: u64) -> (r: ResetCheck)
        ensures
            r == (ResetCheck { start_ms, before_hits, last_seen_rx_ms: before_rx_ms, saw_silence_gap: false }),
    {
        ResetCheck { start_ms, before_hits, last_seen_rx_ms: before_rx_ms, saw_silence_gap: false }
    }

    /// Looks at the device at `now_ms`, with `hits` reset signs counted so
    /// far and data last received at `last_rx_ms` (see [`reset_poll`]).
    pub fn poll(&mut self, now_ms: u64, hits: u64, last_rx_ms: u64) -> (r: ResetVerdict)
        ensures
            (*final(self), r) == reset_poll(*old(self), now_ms, hits, last_rx_ms),
    {
        let elapsed = if now_ms >= self.start_ms { now_ms - self.start_ms } else { 0 };
        if elapsed >= RESET_VERIFY_TIMEOUT_MS {
            return ResetVerdict::Unconfirmed;
        }
        if hits > self.before_hits {
            return ResetVerdict::Evidence;
        }
        let quiet = if now_ms >= last_rx_ms { now_ms - last_rx_ms } else { 0 };
        if quiet >= RESET_SILENCE_GAP_MS {
            self.saw_silence_gap = true;
        }
        if last_rx_ms > self.last_seen_rx_ms {
            if self.saw_silence_gap {
                return ResetVerdict::Weak;
            }
            self.last_seen_rx_ms = last_rx_ms;
        }
        ResetVerdict::Pending
    }
}

/// After the watch has timed out, every look says the reset is
/// unconfirmed and changes nothing.
pub proof fn lemma_reset_check_times_out(c: ResetCheck, now_ms: u64, hits: u64, last_rx_ms: u64)
    requires
        now_ms >= c.start_ms + RESET_VERIFY_TIMEOUT_MS,
    ensures
        reset_poll(c, now_ms, hits, last_rx_ms) == (c, ResetVerdict::Unconfirmed),
{
}

/// Before the watch times out, a new reset sign always confirms the reset.
pub proof fn lemma_reset_sign_confirms(c: ResetCheck, now_ms: u64, hits: u64, last_rx_ms: u64)
    requires
        sat_sub(now_ms, c.start_ms) < RESET_VERIFY_TIMEOUT_MS,
        hits > c.before_hits,
    ensures
        reset_poll(c, now_ms, hits, last_rx_ms).1 == ResetVerdict::Evidence,
{
}

/// Weak evidence needs a pause: a watch that has seen no pause, looked at
/// while data keeps flowing (the last data less than
/// [`RESET_SILENCE_GAP_MS`] ago), is never weak.
pub proof fn lemma_weak_needs_pause(c: ResetCheck, now_ms: u64, hits: u64, last_rx_ms: u64)
    requires
        !c.saw_silence_gap,
        sat_sub(now_ms, last_rx_ms) < RESET_SILENCE_GAP_MS,
    ensures
        reset_poll(c, now_ms, hits, last_rx_ms).1 != ResetVerdict::Weak,
        !reset_poll(c, now_ms, hits, last_rx_ms).0.saw_silence_gap,
{
}

} // verus!
