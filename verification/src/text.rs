//! Small text utilities: number formatting, byte-substring search and
//! ASCII case folding, all specified over sequences.
use vstd::prelude::*;
use vstd::string::StringSliceAdditionalSpecFns;
use vstd::utf8::encode_utf8;

verus! {

/// std's `String::push` appends one character.
pub assume_specification[ String::push ](s: &mut String, ch: char)
    ensures
        final(s)@ == old(s)@.push(ch),
;

/// The upper-case hexadecimal digit of `d` (below 16).
pub open spec fn hex_digit(d: int) -> char {
    if d < 10 {
        (('0' as int) + d) as char
    } else {
        (('A' as int) + d - 10) as char
    }
}

/// The decimal digit of `d` (below 10).
pub open spec fn dec_digit(d: int) -> char {
    (('0' as int) + d) as char
}

/// The `width` lowest hexadecimal digits of `v`, upper case, most
/// significant first (zero padded).
pub open spec fn hex_text(v: nat, width: nat) -> Seq<char>
    decreases width,
{
    if width == 0 {
        Seq::empty()
    } else {
        hex_text(v / 16, (width - 1) as nat).push(hex_digit((v % 16) as int))
    }
}

/// 16 to the power `n`: the first value that `n` hexadecimal digits no
/// longer show.
pub open spec fn pow16(n: nat) -> nat
    decreases n,
{
    if n == 0 {
        1
    } else {
        16 * pow16((n - 1) as nat)
    }
}

/// The decimal representation of `v`, without leading zeros.
pub open spec fn dec_text(v: nat) -> Seq<char>
    decreases v,
{
    if v < 10 {
        seq![dec_digit(v as int)]
    } else {
        dec_text(v / 10).push(dec_digit((v % 10) as int))
    }
}

/// The upper-case hexadecimal digit of `d`.
pub fn hex_digit_char(d: u8) -> (c: char)
    requires
        d < 16,
    ensures
        c == hex_digit(d as int),
{
    match d {
        0 => '0',
        1 => '1',
        2 => '2',
        3 => '3',
        4 => '4',
        5 => '5',
        6 => '6',
        7 => '7',
        8 => '8',
        9 => '9',
        10 => 'A',
        11 => 'B',
        12 => 'C',
        13 => 'D',
        14 => 'E',
        _ => 'F',
    }
}

/// The decimal digit of `d`.
pub fn dec_digit_char(d: u8) -> (c: char)
    requires
        d < 10,
    ensures
        c == dec_digit(d as int),
{
    match d {
        0 => '0',
        1 => '1',
        2 => '2',
        3 => '3',
        4 => '4',
        5 => '5',
        6 => '6',
        7 => '7',
        8 => '8',
        _ => '9',
    }
}

proof fn lemma_hex_text_len(v: nat, width: nat)
    ensures
        hex_text(v, width).len() == width,
    decreases width,
{
    if width > 0 {
        lemma_hex_text_len(v / 16, (width - 1) as nat);
    }
}

/// Appends the `width` lowest hexadecimal digits of `v` (upper case, zero
/// padded).
pub fn push_hex(s: &mut String, v: u64, width: u32)
    requires
        width <= 16,
    ensures
        final(s)@ == old(s)@ + hex_text(v as nat, width as nat),
{
    let mut digits: Vec<char> = Vec::new();
    let mut x = v;
    let mut k: u32 = 0;
    while k < width
        invariant
            k <= width,
            hex_text(v as nat, width as nat) == hex_text(x as nat, (width - k) as nat) + digits@,
        decreases width - k,
    {
        let d = (x % 16) as u8;
        let c = hex_digit_char(d);
        let ghost old_digits = digits@;
        digits.insert(0, c);
        assert(digits@ =~= seq![c] + old_digits);
        assert(hex_text(x as nat, (width - k) as nat) =~= hex_text((x / 16) as nat, (width - k - 1) as nat).push(c));
        assert(hex_text((x / 16) as nat, (width - k - 1) as nat).push(c) + old_digits =~= hex_text((x / 16) as nat, (width - k - 1) as nat) + digits@);
        x = x / 16;
        k = k + 1;
    }
    assert(hex_text(x as nat, 0) =~= Seq::<char>::empty());
    assert(digits@ =~= hex_text(v as nat, width as nat));
    let ghost start = s@;
    let mut i: usize = 0;
    while i < digits.len()
        invariant
            i <= digits@.len(),
            s@ == start + digits@.subrange(0, i as int),
        decreases digits@.len() - i,
    {
        s.push(digits[i]);
        i = i + 1;
        assert(s@ =~= start + digits@.subrange(0, i as int));
    }
    assert(digits@.subrange(0, digits@.len() as int) =~= digits@);
}

/// Appends the decimal representation of `v`.
pub fn push_dec(s: &mut String, v: u64)
    ensures
        final(s)@ == old(s)@ + dec_text(v as nat),
{
    let mut digits: Vec<char> = Vec::new();
    let mut x = v;
    while x >= 10
        invariant
            dec_text(v as nat) == dec_text(x as nat) + digits@,
        decreases x,
    {
        let d = (x % 10) as u8;
        let c = dec_digit_char(d);
        let ghost old_digits = digits@;
        digits.insert(0, c);
        assert(digits@ =~= seq![c] + old_digits);
        assert(dec_text(x as nat) =~= dec_text((x / 10) as nat).push(c));
        assert(dec_text((x / 10) as nat).push(c) + old_digits =~= dec_text((x / 10) as nat) + digits@);
        x = x / 10;
    }
    let c = dec_digit_char(x as u8);
    let ghost old_digits = digits@;
    digits.insert(0, c);
    assert(dec_text(x as nat) =~= seq![c]);
    assert(digits@ =~= seq![c] + old_digits);
    assert(digits@ =~= dec_text(v as nat));
    let ghost start = s@;
    let mut i: usize = 0;
    while i < digits.len()
        invariant
            i <= digits@.len(),
            s@ == start + digits@.subrange(0, i as int),
        decreases digits@.len() - i,
    {
        s.push(digits[i]);
        i = i + 1;
        assert(s@ =~= start + digits@.subrange(0, i as int));
    }
    assert(digits@.subrange(0, digits@.len() as int) =~= digits@);
}

/// Whether `needle` occurs in `hay` at position `i`.
pub open spec fn occurs_at<T>(hay: Seq<T>, needle: Seq<T>, i: int) -> bool {
    0 <= i && i + needle.len() <= hay.len() && hay.subrange(i, i + needle.len()) == needle
}

/// Whether `needle` occurs somewhere in `hay`.
pub open spec fn seq_contains_seq<T>(hay: Seq<T>, needle: Seq<T>) -> bool {
    exists|i: int| occurs_at(hay, needle, i)
}

/// ASCII lower case of one byte (other bytes unchanged).
pub open spec fn ascii_lower(b: u8) -> u8 {
    if 65 <= b <= 90 {
        (b + 32) as u8
    } else {
        b
    }
}

/// ASCII lower case of a byte sequence.
pub open spec fn ascii_lower_seq(s: Seq<u8>) -> Seq<u8> {
    s.map_values(|b: u8| ascii_lower(b))
}

fn lower_byte(b: u8) -> (r: u8)
    ensures
        r == ascii_lower(b),
{
    if 65 <= b && b <= 90 {
        b + 32
    } else {
        b
    }
}

fn occurs_here(hay: &[u8], needle: &[u8], i: usize, fold: bool) -> (r: bool)
    requires
        i + needle@.len() <= hay@.len(),
    ensures
        r == occurs_at(if fold { ascii_lower_seq(hay@) } else { hay@ }, needle@, i as int),
{
    let n = needle.len();
    let hl = hay.len();
    let ghost h = if fold { ascii_lower_seq(hay@) } else { hay@ };
    let mut k: usize = 0;
    while k < n
        invariant
            n == needle@.len(),
            hl == hay@.len(),
            i + n <= hay@.len(),
            h.len() == hay@.len(),
            h == (if fold { ascii_lower_seq(hay@) } else { hay@ }),
            k <= n,
            forall|j: int| 0 <= j < k ==> h[i + j] == needle@[j],
        decreases n - k,
    {
        let c = if fold { lower_byte(hay[i + k]) } else { hay[i + k] };
        if c != needle[k] {
            assert(h.subrange(i as int, i + n)[k as int] != needle@[k as int]);
            return false;
        }
        k = k + 1;
    }
    assert(h.subrange(i as int, i + n) =~= needle@);
    true
}

fn find_in(hay: &[u8], needle: &[u8], fold: bool) -> (r: bool)
    ensures
        r == seq_contains_seq(if fold { ascii_lower_seq(hay@) } else { hay@ }, needle@),
{
    let ghost h = if fold { ascii_lower_seq(hay@) } else { hay@ };
    let n = hay.len();
    let m = needle.len();
    if m > n {
        assert forall|i: int| !occurs_at(h, needle@, i) by {}
        return false;
    }
    if m == 0 {
        assert(h.subrange(0, 0) =~= needle@);
        assert(occurs_at(h, needle@, 0));
        return true;
    }
    let mut i: usize = 0;
    while i <= n - m
        invariant
            n == hay@.len(),
            m == needle@.len(),
            1 <= m <= n,
            h.len() == n,
            h == (if fold { ascii_lower_seq(hay@) } else { hay@ }),
            i <= n - m + 1,
            forall|j: int| 0 <= j < i ==> !occurs_at(h, needle@, j),
        decreases n - m + 1 - i,
    {
        if occurs_here(hay, needle, i, fold) {
            return true;
        }
        i = i + 1;
    }
    assert forall|j: int| !occurs_at(h, needle@, j) by {
        if 0 <= j && j + m <= n {
            assert(j < i);
        }
    }
    false
}

/// Whether the bytes `needle` occur in the bytes `hay`.
pub fn bytes_contain(hay: &[u8], needle: &[u8]) -> (r: bool)
    ensures
        r == seq_contains_seq(hay@, needle@),
{
    find_in(hay, needle, false)
}

/// Whether the bytes `needle` occur in the ASCII lower case of `hay`.
pub fn bytes_contain_folded(hay: &[u8], needle: &[u8]) -> (r: bool)
    ensures
        r == seq_contains_seq(ascii_lower_seq(hay@), needle@),
{
    find_in(hay, needle, true)
}

/// Whether `pattern` occurs in `text`, compared as the bytes of their UTF-8
/// encodings (as std's `str::contains` compares).
pub open spec fn text_contains(text: Seq<char>, pattern: Seq<char>) -> bool {
    seq_contains_seq(encode_utf8(text), encode_utf8(pattern))
}

/// Whether `pattern` occurs in `text` (see [`text_contains`]).
pub fn str_contains(text: &str, pattern: &str) -> (r: bool)
    ensures
        r == text_contains(text@, pattern@),
{
    bytes_contain(text.as_bytes(), pattern.as_bytes())
}

fn same_bytes(a: &[u8], b: &[u8], fold: bool) -> (r: bool)
    ensures
        r == (if fold { ascii_lower_seq(a@) == ascii_lower_seq(b@) } else { a@ == b@ }),
{
    if a.len() != b.len() {
        proof {
            if fold {
                assert(ascii_lower_seq(a@).len() != ascii_lower_seq(b@).len());
            }
        }
        return false;
    }
    let mut i: usize = 0;
    while i < a.len()
        invariant
            i <= a@.len(),
            a@.len() == b@.len(),
            forall|j: int| 0 <= j < i ==> (if fold { ascii_lower(a@[j]) == ascii_lower(b@[j]) } else { a@[j] == b@[j] }),
        decreases a@.len() - i,
    {
        let x = if fold { lower_byte(a[i]) } else { a[i] };
        let y = if fold { lower_byte(b[i]) } else { b[i] };
        if x != y {
            proof {
                if fold {
                    assert(ascii_lower_seq(a@)[i as int] != ascii_lower_seq(b@)[i as int]);
                } else {
                    assert(a@[i as int] != b@[i as int]);
                }
            }
            return false;
        }
        i = i + 1;
    }
    proof {
        if fold {
            assert(ascii_lower_seq(a@) =~= ascii_lower_seq(b@));
        } else {
            assert(a@ =~= b@);
        }
    }
    true
}

/// Whether two texts are equal.
pub fn text_eq(a: &str, b: &str) -> (r: bool)
    ensures
        r == (a@ == b@),
{
    let r = same_bytes(a.as_bytes(), b.as_bytes(), false);
    proof {
        vstd::utf8::encode_utf8_decode_utf8(a@);
        vstd::utf8::encode_utf8_decode_utf8(b@);
    }
    r
}

/// Whether two texts are equal when ASCII letters are compared without
/// regard to case (what std's `eq_ignore_ascii_case` does).
pub fn text_eq_ignore_ascii_case(a: &str, b: &str) -> (r: bool)
    ensures
        r == (ascii_lower_seq(a.spec_bytes()) == ascii_lower_seq(b.spec_bytes())),
{
    same_bytes(a.as_bytes(), b.as_bytes(), true)
}

/// The lower-case hexadecimal digit of `d` (below 16).
pub open spec fn hex_digit_lower(d: int) -> char {
    if d < 10 {
        (('0' as int) + d) as char
    } else {
        (('a' as int) + d - 10) as char
    }
}

/// The `width` lowest hexadecimal digits of `v`, lower case, most
/// significant first (zero padded).
pub open spec fn hex_text_lower(v: nat, width: nat) -> Seq<char>
    decreases width,
{
    if width == 0 {
        Seq::empty()
    } else {
        hex_text_lower(v / 16, (width - 1) as nat).push(hex_digit_lower((v % 16) as int))
    }
}

fn hex_digit_lower_char(d: u8) -> (c: char)
    requires
        d < 16,
    ensures
        c == hex_digit_lower(d as int),
{
    if d < 10 {
        dec_digit_char(d)
    } else if d == 10 {
        'a'
    } else if d == 11 {
        'b'
    } else if d == 12 {
        'c'
    } else if d == 13 {
        'd'
    } else if d == 14 {
        'e'
    } else {
        'f'
    }
}

/// Appends the `width` lowest hexadecimal digits of `v` (lower case, zero
/// padded).
pub fn push_hex_lower(s: &mut String, v: u64, width: u32)
    requires
        width <= 16,
    ensures
        final(s)@ == old(s)@ + hex_text_lower(v as nat, width as nat),
    decreases width,
{
    if width > 0 {
        push_hex_lower(s, v / 16, width - 1);
        s.push(hex_digit_lower_char((v % 16) as u8));
    }
}

} // verus!
