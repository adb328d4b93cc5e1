//! Little-endian integer encoding used by every frame and image format of
//! the HiSilicon boot protocols.
use byteorder::{ByteOrder, LittleEndian, WriteBytesExt};
use vstd::prelude::*;

verus! {

/// The two bytes of `v`, least significant first.
pub open spec fn le16(v: u16) -> Seq<u8> {
    seq![(v & 0xff) as u8, ((v >> 8) & 0xff) as u8]
}

/// The four bytes of `v`, least significant first.
pub open spec fn le32(v: u32) -> Seq<u8> {
    seq![
        (v & 0xff) as u8,
        ((v >> 8) & 0xff) as u8,
        ((v >> 16) & 0xff) as u8,
        ((v >> 24) & 0xff) as u8,
    ]
}

/// The number that two little-endian bytes stand for.
pub open spec fn from_le16(b0: u8, b1: u8) -> u16 {
    (b0 as int + b1 as int * 256) as u16
}

/// The number that four little-endian bytes stand for.
pub open spec fn from_le32(b0: u8, b1: u8, b2: u8, b3: u8) -> u32 {
    (b0 as int + b1 as int * 0x100 + b2 as int * 0x1_0000 + b3 as int * 0x100_0000) as u32
}

/// The number that the first two bytes of `s` stand for.
pub open spec fn seq_le16(s: Seq<u8>, at: int) -> u16 {
    from_le16(s[at], s[at + 1])
}

/// The number that the four bytes of `s` starting at `at` stand for.
pub open spec fn seq_le32(s: Seq<u8>, at: int) -> u32 {
    from_le32(s[at], s[at + 1], s[at + 2], s[at + 3])
}

/// Decoding the little-endian encoding of a `u16` gives the number back.
pub proof fn lemma_le16_roundtrip(v: u16)
    ensures
        from_le16(le16(v)[0], le16(v)[1]) == v,
{
    let b0 = (v & 0xff) as u8;
    let b1 = ((v >> 8) & 0xff) as u8;
    assert(b0 as int + b1 as int * 256 == v as int) by (bit_vector)
        requires
            b0 == (v & 0xff) as u8,
            b1 == ((v >> 8) & 0xff) as u8,
    ;
}

/// Decoding the little-endian encoding of a `u32` gives the number back.
pub proof fn lemma_le32_roundtrip(v: u32)
    ensures
        from_le32(le32(v)[0], le32(v)[1], le32(v)[2], le32(v)[3]) == v,
{
    let b0 = (v & 0xff) as u8;
    let b1 = ((v >> 8) & 0xff) as u8;
    let b2 = ((v >> 16) & 0xff) as u8;
    let b3 = ((v >> 24) & 0xff) as u8;
    assert(b0 as int + b1 as int * 0x100 + b2 as int * 0x1_0000 + b3 as int * 0x100_0000
        == v as int) by (bit_vector)
        requires
            b0 == (v & 0xff) as u8,
            b1 == ((v >> 8) & 0xff) as u8,
            b2 == ((v >> 16) & 0xff) as u8,
            b3 == ((v >> 24) & 0xff) as u8,
    ;
}

/// Appends `v` to `buf` with `byteorder`'s `WriteBytesExt::write_u16::<LittleEndian>`.
///
/// Claimed of the outside code: the two bytes of `v`, least significant
/// first, are appended and nothing else changes. Writing into a `Vec` never
/// fails (std documents `Write for Vec<u8>` as infallible).
#[verifier::external_body]
pub(crate) fn put_u16_le(buf: &mut Vec<u8>, v: u16)
    ensures
        final(buf)@ == old(buf)@ + le16(v),
{
    buf.write_u16::<LittleEndian>(v).unwrap();
}

/// Appends `v` to `buf` with `byteorder`'s `WriteBytesExt::write_u32::<LittleEndian>`.
///
/// Claimed of the outside code: the four bytes of `v`, least significant
/// first, are appended and nothing else changes.
#[verifier::external_body]
pub(crate) fn put_u32_le(buf: &mut Vec<u8>, v: u32)
    ensures
        final(buf)@ == old(buf)@ + le32(v),
{
    buf.write_u32::<LittleEndian>(v).unwrap();
}

/// Reads a `u16` with `byteorder`'s `LittleEndian::read_u16`.
///
/// Claimed of the outside code: the result is the number that the first two
/// bytes stand for, least significant first. It panics on fewer than two
/// bytes, which `requires` leaves out.
#[verifier::external_body]
pub(crate) fn get_u16_le(buf: &[u8]) -> (r: u16)
    requires
        buf@.len() >= 2,
    ensures
        r == seq_le16(buf@, 0),
{
    LittleEndian::read_u16(buf)
}

/// Reads a `u32` with `byteorder`'s `LittleEndian::read_u32`.
///
/// Claimed of the outside code: the result is the number that the first four
/// bytes stand for, least significant first. It panics on fewer than four
/// bytes, which `requires` leaves out.
#[verifier::external_body]
pub(crate) fn get_u32_le(buf: &[u8]) -> (r: u32)
    requires
        buf@.len() >= 4,
    ensures
        r == seq_le32(buf@, 0),
{
    LittleEndian::read_u32(buf)
}

} // verus!
