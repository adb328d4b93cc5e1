//! CRC16-XMODEM checksum (polynomial 0x1021, initial value 0, no
//! reflection, no final xor).
use vstd::prelude::*;

verus! {

/// One shift of the CRC register.
pub open spec fn crc_shift(c: u16) -> u16 {
    if c & 0x8000 != 0 {
        ((c << 1u16) ^ 0x1021u16) as u16
    } else {
        (c << 1u16) as u16
    }
}

/// `n` shifts of the CRC register.
pub open spec fn crc_shifts(c: u16, n: nat) -> u16
    decreases n,
{
    if n == 0 {
        c
    } else {
        crc_shifts(crc_shift(c), (n - 1) as nat)
    }
}

/// The register after one more byte.
pub open spec fn crc_byte(c: u16, b: u8) -> u16 {
    crc_shifts(c ^ ((b as u16) << 8u16), 8)
}

/// CRC16-XMODEM of a byte sequence.
pub open spec fn crc16_spec(s: Seq<u8>) -> u16
    decreases s.len(),
{
    if s.len() == 0 {
        0
    } else {
        crc_byte(crc16_spec(s.drop_last()), s.last())
    }
}

fn crc_update(c: u16, b: u8) -> (r: u16)
    ensures
        r == crc_byte(c, b),
{
    let mut x: u16 = c ^ ((b as u16) << 8u16);
    let ghost start = x;
    let mut k: u32 = 0;
    while k < 8
        invariant
            k <= 8,
            crc_shifts(start, 8) == crc_shifts(x, (8 - k) as nat),
        decreases 8 - k,
    {
        if x & 0x8000 != 0 {
            x = (x << 1u16) ^ 0x1021u16;
        } else {
            x = x << 1u16;
        }
        k = k + 1;
    }
    x
}

/// Computes the CRC16-XMODEM checksum of `data`.
pub fn crc16_xmodem(data: &[u8]) -> (r: u16)
    ensures
        r == crc16_spec(data@),
{
    let mut crc: u16 = 0;
    let mut i: usize = 0;
    while i < data.len()
        invariant
            i <= data@.len(),
            crc == crc16_spec(data@.subrange(0, i as int)),
        decreases data@.len() - i,
    {
        assert(data@.subrange(0, i + 1).drop_last() =~= data@.subrange(0, i as int));
        crc = crc_update(crc, data[i]);
        i = i + 1;
    }
    assert(data@.subrange(0, data@.len() as int) =~= data@);
    crc
}

} // verus!
