//! Little-endian integer fields inside byte buffers.
use vstd::prelude::*;

verus! {

/// The value of a little-endian 16-bit field made of two bytes.
pub open spec fn le_u16(b0: u8, b1: u8) -> int {
    b0 as int + 256 * (b1 as int)
}

/// The value of a little-endian 32-bit field made of four bytes.
pub open spec fn le_u32(b0: u8, b1: u8, b2: u8, b3: u8) -> int {
    b0 as int + 256 * (b1 as int) + 65536 * (b2 as int) + 16777216 * (b3 as int)
}

/// The 16-bit little-endian field of `data` that starts at `offset`.
pub open spec fn le_u16_at(data: Seq<u8>, offset: int) -> int {
    le_u16(data[offset], data[offset + 1])
}

/// The 32-bit little-endian field of `data` that starts at `offset`.
pub open spec fn le_u32_at(data: Seq<u8>, offset: int) -> int {
    le_u32(data[offset], data[offset + 1], data[offset + 2], data[offset + 3])
}

/// Reads the little-endian `u16` at `offset`.
pub fn read_le_u16(data: &[u8], offset: usize) -> (r: u16)
    requires
        offset + 2 <= data@.len(),
    ensures
        r as int == le_u16_at(data@, offset as int),
{
    data[offset] as u16 + (data[offset + 1] as u16) * 256
}

/// Writes `value` as a little-endian `u16` at `offset`, leaving every other byte alone.
pub fn write_le_u16(data: &mut [u8], offset: usize, value: u16)
    requires
        offset + 2 <= old(data)@.len(),
    ensures
        final(data)@.len() == old(data)@.len(),
        le_u16_at(final(data)@, offset as int) == value as int,
        forall|i: int|
            0 <= i < old(data)@.len() && !(offset <= i < offset + 2) ==> final(data)@[i]
                == old(data)@[i],
{
    data[offset] = (value % 256) as u8;
    data[offset + 1] = (value / 256) as u8;
}

/// Reads the little-endian `u32` at `offset`.
pub fn read_le_u32(data: &[u8], offset: usize) -> (r: u32)
    requires
        offset + 4 <= data@.len(),
    ensures
        r as int == le_u32_at(data@, offset as int),
{
    data[offset] as u32 + (data[offset + 1] as u32) * 256 + (data[offset + 2] as u32) * 65536
        + (data[offset + 3] as u32) * 16777216
}

/// Writes `value` as a little-endian `u32` at `offset`, leaving every other byte alone.
pub fn write_le_u32(data: &mut [u8], offset: usize, value: u32)
    requires
        offset + 4 <= old(data)@.len(),
    ensures
        final(data)@.len() == old(data)@.len(),
        le_u32_at(final(data)@, offset as int) == value as int,
        forall|i: int|
            0 <= i < old(data)@.len() && !(offset <= i < offset + 4) ==> final(data)@[i]
                == old(data)@[i],
{
    data[offset] = (value % 256) as u8;
    data[offset + 1] = ((value / 256) % 256) as u8;
    data[offset + 2] = ((value / 65536) % 256) as u8;
    data[offset + 3] = (value / 16777216) as u8;
}

} // verus!
