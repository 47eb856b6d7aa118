//! Reading fixed-width integers out of a TIFF-structured byte buffer.
//!
//! Every reader is total: a read that would run past the end of the buffer
//! yields zero, exactly like the byte-level helpers of the profile parser.

use vstd::prelude::*;

verus! {

/// TIFF field type: unsigned 16-bit integer.
pub const TYPE_SHORT: u16 = 3;
/// TIFF field type: unsigned 32-bit integer.
pub const TYPE_LONG: u16 = 4;
/// TIFF field type: signed rational (two signed 32-bit integers).
pub const TYPE_SRATIONAL: u16 = 10;
/// TIFF field type: IEEE-754 binary32.
pub const TYPE_FLOAT: u16 = 11;
/// TIFF field type: IEEE-754 binary64.
pub const TYPE_DOUBLE: u16 = 12;

/// The 16-bit value stored at `off`, or 0 when two bytes are not available there.
pub open spec fn u16_at(d: Seq<u8>, off: int, le: bool) -> u16 {
    if off < 0 || off + 2 > d.len() {
        0
    } else if le {
        (d[off] + 256 * d[off + 1]) as u16
    } else {
        (256 * d[off] + d[off + 1]) as u16
    }
}

/// The 32-bit value stored at `off`, or 0 when four bytes are not available there.
pub open spec fn u32_at(d: Seq<u8>, off: int, le: bool) -> u32 {
    if off < 0 || off + 4 > d.len() {
        0
    } else if le {
        (d[off] + 0x100 * d[off + 1] + 0x1_0000 * d[off + 2] + 0x100_0000 * d[off + 3]) as u32
    } else {
        (0x100_0000 * d[off] + 0x1_0000 * d[off + 1] + 0x100 * d[off + 2] + d[off + 3]) as u32
    }
}

/// The two's-complement reading of `u32_at`.
pub open spec fn i32_at(d: Seq<u8>, off: int, le: bool) -> i32 {
    let u = u32_at(d, off, le);
    if u < 0x8000_0000 {
        u as i32
    } else {
        (u - 0x1_0000_0000) as i32
    }
}

/// The 64-bit value stored at `off`, or 0 when eight bytes are not available there.
pub open spec fn u64_at(d: Seq<u8>, off: int, le: bool) -> u64 {
    if off < 0 || off + 8 > d.len() {
        0
    } else if le {
        (u32_at(d, off, le) + 0x1_0000_0000 * u32_at(d, off + 4, le)) as u64
    } else {
        (0x1_0000_0000 * u32_at(d, off, le) + u32_at(d, off + 4, le)) as u64
    }
}

/// Size in bytes of one element of a TIFF field type (unknown types count as 1).
pub open spec fn size_of_type(typ: u16) -> nat {
    if typ == 1 || typ == 2 || typ == 6 || typ == 7 {
        1
    } else if typ == 3 || typ == 8 {
        2
    } else if typ == 4 || typ == 9 || typ == 11 {
        4
    } else if typ == 5 || typ == 10 || typ == 12 {
        8
    } else {
        1
    }
}

/// A SHORT field is read as 16 bits; every other type as 32 bits.
pub open spec fn short_or_long_at(d: Seq<u8>, off: int, typ: u16, le: bool) -> u32 {
    if typ == TYPE_SHORT {
        u16_at(d, off, le) as u32
    } else {
        u32_at(d, off, le)
    }
}

/// An offset computed in machine arithmetic that saturates at `usize::MAX`.
pub open spec fn saturate(x: int) -> int {
    if x > usize::MAX {
        usize::MAX as int
    } else {
        x
    }
}

/// Reading at a saturated offset reads the same as reading at the exact one:
/// both lie past the end of any buffer that fits in memory.
pub proof fn lemma_saturated_reads(d: Seq<u8>, x: int, le: bool)
    requires
        0 <= x,
        d.len() <= usize::MAX,
    ensures
        u16_at(d, saturate(x), le) == u16_at(d, x, le),
        u32_at(d, saturate(x), le) == u32_at(d, x, le),
        i32_at(d, saturate(x), le) == i32_at(d, x, le),
        u64_at(d, saturate(x), le) == u64_at(d, x, le),
{
    if x > usize::MAX {
        assert(u16_at(d, saturate(x), le) == 0);
        assert(u32_at(d, saturate(x), le) == 0);
        assert(u64_at(d, saturate(x), le) == 0);
        assert(u16_at(d, x, le) == 0);
        assert(u32_at(d, x, le) == 0);
        assert(u64_at(d, x, le) == 0);
    }
}

/// `base + index * stride`, saturating at `usize::MAX`.
pub fn offset_of(base: usize, index: usize, stride: usize) -> (r: usize)
    ensures
        r == saturate(base + index * stride),
{
    match index.checked_mul(stride) {
        Some(m) => base.saturating_add(m),
        None => {
            assert(index * stride > usize::MAX);
            usize::MAX
        },
    }
}

/// Reads a 16-bit integer in the given byte order; 0 when out of bounds.
pub fn read_u16(data: &[u8], offset: usize, le: bool) -> (r: u16)
    ensures
        r == u16_at(data@, offset as int, le),
{
    if offset > data.len() || data.len() - offset < 2 {
        return 0;
    }
    let b0: u16 = data[offset] as u16;
    let b1: u16 = data[offset + 1] as u16;
    if le {
        b0 + 256 * b1
    } else {
        256 * b0 + b1
    }
}

/// Reads a 32-bit integer in the given byte order; 0 when out of bounds.
pub fn read_u32(data: &[u8], offset: usize, le: bool) -> (r: u32)
    ensures
        r == u32_at(data@, offset as int, le),
{
    if offset > data.len() || data.len() - offset < 4 {
        return 0;
    }
    let b0: u32 = data[offset] as u32;
    let b1: u32 = data[offset + 1] as u32;
    let b2: u32 = data[offset + 2] as u32;
    let b3: u32 = data[offset + 3] as u32;
    if le {
        b0 + 0x100 * b1 + 0x1_0000 * b2 + 0x100_0000 * b3
    } else {
        0x100_0000 * b0 + 0x1_0000 * b1 + 0x100 * b2 + b3
    }
}

/// Reads a signed 32-bit integer (two's complement); 0 when out of bounds.
pub fn read_i32(data: &[u8], offset: usize, le: bool) -> (r: i32)
    ensures
        r == i32_at(data@, offset as int, le),
{
    let u: u32 = read_u32(data, offset, le);
    if u < 0x8000_0000 {
        u as i32
    } else {
        let high: i32 = (u - 0x8000_0000) as i32;
        high - 0x7fff_ffff - 1
    }
}

/// Reads a 64-bit integer in the given byte order; 0 when out of bounds.
pub fn read_u64(data: &[u8], offset: usize, le: bool) -> (r: u64)
    ensures
        r == u64_at(data@, offset as int, le),
{
    if offset > data.len() || data.len() - offset < 8 {
        return 0;
    }
    let first: u64 = read_u32(data, offset, le) as u64;
    let second: u64 = read_u32(data, offset + 4, le) as u64;
    if le {
        first + 0x1_0000_0000 * second
    } else {
        0x1_0000_0000 * first + second
    }
}

/// Reads a SHORT field as 16 bits and any other field as 32 bits.
pub fn read_short_or_long(data: &[u8], offset: usize, typ: u16, le: bool) -> (r: u32)
    ensures
        r == short_or_long_at(data@, offset as int, typ, le),
{
    match typ {
        TYPE_SHORT => read_u16(data, offset, le) as u32,
        TYPE_LONG => read_u32(data, offset, le),
        _ => read_u32(data, offset, le),
    }
}

/// Element size of a TIFF field type.
pub fn type_size(typ: u16) -> (r: usize)
    ensures
        r == size_of_type(typ),
{
    match typ {
        1 | 2 | 6 | 7 => 1,
        3 | 8 => 2,
        4 | 9 | 11 => 4,
        5 | 10 | 12 => 8,
        _ => 1,
    }
}

} // verus!
