//! Big-endian integers at fixed offsets of a byte buffer.
//!
//! Every multi-byte field of a PTP message is transmitted most significant
//! byte first. The spec functions give the value of such a field as plain
//! arithmetic on the bytes; the executable readers compute exactly that.

use vstd::prelude::*;

verus! {

/// The value of the two bytes at `at` and `at + 1`, most significant first.
pub open spec fn be16(s: Seq<u8>, at: int) -> int {
    s[at] as int * 0x100 + s[at + 1] as int
}

/// The value of the four bytes that start at `at`.
pub open spec fn be32(s: Seq<u8>, at: int) -> int {
    be16(s, at) * 0x1_0000 + be16(s, at + 2)
}

/// The value of the six bytes that start at `at`.
pub open spec fn be48(s: Seq<u8>, at: int) -> int {
    be16(s, at) * 0x1_0000_0000 + be32(s, at + 2)
}

/// The value of the eight bytes that start at `at`.
pub open spec fn be64(s: Seq<u8>, at: int) -> int {
    be32(s, at) * 0x1_0000_0000 + be32(s, at + 4)
}

/// The two's-complement reading of an unsigned 8-bit value.
pub open spec fn signed8(u: int) -> int {
    if u >= 0x80 {
        u - 0x100
    } else {
        u
    }
}

/// The two's-complement reading of an unsigned 16-bit value.
pub open spec fn signed16(u: int) -> int {
    if u >= 0x8000 {
        u - 0x1_0000
    } else {
        u
    }
}

/// The two's-complement reading of an unsigned 64-bit value.
pub open spec fn signed64(u: int) -> int {
    if u >= 0x8000_0000_0000_0000 {
        u - 0x1_0000_0000_0000_0000
    } else {
        u
    }
}

/// Reads the unsigned 16-bit field at `at`.
pub(crate) fn read_u16(data: &[u8], at: usize) -> (value: u16)
    requires
        at + 2 <= data.len(),
    ensures
        value == be16(data@, at as int),
{
    let high: u16 = data[at] as u16;
    let low: u16 = data[at + 1] as u16;
    high * 0x100 + low
}

/// Reads the unsigned 32-bit field at `at`.
pub(crate) fn read_u32(data: &[u8], at: usize) -> (value: u32)
    requires
        at + 4 <= data.len(),
    ensures
        value == be32(data@, at as int),
{
    let high: u32 = read_u16(data, at) as u32;
    let low: u32 = read_u16(data, at + 2) as u32;
    high * 0x1_0000 + low
}

/// Reads the unsigned 48-bit field at `at`, zero-extended to 64 bits.
pub(crate) fn read_u48(data: &[u8], at: usize) -> (value: u64)
    requires
        at + 6 <= data.len(),
    ensures
        value == be48(data@, at as int),
        value < 0x1_0000_0000_0000,
{
    let high: u64 = read_u16(data, at) as u64;
    let low: u64 = read_u32(data, at + 2) as u64;
    high * 0x1_0000_0000 + low
}

/// Reads the unsigned 64-bit field at `at`.
pub(crate) fn read_u64(data: &[u8], at: usize) -> (value: u64)
    requires
        at + 8 <= data.len(),
    ensures
        value == be64(data@, at as int),
{
    let high: u64 = read_u32(data, at) as u64;
    let low: u64 = read_u32(data, at + 4) as u64;
    high * 0x1_0000_0000 + low
}

/// Reads a byte as a signed 8-bit integer.
pub fn to_i8(byte: u8) -> (value: i8)
    ensures
        value == signed8(byte as int),
{
    if byte >= 0x80 {
        let below: u8 = 0xff - byte;
        -(below as i8) - 1
    } else {
        byte as i8
    }
}

/// Reads the signed 16-bit field at `at`.
pub(crate) fn read_i16(data: &[u8], at: usize) -> (value: i16)
    requires
        at + 2 <= data.len(),
    ensures
        value == signed16(be16(data@, at as int)),
{
    let raw: u16 = read_u16(data, at);
    if raw >= 0x8000 {
        let below: u16 = 0xffff - raw;
        -(below as i16) - 1
    } else {
        raw as i16
    }
}

/// Reads the signed 64-bit field at `at`.
pub(crate) fn read_i64(data: &[u8], at: usize) -> (value: i64)
    requires
        at + 8 <= data.len(),
    ensures
        value == signed64(be64(data@, at as int)),
{
    let raw: u64 = read_u64(data, at);
    if raw >= 0x8000_0000_0000_0000 {
        let below: u64 = 0xffff_ffff_ffff_ffff - raw;
        -(below as i64) - 1
    } else {
        raw as i64
    }
}

} // verus!
