//! Bounds-checked big-endian reads over a byte buffer.
use vstd::prelude::*;
use crate::error::FormatError;

verus! {

/// The byte at `i`, unsigned.
pub open spec fn be_u8(b: Seq<u8>, i: int) -> int {
    b[i] as int
}

/// The byte at `i`, read as a two's-complement signed value.
pub open spec fn be_i8(b: Seq<u8>, i: int) -> int {
    if b[i] >= 128 { b[i] as int - 256 } else { b[i] as int }
}

/// Big-endian unsigned 16-bit value at `i`.
pub open spec fn be_u16(b: Seq<u8>, i: int) -> int {
    b[i] as int * 256 + b[i + 1] as int
}

/// Big-endian two's-complement 16-bit value at `i`.
pub open spec fn be_i16(b: Seq<u8>, i: int) -> int {
    if be_u16(b, i) >= 0x8000 { be_u16(b, i) - 0x10000 } else { be_u16(b, i) }
}

/// Big-endian unsigned 32-bit value at `i`.
pub open spec fn be_u32(b: Seq<u8>, i: int) -> int {
    be_u16(b, i) * 0x10000 + be_u16(b, i + 2)
}

/// Whether `n` bytes starting at `pos` lie inside `b`.
pub open spec fn fits(b: Seq<u8>, pos: int, n: int) -> bool {
    0 <= pos && pos + n <= b.len()
}

pub fn read_u8(b: &[u8], pos: usize) -> (r: Result<u8, FormatError>)
    ensures
        r.is_ok() ==> pos + 1 <= b.len(),
        r.is_ok() <==> fits(b@, pos as int, 1),
        r.is_ok() ==> r.unwrap() as int == be_u8(b@, pos as int),
        r.is_err() ==> r == Err::<u8, FormatError>(FormatError::TruncatedBuffer),
{
    if pos >= b.len() {
        Err(FormatError::TruncatedBuffer)
    } else {
        Ok(b[pos])
    }
}

pub fn read_i8(b: &[u8], pos: usize) -> (r: Result<i8, FormatError>)
    ensures
        r.is_ok() ==> pos + 1 <= b.len(),
        r.is_ok() <==> fits(b@, pos as int, 1),
        r.is_ok() ==> r.unwrap() as int == be_i8(b@, pos as int),
        r.is_err() ==> r == Err::<i8, FormatError>(FormatError::TruncatedBuffer),
{
    if pos >= b.len() {
        Err(FormatError::TruncatedBuffer)
    } else if b[pos] >= 128 {
        Ok((b[pos] as i16 - 256) as i8)
    } else {
        Ok(b[pos] as i8)
    }
}

pub fn read_u16(b: &[u8], pos: usize) -> (r: Result<u16, FormatError>)
    ensures
        r.is_ok() ==> pos + 2 <= b.len(),
        r.is_ok() <==> fits(b@, pos as int, 2),
        r.is_ok() ==> r.unwrap() as int == be_u16(b@, pos as int),
        r.is_err() ==> r == Err::<u16, FormatError>(FormatError::TruncatedBuffer),
{
    if pos > b.len() || b.len() - pos < 2 {
        Err(FormatError::TruncatedBuffer)
    } else {
        Ok((b[pos] as u16) * 256 + (b[pos + 1] as u16))
    }
}

pub fn read_i16(b: &[u8], pos: usize) -> (r: Result<i16, FormatError>)
    ensures
        r.is_ok() ==> pos + 2 <= b.len(),
        r.is_ok() <==> fits(b@, pos as int, 2),
        r.is_ok() ==> r.unwrap() as int == be_i16(b@, pos as int),
        r.is_err() ==> r == Err::<i16, FormatError>(FormatError::TruncatedBuffer),
{
    let u = read_u16(b, pos)?;
    if u >= 0x8000 {
        Ok((u as i32 - 0x10000) as i16)
    } else {
        Ok(u as i16)
    }
}

pub fn read_u32(b: &[u8], pos: usize) -> (r: Result<u32, FormatError>)
    ensures
        r.is_ok() ==> pos + 4 <= b.len(),
        r.is_ok() <==> fits(b@, pos as int, 4),
        r.is_ok() ==> r.unwrap() as int == be_u32(b@, pos as int),
        r.is_err() ==> r == Err::<u32, FormatError>(FormatError::TruncatedBuffer),
{
    if pos > b.len() || b.len() - pos < 4 {
        return Err(FormatError::TruncatedBuffer);
    }
    let hi = read_u16(b, pos)?;
    let lo = read_u16(b, pos + 2)?;
    Ok((hi as u32) * 0x10000 + lo as u32)
}

} // verus!
