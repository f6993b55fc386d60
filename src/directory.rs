//! The sfnt header and its table records.
use vstd::prelude::*;
use crate::cursor::{be_u16, be_u32, fits, read_u16, read_u32};
use crate::error::FormatError;

verus! {

/// Where one table lies in the font buffer.
#[derive(Debug, Clone, Copy, PartialEq, Eq, Structural)]
pub struct TableRecord {
    pub tag: u32,
    pub offset: u32,
    pub length: u32,
}

/// The version tags of fonts with TrueType outlines: 1.0, 'true' and 'typ1'.
pub open spec fn valid_magic(m: int) -> bool {
    m == 0x00010000 || m == 0x74727565 || m == 0x74797031
}

/// The record at index `i` of the directory.
pub open spec fn record_spec(b: Seq<u8>, i: int) -> TableRecord {
    TableRecord {
        tag: be_u32(b, 12 + 16 * i) as u32,
        offset: be_u32(b, 12 + 16 * i + 8) as u32,
        length: be_u32(b, 12 + 16 * i + 12) as u32,
    }
}

/// Whether a record's range lies inside a buffer of `len` bytes.
pub open spec fn record_in_bounds(t: TableRecord, len: int) -> bool {
    t.offset + t.length <= len
}

/// The records of the directory, in their order.
pub open spec fn directory_records(b: Seq<u8>) -> Seq<TableRecord> {
    Seq::new(be_u16(b, 4) as nat, |i: int| record_spec(b, i))
}

/// Why the directory cannot be read, if it cannot.
pub open spec fn directory_error(b: Seq<u8>) -> Option<FormatError> {
    if !fits(b, 0, 4) {
        Some(FormatError::TruncatedBuffer)
    } else if !valid_magic(be_u32(b, 0)) {
        Some(FormatError::BadMagic)
    } else if !fits(b, 0, 12 + 16 * be_u16(b, 4)) {
        Some(FormatError::TruncatedBuffer)
    } else if exists|i: int|
        0 <= i < be_u16(b, 4) && !record_in_bounds(#[trigger] record_spec(b, i), b.len() as int) {
        Some(FormatError::TruncatedBuffer)
    } else {
        None
    }
}

/// Reads the sfnt header and its table records.
pub fn parse_directory(b: &[u8]) -> (r: Result<Vec<TableRecord>, FormatError>)
    ensures
        match r {
            Ok(v) => directory_error(b@).is_none() && v@ == directory_records(b@),
            Err(e) => directory_error(b@) == Some(e),
        },
{
    let magic = match read_u32(b, 0) {
        Ok(m) => m,
        Err(e) => return Err(e),
    };
    if !(magic == 0x00010000 || magic == 0x74727565 || magic == 0x74797031) {
        return Err(FormatError::BadMagic);
    }
    if b.len() < 12 {
        return Err(FormatError::TruncatedBuffer);
    }
    let n = read_u16(b, 4).unwrap() as usize;
    if (b.len() - 12) / 16 < n {
        return Err(FormatError::TruncatedBuffer);
    }
    let mut out: Vec<TableRecord> = Vec::new();
    let mut i: usize = 0;
    while i < n
        invariant
            i <= n,
            n == be_u16(b@, 4),
            valid_magic(be_u32(b@, 0)),
            12 + 16 * n <= b.len(),
            out@ =~= directory_records(b@).subrange(0, i as int),
            forall|j: int| 0 <= j < i ==> record_in_bounds(#[trigger] record_spec(b@, j), b.len() as int),
        decreases n - i,
    {
        let at = 12 + 16 * i;
        let tag = read_u32(b, at).unwrap();
        let offset = read_u32(b, at + 8).unwrap();
        let length = read_u32(b, at + 12).unwrap();
        let t = TableRecord { tag, offset, length };
        assert(t == record_spec(b@, i as int));
        if offset as usize > b.len() || length as usize > b.len() - offset as usize {
            proof {
                assert(!record_in_bounds(record_spec(b@, i as int), b.len() as int));
            }
            return Err(FormatError::TruncatedBuffer);
        }
        out.push(t);
        i = i + 1;
    }
    proof {
        assert(out@ =~= directory_records(b@));
    }
    Ok(out)
}

/// The first record of `tag`, if any.
pub open spec fn find_spec(recs: Seq<TableRecord>, tag: u32) -> Option<TableRecord>
    decreases recs.len(),
{
    if recs.len() == 0 {
        None
    } else if recs[0].tag == tag {
        Some(recs[0])
    } else {
        find_spec(recs.drop_first(), tag)
    }
}

pub fn find_table(recs: &Vec<TableRecord>, tag: u32) -> (r: Option<TableRecord>)
    ensures
        r == find_spec(recs@, tag),
        r is Some ==> recs@.contains(r.unwrap()),
{
    let mut i: usize = 0;
    assert(recs@.subrange(0, recs@.len() as int) =~= recs@);
    while i < recs.len()
        invariant
            i <= recs.len(),
            find_spec(recs@, tag) == find_spec(recs@.subrange(i as int, recs@.len() as int), tag),
        decreases recs.len() - i,
    {
        let ghost rest = recs@.subrange(i as int, recs@.len() as int);
        assert(rest.drop_first() =~= recs@.subrange(i + 1, recs@.len() as int));
        if recs[i].tag == tag {
            assert(rest[0] == recs@[i as int]);
            return Some(recs[i]);
        }
        i = i + 1;
    }
    None
}

} // verus!
