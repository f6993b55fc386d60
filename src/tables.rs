//! The fixed-layout tables: head, maxp, hhea, hmtx, loca, and the choice of a
//! cmap subtable.
use vstd::prelude::*;
use vstd::slice::slice_subrange;
use crate::cursor::{be_i16, be_u16, be_u32, fits, read_i16, read_u16, read_u32};
use crate::error::FormatError;

verus! {

/// Advance width and left side bearing of one glyph.
#[derive(Debug, Clone, Copy, PartialEq, Eq, Structural)]
pub struct HMetric {
    pub advance_width: u16,
    pub left_side_bearing: i16,
}

/// The metrics of glyph `g`, from an hmtx table of `nhm` full records.
pub open spec fn metric_spec(hmtx: Seq<u8>, nhm: int, g: int) -> HMetric {
    if g < nhm {
        HMetric {
            advance_width: be_u16(hmtx, 4 * g) as u16,
            left_side_bearing: be_i16(hmtx, 4 * g + 2) as i16,
        }
    } else {
        let at = 4 * nhm + 2 * (g - nhm);
        HMetric {
            advance_width: be_u16(hmtx, 4 * (nhm - 1)) as u16,
            left_side_bearing: if fits(hmtx, at, 2) {
                be_i16(hmtx, at) as i16
            } else {
                be_i16(hmtx, 4 * (nhm - 1) + 2) as i16
            },
        }
    }
}

/// The number of full hmtx records that `n` glyphs read.
pub open spec fn records_read(n: int, nhm: int) -> int {
    if nhm < n { nhm } else { n }
}

/// Metrics of glyphs `0..n` from an hmtx table of `nhm` full records.
pub fn read_metrics(hmtx: &[u8], n: u16, nhm: u16) -> (r: Result<Vec<HMetric>, FormatError>)
    requires
        nhm >= 1,
    ensures
        match r {
            Ok(v) => fits(hmtx@, 0, 4 * records_read(n as int, nhm as int)) && v@ == Seq::new(
                n as nat,
                |g: int| metric_spec(hmtx@, nhm as int, g),
            ),
            Err(e) => e == FormatError::TruncatedBuffer && !fits(
                hmtx@,
                0,
                4 * records_read(n as int, nhm as int),
            ),
        },
{
    let full: usize = if nhm < n { nhm as usize } else { n as usize };
    if hmtx.len() / 4 < full {
        return Err(FormatError::TruncatedBuffer);
    }
    let nhm_us = nhm as usize;
    let ghost want = Seq::new(n as nat, |g: int| metric_spec(hmtx@, nhm as int, g));
    let mut out: Vec<HMetric> = Vec::new();
    let mut g: usize = 0;
    while g < n as usize
        invariant
            g <= n,
            nhm_us == nhm,
            nhm >= 1,
            full == records_read(n as int, nhm as int),
            4 * full <= hmtx.len(),
            want == Seq::new(n as nat, |g: int| metric_spec(hmtx@, nhm as int, g)),
            out@ =~= want.subrange(0, g as int),
        decreases n - g,
    {
        let m = if g < nhm_us {
            HMetric {
                advance_width: read_u16(hmtx, 4 * g).unwrap(),
                left_side_bearing: read_i16(hmtx, 4 * g + 2).unwrap(),
            }
        } else {
            let adv = read_u16(hmtx, 4 * (nhm_us - 1)).unwrap();
            let at = 4 * nhm_us + 2 * (g - nhm_us);
            let lsb = match read_i16(hmtx, at) {
                Ok(v) => v,
                Err(_) => read_i16(hmtx, 4 * (nhm_us - 1) + 2).unwrap(),
            };
            HMetric { advance_width: adv, left_side_bearing: lsb }
        };
        out.push(m);
        g = g + 1;
    }
    Ok(out)
}

/// Byte offset into glyf of entry `g` of a loca table.
pub open spec fn loca_entry(loca: Seq<u8>, g: int, long: bool) -> int {
    if long { be_u32(loca, 4 * g) } else { 2 * be_u16(loca, 2 * g) }
}

/// Why the loca table of `n` glyphs cannot be used with a glyf table of
/// `glyf_len` bytes, if it cannot.
pub open spec fn loca_error(loca: Seq<u8>, n: int, long: bool, glyf_len: int) -> Option<FormatError> {
    if !fits(loca, 0, (n + 1) * if long { 4int } else { 2int }) {
        Some(FormatError::TruncatedBuffer)
    } else if exists|g: int| 0 <= g < n && #[trigger] loca_entry(loca, g, long) > loca_entry(loca, g + 1, long) {
        Some(FormatError::MalformedTable)
    } else if loca_entry(loca, n, long) > glyf_len {
        Some(FormatError::TruncatedBuffer)
    } else {
        None
    }
}

/// The `n + 1` glyph offsets of a loca table.
pub fn read_loca(loca: &[u8], n: u16, long: bool, glyf_len: usize) -> (r: Result<Vec<u32>, FormatError>)
    ensures
        match r {
            Ok(v) => loca_error(loca@, n as int, long, glyf_len as int).is_none() && v@.len() == n + 1
                && (forall|g: int| 0 <= g <= n ==> #[trigger] v@[g] == loca_entry(loca@, g, long))
                && (forall|g: int| 0 <= g <= n ==> #[trigger] v@[g] <= glyf_len),
            Err(e) => loca_error(loca@, n as int, long, glyf_len as int) == Some(e),
        },
{
    let w: usize = if long { 4 } else { 2 };
    let count = n as usize + 1;
    if loca.len() / w < count {
        return Err(FormatError::TruncatedBuffer);
    }
    let mut out: Vec<u32> = Vec::new();
    let mut g: usize = 0;
    while g < count
        invariant
            g <= count,
            count == n + 1,
            w == if long { 4usize } else { 2usize },
            count * w <= loca.len(),
            out@.len() == g,
            forall|j: int| 0 <= j < g ==> #[trigger] out@[j] == loca_entry(loca@, j, long),
            forall|j: int| 0 <= j < g - 1 ==> #[trigger] loca_entry(loca@, j, long) <= loca_entry(loca@, j + 1, long),
            forall|j: int| 0 <= j < g ==> #[trigger] out@[j] <= out@[g - 1],
        decreases count - g,
    {
        let e: u32 = if long {
            read_u32(loca, 4 * g).unwrap()
        } else {
            2 * (read_u16(loca, 2 * g).unwrap() as u32)
        };
        if g > 0 && out[g - 1] > e {
            proof {
                assert(loca_entry(loca@, g - 1, long) > loca_entry(loca@, (g - 1) + 1, long));
            }
            return Err(FormatError::MalformedTable);
        }
        out.push(e);
        g = g + 1;
    }
    if out[n as usize] as usize > glyf_len {
        return Err(FormatError::TruncatedBuffer);
    }
    proof {
        assert forall|j: int| 0 <= j < n implies !(#[trigger] loca_entry(loca@, j, long) > loca_entry(loca@, j + 1, long)) by {}
    }
    Ok(out)
}

/// Whether the encoding record `i` of a cmap table names a Unicode subtable
/// of format 4.
pub open spec fn usable_record(cmap: Seq<u8>, i: int) -> bool {
    let rec = 4 + 8 * i;
    let platform = be_u16(cmap, rec);
    let encoding = be_u16(cmap, rec + 2);
    let off = be_u32(cmap, rec + 4);
    (platform == 0 || (platform == 3 && encoding == 1)) && fits(cmap, off, 4) && be_u16(cmap, off) == 4
}

/// The first usable record from `i` on.
pub open spec fn first_usable(cmap: Seq<u8>, nt: int, i: int) -> Option<int>
    decreases nt - i,
{
    if i < 0 || i >= nt {
        None
    } else if usable_record(cmap, i) {
        Some(i)
    } else {
        first_usable(cmap, nt, i + 1)
    }
}

/// The bytes of the subtable that record `i` names, cut at the table's end.
pub open spec fn subtable_bytes(cmap: Seq<u8>, i: int) -> Seq<u8> {
    let off = be_u32(cmap, 4 + 8 * i + 4);
    let end = off + be_u16(cmap, off + 2);
    cmap.subrange(off, if end <= cmap.len() { end } else { cmap.len() as int })
}

/// The format 4 subtable the font maps characters with; empty where it has
/// none, so that every character maps to glyph zero.
pub open spec fn cmap_subtable_spec(cmap: Seq<u8>) -> Result<Seq<u8>, FormatError> {
    let nt = be_u16(cmap, 2);
    if !fits(cmap, 0, 4) || !fits(cmap, 0, 4 + 8 * nt) {
        Err(FormatError::TruncatedBuffer)
    } else {
        match first_usable(cmap, nt, 0) {
            None => Ok(Seq::empty()),
            Some(i) => Ok(subtable_bytes(cmap, i)),
        }
    }
}

pub fn read_cmap_subtable(cmap: &[u8]) -> (r: Result<Vec<u8>, FormatError>)
    ensures
        match r {
            Ok(v) => cmap_subtable_spec(cmap@) == Ok::<Seq<u8>, FormatError>(v@),
            Err(e) => cmap_subtable_spec(cmap@) == Err::<Seq<u8>, FormatError>(e),
        },
{
    if cmap.len() < 4 {
        return Err(FormatError::TruncatedBuffer);
    }
    let nt = read_u16(cmap, 2).unwrap() as usize;
    if (cmap.len() - 4) / 8 < nt {
        return Err(FormatError::TruncatedBuffer);
    }
    let mut i: usize = 0;
    while i < nt
        invariant
            i <= nt,
            nt == be_u16(cmap@, 2),
            4 + 8 * nt <= cmap.len(),
            first_usable(cmap@, nt as int, 0) == first_usable(cmap@, nt as int, i as int),
        decreases nt - i,
    {
        let rec = 4 + 8 * i;
        let platform = read_u16(cmap, rec).unwrap();
        let encoding = read_u16(cmap, rec + 2).unwrap();
        let off = read_u32(cmap, rec + 4).unwrap() as usize;
        if platform == 0 || (platform == 3 && encoding == 1) {
            if off <= cmap.len() && cmap.len() - off >= 4 {
                let format = read_u16(cmap, off).unwrap();
                if format == 4 {
                    let len = read_u16(cmap, off + 2).unwrap() as usize;
                    let end = if len <= cmap.len() - off { off + len } else { cmap.len() };
                    let sub = slice_subrange(cmap, off, end);
                    return Ok(vstd::slice::slice_to_vec(sub));
                }
            }
        }
        i = i + 1;
    }
    Ok(Vec::new())
}

} // verus!
