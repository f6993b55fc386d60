//! Character to glyph mapping through a segment-mapping (format 4) subtable.
use vstd::prelude::*;
use crate::cursor::{be_u16, fits, read_u16};

verus! {

/// The number of segments of the subtable.
pub open spec fn seg_count(t: Seq<u8>) -> int {
    be_u16(t, 6) / 2
}

/// The last code of segment `i`.
pub open spec fn seg_end(t: Seq<u8>, i: int) -> int {
    be_u16(t, 14 + 2 * i)
}

/// The first segment from `i` on whose last code is at least `c`.
pub open spec fn segment_for(t: Seq<u8>, c: int, i: int) -> Option<int>
    decreases seg_count(t) - i,
{
    if i < 0 || i >= seg_count(t) {
        None
    } else if seg_end(t, i) >= c {
        Some(i)
    } else {
        segment_for(t, c, i + 1)
    }
}

/// The glyph id that the subtable `t` gives the code `c`; zero where it gives
/// none.
pub open spec fn cmap_spec(t: Seq<u8>, c: int) -> int {
    let sc = seg_count(t);
    if c > 0xffff || !fits(t, 0, 14) || !fits(t, 0, 16 + 8 * sc) {
        0
    } else {
        match segment_for(t, c, 0) {
            None => 0,
            Some(i) => {
                let start = be_u16(t, 16 + 2 * sc + 2 * i);
                let delta = be_u16(t, 16 + 4 * sc + 2 * i);
                let ro_at = 16 + 6 * sc + 2 * i;
                let ro = be_u16(t, ro_at);
                let addr = ro_at + ro + 2 * (c - start);
                if start > c {
                    0
                } else if ro == 0 {
                    (c + delta) % 0x10000
                } else if !fits(t, addr, 2) || be_u16(t, addr) == 0 {
                    0
                } else {
                    (be_u16(t, addr) + delta) % 0x10000
                }
            },
        }
    }
}

/// Looks up the glyph id of code `c` in the format 4 subtable `t`.
pub fn cmap_lookup(t: &[u8], c: u32) -> (r: u16)
    ensures
        r == cmap_spec(t@, c as int),
{
    if c > 0xffff || t.len() < 16 {
        return 0;
    }
    let sc = (read_u16(t, 6).unwrap() / 2) as usize;
    if (t.len() - 16) / 8 < sc {
        return 0;
    }
    let mut i: usize = 0;
    while i < sc
        invariant
            i <= sc,
            sc == seg_count(t@),
            16 + 8 * sc <= t.len(),
            c <= 0xffff,
            segment_for(t@, c as int, 0) == segment_for(t@, c as int, i as int),
        ensures
            i <= sc,
            segment_for(t@, c as int, 0) == segment_for(t@, c as int, i as int),
            i < sc ==> seg_end(t@, i as int) >= c,
        decreases sc - i,
    {
        let end = read_u16(t, 14 + 2 * i).unwrap();
        if end as u32 >= c {
            break;
        }
        i = i + 1;
    }
    if i == sc {
        return 0;
    }
    let start = read_u16(t, 16 + 2 * sc + 2 * i).unwrap();
    let delta = read_u16(t, 16 + 4 * sc + 2 * i).unwrap();
    let ro_at = 16 + 6 * sc + 2 * i;
    let ro = read_u16(t, ro_at).unwrap();
    if start as u32 > c {
        return 0;
    }
    if ro == 0 {
        return ((c + delta as u32) % 0x10000) as u16;
    }
    let addr = ro_at + ro as usize + 2 * (c - start as u32) as usize;
    let g = match read_u16(t, addr) {
        Ok(g) => g,
        Err(_) => return 0,
    };
    if g == 0 {
        0
    } else {
        ((g as u32 + delta as u32) % 0x10000) as u16
    }
}

} // verus!
