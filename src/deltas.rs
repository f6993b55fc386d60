//! Run-length flags and delta-coded coordinates of simple glyphs.
use vstd::prelude::*;
use crate::cursor::{be_i16, be_u8, fits, read_i16, read_u8};
use crate::error::FormatError;

verus! {

/// Flag bit: the point lies on the curve.
pub const ON_CURVE: u8 = 0x01;
/// Flag bit: the x delta is one unsigned byte.
pub const X_SHORT: u8 = 0x02;
/// Flag bit: the y delta is one unsigned byte.
pub const Y_SHORT: u8 = 0x04;
/// Flag bit: the next byte counts further repeats of this flag.
pub const REPEAT: u8 = 0x08;
/// Flag bit: with `X_SHORT`, the byte is positive; without, the delta is zero.
pub const X_SAME_OR_POSITIVE: u8 = 0x10;
/// Flag bit: with `Y_SHORT`, the byte is positive; without, the delta is zero.
pub const Y_SAME_OR_POSITIVE: u8 = 0x20;

pub open spec fn min(a: int, b: int) -> int {
    if a <= b { a } else { b }
}

/// The `n` flags that run-length decoding yields from `pos`, with the position
/// after them; `None` where the bytes end first. A repeat count that reaches
/// past `n` is cut at `n`.
pub open spec fn flags_spec(b: Seq<u8>, pos: int, n: nat) -> Option<(Seq<u8>, int)>
    decreases n,
{
    if n == 0 {
        Some((Seq::empty(), pos))
    } else if !fits(b, pos, 1) {
        None
    } else {
        let f = b[pos];
        if f & REPEAT == 0 {
            match flags_spec(b, pos + 1, (n - 1) as nat) {
                Some((rest, end)) => Some((seq![f] + rest, end)),
                None => None,
            }
        } else if !fits(b, pos + 1, 1) {
            None
        } else {
            let k = min(b[pos + 1] as int + 1, n as int);
            match flags_spec(b, pos + 2, (n - k) as nat) {
                Some((rest, end)) => Some((Seq::new(k as nat, |i: int| f) + rest, end)),
                None => None,
            }
        }
    }
}

/// The deltas coded from `pos` for the flags from index `k` on, with the
/// position after them; `None` where the bytes end first.
pub open spec fn deltas_spec(
    b: Seq<u8>,
    pos: int,
    flags: Seq<u8>,
    k: int,
    short: u8,
    same: u8,
) -> Option<(Seq<int>, int)>
    decreases flags.len() - k,
{
    if k >= flags.len() || k < 0 {
        Some((Seq::empty(), pos))
    } else {
        let f = flags[k];
        let (d, next): (int, int) = if f & short != 0 {
            (if f & same != 0 { be_u8(b, pos) } else { -be_u8(b, pos) }, pos + 1)
        } else if f & same != 0 {
            (0, pos)
        } else {
            (be_i16(b, pos), pos + 2)
        };
        if next > pos && !fits(b, pos, next - pos) {
            None
        } else {
            match deltas_spec(b, next, flags, k + 1, short, same) {
                Some((rest, end)) => Some((seq![d] + rest, end)),
                None => None,
            }
        }
    }
}

/// Sum of the first `n` deltas.
pub open spec fn prefix_sum(d: Seq<int>, n: int) -> int
    decreases n,
{
    if n <= 0 || n > d.len() {
        0
    } else {
        prefix_sum(d, n - 1) + d[n - 1]
    }
}

/// Absolute coordinates from deltas: each is the sum of the deltas up to it.
pub open spec fn absolute(d: Seq<int>) -> Seq<int> {
    Seq::new(d.len(), |i: int| prefix_sum(d, i + 1))
}

/// Deltas from absolute coordinates: each less the one before it (the first
/// less zero).
pub open spec fn relative(a: Seq<int>) -> Seq<int> {
    Seq::new(a.len(), |i: int| if i == 0 { a[0] } else { a[i] - a[i - 1] })
}

/// Reads `n` run-length coded flags starting at `pos`.
pub fn read_flags(b: &[u8], pos: usize, n: usize) -> (r: Result<(Vec<u8>, usize), FormatError>)
    ensures
        match r {
            Ok((v, end)) => flags_spec(b@, pos as int, n as nat) == Some((v@, end as int)),
            Err(e) => flags_spec(b@, pos as int, n as nat).is_none()
                && e == FormatError::TruncatedBuffer,
        },
{
    let mut out: Vec<u8> = Vec::new();
    let mut p: usize = pos;
    while out.len() < n
        invariant
            out.len() <= n,
            p <= b.len() || out.len() == 0,
            p >= pos,
            p == pos || p <= b.len(),
            flags_spec(b@, pos as int, n as nat) == match flags_spec(
                b@,
                p as int,
                (n - out.len()) as nat,
            ) {
                Some((rest, end)) => Some((out@ + rest, end)),
                None => None,
            },
        decreases n - out.len(),
    {
        let f = match read_u8(b, p) {
            Ok(f) => f,
            Err(e) => return Err(e),
        };
        let left: usize = n - out.len();
        proof {
            reveal_with_fuel(flags_spec, 1);
        }
        if f & REPEAT == 0 {
            out.push(f);
            p = p + 1;
            proof {
                let ghost o = out@.drop_last();
                assert(o + (seq![f] + Seq::<u8>::empty()) =~= out@ + Seq::<u8>::empty());
                assert forall|rest: Seq<u8>| o + (seq![f] + rest) =~= out@ + rest by {}
            }
        } else {
            let r = match read_u8(b, p + 1) {
                Ok(r) => r,
                Err(e) => return Err(e),
            };
            let k: usize = if (r as usize) + 1 <= left { (r as usize) + 1 } else { left };
            let ghost o = out@;
            let mut j: usize = 0;
            while j < k
                invariant
                    j <= k,
                    k <= left,
                    left == n - o.len(),
                    p + 1 < b.len(),
                    out@ == o + Seq::new(j as nat, |i: int| f),
                decreases k - j,
            {
                out.push(f);
                j = j + 1;
                proof {
                    assert(out@ =~= o + Seq::new(j as nat, |i: int| f));
                }
            }
            p = p + 2;
            proof {
                assert forall|rest: Seq<u8>| o + (Seq::new(k as nat, |i: int| f) + rest) =~= out@ + rest by {}
            }
        }
    }
    proof {
        assert(out@ + Seq::<u8>::empty() =~= out@);
    }
    Ok((out, p))
}

/// The values of `s` as mathematical integers.
pub open spec fn to_ints(s: Seq<i32>) -> Seq<int> {
    Seq::new(s.len(), |i: int| s[i] as int)
}

/// Whether each delta fits a signed 16-bit value.
pub open spec fn deltas_in_range(d: Seq<int>) -> bool {
    forall|i: int| 0 <= i < d.len() ==> -0x8000 <= #[trigger] d[i] <= 0x7fff
}

proof fn lemma_deltas_spec_range(b: Seq<u8>, pos: int, flags: Seq<u8>, k: int, short: u8, same: u8)
    requires
        deltas_spec(b, pos, flags, k, short, same).is_some(),
    ensures
        deltas_in_range(deltas_spec(b, pos, flags, k, short, same).unwrap().0),
    decreases flags.len() - k,
{
    if 0 <= k < flags.len() {
        let f = flags[k];
        let next = if f & short != 0 { pos + 1 } else if f & same != 0 { pos } else { pos + 2 };
        lemma_deltas_spec_range(b, next, flags, k + 1, short, same);
    }
}

/// Reads one delta per flag starting at `pos`: `short` selects the one-byte
/// form, and `same` its sign or, without `short`, a zero delta.
pub fn read_deltas(b: &[u8], pos: usize, flags: &Vec<u8>, short: u8, same: u8) -> (r: Result<
    (Vec<i32>, usize),
    FormatError,
>)
    ensures
        match r {
            Ok((v, end)) => deltas_spec(b@, pos as int, flags@, 0, short, same) == Some(
                (to_ints(v@), end as int),
            ),
            Err(e) => deltas_spec(b@, pos as int, flags@, 0, short, same).is_none() && e
                == FormatError::TruncatedBuffer,
        },
        r.is_ok() ==> deltas_in_range(to_ints(r.unwrap().0@)),
{
    let mut out: Vec<i32> = Vec::new();
    let mut p: usize = pos;
    let mut k: usize = 0;
    while k < flags.len()
        invariant
            k <= flags.len(),
            out.len() == k,
            p == pos || p <= b.len(),
            deltas_spec(b@, pos as int, flags@, 0, short, same) == match deltas_spec(
                b@,
                p as int,
                flags@,
                k as int,
                short,
                same,
            ) {
                Some((rest, end)) => Some((to_ints(out@) + rest, end)),
                None => None,
            },
        decreases flags.len() - k,
    {
        let f = flags[k];
        let d: i32;
        if f & short != 0 {
            let u = match read_u8(b, p) {
                Ok(u) => u,
                Err(e) => return Err(e),
            };
            d = if f & same != 0 { u as i32 } else { -(u as i32) };
            p = p + 1;
        } else if f & same != 0 {
            d = 0;
        } else {
            let v = match read_i16(b, p) {
                Ok(v) => v,
                Err(e) => return Err(e),
            };
            d = v as i32;
            p = p + 2;
        }
        let ghost o = to_ints(out@);
        out.push(d);
        k = k + 1;
        proof {
            assert(to_ints(out@) =~= o.push(d as int));
            assert forall|rest: Seq<int>| o + (seq![d as int] + rest) =~= to_ints(out@) + rest by {}
        }
    }
    proof {
        assert(to_ints(out@) + Seq::<int>::empty() =~= to_ints(out@));
        lemma_deltas_spec_range(b@, pos as int, flags@, 0, short, same);
    }
    Ok((out, p))
}

proof fn lemma_prefix_sum_bounds(d: Seq<int>, n: int)
    requires
        deltas_in_range(d),
        0 <= n <= d.len(),
    ensures
        -0x8000 * n <= prefix_sum(d, n) <= 0x7fff * n,
    decreases n,
{
    if n > 0 {
        lemma_prefix_sum_bounds(d, n - 1);
    }
}

/// Absolute coordinates from deltas, each the running sum up to it.
pub fn accumulate(d: &Vec<i32>) -> (r: Vec<i32>)
    requires
        d.len() <= 0x10000,
        deltas_in_range(to_ints(d@)),
    ensures
        r@.len() == d@.len(),
        to_ints(r@) == absolute(to_ints(d@)),
{
    let ghost di = to_ints(d@);
    let mut out: Vec<i32> = Vec::new();
    let mut acc: i32 = 0;
    let mut i: usize = 0;
    while i < d.len()
        invariant
            i <= d.len(),
            d.len() <= 0x10000,
            di == to_ints(d@),
            deltas_in_range(di),
            out.len() == i,
            acc as int == prefix_sum(di, i as int),
            forall|j: int| 0 <= j < i ==> out@[j] as int == prefix_sum(di, j + 1),
        decreases d.len() - i,
    {
        proof {
            lemma_prefix_sum_bounds(di, i as int + 1);
        }
        acc = acc + d[i];
        out.push(acc);
        i = i + 1;
    }
    proof {
        assert(to_ints(out@) =~= absolute(di));
    }
    out
}

/// Deltas from absolute coordinates, each less the one before it.
pub fn encode_deltas(a: &Vec<i32>) -> (r: Vec<i64>)
    ensures
        r@.len() == a@.len(),
        forall|i: int| 0 <= i < r@.len() ==> r@[i] as int == #[trigger] relative(to_ints(a@))[i],
{
    let mut out: Vec<i64> = Vec::new();
    let mut i: usize = 0;
    while i < a.len()
        invariant
            i <= a.len(),
            out.len() == i,
            forall|j: int| 0 <= j < i ==> out@[j] as int == #[trigger] relative(to_ints(a@))[j],
        decreases a.len() - i,
    {
        if i == 0 {
            out.push(a[0] as i64);
        } else {
            out.push(a[i] as i64 - a[i - 1] as i64);
        }
        i = i + 1;
    }
    out
}

/// Turning deltas into absolute coordinates and back gives the deltas
/// unchanged.
pub proof fn lemma_delta_round_trip(d: Seq<int>)
    ensures
        relative(absolute(d)) == d,
{
    let a = absolute(d);
    assert forall|i: int| 0 <= i < d.len() implies #[trigger] relative(a)[i] == d[i] by {
        if i > 0 {
            assert(prefix_sum(d, i + 1) == prefix_sum(d, i) + d[i]);
        } else {
            assert(prefix_sum(d, 1) == prefix_sum(d, 0) + d[0]);
        }
    }
    assert(relative(a) =~= d);
}

} // verus!
