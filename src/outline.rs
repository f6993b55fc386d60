//! Path commands from contours of on- and off-curve points.
use vstd::prelude::*;
use crate::error::FormatError;
use vstd::slice::slice_subrange;
use crate::font::Glyph;
use crate::glyph::{strictly_increasing, GlyphData, GlyphModel, Point};

verus! {

/// A point of a path in half font units, so that the midpoint of two outline
/// points is exact: `hx / 2` is the x coordinate in font units.
#[derive(Debug, Clone, Copy, PartialEq, Eq, Structural)]
pub struct PathPoint {
    pub hx: i64,
    pub hy: i64,
}

#[derive(Debug, Clone, Copy, PartialEq, Eq, Structural)]
pub enum PathCommand {
    MoveTo(PathPoint),
    LineTo(PathPoint),
    QuadraticCurveTo(PathPoint, PathPoint),
}

pub open spec fn at(p: Point) -> PathPoint {
    PathPoint { hx: (2 * p.x) as i64, hy: (2 * p.y) as i64 }
}

pub open spec fn mid(a: Point, b: Point) -> PathPoint {
    PathPoint { hx: (a.x + b.x) as i64, hy: (a.y + b.y) as i64 }
}

/// The path point of outline point `p`.
pub fn path_point(p: Point) -> (r: PathPoint)
    ensures
        r == at(p),
        r.hx == 2 * p.x,
        r.hy == 2 * p.y,
{
    PathPoint { hx: 2 * p.x as i64, hy: 2 * p.y as i64 }
}

/// The point halfway between `a` and `b`: its coordinates in font units are
/// exactly `(a.x + b.x) / 2` and `(a.y + b.y) / 2`.
pub fn midpoint(a: Point, b: Point) -> (r: PathPoint)
    ensures
        r == mid(a, b),
        r.hx == a.x + b.x,
        r.hy == a.y + b.y,
{
    PathPoint { hx: a.x as i64 + b.x as i64, hy: a.y as i64 + b.y as i64 }
}

/// The first on-curve point from index `i` on.
pub open spec fn first_on(p: Seq<Point>, i: int) -> Option<int>
    decreases p.len() - i,
{
    if i < 0 || i >= p.len() {
        None
    } else if p[i].on_curve {
        Some(i)
    } else {
        first_on(p, i + 1)
    }
}

/// The points walked after the start of a contour, in order. From an
/// on-curve point `s`, those after it; with none on the curve, all from the
/// second, the first last.
pub open spec fn walk(p: Seq<Point>) -> Seq<Point> {
    let n = p.len() as int;
    match first_on(p, 0) {
        Some(s) => Seq::new((n - 1) as nat, |k: int| p[wrap(n, s + 1 + k)]),
        None => Seq::new(n as nat, |k: int| p[wrap(n, 1 + k)]),
    }
}

/// Index `j` of a cycle of `n` points, for `j < 2 * n`.
pub open spec fn wrap(n: int, j: int) -> int {
    if j < n { j } else { j - n }
}

/// Where a contour starts: its first on-curve point, or with none, the
/// midpoint of its first two points.
pub open spec fn start_of(p: Seq<Point>) -> PathPoint {
    match first_on(p, 0) {
        Some(s) => at(p[s]),
        None => mid(p[0], p[wrap(p.len() as int, 1)]),
    }
}

/// Segments for the walked points from `i` on, with `ctrl` the pending
/// off-curve point, ending at `target`. Two off-curve points in a row imply
/// an on-curve point at their midpoint.
pub open spec fn segments(w: Seq<Point>, i: int, ctrl: Option<Point>, target: PathPoint) -> Seq<PathCommand>
    decreases w.len() - i,
{
    if i < 0 || i >= w.len() {
        match ctrl {
            Some(c) => seq![PathCommand::QuadraticCurveTo(at(c), target)],
            None => seq![PathCommand::LineTo(target)],
        }
    } else {
        let q = w[i];
        if q.on_curve {
            let cmd = match ctrl {
                Some(c) => PathCommand::QuadraticCurveTo(at(c), at(q)),
                None => PathCommand::LineTo(at(q)),
            };
            seq![cmd] + segments(w, i + 1, None, target)
        } else {
            match ctrl {
                Some(c) => seq![PathCommand::QuadraticCurveTo(at(c), mid(c, q))] + segments(
                    w,
                    i + 1,
                    Some(q),
                    target,
                ),
                None => segments(w, i + 1, Some(q), target),
            }
        }
    }
}

/// The path of one closed contour; none for a contour without points.
pub open spec fn contour_spec(p: Seq<Point>) -> Seq<PathCommand> {
    if p.len() == 0 {
        Seq::empty()
    } else {
        seq![PathCommand::MoveTo(start_of(p))] + segments(walk(p), 0, None, start_of(p))
    }
}

/// The commands that draw the closed contour `p`. A contour without points
/// draws nothing.
pub fn contour_path(p: &[Point]) -> (r: Vec<PathCommand>)
    ensures
        r@ == contour_spec(p@),
        p@.len() == 0 ==> r@.len() == 0,
{
    let n = p.len();
    if n == 0 {
        return Vec::new();
    }
    let mut s: usize = 0;
    while s < n && !p[s].on_curve
        invariant
            s <= n,
            n == p@.len(),
            first_on(p@, 0) == first_on(p@, s as int),
        decreases n - s,
    {
        s = s + 1;
    }
    let mut w: Vec<Point> = Vec::new();
    let start: PathPoint;
    let count: usize;
    let offset: usize;
    if s < n {
        start = path_point(p[s]);
        count = n - 1;
        offset = s + 1;
    } else {
        start = midpoint(p[0], p[if 1 < n { 1 } else { 0 }]);
        count = n;
        offset = 1;
    }
    proof {
        assert(walk(p@) =~= Seq::new(count as nat, |k: int| p@[wrap(n as int, offset + k)]));
    }
    let mut k: usize = 0;
    while k < count
        invariant
            k <= count,
            count <= n,
            offset <= n,
            n == p@.len(),
            count + offset <= 2 * n,
            w@ =~= Seq::new(k as nat, |j: int| p@[wrap(n as int, offset + j)]),
        decreases count - k,
    {
        let j = if k < n - offset { offset + k } else { k - (n - offset) };
        w.push(p[j]);
        k = k + 1;
    }
    let mut out: Vec<PathCommand> = Vec::new();
    out.push(PathCommand::MoveTo(start));
    let mut ctrl: Option<Point> = None;
    let mut i: usize = 0;
    while i < w.len()
        invariant
            i <= w@.len(),
            w@ == walk(p@),
            start == start_of(p@),
            contour_spec(p@) == out@ + segments(w@, i as int, ctrl, start),
        decreases w@.len() - i,
    {
        let q = w[i];
        let ghost o = out@;
        if q.on_curve {
            let cmd = match ctrl {
                Some(c) => PathCommand::QuadraticCurveTo(path_point(c), path_point(q)),
                None => PathCommand::LineTo(path_point(q)),
            };
            out.push(cmd);
            proof {
                assert forall|rest: Seq<PathCommand>| o + (seq![cmd] + rest) =~= out@ + rest by {}
            }
            ctrl = None;
        } else {
            match ctrl {
                Some(c) => {
                    let cmd = PathCommand::QuadraticCurveTo(path_point(c), midpoint(c, q));
                    out.push(cmd);
                    proof {
                        assert forall|rest: Seq<PathCommand>| o + (seq![cmd] + rest) =~= out@ + rest by {}
                    }
                },
                None => {},
            }
            ctrl = Some(q);
        }
        i = i + 1;
    }
    match ctrl {
        Some(c) => out.push(PathCommand::QuadraticCurveTo(path_point(c), start)),
        None => out.push(PathCommand::LineTo(start)),
    }
    out
}

/// Whether contour end points can split `n` points into contours.
pub open spec fn contours_valid(eps: Seq<u16>, n: int) -> bool {
    strictly_increasing(eps) && (eps.len() > 0 ==> eps.last() < n)
}

/// The paths of contours `k` on, contour `k` starting at point `start`.
pub open spec fn outline_spec(eps: Seq<u16>, pts: Seq<Point>, k: int, start: int) -> Seq<PathCommand>
    decreases eps.len() - k,
{
    if k < 0 || k >= eps.len() {
        Seq::empty()
    } else {
        contour_spec(pts.subrange(start, eps[k] + 1)) + outline_spec(eps, pts, k + 1, eps[k] + 1)
    }
}

/// The path of an outline. A compound outline has none of its own.
pub open spec fn outline_result(g: GlyphModel) -> Result<Seq<PathCommand>, FormatError> {
    match g {
        GlyphModel::Simple { end_points, points } => if contours_valid(end_points, points.len() as int) {
            Ok(outline_spec(end_points, points, 0, 0))
        } else {
            Err(FormatError::MalformedGlyph)
        },
        GlyphModel::Compound(_) => Err(FormatError::UnsupportedCompoundEncoding),
        GlyphModel::Empty => Ok(Seq::empty()),
    }
}

proof fn lemma_increasing_le(s: Seq<u16>, i: int, j: int)
    requires
        strictly_increasing(s),
        0 <= i <= j < s.len(),
    ensures
        s[i] <= s[j],
    decreases j - i,
{
    if i < j {
        lemma_increasing_le(s, i, j - 1);
    }
}

/// The commands that draw a glyph, contour after contour.
pub fn outline_path(glyph: &Glyph) -> (r: Result<Vec<PathCommand>, FormatError>)
    ensures
        match r {
            Ok(v) => outline_result(glyph.data@) == Ok::<Seq<PathCommand>, FormatError>(v@),
            Err(e) => outline_result(glyph.data@) == Err::<Seq<PathCommand>, FormatError>(e),
        },
{
    let s = match &glyph.data {
        GlyphData::Simple(s) => s,
        GlyphData::Compound(_) => return Err(FormatError::UnsupportedCompoundEncoding),
        GlyphData::Empty => return Ok(Vec::new()),
    };
    let eps = &s.end_points_of_contours;
    let pts = &s.coordinates;
    let mut k: usize = 0;
    while k < eps.len()
        invariant
            k <= eps@.len(),
            forall|j: int| 0 < j < k ==> eps@[j - 1] < #[trigger] eps@[j],
            k > 0 ==> eps@[k - 1] < pts@.len(),
        ensures
            k < eps@.len() ==> !contours_valid(eps@, pts@.len() as int),
            k == eps@.len() ==> contours_valid(eps@, pts@.len() as int),
        decreases eps@.len() - k,
    {
        if (k > 0 && eps[k - 1] >= eps[k]) || eps[k] as usize >= pts.len() {
            proof {
                if k > 0 && eps@[k - 1] >= eps@[k as int] {
                } else {
                    assert(eps@[k as int] >= pts@.len());
                    if k + 1 < eps@.len() {
                        assert(!contours_valid(eps@, pts@.len() as int)) by {
                            if contours_valid(eps@, pts@.len() as int) {
                                lemma_increasing_le(eps@, k as int, eps@.len() - 1);
                            }
                        }
                    }
                }
            }
            break;
        }
        k = k + 1;
    }
    if k < eps.len() {
        return Err(FormatError::MalformedGlyph);
    }
    let mut out: Vec<PathCommand> = Vec::new();
    let mut start: usize = 0;
    let mut c: usize = 0;
    while c < eps.len()
        invariant
            c <= eps@.len(),
            contours_valid(eps@, pts@.len() as int),
            start == if c == 0 { 0 } else { eps@[c - 1] + 1 },
            outline_spec(eps@, pts@, 0, 0) == out@ + outline_spec(eps@, pts@, c as int, start as int),
        decreases eps@.len() - c,
    {
        let end = eps[c] as usize;
        proof {
            if c > 0 {
                assert(eps@[c - 1] < eps@[c as int]);
            }
            lemma_increasing_le(eps@, c as int, eps@.len() - 1);
        }
        let mut v = contour_path(slice_subrange(pts.as_slice(), start, end + 1));
        let ghost o = out@;
        out.append(&mut v);
        proof {
            assert forall|rest: Seq<PathCommand>| o + (contour_spec(pts@.subrange(start as int, end + 1)) + rest) =~= out@ + rest by {}
        }
        start = end + 1;
        c = c + 1;
    }
    proof {
        assert(out@ + Seq::<PathCommand>::empty() =~= out@);
    }
    Ok(out)
}

/// Every simple glyph that decodes splits into contours, so its path can be
/// had.
pub proof fn lemma_decoded_outline(b: Seq<u8>)
    requires
        crate::glyph::glyph_spec(b) is Ok,
    ensures
        crate::glyph::glyph_spec(b).unwrap().1 is Compound || outline_result(
            crate::glyph::glyph_spec(b).unwrap().1,
        ) is Ok,
{
    if crate::glyph::glyph_spec(b).unwrap().1 is Simple {
        crate::glyph::lemma_simple_glyph_shape(b);
    }
}

} // verus!
