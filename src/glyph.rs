//! Decoding one glyph's bytes into a simple or compound outline.
use vstd::prelude::*;
use crate::cursor::{be_i16, be_i8, be_u16, fits, read_i16, read_i8, read_u16};
use crate::deltas::{
    absolute, accumulate, deltas_spec, flags_spec, read_deltas, read_flags, to_ints,
    ON_CURVE, X_SAME_OR_POSITIVE, X_SHORT, Y_SAME_OR_POSITIVE, Y_SHORT,
};
use crate::error::FormatError;

verus! {

/// A point of an outline in font units.
#[derive(Debug, Clone, Copy, PartialEq, Eq, Structural)]
pub struct Point {
    pub x: i32,
    pub y: i32,
    pub on_curve: bool,
}

/// A glyph's bounding box.
#[derive(Debug, Clone, Copy, PartialEq, Eq, Structural)]
pub struct GlyphDescription {
    pub x_min: i16,
    pub y_min: i16,
    pub x_max: i16,
    pub y_max: i16,
}

impl GlyphDescription {
    pub fn width(&self) -> (r: i32)
        ensures
            r == self.x_max - self.x_min,
    {
        self.x_max as i32 - self.x_min as i32
    }

    pub fn height(&self) -> (r: i32)
        ensures
            r == self.y_max - self.y_min,
    {
        self.y_max as i32 - self.y_min as i32
    }
}

/// Contours of points: contour `k` ends at index `end_points_of_contours[k]`.
#[derive(Debug, Clone)]
pub struct SimpleGlyphData {
    pub end_points_of_contours: Vec<u16>,
    pub coordinates: Vec<Point>,
}

/// The 2x2 part of a component's placement, in raw 2.14 fixed point.
#[derive(Debug, Clone, Copy, PartialEq, Eq, Structural)]
pub enum Transform {
    Identity,
    Scale(i16),
    XyScale(i16, i16),
    TwoByTwo(i16, i16, i16, i16),
}

/// One glyph placed inside a compound glyph.
#[derive(Debug, Clone, Copy, PartialEq, Eq, Structural)]
pub struct Component {
    pub flags: u16,
    pub glyph_index: u16,
    pub dx: i16,
    pub dy: i16,
    pub transform: Transform,
}

#[derive(Debug, Clone)]
pub struct CompoundGlyphData {
    pub components: Vec<Component>,
}

#[derive(Debug, Clone)]
pub enum GlyphData {
    Simple(SimpleGlyphData),
    Compound(CompoundGlyphData),
    Empty,
}

/// What a decoded glyph's outline is, as mathematical values.
pub enum GlyphModel {
    Simple { end_points: Seq<u16>, points: Seq<Point> },
    Compound(Seq<Component>),
    Empty,
}

impl SimpleGlyphData {
    /// Whether point `i` lies on the curve.
    pub fn on_curve(&self, i: usize) -> (r: bool)
        requires
            i < self.coordinates@.len(),
        ensures
            r == self.coordinates@[i as int].on_curve,
    {
        self.coordinates[i].on_curve
    }
}

impl View for GlyphData {
    type V = GlyphModel;

    open spec fn view(&self) -> GlyphModel {
        match self {
            GlyphData::Simple(s) => GlyphModel::Simple {
                end_points: s.end_points_of_contours@,
                points: s.coordinates@,
            },
            GlyphData::Compound(c) => GlyphModel::Compound(c.components@),
            GlyphData::Empty => GlyphModel::Empty,
        }
    }
}

impl GlyphData {
    pub fn is_simple(&self) -> (r: bool)
        ensures
            r == (self@ is Simple),
    {
        match self {
            GlyphData::Simple(_) => true,
            _ => false,
        }
    }
}

pub const ARG_1_AND_2_ARE_WORDS: u16 = 0x0001;
pub const ARGS_ARE_XY_VALUES: u16 = 0x0002;
pub const WE_HAVE_A_SCALE: u16 = 0x0008;
pub const MORE_COMPONENTS: u16 = 0x0020;
pub const WE_HAVE_AN_X_AND_Y_SCALE: u16 = 0x0040;
pub const WE_HAVE_A_TWO_BY_TWO: u16 = 0x0080;

/// Whether each end point is greater than the one before it.
pub open spec fn strictly_increasing(s: Seq<u16>) -> bool {
    forall|i: int| 0 < i < s.len() ==> s[i - 1] < #[trigger] s[i]
}

/// The `nc` contour end points that follow the glyph header.
pub open spec fn end_points_spec(b: Seq<u8>, nc: nat) -> Seq<u16> {
    Seq::new(nc, |k: int| be_u16(b, 10 + 2 * k) as u16)
}

/// Points from flags and absolute coordinates.
pub open spec fn points_of(flags: Seq<u8>, xs: Seq<int>, ys: Seq<int>) -> Seq<Point> {
    Seq::new(
        flags.len(),
        |i: int| Point { x: xs[i] as i32, y: ys[i] as i32, on_curve: flags[i] & ON_CURVE != 0 },
    )
}

/// The outline of a simple glyph of `nc` contours, from its bytes.
pub open spec fn simple_spec(b: Seq<u8>, nc: nat) -> Result<(Seq<u16>, Seq<Point>), FormatError> {
    let eps = end_points_spec(b, nc);
    let n: nat = if nc == 0 { 0 } else { (eps.last() + 1) as nat };
    let fpos = 12 + 2 * nc + be_u16(b, 10 + 2 * nc as int);
    if !fits(b, 10, 2 * nc as int + 2) {
        Err(FormatError::TruncatedBuffer)
    } else if !strictly_increasing(eps) {
        Err(FormatError::MalformedGlyph)
    } else if fpos > b.len() {
        Err(FormatError::TruncatedBuffer)
    } else {
        match flags_spec(b, fpos, n) {
            None => Err(FormatError::TruncatedBuffer),
            Some((flags, xpos)) => match deltas_spec(b, xpos, flags, 0, X_SHORT, X_SAME_OR_POSITIVE) {
                None => Err(FormatError::TruncatedBuffer),
                Some((xd, ypos)) => match deltas_spec(b, ypos, flags, 0, Y_SHORT, Y_SAME_OR_POSITIVE) {
                    None => Err(FormatError::TruncatedBuffer),
                    Some((yd, _)) => Ok((eps, points_of(flags, absolute(xd), absolute(yd)))),
                },
            },
        }
    }
}

proof fn lemma_flags_len(b: Seq<u8>, pos: int, n: nat)
    requires
        flags_spec(b, pos, n).is_some(),
    ensures
        flags_spec(b, pos, n).unwrap().0.len() == n,
    decreases n,
{
    if n > 0 {
        let f = b[pos];
        if f & crate::deltas::REPEAT == 0 {
            lemma_flags_len(b, pos + 1, (n - 1) as nat);
        } else {
            let k = crate::deltas::min(b[pos + 1] as int + 1, n as int);
            lemma_flags_len(b, pos + 2, (n - k) as nat);
        }
    }
}

proof fn lemma_deltas_len(b: Seq<u8>, pos: int, flags: Seq<u8>, k: int, short: u8, same: u8)
    requires
        deltas_spec(b, pos, flags, k, short, same).is_some(),
        0 <= k <= flags.len(),
    ensures
        deltas_spec(b, pos, flags, k, short, same).unwrap().0.len() == flags.len() - k,
    decreases flags.len() - k,
{
    if k < flags.len() {
        let f = flags[k];
        let next = if f & short != 0 { pos + 1 } else if f & same != 0 { pos } else { pos + 2 };
        lemma_deltas_len(b, next, flags, k + 1, short, same);
    }
}

/// Reads the `nc` contour end points, which must increase strictly.
fn read_end_points(b: &[u8], nc: u16) -> (r: Result<Vec<u16>, FormatError>)
    requires
        fits(b@, 10, 2 * nc + 2),
    ensures
        match r {
            Ok(v) => v@ == end_points_spec(b@, nc as nat) && strictly_increasing(v@),
            Err(e) => e == FormatError::MalformedGlyph && !strictly_increasing(
                end_points_spec(b@, nc as nat),
            ),
        },
{
    let nc_us = nc as usize;
    let ghost full = end_points_spec(b@, nc as nat);
    let mut eps: Vec<u16> = Vec::new();
    let mut k: usize = 0;
    while k < nc_us
        invariant
            k <= nc_us,
            nc_us == nc,
            12 + 2 * nc_us <= b.len(),
            full == end_points_spec(b@, nc as nat),
            eps@ =~= full.subrange(0, k as int),
            strictly_increasing(eps@),
        decreases nc_us - k,
    {
        let e = match read_u16(b, 10 + 2 * k) {
            Ok(e) => e,
            Err(err) => return Err(err),
        };
        if k > 0 && eps[k - 1] >= e {
            proof {
                assert(full[k as int - 1] >= full[k as int]);
            }
            return Err(FormatError::MalformedGlyph);
        }
        eps.push(e);
        k = k + 1;
    }
    proof {
        assert(eps@ =~= full);
    }
    Ok(eps)
}

/// Points from their flags and absolute coordinates.
fn zip_points(flags: &Vec<u8>, xs: &Vec<i32>, ys: &Vec<i32>) -> (r: Vec<Point>)
    requires
        xs@.len() == flags@.len(),
        ys@.len() == flags@.len(),
    ensures
        r@ == points_of(flags@, to_ints(xs@), to_ints(ys@)),
{
    let n = flags.len();
    let ghost pts = points_of(flags@, to_ints(xs@), to_ints(ys@));
    let mut coords: Vec<Point> = Vec::new();
    let mut i: usize = 0;
    while i < n
        invariant
            i <= n,
            flags@.len() == n,
            xs@.len() == n,
            ys@.len() == n,
            pts == points_of(flags@, to_ints(xs@), to_ints(ys@)),
            coords@ =~= pts.subrange(0, i as int),
        decreases n - i,
    {
        coords.push(Point { x: xs[i], y: ys[i], on_curve: flags[i] & ON_CURVE != 0 });
        i = i + 1;
    }
    proof {
        assert(coords@ =~= pts);
    }
    coords
}

/// Decodes a simple glyph of `nc` contours. Its end points increase strictly,
/// and it has one point more than the last end point.
pub fn decode_simple(b: &[u8], nc: u16) -> (r: Result<SimpleGlyphData, FormatError>)
    ensures
        match r {
            Ok(s) => simple_spec(b@, nc as nat) == Ok::<(Seq<u16>, Seq<Point>), FormatError>(
                (s.end_points_of_contours@, s.coordinates@),
            ),
            Err(e) => simple_spec(b@, nc as nat) == Err::<(Seq<u16>, Seq<Point>), FormatError>(e),
        },
        r is Ok ==> strictly_increasing(r.unwrap().end_points_of_contours@),
        r is Ok ==> r.unwrap().end_points_of_contours@.len() == nc,
        r is Ok && nc > 0 ==> r.unwrap().coordinates@.len()
            == r.unwrap().end_points_of_contours@.last() + 1,
        r is Ok && nc == 0 ==> r.unwrap().coordinates@.len() == 0,
{
    let nc_us = nc as usize;
    if b.len() < 12 || b.len() - 12 < 2 * nc_us {
        return Err(FormatError::TruncatedBuffer);
    }
    let eps = match read_end_points(b, nc) {
        Ok(v) => v,
        Err(err) => return Err(err),
    };
    let ilen = match read_u16(b, 10 + 2 * nc_us) {
        Ok(v) => v,
        Err(err) => return Err(err),
    };
    let fpos = 12 + 2 * nc_us + ilen as usize;
    if fpos > b.len() {
        return Err(FormatError::TruncatedBuffer);
    }
    let n: usize = if nc == 0 { 0 } else { eps[nc_us - 1] as usize + 1 };
    let (flags, xpos) = match read_flags(b, fpos, n) {
        Ok(v) => v,
        Err(err) => return Err(err),
    };
    proof {
        lemma_flags_len(b@, fpos as int, n as nat);
    }
    let (xd, ypos) = match read_deltas(b, xpos, &flags, X_SHORT, X_SAME_OR_POSITIVE) {
        Ok(v) => v,
        Err(err) => return Err(err),
    };
    let (yd, _) = match read_deltas(b, ypos, &flags, Y_SHORT, Y_SAME_OR_POSITIVE) {
        Ok(v) => v,
        Err(err) => return Err(err),
    };
    proof {
        lemma_deltas_len(b@, xpos as int, flags@, 0, X_SHORT, X_SAME_OR_POSITIVE);
        lemma_deltas_len(b@, ypos as int, flags@, 0, Y_SHORT, Y_SAME_OR_POSITIVE);
    }
    let xs = accumulate(&xd);
    let ys = accumulate(&yd);
    let coords = zip_points(&flags, &xs, &ys);
    Ok(SimpleGlyphData { end_points_of_contours: eps, coordinates: coords })
}

/// The component record at `pos`, the position after it, and whether another
/// follows.
pub open spec fn component_spec(b: Seq<u8>, pos: int) -> Result<(Component, int, bool), FormatError> {
    let flags = be_u16(b, pos) as u16;
    let gid = be_u16(b, pos + 2) as u16;
    let words = flags & ARG_1_AND_2_ARE_WORDS != 0;
    let q = if words { pos + 8 } else { pos + 6 };
    let dx = if words { be_i16(b, pos + 4) } else { be_i8(b, pos + 4) };
    let dy = if words { be_i16(b, pos + 6) } else { be_i8(b, pos + 5) };
    let (t, width): (Transform, int) = if flags & WE_HAVE_A_SCALE != 0 {
        (Transform::Scale(be_i16(b, q) as i16), 2)
    } else if flags & WE_HAVE_AN_X_AND_Y_SCALE != 0 {
        (Transform::XyScale(be_i16(b, q) as i16, be_i16(b, q + 2) as i16), 4)
    } else if flags & WE_HAVE_A_TWO_BY_TWO != 0 {
        (
            Transform::TwoByTwo(
                be_i16(b, q) as i16,
                be_i16(b, q + 2) as i16,
                be_i16(b, q + 4) as i16,
                be_i16(b, q + 6) as i16,
            ),
            8,
        )
    } else {
        (Transform::Identity, 0)
    };
    if !fits(b, pos, 4) {
        Err(FormatError::TruncatedBuffer)
    } else if flags & ARGS_ARE_XY_VALUES == 0 {
        Err(FormatError::UnsupportedCompoundEncoding)
    } else if !fits(b, pos, q - pos + width) {
        Err(FormatError::TruncatedBuffer)
    } else {
        Ok((
            Component { flags, glyph_index: gid, dx: dx as i16, dy: dy as i16, transform: t },
            q + width,
            flags & MORE_COMPONENTS != 0,
        ))
    }
}

/// The component records from `pos` up to the one without a successor.
pub open spec fn components_spec(b: Seq<u8>, pos: int) -> Result<Seq<Component>, FormatError>
    decreases b.len() - pos,
{
    match component_spec(b, pos) {
        Err(e) => Err(e),
        Ok((c, next, more)) => if more && pos < next {
            match components_spec(b, next) {
                Ok(rest) => Ok(seq![c] + rest),
                Err(e) => Err(e),
            }
        } else {
            Ok(seq![c])
        },
    }
}

fn read_component(b: &[u8], pos: usize) -> (r: Result<(Component, usize, bool), FormatError>)
    ensures
        match r {
            Ok((c, next, more)) => component_spec(b@, pos as int) == Ok::<
                (Component, int, bool),
                FormatError,
            >((c, next as int, more)) && pos < next <= b.len(),
            Err(e) => component_spec(b@, pos as int) == Err::<(Component, int, bool), FormatError>(
                e,
            ),
        },
{
    if pos > b.len() || b.len() - pos < 4 {
        return Err(FormatError::TruncatedBuffer);
    }
    let flags = match read_u16(b, pos) {
        Ok(v) => v,
        Err(e) => return Err(e),
    };
    let gid = match read_u16(b, pos + 2) {
        Ok(v) => v,
        Err(e) => return Err(e),
    };
    if flags & ARGS_ARE_XY_VALUES == 0 {
        return Err(FormatError::UnsupportedCompoundEncoding);
    }
    let words = flags & ARG_1_AND_2_ARE_WORDS != 0;
    let args: usize = if words { 8 } else { 6 };
    let width: usize = if flags & WE_HAVE_A_SCALE != 0 {
        2
    } else if flags & WE_HAVE_AN_X_AND_Y_SCALE != 0 {
        4
    } else if flags & WE_HAVE_A_TWO_BY_TWO != 0 {
        8
    } else {
        0
    };
    if b.len() - pos < args + width {
        return Err(FormatError::TruncatedBuffer);
    }
    let q = pos + args;
    let (dx, dy) = if words {
        (read_i16(b, pos + 4).unwrap(), read_i16(b, pos + 6).unwrap())
    } else {
        (read_i8(b, pos + 4).unwrap() as i16, read_i8(b, pos + 5).unwrap() as i16)
    };
    let transform = if flags & WE_HAVE_A_SCALE != 0 {
        Transform::Scale(read_i16(b, q).unwrap())
    } else if flags & WE_HAVE_AN_X_AND_Y_SCALE != 0 {
        Transform::XyScale(read_i16(b, q).unwrap(), read_i16(b, q + 2).unwrap())
    } else if flags & WE_HAVE_A_TWO_BY_TWO != 0 {
        Transform::TwoByTwo(
            read_i16(b, q).unwrap(),
            read_i16(b, q + 2).unwrap(),
            read_i16(b, q + 4).unwrap(),
            read_i16(b, q + 6).unwrap(),
        )
    } else {
        Transform::Identity
    };
    let c = Component { flags, glyph_index: gid, dx, dy, transform };
    Ok((c, q + width, flags & MORE_COMPONENTS != 0))
}

/// Reads component records from `pos` until one says no other follows.
pub fn decode_compound(b: &[u8], pos: usize) -> (r: Result<CompoundGlyphData, FormatError>)
    ensures
        match r {
            Ok(c) => components_spec(b@, pos as int) == Ok::<Seq<Component>, FormatError>(
                c.components@,
            ),
            Err(e) => components_spec(b@, pos as int) == Err::<Seq<Component>, FormatError>(e),
        },
{
    let mut out: Vec<Component> = Vec::new();
    let mut p: usize = pos;
    loop
        invariant
            p == pos || p <= b.len(),
            components_spec(b@, pos as int) == match components_spec(b@, p as int) {
                Ok(rest) => Ok(out@ + rest),
                Err(e) => Err(e),
            },
        decreases b.len() - p,
    {
        let (c, next, more) = match read_component(b, p) {
            Ok(v) => v,
            Err(e) => return Err(e),
        };
        let ghost o = out@;
        out.push(c);
        if !more {
            proof {
                assert(o + seq![c] =~= out@);
            }
            return Ok(CompoundGlyphData { components: out });
        }
        proof {
            assert forall|rest: Seq<Component>| o + (seq![c] + rest) =~= out@ + rest by {}
        }
        p = next;
    }
}

/// What a glyph's bytes decode to: its box and its outline.
pub open spec fn glyph_spec(b: Seq<u8>) -> Result<(GlyphDescription, GlyphModel), FormatError> {
    let nc = be_i16(b, 0);
    let desc = GlyphDescription {
        x_min: be_i16(b, 2) as i16,
        y_min: be_i16(b, 4) as i16,
        x_max: be_i16(b, 6) as i16,
        y_max: be_i16(b, 8) as i16,
    };
    if b.len() == 0 {
        Ok((GlyphDescription { x_min: 0, y_min: 0, x_max: 0, y_max: 0 }, GlyphModel::Empty))
    } else if b.len() < 10 {
        Err(FormatError::TruncatedBuffer)
    } else if nc >= 0 {
        match simple_spec(b, nc as nat) {
            Ok((eps, pts)) => Ok((desc, GlyphModel::Simple { end_points: eps, points: pts })),
            Err(e) => Err(e),
        }
    } else if nc == -1 {
        match components_spec(b, 10) {
            Ok(cs) => Ok((desc, GlyphModel::Compound(cs))),
            Err(e) => Err(e),
        }
    } else {
        Err(FormatError::MalformedGlyph)
    }
}

/// Decodes one glyph's bytes. No bytes make an empty glyph.
pub fn decode_glyph(b: &[u8]) -> (r: Result<(GlyphDescription, GlyphData), FormatError>)
    ensures
        match r {
            Ok((d, g)) => glyph_spec(b@) == Ok::<(GlyphDescription, GlyphModel), FormatError>(
                (d, g@),
            ),
            Err(e) => glyph_spec(b@) == Err::<(GlyphDescription, GlyphModel), FormatError>(e),
        },
{
    if b.len() == 0 {
        return Ok(
            (GlyphDescription { x_min: 0, y_min: 0, x_max: 0, y_max: 0 }, GlyphData::Empty),
        );
    }
    if b.len() < 10 {
        return Err(FormatError::TruncatedBuffer);
    }
    let nc = read_i16(b, 0).unwrap();
    let desc = GlyphDescription {
        x_min: read_i16(b, 2).unwrap(),
        y_min: read_i16(b, 4).unwrap(),
        x_max: read_i16(b, 6).unwrap(),
        y_max: read_i16(b, 8).unwrap(),
    };
    if nc >= 0 {
        match decode_simple(b, nc as u16) {
            Ok(s) => Ok((desc, GlyphData::Simple(s))),
            Err(e) => Err(e),
        }
    } else if nc == -1 {
        match decode_compound(b, 10) {
            Ok(c) => Ok((desc, GlyphData::Compound(c))),
            Err(e) => Err(e),
        }
    } else {
        Err(FormatError::MalformedGlyph)
    }
}

/// Every simple glyph that decodes has strictly increasing contour end
/// points, and one point more than its last end point (none without
/// contours).
pub proof fn lemma_simple_glyph_shape(b: Seq<u8>)
    requires
        glyph_spec(b) is Ok,
        glyph_spec(b).unwrap().1 is Simple,
    ensures
        ({
            let (eps, pts) = match glyph_spec(b).unwrap().1 {
                GlyphModel::Simple { end_points, points } => (end_points, points),
                _ => (Seq::empty(), Seq::empty()),
            };
            &&& strictly_increasing(eps)
            &&& eps.len() > 0 ==> pts.len() == eps.last() + 1
            &&& eps.len() == 0 ==> pts.len() == 0
        }),
{
    let nc = be_i16(b, 0);
    let nn = nc as nat;
    let eps = end_points_spec(b, nn);
    let n: nat = if nn == 0 { 0 } else { (eps.last() + 1) as nat };
    let fpos = 12 + 2 * nn + be_u16(b, 10 + 2 * nn as int);
    lemma_flags_len(b, fpos, n);
    let (flags, xpos) = flags_spec(b, fpos, n).unwrap();
    lemma_deltas_len(b, xpos, flags, 0, X_SHORT, X_SAME_OR_POSITIVE);
    let (xd, ypos) = deltas_spec(b, xpos, flags, 0, X_SHORT, X_SAME_OR_POSITIVE).unwrap();
    lemma_deltas_len(b, ypos, flags, 0, Y_SHORT, Y_SAME_OR_POSITIVE);
}

} // verus!
