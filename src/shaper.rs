//! Turning a string into positioned glyphs.
use vstd::prelude::*;
use vstd::string::StrSliceExecFns;
use crate::font::{glyph_id_spec, glyph_result, Font, FontModel, Glyph};
use crate::error::FormatError;
use crate::glyph::{GlyphData, GlyphDescription, GlyphModel};

verus! {

/// A glyph and the pen position it is drawn at, in font units.
#[derive(Debug, Clone)]
pub struct ShapedGlyph {
    pub glyph: Glyph,
    pub pen_x: u128,
    pub pen_y: u128,
    /// Why the glyph could not be decoded, where it could not; its outline is
    /// then left empty.
    pub error: Option<FormatError>,
}

/// Lays out text in one font, left to right.
pub struct TrueTypeFontShaper<'a> {
    pub font: &'a Font,
}

/// How far the pen moves past character `c`.
pub open spec fn advance_of(m: FontModel, c: char) -> int {
    m.metrics[glyph_id_spec(m, c)].advance_width as int
}

/// The pen position before character `i` of `s`: the advances of those
/// before it, summed.
pub open spec fn pen_spec(m: FontModel, s: Seq<char>, i: int) -> int
    decreases i,
{
    if i <= 0 || i > s.len() {
        0
    } else {
        pen_spec(m, s, i - 1) + advance_of(m, s[i - 1])
    }
}

/// What entry `i` of shaping `s` holds: the glyph of character `i`, or where
/// that glyph cannot be decoded, an empty outline with its metrics and the
/// reason; drawn at the pen position before it.
pub open spec fn shaped_spec(m: FontModel, s: Seq<char>, i: int, sg: ShapedGlyph) -> bool {
    let id = glyph_id_spec(m, s[i]);
    &&& sg.glyph.id == id
    &&& sg.pen_x == pen_spec(m, s, i)
    &&& sg.pen_y == 0
    &&& sg.glyph.advance_width == m.metrics[id].advance_width
    &&& sg.glyph.left_side_bearing == m.metrics[id].left_side_bearing
    &&& match glyph_result(m, id) {
        Ok((d, g)) => sg.glyph.description == d && sg.glyph.data@ == g && sg.error is None,
        Err(e) => sg.glyph.description == (GlyphDescription { x_min: 0, y_min: 0, x_max: 0, y_max: 0 })
            && sg.glyph.data@ is Empty && sg.error == Some(e),
    }
}

proof fn lemma_pen_bound(m: FontModel, s: Seq<char>, i: int)
    requires
        0 <= i <= s.len(),
    ensures
        0 <= pen_spec(m, s, i) <= 0xffff * i,
    decreases i,
{
    if i > 0 {
        lemma_pen_bound(m, s, i - 1);
    }
}

impl<'a> From<&'a Font> for TrueTypeFontShaper<'a> {
    fn from(font: &'a Font) -> (r: Self) {
        TrueTypeFontShaper { font }
    }
}

impl<'a> vstd::std_specs::convert::FromSpecImpl<&'a Font> for TrueTypeFontShaper<'a> {
    open spec fn obeys_from_spec() -> bool {
        true
    }

    open spec fn from_spec(font: &'a Font) -> Self {
        TrueTypeFontShaper { font }
    }
}

impl<'a> TrueTypeFontShaper<'a> {
    pub fn new(font: &'a Font) -> (r: Self)
        ensures
            r.font == font,
    {
        TrueTypeFontShaper { font }
    }

    /// One entry per character of `text`, in order, the pen moving right by
    /// each glyph's advance width.
    pub fn shape(&self, text: &str) -> (r: Vec<ShapedGlyph>)
        ensures
            r@.len() == text@.len(),
            forall|i: int| 0 <= i < r@.len() ==> shaped_spec(self.font@, text@, i, #[trigger] r@[i]),
            forall|i: int| 0 < i < r@.len() ==> r@[i - 1].pen_x <= #[trigger] r@[i].pen_x,
    {
        let ghost m = self.font@;
        let n = text.unicode_len();
        let mut out: Vec<ShapedGlyph> = Vec::new();
        let mut pen: u128 = 0;
        let mut i: usize = 0;
        while i < n
            invariant
                i <= n,
                n == text@.len(),
                m == self.font@,
                out@.len() == i,
                pen == pen_spec(m, text@, i as int),
                forall|j: int| 0 <= j < i ==> shaped_spec(m, text@, j, #[trigger] out@[j]),
                forall|j: int| 0 < j < i ==> out@[j - 1].pen_x <= #[trigger] out@[j].pen_x,
            decreases n - i,
        {
            let c = text.get_char(i);
            let id = self.font.glyph_id(c);
            let metric = self.font.metric(id);
            let (glyph, error) = match self.font.glyph(id) {
                Ok(g) => (g, None),
                Err(e) => (
                    Glyph {
                        id,
                        description: GlyphDescription { x_min: 0, y_min: 0, x_max: 0, y_max: 0 },
                        data: GlyphData::Empty,
                        advance_width: metric.advance_width,
                        left_side_bearing: metric.left_side_bearing,
                    },
                    Some(e),
                ),
            };
            proof {
                lemma_pen_bound(m, text@, i as int + 1);
            }
            out.push(ShapedGlyph { glyph, pen_x: pen, pen_y: 0, error });
            pen = pen + metric.advance_width as u128;
            i = i + 1;
        }
        out
    }
}

} // verus!
