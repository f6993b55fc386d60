use vstd::prelude::*;

verus! {

/// Why a font, a table or a glyph could not be decoded.
#[derive(Debug, Clone, Copy, PartialEq, Eq, Structural)]
pub enum FormatError {
    /// The sfnt version tag is not one of TrueType's.
    BadMagic,
    /// A required table, named by its big-endian tag, is absent.
    MissingTable(u32),
    /// A read or a declared range runs past the end of its buffer.
    TruncatedBuffer,
    /// A glyph id is not below the font's glyph count.
    InvalidGlyphIndex,
    /// A glyph breaks a structural rule (contour end points not increasing).
    MalformedGlyph,
    /// A table breaks a structural rule (glyph offsets decreasing).
    MalformedTable,
    /// A compound component is placed by point matching.
    UnsupportedCompoundEncoding,
    /// A compound glyph refers to itself, or nests deeper than allowed.
    CompoundCycle,
}

} // verus!
