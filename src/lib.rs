//! TrueType font decoding: the table directory and metric tables, glyph
//! outlines, quadratic curve reconstruction, character mapping and shaping,
//! and canvas scripts that draw the outlines.

pub mod canvas;
pub mod cmap;
pub mod cursor;
pub mod deltas;
pub mod directory;
pub mod error;
pub mod font;
pub mod glyph;
pub mod outline;
pub mod shaper;
pub mod tables;
