//! Drawing the glyphs of a TrueType font, read from its file piece by piece.
pub mod glyphs;
pub mod layout;
pub mod lookup;
pub mod outline;
pub mod raster;
pub mod tables;
