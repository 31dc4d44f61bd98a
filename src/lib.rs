//! Frame-paced text rendering: raster frames become grids of glyphs, shown
//! against a fixed clock origin while an audio track plays alongside.

pub mod palette;
pub mod raster;
pub mod glyph;
pub mod enumerator;
pub mod session;
pub mod schedule;
