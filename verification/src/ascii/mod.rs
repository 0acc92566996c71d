//! Glyphs as grids of coverage, and how well a block of pixels matches one.
pub mod glyph_render;
pub mod ssim;
