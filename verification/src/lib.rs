//! Rendering of three-dimensional shapes into a grid of terminal characters.
pub mod ascii;
pub mod basic_rasterizer;
pub mod fancy_rasterizer;
pub mod gpu;
pub mod rasterizer;
pub mod read;
pub mod render;
pub mod scalar;
pub mod scene;
pub mod screenshot;
pub mod surface;
pub mod tui;
