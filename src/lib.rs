//! Glyph atlas building and text quad layout.
//!
//! Glyph bitmaps are packed into one fixed-size atlas canvas, the atlas keeps a
//! pixel rectangle per packed glyph, a cache decides when an atlas must be
//! rebuilt, and shaped glyph runs are turned into quads whose corners are given
//! as exact rational normalized device coordinates.
pub mod font;
pub mod glyph;
pub mod packer;
pub mod raster;
pub mod atlas;
pub mod config;
pub mod cache;
pub mod layout;
