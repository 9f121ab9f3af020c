use vstd::prelude::*;

verus! {

/// Font units per bitmap pixel. The rasterizer and the quad layout both scale
/// by this one value: a glyph box of `w` font units covers `w / 8` pixels.
pub const UNITS_PER_PIXEL: u32 = 8;

/// Largest width or height, in pixels, of a glyph bitmap or an atlas canvas.
pub const MAX_EXTENT: u32 = 16384;

/// A glyph's bounding box in font units.
#[derive(Clone, Copy, Debug, PartialEq, Eq, Structural)]
pub struct BBox {
    pub x_min: i16,
    pub y_min: i16,
    pub x_max: i16,
    pub y_max: i16,
}

impl BBox {
    pub open spec fn width_spec(self) -> int {
        self.x_max - self.x_min
    }

    pub open spec fn height_spec(self) -> int {
        self.y_max - self.y_min
    }

    /// A box with positive width and height.
    pub open spec fn has_area(self) -> bool {
        self.x_min < self.x_max && self.y_min < self.y_max
    }
}

/// Metrics that the layout needs of a rasterized glyph.
#[derive(Clone, Copy, Debug, PartialEq, Eq, Structural)]
pub struct GlyphMetrics {
    /// Box of the outline that was rasterized (the fallback glyph's box where
    /// the glyph itself had none).
    pub bbox: BBox,
}

/// A distance-field bitmap of one glyph, as 8-bit RGBA pixels in row-major
/// order.
#[derive(Clone, Debug)]
pub struct RasterizedGlyph {
    pub id: u16,
    pub metrics: GlyphMetrics,
    pub width: u32,
    pub height: u32,
    pub pixels: Vec<u8>,
}

impl RasterizedGlyph {
    /// The pixel buffer holds exactly `width * height` RGBA pixels.
    pub open spec fn wf(&self) -> bool {
        self.pixels@.len() == 4 * (self.width as int) * (self.height as int)
    }
}

/// Number of pixels that `units` font units need: `ceil(units / 8)`.
pub open spec fn pixels_for_units(units: int) -> int {
    (units + UNITS_PER_PIXEL - 1) / (UNITS_PER_PIXEL as int)
}

} // verus!
