//! What each rasterization work item needs: the outline to draw, its box and
//! the bitmap size, with the font's default glyph standing in for a glyph
//! that has no usable outline. The distance-field rasterizer itself and the
//! worker pool that runs it are outside this crate's verified part; they hand
//! back RGBA bitmaps, which `rasterized_glyph` checks against the job.
use vstd::prelude::*;
use crate::glyph::{pixels_for_units, BBox, GlyphMetrics, RasterizedGlyph, UNITS_PER_PIXEL};
use ttf_parser::{Face, GlyphId};

verus! {

/// Whether ttf-parser reads `data` as a font (its face 0).
pub uninterp spec fn face_parses(data: Seq<u8>) -> bool;

/// The box that ttf-parser gives glyph `id` of the font in `data`.
pub uninterp spec fn face_glyph_box(data: Seq<u8>, id: u16) -> Option<BBox>;

/// Relies on `ttf_parser::Face::parse` (face 0 of the data): whether the data
/// is a font that it can read. The result depends on the bytes alone.
#[verifier::external_body]
fn parses_as_font(data: &[u8]) -> (r: bool)
    ensures
        r == face_parses(data@),
{
    Face::parse(data, 0).is_ok()
}

/// Relies on `ttf_parser::Face::glyph_bounding_box`, on face 0 of `data` as
/// `ttf_parser::Face::parse` reads it: the tight box of glyph `id`'s outline,
/// `None` where the glyph has no outline or the data is no font. The result
/// depends on the bytes and the id alone.
#[verifier::external_body]
fn glyph_bounding_box(data: &[u8], id: u16) -> (r: Option<BBox>)
    ensures
        r == face_glyph_box(data@, id),
        !face_parses(data@) ==> r is None,
{
    match Face::parse(data, 0) {
        Ok(face) => face.glyph_bounding_box(GlyphId(id)).map(|b| BBox { x_min: b.x_min, y_min: b.y_min, x_max: b.x_max, y_max: b.y_max }),
        Err(_) => None,
    }
}

/// The glyph that a font shows when it has nothing better.
pub const DEFAULT_GLYPH: u16 = 0;

/// One rasterization work item: draw `outline` (the glyph itself, or the
/// default glyph in its place), whose box is `bbox`, into a `width` x
/// `height` bitmap, shifted by `(-bbox.x_min, -bbox.y_min)` font units and
/// scaled by `1 / UNITS_PER_PIXEL`; the result is filed under `id`.
#[derive(Clone, Copy, Debug, PartialEq, Eq, Structural)]
pub struct RasterJob {
    pub id: u16,
    pub outline: u16,
    pub bbox: BBox,
    pub width: u32,
    pub height: u32,
}

/// The job for drawing the outline with box `b` under `id`.
pub open spec fn job_for(id: u16, outline: u16, b: BBox) -> RasterJob {
    RasterJob {
        id,
        outline,
        bbox: b,
        width: pixels_for_units(b.width_spec()) as u32,
        height: pixels_for_units(b.height_spec()) as u32,
    }
}

/// Bitmap pixels for a positive extent of `units` font units.
fn pixels_for(units: i32) -> (r: u32)
    requires
        1 <= units <= 0x1_0000,
    ensures
        r == pixels_for_units(units as int),
        1 <= r,
{
    ((units + UNITS_PER_PIXEL as i32 - 1) / UNITS_PER_PIXEL as i32) as u32
}

/// The job for glyph `id`, given its own box and the default glyph's: its
/// own outline where that box has area, else the default glyph's where that
/// one has, else none.
pub open spec fn plan_spec(id: u16, own: Option<BBox>, fallback: Option<BBox>) -> Option<RasterJob> {
    if own matches Some(b) && b.has_area() {
        Some(job_for(id, id, own.unwrap()))
    } else if fallback matches Some(b) && b.has_area() {
        Some(job_for(id, DEFAULT_GLYPH, fallback.unwrap()))
    } else {
        None
    }
}

/// The job for glyph `id`, given its own box and the default glyph's: its
/// own outline where that box has area, else the default glyph's where that
/// one has, else none.
pub fn plan_raster(id: u16, own: Option<BBox>, fallback: Option<BBox>) -> (r: Option<RasterJob>)
    ensures
        r == plan_spec(id, own, fallback),
{
    let (outline, b) = match own {
        Some(b) if b.x_min < b.x_max && b.y_min < b.y_max => (id, b),
        _ => match fallback {
            Some(b) if b.x_min < b.x_max && b.y_min < b.y_max => (DEFAULT_GLYPH, b),
            _ => {
                return None;
            },
        },
    };
    let width = pixels_for(b.x_max as i32 - b.x_min as i32);
    let height = pixels_for(b.y_max as i32 - b.y_min as i32);
    Some(RasterJob { id, outline, bbox: b, width, height })
}

/// The job for glyph `id` of the font in `data`: its box is looked up, and
/// the default glyph's too in case it has none or an empty one. `None` where
/// the data is no font, or neither glyph has a box with area.
pub fn glyph_job(data: &[u8], id: u16) -> (r: Option<RasterJob>)
    ensures
        r == (if face_parses(data@) {
            plan_spec(id, face_glyph_box(data@, id), face_glyph_box(data@, DEFAULT_GLYPH))
        } else {
            None
        }),
{
    if !parses_as_font(data) {
        return None;
    }
    let own = glyph_bounding_box(data, id);
    let fallback = glyph_bounding_box(data, DEFAULT_GLYPH);
    plan_raster(id, own, fallback)
}

/// Files a bitmap that a worker drew for `job`: accepted when it holds
/// exactly `width * height` RGBA pixels.
pub fn rasterized_glyph(job: &RasterJob, pixels: Vec<u8>) -> (r: Option<RasterizedGlyph>)
    ensures
        r is Some <==> pixels@.len() == 4 * (job.width as int) * (job.height as int),
        r matches Some(g) ==> g.wf() && g.id == job.id && g.width == job.width && g.height == job.height
            && g.metrics == (GlyphMetrics { bbox: job.bbox }) && g.pixels@ == pixels@,
{
    proof {
        assert((job.width as int) * (job.height as int) <= 0xffff_ffff * 0xffff_ffffint) by (nonlinear_arith)
            requires job.width <= 0xffff_ffff, job.height <= 0xffff_ffff;
        assert(4 * (job.width as int) * (job.height as int) == 4 * ((job.width as int) * (job.height as int))) by (nonlinear_arith);
    }
    let expected: u128 = 4 * ((job.width as u128) * (job.height as u128));
    if pixels.len() as u128 != expected {
        return None;
    }
    Some(RasterizedGlyph { id: job.id, metrics: GlyphMetrics { bbox: job.bbox }, width: job.width, height: job.height, pixels })
}

} // verus!
