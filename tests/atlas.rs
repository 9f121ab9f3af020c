use glyph_atlas::atlas::{build_atlas, AtlasError};
use glyph_atlas::glyph::{BBox, GlyphMetrics, RasterizedGlyph};
use glyph_atlas::packer::{accept_frame, pack_glyphs, Placement, UVRect};

fn square(id: u16, side: u32, shade: u8) -> RasterizedGlyph {
    RasterizedGlyph {
        id,
        metrics: GlyphMetrics { bbox: BBox { x_min: 0, y_min: 0, x_max: (side * 8) as i16, y_max: (side * 8) as i16 } },
        width: side,
        height: side,
        pixels: vec![shade; (4 * side * side) as usize],
    }
}

fn disjoint(a: UVRect, b: UVRect) -> bool {
    a.x + a.w <= b.x || b.x + b.w <= a.x || a.y + a.h <= b.y || b.y + b.h <= a.y
}

#[test]
fn three_squares_fit_and_a_full_canvas_glyph_overflows() {
    let glyphs = vec![square(1, 64, 10), square(2, 64, 20), square(3, 64, 30), square(4, 256, 40)];
    let atlas = build_atlas(256, 256, &glyphs).unwrap();
    assert_eq!(atlas.entries.len(), 3);
    assert_eq!(atlas.dropped, vec![4]);
    for id in [1u16, 2, 3] {
        let r = atlas.uv_rect(id).unwrap();
        assert_eq!((r.w, r.h), (64, 64));
        assert!(r.x + r.w <= 256 && r.y + r.h <= 256);
    }
    assert!(atlas.uv_rect(4).is_none());
    assert!(!atlas.contains(4));
}

#[test]
fn three_squares_alone_all_pack() {
    let glyphs = vec![square(1, 64, 10), square(2, 64, 20), square(3, 64, 30)];
    let atlas = build_atlas(256, 256, &glyphs).unwrap();
    assert_eq!(atlas.entries.len(), 3);
    assert!(atlas.dropped.is_empty());
}

#[test]
fn skyline_places_in_insertion_order_along_the_top() {
    let glyphs = vec![square(7, 64, 1), square(8, 64, 2), square(9, 64, 3)];
    let atlas = build_atlas(256, 256, &glyphs).unwrap();
    assert_eq!(atlas.uv_rect(7).unwrap(), UVRect { x: 0, y: 0, w: 64, h: 64 });
    assert_eq!(atlas.uv_rect(8).unwrap(), UVRect { x: 64, y: 0, w: 64, h: 64 });
    assert_eq!(atlas.uv_rect(9).unwrap(), UVRect { x: 128, y: 0, w: 64, h: 64 });
}

#[test]
fn packed_rectangles_are_disjoint_and_inside() {
    let mut glyphs = Vec::new();
    for i in 0..40u16 {
        glyphs.push(square(i, 10 + (i as u32 % 7) * 9, i as u8));
    }
    let out = pack_glyphs(200, 200, &glyphs);
    assert!(!out.placed.is_empty());
    for (i, a) in out.placed.iter().enumerate() {
        assert!(a.rect.x + a.rect.w <= 200 && a.rect.y + a.rect.h <= 200);
        for b in out.placed.iter().skip(i + 1) {
            assert!(disjoint(a.rect, b.rect));
        }
    }
    assert_eq!(out.placed.len() + out.dropped.len(), 40);
}

#[test]
fn zero_sized_and_duplicate_glyphs() {
    let glyphs = vec![square(1, 0, 0), square(2, 8, 5), square(2, 8, 6)];
    let out = pack_glyphs(64, 64, &glyphs);
    assert_eq!(out.dropped, vec![1]);
    assert_eq!(out.placed.len(), 1);
    assert_eq!(out.placed[0].glyph, 2);
    assert_eq!(out.placed[0].source, 1);
}

#[test]
fn frames_that_overlap_or_spill_are_refused() {
    let placed = vec![Placement { glyph: 1, source: 0, rect: UVRect { x: 0, y: 0, w: 10, h: 10 } }];
    assert_eq!(accept_frame(&placed, 32, 32, 4, 4, Some((5, 5, 4, 4))), None);
    assert_eq!(accept_frame(&placed, 32, 32, 4, 4, Some((30, 0, 4, 4))), None);
    assert_eq!(accept_frame(&placed, 32, 32, 4, 4, Some((10, 0, 5, 4))), None);
    assert_eq!(accept_frame(&placed, 32, 32, 4, 4, None), None);
    assert_eq!(accept_frame(&placed, 32, 32, 4, 4, Some((10, 0, 4, 4))), Some(UVRect { x: 10, y: 0, w: 4, h: 4 }));
}

#[test]
fn empty_canvas_is_an_error() {
    let glyphs = vec![square(1, 4, 1)];
    assert_eq!(build_atlas(0, 16, &glyphs).unwrap_err(), AtlasError::EmptyCanvas);
    assert_eq!(build_atlas(16, 0, &glyphs).unwrap_err(), AtlasError::EmptyCanvas);
}

#[test]
fn export_copies_glyph_pixels_and_clears_the_rest() {
    let mut g = square(5, 2, 0);
    g.pixels = (1..=16).collect();
    let atlas = build_atlas(4, 3, &vec![g]).unwrap();
    assert_eq!(atlas.pixels.len(), 4 * 4 * 3);
    let r = atlas.uv_rect(5).unwrap();
    assert_eq!((r.x, r.y), (0, 0));
    // pixel (1, 1) of the canvas is pixel (1, 1) of the glyph
    let at = |col: usize, row: usize| &atlas.pixels[4 * (row * 4 + col)..4 * (row * 4 + col) + 4];
    assert_eq!(at(0, 0), &[1, 2, 3, 4]);
    assert_eq!(at(1, 1), &[13, 14, 15, 16]);
    assert_eq!(at(2, 0), &[0, 0, 0, 0]);
    assert_eq!(at(3, 2), &[0, 0, 0, 0]);
}

#[test]
fn well_formedness_check_spots_overlap_and_short_buffers() {
    let glyphs = vec![square(1, 8, 1), square(2, 8, 2)];
    let mut atlas = build_atlas(32, 32, &glyphs).unwrap();
    assert!(atlas.check_wf());
    let mut broken = atlas.clone();
    broken.entries[1].rect = broken.entries[0].rect;
    assert!(!broken.check_wf());
    let mut outside = atlas.clone();
    outside.entries[0].rect.x = 30;
    assert!(!outside.check_wf());
    atlas.pixels.pop();
    assert!(!atlas.check_wf());
}

#[test]
fn glyph_as_high_as_the_canvas_is_dropped_and_first_fit_goes_to_origin() {
    let glyphs = vec![square(1, 32, 1), square(2, 8, 2), square(3, 0, 3)];
    let atlas = build_atlas(64, 32, &glyphs).unwrap();
    assert_eq!(atlas.dropped, vec![1, 3]);
    assert_eq!(atlas.entries[0].glyph, 2);
    assert_eq!(atlas.entries[0].rect, UVRect { x: 0, y: 0, w: 8, h: 8 });
}
