use glyph_atlas::atlas::{build_atlas, Atlas};
use glyph_atlas::glyph::{BBox, GlyphMetrics, RasterizedGlyph};
use glyph_atlas::layout::{layout, GlyphSequence, Quad, ShapedGlyph, Vertex};
use glyph_atlas::packer::UVRect;

fn glyph(id: u16, side: u32, units: i16) -> RasterizedGlyph {
    RasterizedGlyph {
        id,
        metrics: GlyphMetrics { bbox: BBox { x_min: 0, y_min: 0, x_max: units, y_max: units } },
        width: side,
        height: side,
        pixels: vec![9; (4 * side * side) as usize],
    }
}

fn shaped(id: u16, x_advance: i32) -> ShapedGlyph {
    ShapedGlyph { id, x_advance, y_advance: 0, x_offset: 0, y_offset: 0 }
}

fn ab_atlas() -> Atlas {
    build_atlas(64, 64, &vec![glyph(1, 8, 64), glyph(2, 8, 64)]).unwrap()
}

fn ndc(num: i64, den: i64) -> f64 {
    num as f64 / den as f64
}

#[test]
fn ab_left_edges_in_ndc() {
    let atlas = ab_atlas();
    // advances of 10 px and 12 px are 80 and 96 font units
    let run = GlyphSequence { glyphs: vec![shaped(1, 80), shaped(2, 96)], x: 0, y: 0 };
    let mesh = layout(&vec![run], &atlas, 100, 100);
    assert_eq!(mesh.vertices.len(), 8);
    assert_eq!(mesh.indices.len(), 12);
    assert_eq!(mesh.x_den, 800);
    assert_eq!(mesh.vertices[0].x, -800);
    assert_eq!(mesh.vertices[4].x, -640);
    assert!((ndc(mesh.vertices[0].x, mesh.x_den) - (-1.0)).abs() < 1e-9);
    assert!((ndc(mesh.vertices[4].x, mesh.x_den) - (-0.8)).abs() < 1e-9);
    // the quad of A is 64 font units (8 px) wide
    assert_eq!(mesh.vertices[1].x, 2 * 64 - 800);
}

#[test]
fn glyph_missing_from_atlas_is_skipped_but_advances() {
    let atlas = build_atlas(256, 256, &vec![glyph(1, 64, 64), glyph(2, 64, 64), glyph(3, 64, 64), glyph(4, 256, 64)]).unwrap();
    assert_eq!(atlas.dropped, vec![4]);
    let run = GlyphSequence { glyphs: vec![shaped(1, 80), shaped(4, 80), shaped(2, 80), shaped(3, 80)], x: 0, y: 0 };
    let mesh = layout(&vec![run], &atlas, 100, 100);
    assert_eq!(mesh.vertices.len(), 4 * 3);
    assert_eq!(mesh.indices.len(), 6 * 3);
    assert!(mesh.indices.iter().all(|&i| (i as usize) < mesh.vertices.len()));
    // the third glyph stands two advances in
    assert_eq!(mesh.vertices[4].x, 2 * 160 - 800);
}

#[test]
fn layout_twice_gives_identical_buffers() {
    let atlas = ab_atlas();
    let runs = vec![
        GlyphSequence { glyphs: vec![shaped(1, 80), shaped(2, 96), shaped(1, 80)], x: 3, y: 7 },
        GlyphSequence { glyphs: vec![shaped(2, 50)], x: 40, y: 20 },
    ];
    let a = layout(&runs, &atlas, 320, 200);
    let b = layout(&runs, &atlas, 320, 200);
    assert_eq!(a.vertices, b.vertices);
    assert_eq!(a.indices, b.indices);
    assert_eq!((a.x_den, a.y_den), (b.x_den, b.y_den));
}

#[test]
fn quad_left_edges_never_decrease_left_to_right() {
    let atlas = ab_atlas();
    let run = GlyphSequence { glyphs: vec![shaped(1, 30), shaped(2, 0), shaped(1, 12), shaped(2, 90), shaped(1, 1)], x: 5, y: 5 };
    let mesh = layout(&vec![run], &atlas, 640, 480);
    let lefts: Vec<i64> = mesh.vertices.chunks(4).map(|q| q[0].x).collect();
    assert_eq!(lefts.len(), 5);
    assert!(lefts.windows(2).all(|w| w[0] <= w[1]));
}

#[test]
fn runs_start_at_their_origin_and_indices_follow_quads() {
    let atlas = ab_atlas();
    let runs = vec![
        GlyphSequence { glyphs: vec![shaped(1, 80)], x: 0, y: 0 },
        GlyphSequence { glyphs: vec![shaped(2, 80)], x: 50, y: 25 },
    ];
    let mesh = layout(&runs, &atlas, 100, 100);
    assert_eq!(mesh.vertices[4].x, 2 * 400 - 800);
    assert_eq!(mesh.vertices[4].y, 2 * 200 - 800);
    assert_eq!(mesh.indices, vec![0, 1, 2, 0, 2, 3, 4, 5, 6, 4, 6, 7]);
}

#[test]
fn quad_corners_and_uvs() {
    let q = Quad::new(0, 0, 80, 40, UVRect { x: 8, y: 16, w: 10, h: 5 }, 100, 50);
    assert_eq!((q.x1, q.y1, q.x2, q.y2), (-800, -400, 160 - 800, 80 - 400));
    let v = q.vertices();
    assert_eq!(v[0], Vertex { x: -800, y: -400, u: 8, v: 21 });
    assert_eq!(v[2], Vertex { x: -640, y: -320, u: 18, v: 16 });
    assert_eq!(q.indices(4), [4, 5, 6, 4, 6, 7]);
}

#[test]
fn bearings_and_offsets_shift_the_quad() {
    let g = RasterizedGlyph {
        id: 1,
        metrics: GlyphMetrics { bbox: BBox { x_min: 16, y_min: -8, x_max: 80, y_max: 56 } },
        width: 8,
        height: 8,
        pixels: vec![0; 256],
    };
    let atlas = build_atlas(32, 32, &vec![g]).unwrap();
    let run = GlyphSequence { glyphs: vec![ShapedGlyph { id: 1, x_advance: 0, y_advance: 0, x_offset: 8, y_offset: 4 }], x: 1, y: 2 };
    let mesh = layout(&vec![run], &atlas, 100, 100);
    // left = 8 + 8 + 16 font units, bottom = 16 + 4 - 8
    assert_eq!(mesh.vertices[0].x, 2 * 32 - 800);
    assert_eq!(mesh.vertices[0].y, 2 * 12 - 800);
    assert_eq!(mesh.vertices[2].x, 2 * 96 - 800);
}
