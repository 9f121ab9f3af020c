use glyph_atlas::config::{Config, FramerApplication, FramerConfig, QuadValue};
use glyph_atlas::glyph::BBox;
use glyph_atlas::raster::{glyph_job, plan_raster, rasterized_glyph, RasterJob, DEFAULT_GLYPH};

fn bbox(x_min: i16, y_min: i16, x_max: i16, y_max: i16) -> BBox {
    BBox { x_min, y_min, x_max, y_max }
}

#[test]
fn own_outline_sizes_the_bitmap_by_ceiling() {
    let job = plan_raster(7, Some(bbox(-10, 0, 90, 17)), Some(bbox(0, 0, 8, 8))).unwrap();
    assert_eq!(job, RasterJob { id: 7, outline: 7, bbox: bbox(-10, 0, 90, 17), width: 13, height: 3 });
}

#[test]
fn degenerate_or_missing_outline_falls_back_to_default_glyph() {
    let job = plan_raster(7, Some(bbox(5, 5, 5, 20)), Some(bbox(0, 0, 16, 24))).unwrap();
    assert_eq!(job.outline, DEFAULT_GLYPH);
    assert_eq!(job.id, 7);
    assert_eq!((job.width, job.height), (2, 3));
    let job = plan_raster(9, None, Some(bbox(0, 0, 1, 1))).unwrap();
    assert_eq!((job.outline, job.width, job.height), (DEFAULT_GLYPH, 1, 1));
    assert!(plan_raster(9, None, None).is_none());
    assert!(plan_raster(9, None, Some(bbox(0, 0, 0, 0))).is_none());
}

#[test]
fn worker_bitmaps_must_match_the_job() {
    let job = plan_raster(3, Some(bbox(0, 0, 16, 8)), None).unwrap();
    assert!(rasterized_glyph(&job, vec![0; 7]).is_none());
    let g = rasterized_glyph(&job, vec![0; 8]).unwrap();
    assert_eq!((g.id, g.width, g.height), (3, 2, 1));
    assert_eq!(g.metrics.bbox, bbox(0, 0, 16, 8));
}

#[test]
fn bytes_that_are_no_font_do_not_parse() {
    assert!(glyph_job(&[0u8, 1, 2, 3, 4, 5, 6, 7], 1).is_none());
    assert!(glyph_job(&[], 0).is_none());
}

#[test]
fn settings_defaults() {
    let c = FramerConfig::default();
    assert_eq!((c.width, c.height, c.min_width, c.min_height), (640, 480, 320, 240));
    assert_eq!((c.max_width, c.max_height), (u64::MAX, u64::MAX));
    assert!(c.resizable);
    let w = Config::default();
    assert_eq!(w.size, (800, 600));
    assert_eq!(w.title, "Framer Application");
    assert!(w.resizable && w.decorations && !w.maximized);
    let _app = FramerApplication::new(&c);
}

#[test]
fn quad_values_from_one_two_or_four() {
    let q = QuadValue::from(3u32);
    assert_eq!((q.left, q.top, q.right, q.bottom), (3, 3, 3, 3));
    let q = QuadValue::from((1u32, 2u32));
    assert_eq!((q.left, q.top, q.right, q.bottom), (1, 2, 1, 2));
    let q = QuadValue::from([1u32, 2]);
    assert_eq!((q.left, q.top, q.right, q.bottom), (1, 2, 1, 2));
    let q = QuadValue::from((1u32, 2u32, 3u32, 4u32));
    assert_eq!((q.left, q.top, q.right, q.bottom), (1, 2, 3, 4));
    let q = QuadValue::from([4u32, 3, 2, 1]);
    assert_eq!((q.left, q.top, q.right, q.bottom), (4, 3, 2, 1));
}
