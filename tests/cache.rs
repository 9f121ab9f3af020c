use glyph_atlas::atlas::AtlasError;
use glyph_atlas::cache::{AtlasCache, EnsurePlan};
use glyph_atlas::font::{key_eq, Family, Font, FontKey, Weight};
use glyph_atlas::glyph::{BBox, GlyphMetrics, RasterizedGlyph};

fn key(name: &str) -> FontKey {
    FontKey { family: Family::Named(name.to_string()), weight: Weight::Normal, monospace: false }
}

fn raster(ids: &[u16]) -> Vec<RasterizedGlyph> {
    ids.iter()
        .map(|&id| RasterizedGlyph {
            id,
            metrics: GlyphMetrics { bbox: BBox { x_min: 0, y_min: 0, x_max: 32, y_max: 32 } },
            width: 4,
            height: 4,
            pixels: vec![1; 64],
        })
        .collect()
}

fn serve(cache: &mut AtlasCache, k: &FontKey, required: &[u16]) -> bool {
    match cache.plan(k, &required.to_vec()) {
        EnsurePlan::Hit => false,
        EnsurePlan::Rebuild(ids) => {
            let glyphs = raster(&ids);
            cache.rebuild(k, ids, &glyphs).unwrap();
            true
        },
    }
}

#[test]
fn same_request_twice_is_a_hit() {
    let mut cache = AtlasCache::new(64, 64);
    let k = key("Serif Pro");
    assert!(serve(&mut cache, &k, &[3, 4, 5]));
    assert!(matches!(cache.plan(&k, &vec![3, 4, 5]), EnsurePlan::Hit));
    assert!(matches!(cache.plan(&k, &vec![5, 3]), EnsurePlan::Hit));
    assert!(!serve(&mut cache, &k, &[4, 5, 3]));
}

#[test]
fn superset_request_rebuilds_with_the_union() {
    let mut cache = AtlasCache::new(64, 64);
    let k = key("Sans");
    assert!(serve(&mut cache, &k, &[1, 2]));
    match cache.plan(&k, &vec![2, 3, 4]) {
        EnsurePlan::Rebuild(mut ids) => {
            ids.sort();
            assert_eq!(ids, vec![1, 2, 3, 4]);
        },
        EnsurePlan::Hit => panic!("expected a rebuild"),
    }
    assert!(serve(&mut cache, &k, &[1, 2, 3, 4]));
    let atlas = cache.atlas(&k).unwrap();
    for id in [1u16, 2, 3, 4] {
        assert!(atlas.contains(id));
    }
}

#[test]
fn fonts_have_separate_atlases() {
    let mut cache = AtlasCache::new(64, 64);
    let a = key("A");
    let b = FontKey { family: Family::Named("A".to_string()), weight: Weight::Bold, monospace: false };
    serve(&mut cache, &a, &[1]);
    serve(&mut cache, &b, &[2]);
    assert!(cache.atlas(&a).unwrap().contains(1));
    assert!(!cache.atlas(&a).unwrap().contains(2));
    assert!(cache.atlas(&b).unwrap().contains(2));
    assert!(cache.atlas(&key("C")).is_none());
    assert_eq!(cache.entries.len(), 2);
}

#[test]
fn rebuild_on_an_empty_canvas_fails_and_keeps_nothing() {
    let mut cache = AtlasCache::new(0, 64);
    let k = key("A");
    let ids = vec![1u16];
    let glyphs = raster(&ids);
    assert_eq!(cache.rebuild(&k, ids, &glyphs), Err(AtlasError::EmptyCanvas));
    assert!(cache.atlas(&k).is_none());
}

#[test]
fn weights_have_their_numeric_values() {
    assert_eq!(Weight::Thin.value(), 100);
    assert_eq!(Weight::Normal.value(), 400);
    assert_eq!(Weight::Bold.value(), 700);
    assert_eq!(Weight::Black.value(), 900);
    assert_eq!(Weight::default(), Weight::Normal);
}

#[test]
fn font_keys_compare_by_identity() {
    let f = Font { family: Family::Serif, weight: Weight::Medium, monospace: false, ..Font::default() };
    let k = f.key();
    assert!(key_eq(&k, &FontKey { family: Family::Serif, weight: Weight::Medium, monospace: false }));
    assert!(!key_eq(&k, &FontKey { family: Family::Serif, weight: Weight::Medium, monospace: true }));
    assert!(!key_eq(&k, &FontKey { family: Family::Cursive, weight: Weight::Medium, monospace: false }));
    assert!(key_eq(&key("X"), &key("X")));
    assert!(!key_eq(&key("X"), &key("Y")));
}

#[test]
fn ids_without_bitmaps_are_dropped_and_still_count_as_served() {
    let mut cache = AtlasCache::new(64, 64);
    let k = key("Gaps");
    let glyphs = raster(&[1, 3]);
    cache.rebuild(&k, vec![1, 2, 3], &glyphs).unwrap();
    let atlas = cache.atlas(&k).unwrap();
    assert!(atlas.contains(1) && atlas.contains(3));
    assert!(!atlas.contains(2));
    assert_eq!(atlas.dropped, vec![2]);
    assert!(matches!(cache.plan(&k, &vec![1, 2, 3]), EnsurePlan::Hit));
}
