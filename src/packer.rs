//! Placement of glyph bitmaps on a fixed-size canvas.
//!
//! Placement itself is texture_packer's skyline packer, used in insertion
//! order, without rotation, trimming or padding. Every frame the packer hands
//! back is checked before the glyph is accepted, so the placements that come
//! out are in the canvas and pairwise disjoint whatever the packer did.
use vstd::prelude::*;
use crate::glyph::{RasterizedGlyph, MAX_EXTENT};
use texture_packer::texture::memory_rgba8_texture::MemoryRGBA8Texture;
use texture_packer::{TexturePacker, TexturePackerConfig};

verus! {

#[verifier::external_type_specification]
#[verifier::external_body]
pub struct ExMemoryRGBA8Texture(MemoryRGBA8Texture);

#[verifier::external_type_specification]
#[verifier::external_body]
#[verifier::reject_recursive_types(T)]
#[verifier::reject_recursive_types(K)]
pub struct ExTexturePacker<'a, T: 'a + Clone, K: Clone + Eq + std::hash::Hash>(
    TexturePacker<'a, T, K>,
);

#[verifier::external_type_specification]
pub struct ExTexturePackerConfig(TexturePackerConfig);

/// The skyline packer as this library uses it, keyed by glyph id.
pub type SkylinePacker = TexturePacker<'static, MemoryRGBA8Texture, u16>;

/// A frame that the packer recorded: x, y, width and height on the canvas.
pub type Frame = (u32, u32, u32, u32);

/// No frames at all.
pub open spec fn no_frames() -> Map<u16, Frame> {
    Map::empty()
}

/// The frames (x, y, w, h) that a packer holds, by key.
pub uninterp spec fn frames_of(p: TexturePacker<'static, MemoryRGBA8Texture, u16>) -> Map<u16, Frame>;

/// The canvas (width, height) that a packer was made with.
pub uninterp spec fn canvas_of(p: TexturePacker<'static, MemoryRGBA8Texture, u16>) -> (u32, u32);

/// Relies on `TexturePacker::new_skyline`: an empty skyline packer over the
/// configured canvas. Its rectangle arithmetic underflows on a canvas without
/// area, and trimming underflows on a fully transparent texture, so neither
/// is let through. The packers made here place textures unrotated and
/// unpadded, which is what `pack_own`'s contract speaks of.
#[verifier::external_body]
fn new_skyline(config: TexturePackerConfig) -> (r: SkylinePacker)
    requires
        1 <= config.max_width <= MAX_EXTENT,
        1 <= config.max_height <= MAX_EXTENT,
        config.border_padding == 0,
        config.texture_padding == 0,
        config.texture_extrusion == 0,
        !config.allow_rotation,
        !config.trim,
    ensures
        frames_of(r) == no_frames(),
        canvas_of(r) == (config.max_width, config.max_height),
{
    TexturePacker::new_skyline(config)
}

/// Packer settings: the whole canvas, glyphs placed as they are (no rotation,
/// no trimming), no padding between or around them.
fn packer_config(width: u32, height: u32) -> (c: TexturePackerConfig)
    ensures
        c.max_width == width && c.max_height == height,
        !c.allow_rotation && !c.trim && !c.texture_outlines,
        c.border_padding == 0 && c.texture_padding == 0 && c.texture_extrusion == 0,
{
    TexturePackerConfig {
        max_width: width,
        max_height: height,
        allow_rotation: false,
        border_padding: 0,
        texture_padding: 0,
        texture_extrusion: 0,
        trim: false,
        texture_outlines: false,
    }
}

/// Relies on `TexturePacker::pack_own` (with `MemoryRGBA8Texture::from_memory`
/// turning the RGBA bytes into the packer's texture type). It succeeds when
/// the skyline packer's `can_pack` finds room, and then records a frame for
/// `key` of the texture's size, inside the canvas and above its last row
/// (`can_pack` keeps that row free); on failure nothing changes. A texture
/// wider than the canvas, or as high, never fits; on an empty packer any
/// other goes to the origin. `from_memory` panics unless the buffer holds
/// `w * h` pixels, and the packer's rectangle arithmetic needs `w, h >= 1`.
#[verifier::external_body]
fn pack_own(packer: &mut SkylinePacker, key: u16, pixels: &Vec<u8>, w: u32, h: u32) -> (ok: bool)
    requires
        1 <= w <= MAX_EXTENT,
        1 <= h <= MAX_EXTENT,
        pixels@.len() == 4 * (w as int) * (h as int),
    ensures
        canvas_of(*final(packer)) == canvas_of(*old(packer)),
        !ok ==> frames_of(*final(packer)) == frames_of(*old(packer)),
        ok ==> exists|x: u32, y: u32|
            frames_of(*final(packer)) == frames_of(*old(packer)).insert(key, (x, y, w, h))
                && x + w <= canvas_of(*old(packer)).0 && y + h < canvas_of(*old(packer)).1,
        w > canvas_of(*old(packer)).0 || h >= canvas_of(*old(packer)).1 ==> !ok,
        frames_of(*old(packer)) == no_frames() && w <= canvas_of(*old(packer)).0
            && h < canvas_of(*old(packer)).1
            ==> ok && frames_of(*final(packer)) == no_frames().insert(key, (0u32, 0u32, w, h)),
{
    packer.pack_own(key, MemoryRGBA8Texture::from_memory(pixels.as_slice(), w, h)).is_ok()
}

/// Relies on `TexturePacker::get_frame`: the frame (x, y, w, h) recorded for
/// `key`, if the packer placed it.
#[verifier::external_body]
fn get_frame(packer: &SkylinePacker, key: u16) -> (r: Option<(u32, u32, u32, u32)>)
    ensures
        r == (if frames_of(*packer).contains_key(key) {
            Some(frames_of(*packer)[key])
        } else {
            None
        }),
{
    packer.get_frame(&key).map(|f| (f.frame.x, f.frame.y, f.frame.w, f.frame.h))
}

/// A rectangle of atlas pixels. Divided by the canvas size it is the glyph's
/// normalized UV rectangle.
#[derive(Clone, Copy, Debug, PartialEq, Eq, Structural)]
pub struct UVRect {
    pub x: u32,
    pub y: u32,
    pub w: u32,
    pub h: u32,
}

/// The rectangle lies in a `width` x `height` canvas: `u + w <= 1` and
/// `v + h <= 1` once normalized.
pub open spec fn rect_within(r: UVRect, width: int, height: int) -> bool {
    r.x + r.w <= width && r.y + r.h <= height
}

/// The two rectangles share no pixel.
pub open spec fn rects_disjoint(a: UVRect, b: UVRect) -> bool {
    a.x + a.w <= b.x || b.x + b.w <= a.x || a.y + a.h <= b.y || b.y + b.h <= a.y
}

/// Pixel `(col, row)` lies in the rectangle.
pub open spec fn rect_covers(r: UVRect, col: int, row: int) -> bool {
    r.x <= col < r.x + r.w && r.y <= row < r.y + r.h
}

/// One glyph placed on the canvas.
#[derive(Clone, Copy, Debug, PartialEq, Eq, Structural)]
pub struct Placement {
    pub glyph: u16,
    /// Index of the glyph in the list that was packed.
    pub source: usize,
    pub rect: UVRect,
}

/// Placements that lie in the canvas, pairwise disjoint, one per glyph id.
pub open spec fn placements_valid(placed: Seq<Placement>, width: int, height: int) -> bool {
    &&& forall|i: int| 0 <= i < placed.len() ==> rect_within(#[trigger] placed[i].rect, width, height)
    &&& forall|i: int, j: int|
        0 <= i < placed.len() && 0 <= j < placed.len() && i != j
            ==> rects_disjoint(#[trigger] placed[i].rect, #[trigger] placed[j].rect)
    &&& forall|i: int, j: int|
        0 <= i < placed.len() && 0 <= j < placed.len() && i != j
            ==> #[trigger] placed[i].glyph != #[trigger] placed[j].glyph
}

/// Each placement names a glyph of `glyphs` and has that glyph's size, and
/// the placements follow the glyphs' order.
pub open spec fn placements_match(placed: Seq<Placement>, glyphs: Seq<RasterizedGlyph>) -> bool {
    &&& forall|k: int| 0 <= k < placed.len() ==> {
        let p = #[trigger] placed[k];
        &&& p.source < glyphs.len()
        &&& glyphs[p.source as int].id == p.glyph
        &&& p.rect.w == glyphs[p.source as int].width
        &&& p.rect.h == glyphs[p.source as int].height
    }
    &&& forall|i: int, j: int|
        0 <= i < j < placed.len() ==> #[trigger] placed[i].source < #[trigger] placed[j].source
}

/// Some placement is for glyph `id`.
pub open spec fn has_glyph(placed: Seq<Placement>, id: u16) -> bool {
    exists|k: int| 0 <= k < placed.len() && #[trigger] placed[k].glyph == id
}

/// What packing a list of glyphs gives: where each placed glyph went, and the
/// ids that did not fit.
#[derive(Clone, Debug)]
pub struct PackOutcome {
    pub placed: Vec<Placement>,
    pub dropped: Vec<u16>,
}

/// The frame `f` is accepted for a `w` x `h` glyph: it has that size, lies in
/// the canvas and misses every placement so far.
pub open spec fn frame_fits(placed: Seq<Placement>, width: int, height: int, w: u32, h: u32, f: UVRect) -> bool {
    &&& f.w == w
    &&& f.h == h
    &&& rect_within(f, width, height)
    &&& forall|k: int| 0 <= k < placed.len() ==> rects_disjoint(f, #[trigger] placed[k].rect)
}

/// Decides whether a frame that the packer reported for a `w` x `h` glyph is
/// accepted: it must exist, have the glyph's size, lie in the canvas and miss
/// every placement made so far. The accepted frame comes back as a rectangle.
pub fn accept_frame(
    placed: &Vec<Placement>,
    width: u32,
    height: u32,
    w: u32,
    h: u32,
    frame: Option<(u32, u32, u32, u32)>,
) -> (r: Option<UVRect>)
    ensures
        frame is None ==> r is None,
        frame matches Some(f) ==> {
            let rect = UVRect { x: f.0, y: f.1, w: f.2, h: f.3 };
            r == if frame_fits(placed@, width as int, height as int, w, h, rect) {
                Some(rect)
            } else {
                None
            }
        },
{
    match frame {
        None => None,
        Some(f) => {
            let rect = UVRect { x: f.0, y: f.1, w: f.2, h: f.3 };
            if f.2 != w || f.3 != h {
                return None;
            }
            if f.0 as u64 + f.2 as u64 > width as u64 || f.1 as u64 + f.3 as u64 > height as u64 {
                return None;
            }
            let mut k: usize = 0;
            while k < placed.len()
                invariant
                    0 <= k <= placed@.len(),
                    frame == Some(f),
                    rect == (UVRect { x: f.0, y: f.1, w: f.2, h: f.3 }),
                    f.2 == w && f.3 == h,
                    rect_within(rect, width as int, height as int),
                    forall|j: int| 0 <= j < k ==> rects_disjoint(rect, #[trigger] placed@[j].rect),
                decreases placed@.len() - k,
            {
                let q = placed[k].rect;
                let apart = rect.x as u64 + rect.w as u64 <= q.x as u64
                    || q.x as u64 + q.w as u64 <= rect.x as u64
                    || rect.y as u64 + rect.h as u64 <= q.y as u64
                    || q.y as u64 + q.h as u64 <= rect.y as u64;
                if !apart {
                    assert(!rects_disjoint(rect, placed@[k as int].rect));
                    return None;
                }
                k += 1;
            }
            Some(rect)
        },
    }
}

/// Pushing `v` adds exactly `v` to what a sequence contains.
pub proof fn lemma_push_contains(s: Seq<u16>, v: u16)
    ensures
        forall|x: u16| #[trigger] s.push(v).contains(x) <==> s.contains(x) || x == v,
{
    assert forall|x: u16| #[trigger] s.push(v).contains(x) <==> s.contains(x) || x == v by {
        if s.contains(x) {
            let k = choose|k: int| 0 <= k < s.len() && s[k] == x;
            assert(s.push(v)[k] == x);
        }
        if x == v {
            assert(s.push(v)[s.len() as int] == x);
        }
        if s.push(v).contains(x) {
            let k = choose|k: int| 0 <= k < s.len() + 1 && s.push(v)[k] == x;
            if k < s.len() {
                assert(s[k] == x);
            }
        }
    }
}

/// Whether some placement is for glyph `id`.
pub fn is_placed(placed: &Vec<Placement>, id: u16) -> (r: bool)
    ensures
        r == has_glyph(placed@, id),
{
    let mut k: usize = 0;
    while k < placed.len()
        invariant
            0 <= k <= placed@.len(),
            forall|j: int| 0 <= j < k ==> #[trigger] placed@[j].glyph != id,
        decreases placed@.len() - k,
    {
        if placed[k].glyph == id {
            return true;
        }
        k += 1;
    }
    false
}

/// Whether `ids` holds `id`.
pub fn contains_id(ids: &Vec<u16>, id: u16) -> (r: bool)
    ensures
        r == ids@.contains(id),
{
    let mut k: usize = 0;
    while k < ids.len()
        invariant
            0 <= k <= ids@.len(),
            forall|j: int| 0 <= j < k ==> ids@[j] != id,
        decreases ids@.len() - k,
    {
        if ids[k] == id {
            return true;
        }
        k += 1;
    }
    false
}

/// The packer refuses `g` whatever it already holds: it has no pixels, is
/// wider than the canvas, or is at least as high.
pub open spec fn never_fits(g: RasterizedGlyph, width: int, height: int) -> bool {
    g.width == 0 || g.height == 0 || g.width > width || g.height >= height
}

/// Glyph `i` is the first of its id in `glyphs`.
pub open spec fn first_of_id(glyphs: Seq<RasterizedGlyph>, i: int) -> bool {
    !(exists|j: int| 0 <= j < i && #[trigger] glyphs[j].id == glyphs[i].id)
}

/// Packs `glyphs` in their order onto a `width` x `height` canvas.
///
/// The first glyph of each id is tried; later ones with the same id are left
/// out. A glyph that the packer cannot place, or that has no pixels, is
/// dropped and its id reported; the others still pack. What comes out is in
/// the canvas, pairwise disjoint, and every id of `glyphs` is either placed or
/// dropped, never both.
pub fn pack_glyphs(width: u32, height: u32, glyphs: &Vec<RasterizedGlyph>) -> (out: PackOutcome)
    requires
        1 <= width <= MAX_EXTENT,
        1 <= height <= MAX_EXTENT,
        forall|i: int| 0 <= i < glyphs@.len() ==> (#[trigger] glyphs@[i]).wf(),
    ensures
        placements_valid(out.placed@, width as int, height as int),
        placements_match(out.placed@, glyphs@),
        forall|i: int|
            0 <= i < glyphs@.len() ==> has_glyph(out.placed@, #[trigger] glyphs@[i].id)
                || out.dropped@.contains(glyphs@[i].id),
        forall|i: int|
            0 <= i < glyphs@.len() && never_fits(glyphs@[i], width as int, height as int) && first_of_id(glyphs@, i)
                ==> out.dropped@.contains(#[trigger] glyphs@[i].id),
        glyphs@.len() > 0 && !never_fits(glyphs@[0], width as int, height as int) ==> out.placed@.len() > 0
            && out.placed@[0] == (Placement {
                glyph: glyphs@[0].id,
                source: 0,
                rect: UVRect { x: 0, y: 0, w: glyphs@[0].width, h: glyphs@[0].height },
            }),
        forall|d: u16| #[trigger] out.dropped@.contains(d) ==> !has_glyph(out.placed@, d),
        forall|d: u16|
            #[trigger] out.dropped@.contains(d) ==> exists|i: int| 0 <= i < glyphs@.len() && #[trigger] glyphs@[i].id == d,
{
    let mut packer = new_skyline(packer_config(width, height));
    let mut placed: Vec<Placement> = Vec::new();
    let mut dropped: Vec<u16> = Vec::new();
    let mut i: usize = 0;
    while i < glyphs.len()
        invariant
            1 <= width <= MAX_EXTENT,
            1 <= height <= MAX_EXTENT,
            0 <= i <= glyphs@.len(),
            forall|j: int| 0 <= j < glyphs@.len() ==> (#[trigger] glyphs@[j]).wf(),
            placements_valid(placed@, width as int, height as int),
            placements_match(placed@, glyphs@),
            forall|k: int| 0 <= k < placed@.len() ==> #[trigger] placed@[k].source < i,
            forall|j: int|
                0 <= j < i ==> has_glyph(placed@, #[trigger] glyphs@[j].id) || dropped@.contains(glyphs@[j].id),
            forall|j: int|
                0 <= j < i && never_fits(glyphs@[j], width as int, height as int) && first_of_id(glyphs@, j)
                    ==> dropped@.contains(#[trigger] glyphs@[j].id),
            canvas_of(packer) == (width, height),
            placed@.len() == 0 ==> frames_of(packer) == no_frames(),
            i > 0 && !never_fits(glyphs@[0], width as int, height as int) ==> placed@.len() > 0
                && placed@[0] == (Placement {
                    glyph: glyphs@[0].id,
                    source: 0,
                    rect: UVRect { x: 0, y: 0, w: glyphs@[0].width, h: glyphs@[0].height },
                }),
            forall|d: u16| #[trigger] dropped@.contains(d) ==> !has_glyph(placed@, d),
            forall|d: u16|
                #[trigger] dropped@.contains(d) ==> exists|j: int| 0 <= j < i && #[trigger] glyphs@[j].id == d,
        decreases glyphs@.len() - i,
    {
        let g = &glyphs[i];
        let id = g.id;
        if is_placed(&placed, id) || contains_id(&dropped, id) {
            proof {
                if g.width == 0 || g.height == 0 {
                    if has_glyph(placed@, id) {
                        let k = choose|k: int| 0 <= k < placed@.len() && #[trigger] placed@[k].glyph == id;
                        assert(glyphs@[placed@[k].source as int].id == id);
                    } else {
                        let j = choose|j: int| 0 <= j < i && #[trigger] glyphs@[j].id == id;
                        assert(glyphs@[j].id == id);
                    }
                }
            }
        } else if g.width == 0 || g.height == 0 || g.width > MAX_EXTENT || g.height > MAX_EXTENT {
            proof { lemma_push_contains(dropped@, id); }
            dropped.push(id);
        } else {
            let ok = pack_own(&mut packer, id, &g.pixels, g.width, g.height);
            let frame = if ok {
                get_frame(&packer, id)
            } else {
                None
            };
            match accept_frame(&placed, width, height, g.width, g.height, frame) {
                Some(rect) => {
                    let ghost old_placed = placed@;
                    placed.push(Placement { glyph: id, source: i, rect });
                    assert(placed@[placed@.len() - 1].glyph == id);
                    assert forall|j: int| 0 <= j <= i implies has_glyph(placed@, #[trigger] glyphs@[j].id)
                        || dropped@.contains(glyphs@[j].id) by {
                        if j < i {
                            if has_glyph(old_placed, glyphs@[j].id) {
                                let k = choose|k: int| 0 <= k < old_placed.len() && #[trigger] old_placed[k].glyph == glyphs@[j].id;
                                assert(placed@[k] == old_placed[k]);
                            }
                        } else {
                            assert(placed@[placed@.len() - 1].glyph == glyphs@[j].id);
                        }
                    }
                    assert forall|d: u16| #[trigger] dropped@.contains(d) implies !has_glyph(placed@, d) by {
                        assert(!has_glyph(old_placed, d));
                        if has_glyph(placed@, d) {
                            let k = choose|k: int| 0 <= k < placed@.len() && #[trigger] placed@[k].glyph == d;
                            if k < old_placed.len() {
                                assert(old_placed[k] == placed@[k]);
                            }
                        }
                    }
                },
                None => {
                    proof { lemma_push_contains(dropped@, id); }
                    dropped.push(id);
                },
            }
        }
        i += 1;
    }
    PackOutcome { placed, dropped }
}

} // verus!
