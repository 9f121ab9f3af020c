//! A built atlas: the packed RGBA canvas and the rectangle of every glyph on it.
use vstd::prelude::*;
use crate::glyph::{GlyphMetrics, RasterizedGlyph, MAX_EXTENT};
use crate::packer::{never_fits, first_of_id, pack_glyphs, placements_match, has_glyph, rect_covers, rect_within, rects_disjoint, UVRect};

verus! {

/// Side, in pixels, of the square canvas that atlases are built on.
pub const ATLAS_SIDE: u32 = 4096;

/// One glyph on the atlas canvas.
#[derive(Clone, Copy, Debug, PartialEq, Eq, Structural)]
pub struct AtlasEntry {
    pub glyph: u16,
    /// Index of the glyph in the list that the atlas was built from.
    pub source: usize,
    pub rect: UVRect,
    pub metrics: GlyphMetrics,
}

/// Why an atlas could not be built.
#[derive(Clone, Copy, Debug, PartialEq, Eq, Structural)]
pub enum AtlasError {
    /// The canvas has zero width or zero height.
    EmptyCanvas,
}

/// A packed atlas. Built once and not changed afterwards: a glyph that is
/// missing calls for a new atlas.
#[derive(Clone, Debug)]
pub struct Atlas {
    pub width: u32,
    pub height: u32,
    pub entries: Vec<AtlasEntry>,
    /// Ids that did not fit on the canvas.
    pub dropped: Vec<u16>,
    /// RGBA bytes, row-major, `4 * width * height` of them.
    pub pixels: Vec<u8>,
}

/// Index of channel `ch` of pixel `(col, row)` in a row-major RGBA buffer
/// that is `width` pixels wide.
pub open spec fn canvas_index(width: int, col: int, row: int, ch: int) -> int {
    4 * (row * width + col) + ch
}

/// Channel `ch` of pixel `(x, y)` of a glyph bitmap.
pub open spec fn glyph_byte(g: RasterizedGlyph, x: int, y: int, ch: int) -> u8 {
    g.pixels@[canvas_index(g.width as int, x, y, ch)]
}

/// Some entry covers pixel `(col, row)`.
pub open spec fn is_covered(entries: Seq<AtlasEntry>, col: int, row: int) -> bool {
    exists|k: int| 0 <= k < entries.len() && rect_covers(#[trigger] entries[k].rect, col, row)
}

/// Some entry is for glyph `id`.
pub open spec fn has_entry(entries: Seq<AtlasEntry>, id: u16) -> bool {
    exists|k: int| 0 <= k < entries.len() && #[trigger] entries[k].glyph == id
}

/// The entry for glyph `id`, if there is one.
pub open spec fn entry_for(entries: Seq<AtlasEntry>, id: u16) -> Option<AtlasEntry> {
    if has_entry(entries, id) {
        Some(entries[choose|k: int| 0 <= k < entries.len() && #[trigger] entries[k].glyph == id])
    } else {
        None
    }
}

/// Entries that lie in a `width` x `height` canvas, pairwise disjoint, one
/// per glyph id.
pub open spec fn entries_placed(entries: Seq<AtlasEntry>, width: int, height: int) -> bool {
    &&& forall|k: int| 0 <= k < entries.len() ==> rect_within(#[trigger] entries[k].rect, width, height)
    &&& forall|i: int, j: int|
        0 <= i < entries.len() && 0 <= j < entries.len() && i != j
            ==> rects_disjoint(#[trigger] entries[i].rect, #[trigger] entries[j].rect)
    &&& forall|i: int, j: int|
        0 <= i < entries.len() && 0 <= j < entries.len() && i != j
            ==> #[trigger] entries[i].glyph != #[trigger] entries[j].glyph
}

/// Placed entries, each with the id, size and metrics of the glyph of
/// `glyphs` it came from.
pub open spec fn entries_valid(entries: Seq<AtlasEntry>, glyphs: Seq<RasterizedGlyph>, width: int, height: int) -> bool {
    &&& entries_placed(entries, width, height)
    &&& forall|k: int| 0 <= k < entries.len() ==> {
        let e = #[trigger] entries[k];
        &&& e.source < glyphs.len()
        &&& glyphs[e.source as int].id == e.glyph
        &&& glyphs[e.source as int].width == e.rect.w
        &&& glyphs[e.source as int].height == e.rect.h
        &&& glyphs[e.source as int].metrics == e.metrics
    }
}

/// Channel `ch` of canvas pixel `(col, row)`: that channel of the covering
/// entry's glyph bitmap, or zero where no entry covers the pixel.
pub open spec fn canvas_byte(
    entries: Seq<AtlasEntry>,
    glyphs: Seq<RasterizedGlyph>,
    col: int,
    row: int,
    ch: int,
) -> u8 {
    if is_covered(entries, col, row) {
        let k = choose|k: int| 0 <= k < entries.len() && rect_covers(#[trigger] entries[k].rect, col, row);
        glyph_byte(glyphs[entries[k].source as int], col - entries[k].rect.x, row - entries[k].rect.y, ch)
    } else {
        0u8
    }
}

/// The canvas holds `canvas_byte` at every channel of every pixel.
pub open spec fn canvas_matches(
    pixels: Seq<u8>,
    width: int,
    height: int,
    entries: Seq<AtlasEntry>,
    glyphs: Seq<RasterizedGlyph>,
) -> bool {
    &&& pixels.len() == 4 * width * height
    &&& forall|col: int, row: int, ch: int|
        0 <= col < width && 0 <= row < height && 0 <= ch < 4
            ==> #[trigger] pixels[canvas_index(width, col, row, ch)] == canvas_byte(entries, glyphs, col, row, ch)
}

/// Where entries are disjoint, a pixel that entry `k` covers shows entry `k`'s
/// glyph.
pub proof fn lemma_covered_byte(
    entries: Seq<AtlasEntry>,
    glyphs: Seq<RasterizedGlyph>,
    width: int,
    height: int,
    k: int,
    col: int,
    row: int,
    ch: int,
)
    requires
        entries_valid(entries, glyphs, width, height),
        0 <= k < entries.len(),
        rect_covers(entries[k].rect, col, row),
    ensures
        canvas_byte(entries, glyphs, col, row, ch) == glyph_byte(
            glyphs[entries[k].source as int],
            col - entries[k].rect.x,
            row - entries[k].rect.y,
            ch,
        ),
{
    assert(is_covered(entries, col, row));
    let j = choose|j: int| 0 <= j < entries.len() && rect_covers(#[trigger] entries[j].rect, col, row);
    if j != k {
        assert(rects_disjoint(entries[j].rect, entries[k].rect));
    }
}

/// Position `y * w + x` of a point of a `w` x `h` grid comes before `w * h`.
proof fn lemma_grid_index(w: int, h: int, x: int, y: int)
    requires
        0 <= x < w,
        0 <= y < h,
    ensures
        0 <= y * w + x < w * h,
        4 * (y * w + x) + 4 <= 4 * (w * h),
{
    assert(0 <= y * w + x < w * h) by (nonlinear_arith)
        requires 0 <= x < w, 0 <= y < h;
}

/// Points before `(col, row)` in row-major order come before it in the buffer.
proof fn lemma_row_major_before(w: int, c: int, r: int, col: int, row: int)
    requires
        0 <= c < w,
        0 <= col <= w,
        0 <= r <= row,
        r < row || c < col,
    ensures
        r * w + c < row * w + col,
{
    if r < row {
        assert(r * w + c < row * w + col) by (nonlinear_arith)
            requires 0 <= c < w, 0 <= r < row, 0 <= col;
    }
}

/// The first entry that covers pixel `(col, row)`, if any.
fn find_cover(entries: &Vec<AtlasEntry>, col: u32, row: u32) -> (r: Option<usize>)
    ensures
        r matches Some(k) ==> k < entries@.len() && rect_covers(entries@[k as int].rect, col as int, row as int),
        r is None ==> !is_covered(entries@, col as int, row as int),
{
    let mut k: usize = 0;
    while k < entries.len()
        invariant
            0 <= k <= entries@.len(),
            forall|j: int| 0 <= j < k ==> !rect_covers(#[trigger] entries@[j].rect, col as int, row as int),
        decreases entries@.len() - k,
    {
        let r = entries[k].rect;
        if r.x <= col && (col as u64) < r.x as u64 + r.w as u64 && r.y <= row && (row as u64) < r.y as u64 + r.h as u64 {
            return Some(k);
        }
        k += 1;
    }
    None
}

/// Writes the atlas canvas: every pixel, row by row, takes the bitmap of the
/// entry that covers it, and is zero (transparent) where none does.
pub fn export_canvas(
    width: u32,
    height: u32,
    entries: &Vec<AtlasEntry>,
    glyphs: &Vec<RasterizedGlyph>,
) -> (pixels: Vec<u8>)
    requires
        width <= MAX_EXTENT,
        height <= MAX_EXTENT,
        entries_valid(entries@, glyphs@, width as int, height as int),
        forall|i: int| 0 <= i < glyphs@.len() ==> (#[trigger] glyphs@[i]).wf(),
    ensures
        canvas_matches(pixels@, width as int, height as int, entries@, glyphs@),
{
    let ghost w = width as int;
    let ghost h = height as int;
    let mut pixels: Vec<u8> = Vec::new();
    let mut row: u32 = 0;
    while row < height
        invariant
            width <= MAX_EXTENT,
            height <= MAX_EXTENT,
            w == width as int,
            h == height as int,
            0 <= row <= height,
            entries_valid(entries@, glyphs@, w, h),
            forall|i: int| 0 <= i < glyphs@.len() ==> (#[trigger] glyphs@[i]).wf(),
            pixels@.len() == 4 * (row * w),
            forall|c: int, r: int, ch: int|
                0 <= c < w && 0 <= r < row && 0 <= ch < 4
                    ==> #[trigger] pixels@[canvas_index(w, c, r, ch)] == canvas_byte(entries@, glyphs@, c, r, ch),
        decreases height - row,
    {
        let mut col: u32 = 0;
        while col < width
            invariant
                width <= MAX_EXTENT,
                height <= MAX_EXTENT,
                w == width as int,
                h == height as int,
                0 <= row < height,
                0 <= col <= width,
                entries_valid(entries@, glyphs@, w, h),
                forall|i: int| 0 <= i < glyphs@.len() ==> (#[trigger] glyphs@[i]).wf(),
                pixels@.len() == 4 * (row * w + col),
                forall|c: int, r: int, ch: int|
                    0 <= c < w && 0 <= r <= row && (r < row || c < col) && 0 <= ch < 4
                        ==> #[trigger] pixels@[canvas_index(w, c, r, ch)] == canvas_byte(entries@, glyphs@, c, r, ch),
            decreases width - col,
        {
            let ghost before = pixels@;
            match find_cover(entries, col, row) {
                Some(k) => {
                    let e = entries[k];
                    let g = &glyphs[e.source];
                    let gx = col - e.rect.x;
                    let gy = row - e.rect.y;
                    proof {
                        lemma_grid_index(g.width as int, g.height as int, gx as int, gy as int);
                        assert(g.width <= MAX_EXTENT && g.height <= MAX_EXTENT);
                        assert(g.wf());
                        assert(4 * (g.width as int) * (g.height as int) == 4 * ((g.width as int) * (g.height as int))) by (nonlinear_arith);
                        assert((g.width as int) * (g.height as int) <= MAX_EXTENT * MAX_EXTENT) by (nonlinear_arith)
                            requires g.width <= MAX_EXTENT, g.height <= MAX_EXTENT;
                    }
                    let base: usize = 4 * ((gy as usize) * (g.width as usize) + gx as usize);
                    pixels.push(g.pixels[base]);
                    pixels.push(g.pixels[base + 1]);
                    pixels.push(g.pixels[base + 2]);
                    pixels.push(g.pixels[base + 3]);
                    proof {
                        assert forall|ch: int| 0 <= ch < 4 implies
                            pixels@[canvas_index(w, col as int, row as int, ch)]
                                == canvas_byte(entries@, glyphs@, col as int, row as int, ch) by {
                            lemma_covered_byte(entries@, glyphs@, w, h, k as int, col as int, row as int, ch);
                        }
                    }
                },
                None => {
                    pixels.push(0);
                    pixels.push(0);
                    pixels.push(0);
                    pixels.push(0);
                },
            }
            proof {
                assert forall|c: int, r: int, ch: int|
                    0 <= c < w && 0 <= r <= row && (r < row || c < col + 1) && 0 <= ch < 4
                        implies #[trigger] pixels@[canvas_index(w, c, r, ch)] == canvas_byte(entries@, glyphs@, c, r, ch) by {
                    if r < row || c < col {
                        lemma_row_major_before(w, c, r, col as int, row as int);
                        assert(pixels@[canvas_index(w, c, r, ch)] == before[canvas_index(w, c, r, ch)]);
                    }
                }
            }
            col += 1;
        }
        proof {
            assert(4 * (row * w + w) == 4 * ((row + 1) * w)) by (nonlinear_arith);
        }
        row += 1;
    }
    proof {
        assert(4 * (h * w) == 4 * w * h) by (nonlinear_arith);
    }
    pixels
}

impl Atlas {
    /// Entries in the canvas, disjoint, one per id, and a full pixel buffer.
    pub open spec fn wf(&self) -> bool {
        &&& entries_placed(self.entries@, self.width as int, self.height as int)
        &&& self.pixels@.len() == 4 * (self.width as int) * (self.height as int)
    }

    /// The atlas was built from `glyphs`: its entries and canvas come from
    /// them, and each of their ids is either on the canvas or dropped.
    pub open spec fn built_from(&self, glyphs: Seq<RasterizedGlyph>) -> bool {
        &&& self.wf()
        &&& entries_valid(self.entries@, glyphs, self.width as int, self.height as int)
        &&& canvas_matches(self.pixels@, self.width as int, self.height as int, self.entries@, glyphs)
        &&& forall|i: int|
            0 <= i < glyphs.len() ==> has_entry(self.entries@, #[trigger] glyphs[i].id)
                || self.dropped@.contains(glyphs[i].id)
        &&& forall|d: u16| #[trigger] self.dropped@.contains(d) ==> !has_entry(self.entries@, d)
        &&& forall|d: u16|
            #[trigger] self.dropped@.contains(d) ==> exists|i: int| 0 <= i < glyphs.len() && #[trigger] glyphs[i].id == d
    }

    /// Whether the atlas is well formed: entries inside the canvas, pairwise
    /// disjoint, one per id, and a full pixel buffer.
    pub fn check_wf(&self) -> (r: bool)
        ensures
            r == self.wf(),
    {
        let es = &self.entries;
        let mut i: usize = 0;
        while i < es.len()
            invariant
                es@ == self.entries@,
                0 <= i <= es@.len(),
                forall|k: int| 0 <= k < i ==> rect_within(#[trigger] es@[k].rect, self.width as int, self.height as int),
                forall|a: int, b: int|
                    0 <= a < i && 0 <= b < es@.len() && a != b
                        ==> rects_disjoint(#[trigger] es@[a].rect, #[trigger] es@[b].rect) && es@[a].glyph != es@[b].glyph,
            decreases es@.len() - i,
        {
            let r = es[i].rect;
            if r.x as u64 + r.w as u64 > self.width as u64 || r.y as u64 + r.h as u64 > self.height as u64 {
                assert(!rect_within(es@[i as int].rect, self.width as int, self.height as int));
                assert(!entries_placed(self.entries@, self.width as int, self.height as int));
                return false;
            }
            let mut j: usize = 0;
            while j < es.len()
                invariant
                    es@ == self.entries@,
                    0 <= i < es@.len(),
                    0 <= j <= es@.len(),
                    r == es@[i as int].rect,
                    forall|b: int| 0 <= b < j && b != i ==> rects_disjoint(r, #[trigger] es@[b].rect),
                    forall|b: int| 0 <= b < j && b != i ==> es@[i as int].glyph != #[trigger] es@[b].glyph,
                decreases es@.len() - j,
            {
                if j != i {
                    let q = es[j].rect;
                    let gi = es[i].glyph;
                    let gj = es[j].glyph;
                    let apart = r.x as u64 + r.w as u64 <= q.x as u64
                        || q.x as u64 + q.w as u64 <= r.x as u64
                        || r.y as u64 + r.h as u64 <= q.y as u64
                        || q.y as u64 + q.h as u64 <= r.y as u64;
                    if !apart || gi == gj {
                        assert(!(rects_disjoint(es@[i as int].rect, es@[j as int].rect)
                            && es@[i as int].glyph != es@[j as int].glyph));
                        assert(!entries_placed(self.entries@, self.width as int, self.height as int));
                        return false;
                    }
                    assert forall|b: int| 0 <= b < j + 1 && b != i implies rects_disjoint(r, #[trigger] es@[b].rect) by {
                        if b == j as int {
                            assert(rects_disjoint(r, q));
                        }
                    }
                    assert forall|b: int| 0 <= b < j + 1 && b != i implies es@[i as int].glyph != #[trigger] es@[b].glyph by {
                        if b == j as int {
                            assert(gi != gj);
                        }
                    }
                }
                j += 1;
            }
            proof {
                assert forall|a: int, b: int|
                    0 <= a < i + 1 && 0 <= b < es@.len() && a != b
                        implies rects_disjoint(#[trigger] es@[a].rect, #[trigger] es@[b].rect) && es@[a].glyph != es@[b].glyph by {
                    if a == i as int {
                        assert(rects_disjoint(r, es@[b].rect));
                        assert(es@[i as int].glyph != es@[b].glyph);
                    }
                }
            }
            i += 1;
        }
        proof {
            assert(i == es@.len());
            assert forall|a: int, b: int|
                0 <= a < es@.len() && 0 <= b < es@.len() && a != b
                    implies #[trigger] es@[a].glyph != #[trigger] es@[b].glyph by {
                assert(rects_disjoint(es@[a].rect, es@[b].rect) && es@[a].glyph != es@[b].glyph);
            }
        }
        proof {
            assert((self.width as int) * (self.height as int) <= 0xffff_ffff * 0xffff_ffffint) by (nonlinear_arith)
                requires self.width <= 0xffff_ffff, self.height <= 0xffff_ffff;
            assert(4 * (self.width as int) * (self.height as int) == 4 * ((self.width as int) * (self.height as int))) by (nonlinear_arith);
        }
        self.pixels.len() as u128 == 4 * ((self.width as u128) * (self.height as u128))
    }

    /// The entry of glyph `id`, if it is on the canvas.
    pub fn entry(&self, id: u16) -> (r: Option<AtlasEntry>)
        requires
            self.wf(),
        ensures
            r == entry_for(self.entries@, id),
    {
        let mut k: usize = 0;
        while k < self.entries.len()
            invariant
                self.wf(),
                0 <= k <= self.entries@.len(),
                forall|j: int| 0 <= j < k ==> #[trigger] self.entries@[j].glyph != id,
            decreases self.entries@.len() - k,
        {
            if self.entries[k].glyph == id {
                proof {
                    let es = self.entries@;
                    assert(has_entry(es, id));
                    let c = choose|c: int| 0 <= c < es.len() && #[trigger] es[c].glyph == id;
                    if c != k as int {
                        assert(es[c].glyph != es[k as int].glyph);
                    }
                }
                return Some(self.entries[k]);
            }
            k += 1;
        }
        None
    }

    /// The pixel rectangle of glyph `id`, if it is on the canvas.
    pub fn uv_rect(&self, id: u16) -> (r: Option<UVRect>)
        requires
            self.wf(),
        ensures
            r == (match entry_for(self.entries@, id) {
                Some(e) => Some(e.rect),
                None => None,
            }),
    {
        match self.entry(id) {
            Some(e) => Some(e.rect),
            None => None,
        }
    }

    /// Whether glyph `id` is on the canvas.
    pub fn contains(&self, id: u16) -> (r: bool)
        requires
            self.wf(),
        ensures
            r == has_entry(self.entries@, id),
    {
        self.entry(id).is_some()
    }
}

/// Builds an atlas from rasterized glyphs: packs them in order onto a
/// `width` x `height` canvas, records each placed glyph's rectangle and
/// metrics, reports the ids that did not fit, and exports the canvas as RGBA
/// bytes. Fails only when the canvas has no area.
pub fn build_atlas(width: u32, height: u32, glyphs: &Vec<RasterizedGlyph>) -> (r: Result<Atlas, AtlasError>)
    requires
        width <= MAX_EXTENT,
        height <= MAX_EXTENT,
        forall|i: int| 0 <= i < glyphs@.len() ==> (#[trigger] glyphs@[i]).wf(),
    ensures
        r is Err <==> (width == 0 || height == 0),
        r matches Err(e) ==> e == AtlasError::EmptyCanvas,
        r matches Ok(a) ==> a.width == width && a.height == height && a.built_from(glyphs@),
        r matches Ok(a) ==> forall|i: int|
            0 <= i < glyphs@.len() && never_fits(glyphs@[i], width as int, height as int) && first_of_id(glyphs@, i)
                ==> a.dropped@.contains(#[trigger] glyphs@[i].id),
        r matches Ok(a) ==> (glyphs@.len() > 0 && !never_fits(glyphs@[0], width as int, height as int) ==> a.entries@.len() > 0
            && a.entries@[0].glyph == glyphs@[0].id
            && a.entries@[0].rect == (UVRect { x: 0, y: 0, w: glyphs@[0].width, h: glyphs@[0].height })),
{
    if width == 0 || height == 0 {
        return Err(AtlasError::EmptyCanvas);
    }
    let out = pack_glyphs(width, height, glyphs);
    let mut entries: Vec<AtlasEntry> = Vec::new();
    let mut k: usize = 0;
    while k < out.placed.len()
        invariant
            0 <= k <= out.placed@.len(),
            placements_match(out.placed@, glyphs@),
            entries@.len() == k,
            forall|j: int| 0 <= j < k ==> {
                let e = #[trigger] entries@[j];
                let p = out.placed@[j];
                &&& e.glyph == p.glyph
                &&& e.source == p.source
                &&& e.rect == p.rect
                &&& e.metrics == glyphs@[p.source as int].metrics
            },
        decreases out.placed@.len() - k,
    {
        let p = out.placed[k];
        entries.push(AtlasEntry { glyph: p.glyph, source: p.source, rect: p.rect, metrics: glyphs[p.source].metrics });
        k += 1;
    }
    let ghost es = entries@;
    let ghost ps = out.placed@;
    assert(entries_valid(es, glyphs@, width as int, height as int)) by {
        assert forall|i: int, j: int|
            0 <= i < es.len() && 0 <= j < es.len() && i != j
                implies rects_disjoint(#[trigger] es[i].rect, #[trigger] es[j].rect) by {
            assert(rects_disjoint(ps[i].rect, ps[j].rect));
        }
        assert forall|i: int, j: int|
            0 <= i < es.len() && 0 <= j < es.len() && i != j
                implies #[trigger] es[i].glyph != #[trigger] es[j].glyph by {
            assert(ps[i].glyph != ps[j].glyph);
        }
        assert forall|i: int| 0 <= i < es.len() implies rect_within(#[trigger] es[i].rect, width as int, height as int) by {
            assert(rect_within(ps[i].rect, width as int, height as int));
        }
    }
    assert forall|id: u16| has_glyph(ps, id) <==> #[trigger] has_entry(es, id) by {
        if has_glyph(ps, id) {
            let k = choose|k: int| 0 <= k < ps.len() && #[trigger] ps[k].glyph == id;
            assert(es[k].glyph == id);
        }
        if has_entry(es, id) {
            let k = choose|k: int| 0 <= k < es.len() && #[trigger] es[k].glyph == id;
            assert(ps[k].glyph == id);
        }
    }
    let pixels = export_canvas(width, height, &entries, glyphs);
    Ok(Atlas { width, height, entries, dropped: out.dropped, pixels })
}

} // verus!
