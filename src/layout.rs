//! Text quad layout: shaped glyph runs become screen quads.
//!
//! Positions are kept exactly. A pen runs in font units (one font unit is
//! `1 / UNITS_PER_PIXEL` of a pixel, the scale that the rasterizer uses), and
//! a corner at `f` font units from the screen's left edge, on a screen `sw`
//! pixels wide, has the normalized device coordinate
//! `2 * (f / UNITS_PER_PIXEL) / sw - 1`, stored as the numerator
//! `2 * f - UNITS_PER_PIXEL * sw` over the denominator `UNITS_PER_PIXEL * sw`.
//! The same holds vertically, with pixel rows counted up from the screen's
//! bottom edge as clip space counts them. UVs are atlas pixels: divided by the
//! atlas size they are the normalized texture coordinates.
use vstd::prelude::*;
use crate::glyph::UNITS_PER_PIXEL;
use crate::atlas::{Atlas, AtlasEntry, entry_for, entries_placed};
use crate::packer::{UVRect, rect_within};

verus! {

/// Most glyphs laid out at once, over all runs: four vertices per glyph
/// must stay numbered by a `u32`.
pub const MAX_GLYPHS: usize = 0x3fff_ffff;

/// One shaped glyph: its id and the shaper's advance and offset, in font units.
#[derive(Clone, Copy, Debug, PartialEq, Eq, Structural)]
pub struct ShapedGlyph {
    pub id: u16,
    pub x_advance: i32,
    pub y_advance: i32,
    pub x_offset: i32,
    pub y_offset: i32,
}

/// A shaped run of glyphs and the pixel at which its pen starts.
#[derive(Clone, Debug)]
pub struct GlyphSequence {
    pub glyphs: Vec<ShapedGlyph>,
    pub x: u32,
    pub y: u32,
}

/// A quad corner: position as normalized-device numerators, UV in atlas pixels.
#[derive(Clone, Copy, Debug, PartialEq, Eq, Structural)]
pub struct Vertex {
    pub x: i64,
    pub y: i64,
    pub u: u32,
    pub v: u32,
}

/// A screen quad: left/bottom (`x1`, `y1`) and right/top (`x2`, `y2`) edges as
/// normalized-device numerators, and the atlas rectangle it shows.
#[derive(Clone, Copy, Debug, PartialEq, Eq, Structural)]
pub struct Quad {
    pub x1: i64,
    pub y1: i64,
    pub x2: i64,
    pub y2: i64,
    pub u1: u32,
    pub v1: u32,
    pub u2: u32,
    pub v2: u32,
}

/// Vertex and index buffers for one draw call. Vertex `x` is over `x_den`,
/// vertex `y` over `y_den`.
#[derive(Clone, Debug)]
pub struct TextMesh {
    pub vertices: Vec<Vertex>,
    pub indices: Vec<u32>,
    pub x_den: i64,
    pub y_den: i64,
}

/// Numerator of the normalized device coordinate of a point `fine` font units
/// from the screen edge, on a screen `screen` pixels long.
pub open spec fn ndc_num(fine: int, screen: int) -> int {
    2 * fine - (UNITS_PER_PIXEL as int) * screen
}

impl Quad {
    /// The quad of a box whose left/bottom corner is `(left, bottom)` and
    /// whose size is `width` x `height`, all in font units, showing `rect`.
    pub fn new(left: i64, bottom: i64, width: i64, height: i64, rect: UVRect, sw: u32, sh: u32) -> (q: Quad)
        requires
            -0x3000_0000_0000_0000 <= left <= 0x3000_0000_0000_0000,
            -0x3000_0000_0000_0000 <= bottom <= 0x3000_0000_0000_0000,
            -0x1_0000 <= width <= 0x1_0000,
            -0x1_0000 <= height <= 0x1_0000,
            rect.x + rect.w <= u32::MAX,
            rect.y + rect.h <= u32::MAX,
        ensures
            q.x1 == ndc_num(left as int, sw as int),
            q.x2 == ndc_num(left + width, sw as int),
            q.y1 == ndc_num(bottom as int, sh as int),
            q.y2 == ndc_num(bottom + height, sh as int),
            q.u1 == rect.x,
            q.v1 == rect.y,
            q.u2 == rect.x + rect.w,
            q.v2 == rect.y + rect.h,
    {
        let dx = UNITS_PER_PIXEL as i64 * sw as i64;
        let dy = UNITS_PER_PIXEL as i64 * sh as i64;
        Quad {
            x1: 2 * left - dx,
            y1: 2 * bottom - dy,
            x2: 2 * (left + width) - dx,
            y2: 2 * (bottom + height) - dy,
            u1: rect.x,
            v1: rect.y,
            u2: rect.x + rect.w,
            v2: rect.y + rect.h,
        }
    }

    /// The four corners, counter-clockwise from left/bottom. Image rows run
    /// downwards, so the bottom edge samples the rectangle's last row.
    pub fn vertices(&self) -> (r: [Vertex; 4])
        ensures
            r@[0] == (Vertex { x: self.x1, y: self.y1, u: self.u1, v: self.v2 }),
            r@[1] == (Vertex { x: self.x2, y: self.y1, u: self.u2, v: self.v2 }),
            r@[2] == (Vertex { x: self.x2, y: self.y2, u: self.u2, v: self.v1 }),
            r@[3] == (Vertex { x: self.x1, y: self.y2, u: self.u1, v: self.v1 }),
    {
        [
            Vertex { x: self.x1, y: self.y1, u: self.u1, v: self.v2 },
            Vertex { x: self.x2, y: self.y1, u: self.u2, v: self.v2 },
            Vertex { x: self.x2, y: self.y2, u: self.u2, v: self.v1 },
            Vertex { x: self.x1, y: self.y2, u: self.u1, v: self.v1 },
        ]
    }

    /// Two triangles over the corners numbered from `starting`, with the
    /// winding of `vertices`.
    pub fn indices(&self, starting: u32) -> (r: [u32; 6])
        requires
            starting <= u32::MAX - 3,
        ensures
            r@ == seq![starting, (starting + 1) as u32, (starting + 2) as u32, starting, (starting + 2) as u32, (starting + 3) as u32],
    {
        let r = [starting, starting + 1, starting + 2, starting, starting + 2, starting + 3];
        assert(r@ =~= seq![starting, (starting + 1) as u32, (starting + 2) as u32, starting, (starting + 2) as u32, (starting + 3) as u32]);
        r
    }
}

/// A glyph that gets a quad: the pen position (font units from the screen
/// origin) at which it stands, the glyph and its atlas entry.
pub type Slot = (int, int, ShapedGlyph, AtlasEntry);

/// The pen's offset from the run's origin after the first `n` glyphs.
pub open spec fn pen_after(glyphs: Seq<ShapedGlyph>, n: int) -> (int, int)
    decreases n,
{
    if n <= 0 {
        (0, 0)
    } else {
        let p = pen_after(glyphs, n - 1);
        (p.0 + glyphs[n - 1].x_advance, p.1 + glyphs[n - 1].y_advance)
    }
}

/// The quads of the first `n` glyphs of a run whose pen starts at `(ox, oy)`
/// font units: glyph `i` stands at the origin plus the advances of the glyphs
/// before it, and a glyph without an atlas entry gets no quad.
pub open spec fn run_slots(glyphs: Seq<ShapedGlyph>, n: int, ox: int, oy: int, entries: Seq<AtlasEntry>) -> Seq<Slot>
    decreases n,
{
    if n <= 0 {
        Seq::empty()
    } else {
        let before = run_slots(glyphs, n - 1, ox, oy, entries);
        let g = glyphs[n - 1];
        let p = pen_after(glyphs, n - 1);
        match entry_for(entries, g.id) {
            Some(e) => before.push((ox + p.0, oy + p.1, g, e)),
            None => before,
        }
    }
}

/// Pen origin of a run, in font units.
pub open spec fn run_origin(seq: GlyphSequence) -> (int, int) {
    ((UNITS_PER_PIXEL as int) * seq.x, (UNITS_PER_PIXEL as int) * seq.y)
}

/// The quads of the first `m` runs, run after run.
pub open spec fn mesh_slots(seqs: Seq<GlyphSequence>, m: int, entries: Seq<AtlasEntry>) -> Seq<Slot>
    decreases m,
{
    if m <= 0 {
        Seq::empty()
    } else {
        let s = seqs[m - 1];
        let o = run_origin(s);
        mesh_slots(seqs, m - 1, entries) + run_slots(s.glyphs@, s.glyphs@.len() as int, o.0, o.1, entries)
    }
}

/// Left edge of a slot's quad: pen plus shaping offset plus the glyph box's
/// left side bearing.
pub open spec fn slot_left(s: Slot) -> int {
    s.0 + s.2.x_offset + s.3.metrics.bbox.x_min
}

/// Bottom edge of a slot's quad.
pub open spec fn slot_bottom(s: Slot) -> int {
    s.1 + s.2.y_offset + s.3.metrics.bbox.y_min
}

/// Right edge of a slot's quad: the left edge plus the glyph box's width.
pub open spec fn slot_right(s: Slot) -> int {
    slot_left(s) + s.3.metrics.bbox.width_spec()
}

/// Top edge of a slot's quad.
pub open spec fn slot_top(s: Slot) -> int {
    slot_bottom(s) + s.3.metrics.bbox.height_spec()
}

/// Corner `c` of a slot's quad, as `Quad::vertices` orders them.
pub open spec fn slot_vertex(s: Slot, c: int, sw: int, sh: int) -> Vertex {
    let r = s.3.rect;
    let left = ndc_num(slot_left(s), sw) as i64;
    let right = ndc_num(slot_right(s), sw) as i64;
    let bottom = ndc_num(slot_bottom(s), sh) as i64;
    let top = ndc_num(slot_top(s), sh) as i64;
    let u1 = r.x;
    let u2 = (r.x + r.w) as u32;
    let v1 = r.y;
    let v2 = (r.y + r.h) as u32;
    if c == 0 {
        Vertex { x: left, y: bottom, u: u1, v: v2 }
    } else if c == 1 {
        Vertex { x: right, y: bottom, u: u2, v: v2 }
    } else if c == 2 {
        Vertex { x: right, y: top, u: u2, v: v1 }
    } else {
        Vertex { x: left, y: top, u: u1, v: v1 }
    }
}

/// Which corner of its quad index `c` (of six) names.
pub open spec fn corner_of(c: int) -> int {
    if c == 0 || c == 3 {
        0
    } else if c == 1 {
        1
    } else if c == 2 || c == 4 {
        2
    } else {
        3
    }
}

/// Corner `c` of quad `k` in a vertex buffer.
pub open spec fn quad_vertex(vs: Seq<Vertex>, k: int, c: int) -> Vertex {
    vs[4 * k + c]
}

/// Index `c` of quad `k` in an index buffer.
pub open spec fn quad_index(is: Seq<u32>, k: int, c: int) -> u32 {
    is[6 * k + c]
}

/// The buffers hold, quad by quad, the corners of `slots` and two triangles
/// over each quad's own four vertices.
pub open spec fn buffers_match(vs: Seq<Vertex>, is: Seq<u32>, slots: Seq<Slot>, sw: int, sh: int) -> bool {
    &&& vs.len() == 4 * slots.len()
    &&& is.len() == 6 * slots.len()
    &&& forall|k: int, c: int|
        0 <= k < slots.len() && 0 <= c < 4 ==> #[trigger] quad_vertex(vs, k, c) == slot_vertex(slots[k], c, sw, sh)
    &&& forall|k: int, c: int|
        0 <= k < slots.len() && 0 <= c < 6 ==> #[trigger] quad_index(is, k, c) == 4 * k + corner_of(c)
}

/// The mesh of `seqs` laid out over `entries` on a `sw` x `sh` screen.
pub open spec fn mesh_matches(mesh: TextMesh, seqs: Seq<GlyphSequence>, entries: Seq<AtlasEntry>, sw: int, sh: int) -> bool {
    &&& mesh.x_den == (UNITS_PER_PIXEL as int) * sw
    &&& mesh.y_den == (UNITS_PER_PIXEL as int) * sh
    &&& buffers_match(mesh.vertices@, mesh.indices@, mesh_slots(seqs, seqs.len() as int, entries), sw, sh)
}

/// Number of glyphs in the first `m` runs.
pub open spec fn total_glyphs(seqs: Seq<GlyphSequence>, m: int) -> int
    decreases m,
{
    if m <= 0 {
        0
    } else {
        total_glyphs(seqs, m - 1) + seqs[m - 1].glyphs@.len()
    }
}

/// Runs that `layout` can take: at most `MAX_GLYPHS` glyphs in all.
pub open spec fn runs_bounded(seqs: Seq<GlyphSequence>) -> bool {
    total_glyphs(seqs, seqs.len() as int) <= MAX_GLYPHS
}

/// The glyph count only grows run by run.
proof fn lemma_total_glyphs_grows(seqs: Seq<GlyphSequence>, m: int, n: int)
    requires
        0 <= m <= n <= seqs.len(),
    ensures
        0 <= total_glyphs(seqs, m) <= total_glyphs(seqs, n),
    decreases n - m,
{
    if m < n {
        lemma_total_glyphs_grows(seqs, m, n - 1);
    } else {
        lemma_total_glyphs_nonneg(seqs, m);
    }
}

proof fn lemma_total_glyphs_nonneg(seqs: Seq<GlyphSequence>, m: int)
    requires
        0 <= m <= seqs.len(),
    ensures
        0 <= total_glyphs(seqs, m),
    decreases m,
{
    if m > 0 {
        lemma_total_glyphs_nonneg(seqs, m - 1);
    }
}

/// The pen moves at most `2^31` font units per glyph on each axis.
proof fn lemma_pen_bound(glyphs: Seq<ShapedGlyph>, n: int)
    requires
        0 <= n <= glyphs.len(),
    ensures
        -n * 0x8000_0000 <= pen_after(glyphs, n).0 <= n * 0x8000_0000,
        -n * 0x8000_0000 <= pen_after(glyphs, n).1 <= n * 0x8000_0000,
    decreases n,
{
    if n > 0 {
        lemma_pen_bound(glyphs, n - 1);
    }
}

/// A run gives at most one quad per glyph.
proof fn lemma_run_slots_len(glyphs: Seq<ShapedGlyph>, n: int, ox: int, oy: int, entries: Seq<AtlasEntry>)
    requires
        0 <= n,
    ensures
        run_slots(glyphs, n, ox, oy, entries).len() <= n,
    decreases n,
{
    if n > 0 {
        lemma_run_slots_len(glyphs, n - 1, ox, oy, entries);
    }
}

/// The first `m` runs give at most one quad per glyph.
proof fn lemma_mesh_slots_len(seqs: Seq<GlyphSequence>, m: int, entries: Seq<AtlasEntry>)
    requires
        0 <= m <= seqs.len(),
    ensures
        mesh_slots(seqs, m, entries).len() <= total_glyphs(seqs, m),
    decreases m,
{
    if m > 0 {
        lemma_mesh_slots_len(seqs, m - 1, entries);
        let s = seqs[m - 1];
        let o = run_origin(s);
        lemma_run_slots_len(s.glyphs@, s.glyphs@.len() as int, o.0, o.1, entries);
    }
}

/// Appending one more slot's quad keeps the buffers matched.
proof fn lemma_buffers_push(
    vs: Seq<Vertex>,
    is: Seq<u32>,
    slots: Seq<Slot>,
    s: Slot,
    sw: int,
    sh: int,
    quad_vs: Seq<Vertex>,
    quad_is: Seq<u32>,
)
    requires
        buffers_match(vs, is, slots, sw, sh),
        quad_vs.len() == 4,
        quad_is.len() == 6,
        forall|c: int| 0 <= c < 4 ==> #[trigger] quad_vs[c] == slot_vertex(s, c, sw, sh),
        forall|c: int| 0 <= c < 6 ==> #[trigger] quad_is[c] == 4 * slots.len() + corner_of(c),
    ensures
        buffers_match(vs + quad_vs, is + quad_is, slots.push(s), sw, sh),
{
    let nvs = vs + quad_vs;
    let nis = is + quad_is;
    let ns = slots.push(s);
    assert forall|k: int, c: int| 0 <= k < ns.len() && 0 <= c < 4 implies #[trigger] quad_vertex(nvs, k, c)
        == slot_vertex(ns[k], c, sw, sh) by {
        if k < slots.len() {
            assert(quad_vertex(vs, k, c) == slot_vertex(slots[k], c, sw, sh));
        } else {
            assert(nvs[4 * k + c] == quad_vs[c]);
        }
    }
    assert forall|k: int, c: int| 0 <= k < ns.len() && 0 <= c < 6 implies #[trigger] quad_index(nis, k, c)
        == 4 * k + corner_of(c) by {
        if k < slots.len() {
            assert(quad_index(is, k, c) == 4 * k + corner_of(c));
        } else {
            assert(nis[6 * k + c] == quad_is[c]);
        }
    }
}

/// Lays out shaped runs over an atlas on a `screen_width` x `screen_height`
/// screen. Each run's pen starts at its origin; each glyph with an atlas
/// entry gets a quad at the pen, shifted by the shaping offset and the
/// glyph box's bearings and as large as the glyph box; a glyph without an
/// entry gets none. Either way the pen then moves by the glyph's advance.
pub fn layout(seqs: &Vec<GlyphSequence>, atlas: &Atlas, screen_width: u32, screen_height: u32) -> (mesh: TextMesh)
    requires
        atlas.wf(),
        1 <= screen_width,
        1 <= screen_height,
        runs_bounded(seqs@),
    ensures
        mesh_matches(mesh, seqs@, atlas.entries@, screen_width as int, screen_height as int),
{
    let ghost sw = screen_width as int;
    let ghost sh = screen_height as int;
    let ghost entries = atlas.entries@;
    let x_den: i64 = UNITS_PER_PIXEL as i64 * screen_width as i64;
    let y_den: i64 = UNITS_PER_PIXEL as i64 * screen_height as i64;
    let mut vertices: Vec<Vertex> = Vec::new();
    let mut indices: Vec<u32> = Vec::new();
    let mut s: usize = 0;
    while s < seqs.len()
        invariant
            atlas.wf(),
            entries == atlas.entries@,
            sw == screen_width as int,
            sh == screen_height as int,
            1 <= screen_width,
            1 <= screen_height,
            runs_bounded(seqs@),
            0 <= s <= seqs@.len(),
            buffers_match(vertices@, indices@, mesh_slots(seqs@, s as int, entries), sw, sh),
        decreases seqs@.len() - s,
    {
        let seq = &seqs[s];
        let ghost glyphs = seq.glyphs@;
        let ghost ox = (UNITS_PER_PIXEL as int) * seq.x;
        let ghost oy = (UNITS_PER_PIXEL as int) * seq.y;
        let ghost done = mesh_slots(seqs@, s as int, entries);
        proof {
            lemma_mesh_slots_len(seqs@, s as int, entries);
            lemma_total_glyphs_grows(seqs@, s + 1, seqs@.len() as int);
            lemma_total_glyphs_nonneg(seqs@, s as int);
            assert(seqs@[s as int] == *seq);
        }
        let mut pen_x: i64 = UNITS_PER_PIXEL as i64 * seq.x as i64;
        let mut pen_y: i64 = UNITS_PER_PIXEL as i64 * seq.y as i64;
        let mut i: usize = 0;
        while i < seq.glyphs.len()
            invariant
                atlas.wf(),
                entries == atlas.entries@,
                sw == screen_width as int,
                sh == screen_height as int,
                1 <= screen_width,
                1 <= screen_height,
                glyphs == seq.glyphs@,
                done.len() + glyphs.len() <= MAX_GLYPHS,
                ox == (UNITS_PER_PIXEL as int) * seq.x,
                oy == (UNITS_PER_PIXEL as int) * seq.y,
                0 <= i <= glyphs.len(),
                pen_x == ox + pen_after(glyphs, i as int).0,
                pen_y == oy + pen_after(glyphs, i as int).1,
                buffers_match(vertices@, indices@, done + run_slots(glyphs, i as int, ox, oy, entries), sw, sh),
            decreases glyphs.len() - i,
        {
            let g = seq.glyphs[i];
            proof {
                lemma_pen_bound(glyphs, i as int);
                lemma_run_slots_len(glyphs, i as int, ox, oy, entries);
                assert((i as int) * 0x8000_0000 <= 0x3fff_ffff * 0x8000_0000) by (nonlinear_arith)
                    requires 0 <= i <= 0x3fff_ffff;
            }
            let ghost slots_before = done + run_slots(glyphs, i as int, ox, oy, entries);
            match atlas.entry(g.id) {
                Some(e) => {
                    let b = e.metrics.bbox;
                    proof {
                        assert(entries_placed(entries, atlas.width as int, atlas.height as int));
                        let k = choose|k: int| 0 <= k < entries.len() && #[trigger] entries[k].glyph == g.id;
                        assert(rect_within(entries[k].rect, atlas.width as int, atlas.height as int));
                    }
                    let left = pen_x + g.x_offset as i64 + b.x_min as i64;
                    let bottom = pen_y + g.y_offset as i64 + b.y_min as i64;
                    let quad = Quad::new(
                        left,
                        bottom,
                        b.x_max as i64 - b.x_min as i64,
                        b.y_max as i64 - b.y_min as i64,
                        e.rect,
                        screen_width,
                        screen_height,
                    );
                    let ghost slot: Slot = (pen_x as int, pen_y as int, g, e);
                    let start = vertices.len() as u32;
                    let corners = quad.vertices();
                    let idx = quad.indices(start);
                    let ghost old_vs = vertices@;
                    let ghost old_is = indices@;
                    vertices.push(corners[0]);
                    vertices.push(corners[1]);
                    vertices.push(corners[2]);
                    vertices.push(corners[3]);
                    indices.push(idx[0]);
                    indices.push(idx[1]);
                    indices.push(idx[2]);
                    indices.push(idx[3]);
                    indices.push(idx[4]);
                    indices.push(idx[5]);
                    proof {
                        let qv = seq![corners@[0], corners@[1], corners@[2], corners@[3]];
                        let qi = idx@;
                        assert(vertices@ =~= old_vs + qv);
                        assert(indices@ =~= old_is + qi);
                        lemma_buffers_push(old_vs, old_is, slots_before, slot, sw, sh, qv, qi);
                        assert(run_slots(glyphs, i + 1, ox, oy, entries) == run_slots(glyphs, i as int, ox, oy, entries).push(slot));
                        assert(done + run_slots(glyphs, i + 1, ox, oy, entries) =~= slots_before.push(slot));
                    }
                },
                None => {
                    assert(run_slots(glyphs, i + 1, ox, oy, entries) == run_slots(glyphs, i as int, ox, oy, entries));
                },
            }
            pen_x = pen_x + g.x_advance as i64;
            pen_y = pen_y + g.y_advance as i64;
            i += 1;
        }
        proof {
            assert(seqs@[s as int] == *seq);
            assert(mesh_slots(seqs@, s + 1, entries) == done + run_slots(glyphs, glyphs.len() as int, ox, oy, entries));
        }
        s += 1;
    }
    TextMesh {
        vertices,
        indices,
        x_den,
        y_den,
    }
}

/// Layout is deterministic: two meshes that both meet `layout`'s contract for
/// the same runs, atlas entries and screen size are identical, vertex for
/// vertex and index for index.
pub proof fn lemma_layout_deterministic(
    m1: TextMesh,
    m2: TextMesh,
    seqs: Seq<GlyphSequence>,
    entries: Seq<AtlasEntry>,
    sw: int,
    sh: int,
)
    requires
        mesh_matches(m1, seqs, entries, sw, sh),
        mesh_matches(m2, seqs, entries, sw, sh),
    ensures
        m1.vertices@ == m2.vertices@,
        m1.indices@ == m2.indices@,
        m1.x_den == m2.x_den,
        m1.y_den == m2.y_den,
{
    let slots = mesh_slots(seqs, seqs.len() as int, entries);
    let (v1, v2, i1, i2) = (m1.vertices@, m2.vertices@, m1.indices@, m2.indices@);
    assert forall|n: int| 0 <= n < v1.len() implies v1[n] == v2[n] by {
        let k = n / 4;
        let c = n % 4;
        assert(n == 4 * k + c);
        assert(quad_vertex(v1, k, c) == slot_vertex(slots[k], c, sw, sh));
        assert(quad_vertex(v2, k, c) == slot_vertex(slots[k], c, sw, sh));
    }
    assert forall|n: int| 0 <= n < i1.len() implies i1[n] == i2[n] by {
        let k = n / 6;
        let c = n % 6;
        assert(n == 6 * k + c);
        assert(quad_index(i1, k, c) == 4 * k + corner_of(c));
        assert(quad_index(i2, k, c) == 4 * k + corner_of(c));
    }
    assert(v1 =~= v2);
    assert(i1 =~= i2);
}

/// Every index names a vertex of the buffer: no index dangles.
pub proof fn lemma_indices_in_range(vs: Seq<Vertex>, is: Seq<u32>, slots: Seq<Slot>, sw: int, sh: int)
    requires
        buffers_match(vs, is, slots, sw, sh),
    ensures
        forall|n: int| 0 <= n < is.len() ==> #[trigger] is[n] < vs.len(),
{
    assert forall|n: int| 0 <= n < is.len() implies #[trigger] is[n] < vs.len() by {
        let k = n / 6;
        let c = n % 6;
        assert(n == 6 * k + c);
        assert(quad_index(is, k, c) == 4 * k + corner_of(c));
    }
}

/// With non-negative advances the pen never moves left.
proof fn lemma_pen_nondecreasing(glyphs: Seq<ShapedGlyph>, i: int, j: int)
    requires
        0 <= i <= j <= glyphs.len(),
        forall|k: int| 0 <= k < glyphs.len() ==> #[trigger] glyphs[k].x_advance >= 0,
    ensures
        pen_after(glyphs, i).0 <= pen_after(glyphs, j).0,
    decreases j - i,
{
    if i < j {
        lemma_pen_nondecreasing(glyphs, i, j - 1);
    }
}

/// Pen-advance monotonicity: in a left-to-right run whose advances are all
/// non-negative, each quad stands at a pen position no further left than the
/// quad before it.
pub proof fn lemma_quad_origins_nondecreasing(
    glyphs: Seq<ShapedGlyph>,
    n: int,
    ox: int,
    oy: int,
    entries: Seq<AtlasEntry>,
)
    requires
        0 <= n <= glyphs.len(),
        forall|k: int| 0 <= k < glyphs.len() ==> #[trigger] glyphs[k].x_advance >= 0,
    ensures
        forall|i: int, j: int|
            0 <= i < j < run_slots(glyphs, n, ox, oy, entries).len()
                ==> #[trigger] run_slots(glyphs, n, ox, oy, entries)[i].0 <= #[trigger] run_slots(glyphs, n, ox, oy, entries)[j].0,
        forall|i: int|
            0 <= i < run_slots(glyphs, n, ox, oy, entries).len()
                ==> #[trigger] run_slots(glyphs, n, ox, oy, entries)[i].0 <= ox + pen_after(glyphs, n).0,
    decreases n,
{
    if n > 0 {
        lemma_quad_origins_nondecreasing(glyphs, n - 1, ox, oy, entries);
        lemma_pen_nondecreasing(glyphs, n - 1, n);
        let before = run_slots(glyphs, n - 1, ox, oy, entries);
        let now = run_slots(glyphs, n, ox, oy, entries);
        assert forall|i: int| 0 <= i < before.len() implies #[trigger] now[i] == before[i] by {}
        assert forall|i: int, j: int| 0 <= i < j < now.len() implies #[trigger] now[i].0 <= #[trigger] now[j].0 by {
            if j < before.len() {
                assert(before[i].0 <= before[j].0);
            } else {
                assert(before[i].0 <= ox + pen_after(glyphs, n - 1).0);
            }
        }
        assert forall|i: int| 0 <= i < now.len() implies #[trigger] now[i].0 <= ox + pen_after(glyphs, n).0 by {
            if i < before.len() {
                assert(before[i].0 <= ox + pen_after(glyphs, n - 1).0);
            }
        }
    }
}

/// Number of the first `n` glyphs of a run that have no atlas entry.
pub open spec fn missing_in_run(glyphs: Seq<ShapedGlyph>, n: int, entries: Seq<AtlasEntry>) -> int
    decreases n,
{
    if n <= 0 {
        0
    } else {
        missing_in_run(glyphs, n - 1, entries) + if entry_for(entries, glyphs[n - 1].id) is Some { 0int } else { 1int }
    }
}

/// Number of glyphs without an atlas entry in the first `m` runs.
pub open spec fn missing_in_mesh(seqs: Seq<GlyphSequence>, m: int, entries: Seq<AtlasEntry>) -> int
    decreases m,
{
    if m <= 0 {
        0
    } else {
        missing_in_mesh(seqs, m - 1, entries) + missing_in_run(seqs[m - 1].glyphs@, seqs[m - 1].glyphs@.len() as int, entries)
    }
}

/// A run gives one quad per glyph that has an atlas entry.
proof fn lemma_run_quad_count(glyphs: Seq<ShapedGlyph>, n: int, ox: int, oy: int, entries: Seq<AtlasEntry>)
    requires
        0 <= n,
    ensures
        run_slots(glyphs, n, ox, oy, entries).len() + missing_in_run(glyphs, n, entries) == n,
    decreases n,
{
    if n > 0 {
        lemma_run_quad_count(glyphs, n - 1, ox, oy, entries);
    }
}

/// The first `m` runs give one quad per glyph that has an atlas entry.
proof fn lemma_mesh_quad_count(seqs: Seq<GlyphSequence>, m: int, entries: Seq<AtlasEntry>)
    requires
        0 <= m <= seqs.len(),
    ensures
        mesh_slots(seqs, m, entries).len() + missing_in_mesh(seqs, m, entries) == total_glyphs(seqs, m),
    decreases m,
{
    if m > 0 {
        lemma_mesh_quad_count(seqs, m - 1, entries);
        let s = seqs[m - 1];
        let o = run_origin(s);
        lemma_run_quad_count(s.glyphs@, s.glyphs@.len() as int, o.0, o.1, entries);
    }
}

/// Skipped glyphs: the mesh has one quad, four vertices and six indices for
/// every glyph of every run except those without an atlas entry. With exactly
/// one such glyph there is one quad fewer than there are glyphs.
pub proof fn lemma_quad_count(mesh: TextMesh, seqs: Seq<GlyphSequence>, entries: Seq<AtlasEntry>, sw: int, sh: int)
    requires
        mesh_matches(mesh, seqs, entries, sw, sh),
    ensures
        mesh.vertices@.len() == 4 * (total_glyphs(seqs, seqs.len() as int) - missing_in_mesh(seqs, seqs.len() as int, entries)),
        mesh.indices@.len() == 6 * (total_glyphs(seqs, seqs.len() as int) - missing_in_mesh(seqs, seqs.len() as int, entries)),
{
    lemma_mesh_quad_count(seqs, seqs.len() as int, entries);
}

} // verus!
