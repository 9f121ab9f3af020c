//! The atlas cache: per font, the glyph ids that its current atlas was built
//! for, and that atlas.
//!
//! Asking for glyphs is two steps. `plan` says whether the cached atlas
//! already covers them; if not, it gives the full set to rebuild (what was
//! there plus what is new). The caller rasterizes that set and hands the
//! bitmaps to `rebuild`, which builds a fresh atlas and only then replaces
//! the cached one, so a reader never sees a half-built atlas.
use vstd::prelude::*;
use crate::atlas::{build_atlas, canvas_matches, entries_valid, has_entry, Atlas, AtlasError};
use crate::font::{key_eq, same_key, FontKey};
use crate::glyph::{RasterizedGlyph, MAX_EXTENT};
use crate::packer::{contains_id, lemma_push_contains};

verus! {

/// The atlas of one font and the glyph ids it was built for.
#[derive(Clone, Debug)]
pub struct CacheEntry {
    pub key: FontKey,
    pub glyphs: Vec<u16>,
    pub atlas: Atlas,
}

/// Atlases per font, all on canvases of one size.
#[derive(Clone, Debug)]
pub struct AtlasCache {
    pub width: u32,
    pub height: u32,
    pub entries: Vec<CacheEntry>,
}

/// What `plan` decided.
#[derive(Clone, Debug)]
pub enum EnsurePlan {
    /// The cached atlas was built for every glyph asked for.
    Hit,
    /// Rasterize these ids and rebuild the atlas from them.
    Rebuild(Vec<u16>),
}

/// Some entry is for `key`.
pub open spec fn has_font(entries: Seq<CacheEntry>, key: FontKey) -> bool {
    exists|k: int| 0 <= k < entries.len() && same_key(#[trigger] entries[k].key, key)
}

/// Index of the entry for `key` (meaningful where `has_font`).
pub open spec fn font_index(entries: Seq<CacheEntry>, key: FontKey) -> int {
    choose|k: int| 0 <= k < entries.len() && same_key(#[trigger] entries[k].key, key)
}

/// The ids that the atlas of `key` was built for; empty for an unknown font.
pub open spec fn packed_set(entries: Seq<CacheEntry>, key: FontKey) -> Set<u16> {
    if has_font(entries, key) {
        entries[font_index(entries, key)].glyphs@.to_set()
    } else {
        Set::empty()
    }
}

/// Asking for `required` calls for a rebuild: some id is not yet packed.
pub open spec fn needs_rebuild(entries: Seq<CacheEntry>, key: FontKey, required: Set<u16>) -> bool {
    !required.subset_of(packed_set(entries, key))
}

/// What serving a request for `required` leaves as the packed set of `key`:
/// the same set where `plan` finds a hit, else the set that `plan` gives and
/// `rebuild` records, the old one together with `required`.
pub open spec fn ensure_step(before: Seq<CacheEntry>, after: Seq<CacheEntry>, key: FontKey, required: Set<u16>) -> bool {
    if needs_rebuild(before, key, required) {
        packed_set(after, key) == packed_set(before, key).union(required)
    } else {
        packed_set(after, key) == packed_set(before, key)
    }
}

/// Keys are distinct, each atlas is well formed and on the cache's canvas,
/// and each id an atlas was built for is on its canvas or reported dropped.
pub open spec fn entries_wf(entries: Seq<CacheEntry>, width: u32, height: u32) -> bool {
    &&& forall|i: int, j: int|
        0 <= i < entries.len() && 0 <= j < entries.len() && i != j
            ==> !same_key(#[trigger] entries[i].key, #[trigger] entries[j].key)
    &&& forall|k: int| 0 <= k < entries.len() ==> {
        let e = #[trigger] entries[k];
        &&& e.atlas.wf()
        &&& e.atlas.width == width
        &&& e.atlas.height == height
        &&& forall|id: u16| #[trigger] e.glyphs@.contains(id)
            ==> has_entry(e.atlas.entries@, id) || e.atlas.dropped@.contains(id)
    }
}

/// Some glyph of `glyphs` has id `id`.
pub open spec fn has_bitmap(glyphs: Seq<RasterizedGlyph>, id: u16) -> bool {
    exists|i: int| 0 <= i < glyphs.len() && #[trigger] glyphs[i].id == id
}

/// The atlas was built from `glyphs` for the ids `ids`: as `built_from`
/// says, except that ids of `ids` without a bitmap are reported dropped too.
pub open spec fn built_for(a: Atlas, glyphs: Seq<RasterizedGlyph>, ids: Seq<u16>) -> bool {
    &&& a.wf()
    &&& entries_valid(a.entries@, glyphs, a.width as int, a.height as int)
    &&& canvas_matches(a.pixels@, a.width as int, a.height as int, a.entries@, glyphs)
    &&& forall|i: int|
        0 <= i < glyphs.len() ==> has_entry(a.entries@, #[trigger] glyphs[i].id) || a.dropped@.contains(glyphs[i].id)
    &&& forall|id: u16| #[trigger] ids.contains(id) ==> has_entry(a.entries@, id) || a.dropped@.contains(id)
    &&& forall|d: u16| #[trigger] a.dropped@.contains(d) ==> !has_entry(a.entries@, d)
    &&& forall|d: u16| #[trigger] a.dropped@.contains(d) ==> has_bitmap(glyphs, d) || ids.contains(d)
}

/// Whether some glyph of `glyphs` has id `id`.
fn find_bitmap(glyphs: &Vec<RasterizedGlyph>, id: u16) -> (r: bool)
    ensures
        r == has_bitmap(glyphs@, id),
{
    let mut i: usize = 0;
    while i < glyphs.len()
        invariant
            0 <= i <= glyphs@.len(),
            forall|j: int| 0 <= j < i ==> #[trigger] glyphs@[j].id != id,
        decreases glyphs@.len() - i,
    {
        if glyphs[i].id == id {
            return true;
        }
        i += 1;
    }
    false
}

/// Reports as dropped the ids of `ids` that have no bitmap in `glyphs`.
fn mark_unrasterized(atlas: Atlas, ids: &Vec<u16>, glyphs: &Vec<RasterizedGlyph>) -> (r: Atlas)
    requires
        atlas.built_from(glyphs@),
    ensures
        built_for(r, glyphs@, ids@),
        r.width == atlas.width,
        r.height == atlas.height,
        r.entries@ == atlas.entries@,
        r.pixels@ == atlas.pixels@,
{
    let mut a = atlas;
    let mut k: usize = 0;
    while k < ids.len()
        invariant
            0 <= k <= ids@.len(),
            a.width == atlas.width,
            a.height == atlas.height,
            a.entries@ == atlas.entries@,
            a.pixels@ == atlas.pixels@,
            a.wf(),
            entries_valid(a.entries@, glyphs@, a.width as int, a.height as int),
            canvas_matches(a.pixels@, a.width as int, a.height as int, a.entries@, glyphs@),
            forall|i: int|
                0 <= i < glyphs@.len() ==> has_entry(a.entries@, #[trigger] glyphs@[i].id) || a.dropped@.contains(glyphs@[i].id),
            forall|j: int| 0 <= j < k ==> has_entry(a.entries@, #[trigger] ids@[j]) || a.dropped@.contains(ids@[j]),
            forall|d: u16| #[trigger] a.dropped@.contains(d) ==> !has_entry(a.entries@, d),
            forall|d: u16| #[trigger] a.dropped@.contains(d) ==> has_bitmap(glyphs@, d) || ids@.contains(d),
        decreases ids@.len() - k,
    {
        let id = ids[k];
        if !find_bitmap(glyphs, id) && !contains_id(&a.dropped, id) {
            proof {
                lemma_push_contains(a.dropped@, id);
                if has_entry(a.entries@, id) {
                    let e = choose|e: int| 0 <= e < a.entries@.len() && #[trigger] a.entries@[e].glyph == id;
                    assert(glyphs@[a.entries@[e].source as int].id == id);
                }
                assert(ids@.contains(id));
            }
            a.dropped.push(id);
        } else if find_bitmap(glyphs, id) {
            proof {
                let i = choose|i: int| 0 <= i < glyphs@.len() && #[trigger] glyphs@[i].id == id;
                assert(has_entry(a.entries@, glyphs@[i].id) || a.dropped@.contains(glyphs@[i].id));
            }
        }
        k += 1;
    }
    assert forall|id: u16| #[trigger] ids@.contains(id) implies has_entry(a.entries@, id) || a.dropped@.contains(id) by {
        let j = choose|j: int| 0 <= j < ids@.len() && ids@[j] == id;
        assert(has_entry(a.entries@, ids@[j]) || a.dropped@.contains(ids@[j]));
    }
    a
}

impl AtlasCache {
    pub open spec fn wf(&self) -> bool {
        &&& self.width <= MAX_EXTENT
        &&& self.height <= MAX_EXTENT
        &&& entries_wf(self.entries@, self.width, self.height)
    }

    /// An empty cache whose atlases have `width` x `height` canvases.
    pub fn new(width: u32, height: u32) -> (r: AtlasCache)
        requires
            width <= MAX_EXTENT,
            height <= MAX_EXTENT,
        ensures
            r.wf(),
            r.width == width,
            r.height == height,
            r.entries@.len() == 0,
    {
        AtlasCache { width, height, entries: Vec::new() }
    }

    /// Index of the entry for `key`, if any.
    pub fn find(&self, key: &FontKey) -> (r: Option<usize>)
        requires
            self.wf(),
        ensures
            r is None <==> !has_font(self.entries@, *key),
            r matches Some(k) ==> k == font_index(self.entries@, *key) && k < self.entries@.len(),
    {
        let mut k: usize = 0;
        while k < self.entries.len()
            invariant
                self.wf(),
                0 <= k <= self.entries@.len(),
                forall|j: int| 0 <= j < k ==> !same_key(#[trigger] self.entries@[j].key, *key),
            decreases self.entries@.len() - k,
        {
            if key_eq(&self.entries[k].key, key) {
                proof {
                    let es = self.entries@;
                    assert(has_font(es, *key));
                    let c = font_index(es, *key);
                    if c != k as int {
                        lemma_same_key_shared(es[c].key, es[k as int].key, *key);
                    }
                }
                return Some(k);
            }
            k += 1;
        }
        None
    }

    /// The current atlas of `key`, if it has one.
    pub fn atlas(&self, key: &FontKey) -> (r: Option<&Atlas>)
        requires
            self.wf(),
        ensures
            r is None <==> !has_font(self.entries@, *key),
            r matches Some(a) ==> *a == self.entries@[font_index(self.entries@, *key)].atlas,
    {
        match self.find(key) {
            Some(k) => Some(&self.entries[k].atlas),
            None => None,
        }
    }

    /// Decides what asking for `required` glyphs of `key` takes: nothing, if
    /// the current atlas was built for all of them, or a rebuild from the ids
    /// already packed together with the new ones.
    pub fn plan(&self, key: &FontKey, required: &Vec<u16>) -> (r: EnsurePlan)
        requires
            self.wf(),
        ensures
            r is Hit <==> !needs_rebuild(self.entries@, *key, required@.to_set()),
            r matches EnsurePlan::Rebuild(u) ==> u@.to_set() == packed_set(self.entries@, *key).union(required@.to_set()),
    {
        let ghost packed = packed_set(self.entries@, *key);
        let mut set: Vec<u16> = match self.find(key) {
            Some(k) => self.entries[k].glyphs.clone(),
            None => Vec::new(),
        };
        assert(set@.to_set() =~= packed);
        let mut hit = true;
        let mut i: usize = 0;
        while i < required.len()
            invariant
                0 <= i <= required@.len(),
                set@.to_set() == packed.union(required@.subrange(0, i as int).to_set()),
                hit <==> required@.subrange(0, i as int).to_set().subset_of(packed),
            decreases required@.len() - i,
        {
            let id = required[i];
            let ghost before = set@;
            proof {
                assert(required@.subrange(0, i + 1) =~= required@.subrange(0, i as int).push(id));
                lemma_push_contains(required@.subrange(0, i as int), id);
                assert(required@.subrange(0, i + 1).to_set() =~= required@.subrange(0, i as int).to_set().insert(id));
            }
            if !contains_id(&set, id) {
                proof {
                    lemma_push_contains(before, id);
                    assert(before.push(id).to_set() =~= before.to_set().insert(id));
                    assert(!before.to_set().contains(id));
                    assert(!packed.union(required@.subrange(0, i as int).to_set()).contains(id));
                    assert(!packed.contains(id));
                }
                set.push(id);
                hit = false;
            } else {
                assert(before.to_set().contains(id));
                assert(set@.to_set() =~= packed.union(required@.subrange(0, i + 1).to_set()));
            }
            i += 1;
        }
        assert(required@.subrange(0, required@.len() as int) =~= required@);
        if hit {
            EnsurePlan::Hit
        } else {
            EnsurePlan::Rebuild(set)
        }
    }

    /// Builds a fresh atlas of `key` from `glyphs`, the bitmaps drawn for
    /// `ids`, and then puts it in place of the font's old one, recording `ids`
    /// as what it was built for; an id that got no bitmap is reported dropped.
    /// Other fonts keep their entries. Fails, changing nothing, only when the
    /// cache's canvas has no area.
    pub fn rebuild(&mut self, key: &FontKey, ids: Vec<u16>, glyphs: &Vec<RasterizedGlyph>) -> (r: Result<(), AtlasError>)
        requires
            old(self).wf(),
            forall|i: int| 0 <= i < glyphs@.len() ==> (#[trigger] glyphs@[i]).wf(),
        ensures
            final(self).wf(),
            final(self).width == old(self).width,
            final(self).height == old(self).height,
            r is Err <==> (old(self).width == 0 || old(self).height == 0),
            r is Err ==> final(self).entries@ == old(self).entries@,
            r is Ok ==> has_font(final(self).entries@, *key),
            r is Ok ==> packed_set(final(self).entries@, *key) == ids@.to_set(),
            r is Ok ==> built_for(final(self).entries@[font_index(final(self).entries@, *key)].atlas, glyphs@, ids@),
            r is Ok ==> forall|other: FontKey|
                !same_key(other, *key) ==> (#[trigger] has_font(final(self).entries@, other) <==> has_font(old(self).entries@, other))
                    && packed_set(final(self).entries@, other) == packed_set(old(self).entries@, other),
            r is Ok ==> forall|other: FontKey|
                !same_key(other, *key) && #[trigger] has_font(old(self).entries@, other)
                    ==> final(self).entries@[font_index(final(self).entries@, other)]
                        == old(self).entries@[font_index(old(self).entries@, other)],
    {
        let ghost before = self.entries@;
        let atlas = match build_atlas(self.width, self.height, glyphs) {
            Err(e) => {
                return Err(e);
            },
            Ok(a) => mark_unrasterized(a, &ids, glyphs),
        };
        let entry = CacheEntry { key: key.copy(), glyphs: ids, atlas };
        let ghost k: int;
        match self.find(key) {
            Some(i) => {
                self.entries[i] = entry;
                proof { k = i as int; }
            },
            None => {
                self.entries.push(entry);
                proof { k = before.len() as int; }
            },
        }
        let ghost after = self.entries@;
        assert(after[k] == entry);
        assert(forall|j: int| 0 <= j < after.len() && j != k ==> after[j] == before[j]);
        assert(forall|j: int| 0 <= j < after.len() && j != k ==> !same_key(#[trigger] after[j].key, *key)) by {
            assert forall|j: int| 0 <= j < after.len() && j != k implies !same_key(#[trigger] after[j].key, *key) by {
                if k < before.len() {
                    if same_key(before[j].key, *key) {
                        lemma_same_key_shared(before[j].key, before[k].key, *key);
                    }
                }
            }
        }
        assert(entries_wf(after, self.width, self.height)) by {
            assert forall|i: int, j: int|
                0 <= i < after.len() && 0 <= j < after.len() && i != j
                    implies !same_key(#[trigger] after[i].key, #[trigger] after[j].key) by {
                if i == k {
                    if same_key(after[i].key, after[j].key) {
                        lemma_same_key_shared(after[j].key, *key, after[i].key);
                    }
                } else if j == k {
                    if same_key(after[i].key, after[j].key) {
                        lemma_same_key_shared(after[i].key, *key, after[j].key);
                    }
                } else {
                    assert(after[i] == before[i] && after[j] == before[j]);
                }
            }
            assert forall|id: u16| #[trigger] after[k].glyphs@.contains(id)
                implies has_entry(after[k].atlas.entries@, id) || after[k].atlas.dropped@.contains(id) by {
                assert(after[k].glyphs@ == ids@);
            }
        }
        proof {
            lemma_font_index_unique(after, self.width, self.height, *key, k);
            assert forall|other: FontKey| !same_key(other, *key) implies
                (#[trigger] has_font(after, other) <==> has_font(before, other))
                    && packed_set(after, other) == packed_set(before, other) by {
                if has_font(before, other) {
                    let j = font_index(before, other);
                    lemma_font_index_unique(before, self.width, self.height, other, j);
                    if j == k {
                        lemma_same_key_shared(*key, other, before[j].key);
                    }
                    lemma_font_index_unique(after, self.width, self.height, other, j);
                }
                if has_font(after, other) {
                    let j = font_index(after, other);
                    if j == k {
                        lemma_same_key_shared(*key, other, after[j].key);
                    }
                    lemma_font_index_unique(before, self.width, self.height, other, j);
                }
            }
        }
        Ok(())
    }
}

/// Asking twice for the same glyphs: once the first request has been served
/// (nothing done on a hit, else a rebuild from the set that `plan` gave), the
/// second request is a hit and needs no rasterization.
pub proof fn lemma_repeat_request_hits(before: Seq<CacheEntry>, after: Seq<CacheEntry>, key: FontKey, required: Set<u16>)
    requires
        ensure_step(before, after, key, required),
    ensures
        !needs_rebuild(after, key, required),
{
}

/// Asking for `s1` and then for a superset `s2`: the atlas that serves the
/// second request was built for every glyph of `s2`, so each of them has a
/// rectangle on its canvas or is reported dropped for lack of room.
pub proof fn lemma_superset_request_covers(
    first: Seq<CacheEntry>,
    second: Seq<CacheEntry>,
    third: Seq<CacheEntry>,
    width: u32,
    height: u32,
    key: FontKey,
    s1: Set<u16>,
    s2: Set<u16>,
)
    requires
        ensure_step(first, second, key, s1),
        ensure_step(second, third, key, s2),
        s1.subset_of(s2),
        entries_wf(third, width, height),
        has_font(third, key),
    ensures
        s1.subset_of(packed_set(second, key)),
        s2.subset_of(packed_set(third, key)),
        forall|id: u16| #[trigger] s2.contains(id)
            ==> has_entry(third[font_index(third, key)].atlas.entries@, id)
                || third[font_index(third, key)].atlas.dropped@.contains(id),
{
    let e = third[font_index(third, key)];
    assert forall|id: u16| #[trigger] s2.contains(id) implies has_entry(e.atlas.entries@, id) || e.atlas.dropped@.contains(id) by {
        assert(packed_set(third, key).contains(id));
        assert(e.glyphs@.contains(id));
    }
}

/// Where keys are distinct, the entry whose key names the font is the one
/// `font_index` picks.
proof fn lemma_font_index_unique(entries: Seq<CacheEntry>, width: u32, height: u32, key: FontKey, k: int)
    requires
        entries_wf(entries, width, height),
        0 <= k < entries.len(),
        same_key(entries[k].key, key),
    ensures
        has_font(entries, key),
        font_index(entries, key) == k,
{
    assert(has_font(entries, key));
    let c = font_index(entries, key);
    if c != k {
        lemma_same_key_shared(entries[c].key, entries[k].key, key);
    }
}

/// Two keys that name the same font as a third name the same font.
proof fn lemma_same_key_shared(a: FontKey, b: FontKey, key: FontKey)
    requires
        same_key(a, key),
        same_key(b, key),
    ensures
        same_key(a, b),
{
}

} // verus!
