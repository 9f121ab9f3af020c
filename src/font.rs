//! Font resources: raw font bytes and the logical identity that keys the
//! atlas cache.
use vstd::prelude::*;

verus! {

/// Where a font's bytes came from.
#[derive(Clone, Debug, Default)]
pub enum Source {
    #[default]
    Builtin,
    Path(String),
    Url(String),
}

/// A font family.
#[derive(Clone, Debug, Default)]
pub enum Family {
    Named(String),
    Serif,
    #[default]
    SansSerif,
    Cursive,
    Monospace,
}

/// A font weight, from 100 (`Thin`) to 900 (`Black`).
#[derive(Clone, Copy, Debug, Default, PartialEq, Eq, Hash, Structural)]
pub enum Weight {
    Thin,
    ExtraLigh,
    Light,
    #[default]
    Normal,
    Medium,
    Semibold,
    Bold,
    ExtraBold,
    Black,
}

impl Weight {
    /// The numeric weight: 100 for `Thin` up to 900 for `Black`.
    pub fn value(&self) -> (r: u16)
        ensures
            r == (match *self {
                Weight::Thin => 100u16,
                Weight::ExtraLigh => 200,
                Weight::Light => 300,
                Weight::Normal => 400,
                Weight::Medium => 500,
                Weight::Semibold => 600,
                Weight::Bold => 700,
                Weight::ExtraBold => 800,
                Weight::Black => 900,
            }),
    {
        match self {
            Weight::Thin => 100,
            Weight::ExtraLigh => 200,
            Weight::Light => 300,
            Weight::Normal => 400,
            Weight::Medium => 500,
            Weight::Semibold => 600,
            Weight::Bold => 700,
            Weight::ExtraBold => 800,
            Weight::Black => 900,
        }
    }
}

/// A font: its bytes and its identity.
#[derive(Clone, Debug, Default)]
pub struct Font {
    pub family: Family,
    pub weight: Weight,
    pub monospace: bool,
    pub src: Source,
    pub data: Vec<u8>,
}

/// What identifies a font in the atlas cache: family, weight and whether it
/// is monospace.
#[derive(Clone, Debug)]
pub struct FontKey {
    pub family: Family,
    pub weight: Weight,
    pub monospace: bool,
}

/// The two families are the same; named ones by their names.
pub open spec fn same_family(a: Family, b: Family) -> bool {
    match a {
        Family::Named(x) => match b {
            Family::Named(y) => x@ == y@,
            _ => false,
        },
        Family::Serif => b is Serif,
        Family::SansSerif => b is SansSerif,
        Family::Cursive => b is Cursive,
        Family::Monospace => b is Monospace,
    }
}

/// The two keys name the same font.
pub open spec fn same_key(a: FontKey, b: FontKey) -> bool {
    same_family(a.family, b.family) && a.weight == b.weight && a.monospace == b.monospace
}

/// Whether two families are the same.
pub fn family_eq(a: &Family, b: &Family) -> (r: bool)
    ensures
        r == same_family(*a, *b),
{
    match (a, b) {
        (Family::Named(x), Family::Named(y)) => x.eq(y),
        (Family::Serif, Family::Serif) => true,
        (Family::SansSerif, Family::SansSerif) => true,
        (Family::Cursive, Family::Cursive) => true,
        (Family::Monospace, Family::Monospace) => true,
        _ => false,
    }
}

/// A copy of a family.
pub fn copy_family(f: &Family) -> (r: Family)
    ensures
        same_family(r, *f),
{
    match f {
        Family::Named(x) => Family::Named(x.clone()),
        Family::Serif => Family::Serif,
        Family::SansSerif => Family::SansSerif,
        Family::Cursive => Family::Cursive,
        Family::Monospace => Family::Monospace,
    }
}

/// Whether two keys name the same font.
pub fn key_eq(a: &FontKey, b: &FontKey) -> (r: bool)
    ensures
        r == same_key(*a, *b),
{
    family_eq(&a.family, &b.family) && a.weight == b.weight && a.monospace == b.monospace
}

impl FontKey {
    /// A copy of the key.
    pub fn copy(&self) -> (r: FontKey)
        ensures
            same_key(r, *self),
    {
        FontKey { family: copy_family(&self.family), weight: self.weight, monospace: self.monospace }
    }
}

impl Font {
    /// The font's cache key.
    pub fn key(&self) -> (r: FontKey)
        ensures
            same_family(r.family, self.family),
            r.weight == self.weight,
            r.monospace == self.monospace,
    {
        FontKey { family: copy_family(&self.family), weight: self.weight, monospace: self.monospace }
    }
}

} // verus!
