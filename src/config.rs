//! Application and window settings, and a four-sided value for margins,
//! paddings and borders.
use vstd::prelude::*;

verus! {

/// An application built on the renderer.
#[derive(Clone, Copy, Debug)]
pub struct FramerApplication {}

impl FramerApplication {
    /// A new application with the given settings.
    pub fn new(_config: &FramerConfig) -> (r: Self)
        ensures
            r == (FramerApplication {}),
    {
        Self {}
    }
}

/// Size limits of the application window, in pixels.
#[derive(Copy, Clone, Debug)]
pub struct FramerConfig {
    pub width: u64,
    pub height: u64,
    pub min_width: u64,
    pub min_height: u64,
    pub max_width: u64,
    pub max_height: u64,
    pub resizable: bool,
}

impl Default for FramerConfig {
    /// 640 x 480, at least 320 x 240, unbounded above, resizable.
    fn default() -> (r: Self)
        ensures
            r.width == 640 && r.height == 480,
            r.min_width == 320 && r.min_height == 240,
            r.max_width == u64::MAX && r.max_height == u64::MAX,
            r.resizable,
    {
        Self {
            width: 640,
            height: 480,
            min_width: 320,
            min_height: 240,
            max_width: u64::MAX,
            max_height: u64::MAX,
            resizable: true,
        }
    }
}

/// How a window is opened.
#[derive(Clone, Copy, Debug)]
pub struct Config<'a> {
    pub resizable: bool,
    pub maximized: bool,
    pub decorations: bool,
    pub size: (u32, u32),
    pub title: &'a str,
}

impl<'a> Default for Config<'a> {
    /// A resizable, decorated, 800 x 600 window titled "Framer Application".
    fn default() -> (r: Self)
        ensures
            r.resizable && !r.maximized && r.decorations,
            r.size == (800u32, 600u32),
            r.title@ == "Framer Application"@,
    {
        proof {
            reveal_strlit("Framer Application");
        }
        Self { resizable: true, maximized: false, decorations: true, size: (800, 600), title: "Framer Application" }
    }
}

/// One value per side.
#[derive(Clone, Copy, Debug)]
pub struct QuadValue<T: Copy> {
    pub left: T,
    pub top: T,
    pub right: T,
    pub bottom: T,
}

impl<T: Copy> From<T> for QuadValue<T> {
    /// The same value on every side.
    fn from(value: T) -> (r: Self) {
        Self { left: value, top: value, right: value, bottom: value }
    }
}

impl<T: Copy> vstd::std_specs::convert::FromSpecImpl<T> for QuadValue<T> {
    open spec fn obeys_from_spec() -> bool {
        true
    }

    open spec fn from_spec(value: T) -> Self {
        QuadValue { left: value, top: value, right: value, bottom: value }
    }
}

impl<T: Copy> From<(T, T)> for QuadValue<T> {
    /// The first value left and right, the second top and bottom.
    fn from(value: (T, T)) -> (r: Self) {
        Self { left: value.0, top: value.1, right: value.0, bottom: value.1 }
    }
}

impl<T: Copy> vstd::std_specs::convert::FromSpecImpl<(T, T)> for QuadValue<T> {
    open spec fn obeys_from_spec() -> bool {
        true
    }

    open spec fn from_spec(value: (T, T)) -> Self {
        QuadValue { left: value.0, top: value.1, right: value.0, bottom: value.1 }
    }
}

impl<T: Copy> From<[T; 2]> for QuadValue<T> {
    /// The first value left and right, the second top and bottom.
    fn from(value: [T; 2]) -> (r: Self) {
        Self { left: value[0], top: value[1], right: value[0], bottom: value[1] }
    }
}

impl<T: Copy> vstd::std_specs::convert::FromSpecImpl<[T; 2]> for QuadValue<T> {
    open spec fn obeys_from_spec() -> bool {
        true
    }

    open spec fn from_spec(value: [T; 2]) -> Self {
        QuadValue { left: value@[0], top: value@[1], right: value@[0], bottom: value@[1] }
    }
}

impl<T: Copy> From<(T, T, T, T)> for QuadValue<T> {
    /// Left, top, right and bottom, in that order.
    fn from(value: (T, T, T, T)) -> (r: Self) {
        Self { left: value.0, top: value.1, right: value.2, bottom: value.3 }
    }
}

impl<T: Copy> vstd::std_specs::convert::FromSpecImpl<(T, T, T, T)> for QuadValue<T> {
    open spec fn obeys_from_spec() -> bool {
        true
    }

    open spec fn from_spec(value: (T, T, T, T)) -> Self {
        QuadValue { left: value.0, top: value.1, right: value.2, bottom: value.3 }
    }
}

impl<T: Copy> From<[T; 4]> for QuadValue<T> {
    /// Left, top, right and bottom, in that order.
    fn from(value: [T; 4]) -> (r: Self) {
        Self { left: value[0], top: value[1], right: value[2], bottom: value[3] }
    }
}

impl<T: Copy> vstd::std_specs::convert::FromSpecImpl<[T; 4]> for QuadValue<T> {
    open spec fn obeys_from_spec() -> bool {
        true
    }

    open spec fn from_spec(value: [T; 4]) -> Self {
        QuadValue { left: value@[0], top: value@[1], right: value@[2], bottom: value@[3] }
    }
}

} // verus!
