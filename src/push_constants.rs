use vstd::prelude::*;

verus! {

/// A width and a height in cells or pixels.
#[derive(Clone, Copy, Debug, PartialEq, Eq, Structural)]
pub struct Size {
    pub width: u32,
    pub height: u32,
}

/// A position in whole pixels.
#[derive(Clone, Copy, Debug, PartialEq, Eq, Structural)]
pub struct Point {
    pub x: u32,
    pub y: u32,
}

/// A boolean laid out as a 32-bit word, as shader constants carry it.
#[derive(Clone, Copy, Debug, PartialEq, Eq, Structural)]
pub struct Bool {
    pub value: u32,
}

impl From<bool> for Bool {
    fn from(b: bool) -> (r: Bool)
        ensures
            r.value == (if b { 1u32 } else { 0u32 }),
    {
        Bool { value: if b { 1 } else { 0 } }
    }
}

impl vstd::std_specs::convert::FromSpecImpl<bool> for Bool {
    open spec fn obeys_from_spec() -> bool {
        true
    }

    open spec fn from_spec(v: bool) -> Bool {
        Bool { value: if v { 1u32 } else { 0u32 } }
    }
}

impl From<Bool> for bool {
    fn from(b: Bool) -> (r: bool)
        ensures
            r == (b.value != 0),
    {
        b.value != 0
    }
}

impl vstd::std_specs::convert::FromSpecImpl<Bool> for bool {
    open spec fn obeys_from_spec() -> bool {
        true
    }

    open spec fn from_spec(v: Bool) -> bool {
        v.value != 0
    }
}

/// The per-frame snapshot handed to the renderer. Zoom and pan are in
/// millionths, time in microseconds since the controller started.
#[derive(Clone, Copy, Debug, PartialEq, Eq, Structural)]
pub struct FragmentConstants {
    pub size: Size,
    pub cursor: Point,
    pub prev_cursor: Point,
    pub time: u128,
    pub mouse_button_pressed: u32,
    pub camera_zoom: u64,
    pub camera_translate_x: u64,
    pub camera_translate_y: u64,
    pub debug: Bool,
    pub translate: Point,
}

} // verus!
