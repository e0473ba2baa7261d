use vstd::prelude::*;

verus! {

pub const DEFAULT_ZOOM_LEVEL: i16 = 40;
pub const MIN_ZOOM_LEVEL: i16 = 10;
pub const MAX_ZOOM_LEVEL: i16 = 100;

/// What part of the map is on screen and at which scale.
pub struct ViewPortState {
    /// Offset from the map's origin to the pixel shown in the top-left corner.
    pub offset: (i16, i16),
    /// Radius of a single hex in pixels.
    pub zoom_level: i16,
}

/// `v` kept within `[lo, hi]`.
pub open spec fn clamp(v: int, lo: int, hi: int) -> int {
    if v < lo {
        lo
    } else if v > hi {
        hi
    } else {
        v
    }
}

impl ViewPortState {
    pub fn new() -> (r: ViewPortState)
        ensures
            r.offset == (0i16, 0i16),
            r.zoom_level == DEFAULT_ZOOM_LEVEL,
    {
        ViewPortState { offset: (0, 0), zoom_level: DEFAULT_ZOOM_LEVEL }
    }

    /// Drags the view by `(xrel, yrel)` pixels while the left button is held; otherwise the
    /// view stays.
    pub fn pan(&mut self, xrel: i16, yrel: i16, left_button: bool)
        requires
            left_button ==> i16::MIN <= old(self).offset.0 - xrel <= i16::MAX,
            left_button ==> i16::MIN <= old(self).offset.1 - yrel <= i16::MAX,
        ensures
            final(self).zoom_level == old(self).zoom_level,
            left_button ==> final(self).offset == ((old(self).offset.0 - xrel) as i16, (old(self).offset.1 - yrel) as i16),
            !left_button ==> final(self).offset == old(self).offset,
    {
        if !left_button {
            return;
        }
        self.offset = (self.offset.0 - xrel, self.offset.1 - yrel);
    }

    /// Zooms by two pixels per wheel step `y`, in the wheel's direction, within the zoom
    /// limits.
    pub fn zoom(&mut self, y: i16, normal_direction: bool)
        ensures
            final(self).offset == old(self).offset,
            final(self).zoom_level == clamp(
                old(self).zoom_level + (if normal_direction { 2int } else { -2int }) * y,
                MIN_ZOOM_LEVEL as int,
                MAX_ZOOM_LEVEL as int,
            ),
    {
        let dir: i32 = if normal_direction { 2 } else { -2 };
        let target: i32 = self.zoom_level as i32 + dir * (y as i32);
        let z = if target < MIN_ZOOM_LEVEL as i32 {
            MIN_ZOOM_LEVEL
        } else if target > MAX_ZOOM_LEVEL as i32 {
            MAX_ZOOM_LEVEL
        } else {
            target as i16
        };
        self.zoom_level = z;
    }
}

} // verus!
