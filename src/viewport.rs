use vstd::prelude::*;

verus! {

/// The largest side of a viewport: logical coordinates are `i32`.
pub const MAX_SIDE: u32 = 0x7fff_ffff;

/// The logical size of the window's drawable area; each side is at least one
/// unit and at most `MAX_SIDE`.
#[derive(Clone, Copy, Debug, PartialEq, Eq, Structural)]
pub struct Viewport {
    pub width: u32,
    pub height: u32,
}

/// A point in normalized device coordinates, each axis held as an exact fraction
/// `num / den` with a positive denominator.
#[derive(Clone, Copy, Debug, PartialEq, Eq, Structural)]
pub struct NdcPoint {
    pub x_num: i64,
    pub x_den: i64,
    pub y_num: i64,
    pub y_den: i64,
}

impl NdcPoint {
    /// The point equals `(x / 1, y / 1)` as fractions.
    pub open spec fn equals(self, x: int, y: int) -> bool {
        self.x_den > 0 && self.y_den > 0 && self.x_num == x * self.x_den && self.y_num == y
            * self.y_den
    }
}

impl Viewport {
    pub open spec fn wf(self) -> bool {
        1 <= self.width <= MAX_SIDE && 1 <= self.height <= MAX_SIDE
    }

    /// The orthographic projection of a logical point (top-left origin, y growing
    /// downwards): x becomes `(2x - width) / width` and y becomes `(height - 2y) / height`.
    pub open spec fn projected(self, x: int, y: int) -> NdcPoint {
        NdcPoint {
            x_num: (2 * x - self.width) as i64,
            x_den: self.width as i64,
            y_num: (self.height - 2 * y) as i64,
            y_den: self.height as i64,
        }
    }

    pub fn new(width: u32, height: u32) -> (r: Viewport)
        requires
            1 <= width <= MAX_SIDE,
            1 <= height <= MAX_SIDE,
        ensures
            r.wf(),
            r.width == width,
            r.height == height,
    {
        Viewport { width, height }
    }

    /// The current logical size, as `(width, height)`.
    pub fn dimensions(&self) -> (r: (u32, u32))
        ensures
            r == (self.width, self.height),
    {
        (self.width, self.height)
    }

    /// Applies a resize; the new size replaces the old one entirely.
    pub fn resize(&mut self, width: u32, height: u32)
        requires
            1 <= width <= MAX_SIDE,
            1 <= height <= MAX_SIDE,
        ensures
            final(self).wf(),
            final(self).width == width,
            final(self).height == height,
    {
        self.width = width;
        self.height = height;
    }

    /// Maps a point in logical coordinates (top-left origin) to normalized device
    /// coordinates by the orthographic projection of this viewport.
    pub fn project(&self, x: i32, y: i32) -> (r: NdcPoint)
        requires
            self.wf(),
        ensures
            r == self.projected(x as int, y as int),
    {
        NdcPoint {
            x_num: 2 * (x as i64) - self.width as i64,
            x_den: self.width as i64,
            y_num: self.height as i64 - 2 * (y as i64),
            y_den: self.height as i64,
        }
    }
}

/// The projection sends the four corners of any viewport exactly to the four
/// corners of normalized device space: top-left to (-1, 1), top-right to (1, 1),
/// bottom-left to (-1, -1) and bottom-right to (1, -1).
pub proof fn corners_map_to_ndc_corners(vp: Viewport)
    requires
        vp.wf(),
    ensures
        vp.projected(0, 0).equals(-1, 1),
        vp.projected(vp.width as int, 0).equals(1, 1),
        vp.projected(0, vp.height as int).equals(-1, -1),
        vp.projected(vp.width as int, vp.height as int).equals(1, -1),
{
}

} // verus!
