//! Exact arithmetic values used by the components: pixel rectangles,
//! rationals for texture coordinates and integer vectors.
use vstd::prelude::*;

verus! {

/// A rational number `num / den`, kept unreduced so that the values derived
/// from pixel sizes stay exactly as computed.
#[derive(Clone, Copy, Debug, PartialEq, Eq, Structural)]
pub struct Ratio {
    pub num: i64,
    pub den: i64,
}

impl Ratio {
    /// The ratio denotes the rational `n / d` (for `d > 0`).
    pub open spec fn denotes(self, n: int, d: int) -> bool {
        self.den > 0 && self.num * d == n * self.den
    }

    pub fn new(num: i64, den: i64) -> (r: Ratio)
        ensures
            r.num == num,
            r.den == den,
    {
        Ratio { num, den }
    }
}

/// A source rectangle inside an image, in pixels.
#[derive(Clone, Copy, Debug, PartialEq, Eq, Structural)]
pub struct Rect {
    pub x: u32,
    pub y: u32,
    pub w: u32,
    pub h: u32,
}

impl Rect {
    pub fn new(x: u32, y: u32, w: u32, h: u32) -> (r: Rect)
        ensures
            r == (Rect { x, y, w, h }),
    {
        Rect { x, y, w, h }
    }

    /// The rectangle lies inside an image of the given size.
    pub open spec fn fits_in(self, width: int, height: int) -> bool {
        self.x + self.w <= width && self.y + self.h <= height
    }
}

/// A point or extent in world units.
#[derive(Clone, Copy, Debug, PartialEq, Eq, Structural)]
pub struct Vec3 {
    pub x: i64,
    pub y: i64,
    pub z: i64,
}

impl Vec3 {
    pub fn new(x: i64, y: i64, z: i64) -> (r: Vec3)
        ensures
            r == (Vec3 { x, y, z }),
    {
        Vec3 { x, y, z }
    }
}

} // verus!
