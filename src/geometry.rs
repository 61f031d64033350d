use vstd::prelude::*;

verus! {

/// A position in world units.
#[derive(Clone, Copy, Debug, PartialEq, Eq, Structural)]
pub struct Point {
    pub x: i32,
    pub y: i32,
}

/// A displacement in world units.
#[derive(Clone, Copy, Debug, PartialEq, Eq, Structural)]
pub struct Offset {
    pub dx: i32,
    pub dy: i32,
}

/// Squared Euclidean distance between two points.
pub open spec fn dist2(a: Point, b: Point) -> int {
    (a.x - b.x) * (a.x - b.x) + (a.y - b.y) * (a.y - b.y)
}

impl Point {
    /// The world origin, where an unplaceable object is put.
    pub fn origin() -> (r: Point)
        ensures
            r.x == 0,
            r.y == 0,
    {
        Point { x: 0, y: 0 }
    }

    pub fn new(x: i32, y: i32) -> (r: Point)
        ensures
            r.x == x,
            r.y == y,
    {
        Point { x, y }
    }

    /// Squared distance to `other`; exact, as the coordinates are 32-bit.
    pub fn distance_squared(&self, other: &Point) -> (r: i128)
        ensures
            r == dist2(*self, *other),
            r >= 0,
    {
        let dx: i64 = self.x as i64 - other.x as i64;
        let dy: i64 = self.y as i64 - other.y as i64;
        assert(0 <= dx * dx <= 0x1_0000_0000_0000_0000) by (nonlinear_arith)
            requires
                -0x1_0000_0000 <= dx <= 0x1_0000_0000,
        ;
        assert(0 <= dy * dy <= 0x1_0000_0000_0000_0000) by (nonlinear_arith)
            requires
                -0x1_0000_0000 <= dy <= 0x1_0000_0000,
        ;
        let dx2: i128 = dx as i128 * dx as i128;
        let dy2: i128 = dy as i128 * dy as i128;
        dx2 + dy2
    }

    /// Whether `other` lies within `radius` of this point.
    pub fn within(&self, other: &Point, radius: u32) -> (r: bool)
        ensures
            r == (dist2(*self, *other) <= radius * radius),
    {
        assert(radius * radius <= 0x1_0000_0000_0000_0000) by (nonlinear_arith)
            requires
                0 <= radius <= 0x1_0000_0000,
        ;
        let rr: i128 = radius as i128 * radius as i128;
        self.distance_squared(other) <= rr
    }
}

} // verus!
