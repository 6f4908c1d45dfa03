//! Points and the three shapes a level is made of.

use vstd::prelude::*;

verus! {

/// A point of the plane, or an offset between two points.
#[derive(Clone, Copy, Debug, PartialEq, Eq, Structural)]
pub struct Point {
    pub x: i64,
    pub y: i64,
}

/// An axis-aligned rectangle, given by its centre and its half extents.
#[derive(Clone, Copy, Debug, PartialEq, Eq, Structural)]
pub struct Rect {
    pub x: i64,
    pub y: i64,
    pub half_w: i64,
    pub half_h: i64,
}

/// A triangle whose corners are listed from left to right.
#[derive(Clone, Copy, Debug, PartialEq, Eq, Structural)]
pub struct Triangle {
    pub first: Point,
    pub middle: Point,
    pub last: Point,
}

impl Rect {
    /// The x coordinate of the left side.
    pub open spec fn left(self) -> int {
        self.x - self.half_w
    }

    /// The x coordinate of the right side.
    pub open spec fn right(self) -> int {
        self.x + self.half_w
    }
}

} // verus!
