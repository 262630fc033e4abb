//! Integer grid coordinates.

use vstd::prelude::*;

verus! {

/// A cell of the dungeon grid, or a displacement between two cells.
#[derive(Clone, Copy, Debug, PartialEq, Eq, Structural)]
pub struct Point {
    pub x: i32,
    pub y: i32,
}

impl Point {
    /// True when `self + delta` has both coordinates inside `i32`.
    pub open spec fn can_offset(self, delta: Point) -> bool {
        &&& i32::MIN <= self.x + delta.x <= i32::MAX
        &&& i32::MIN <= self.y + delta.y <= i32::MAX
    }

    /// The component-wise sum `self + delta`.
    pub open spec fn offset_spec(self, delta: Point) -> Point {
        Point { x: (self.x + delta.x) as i32, y: (self.y + delta.y) as i32 }
    }

    /// True for the zero displacement.
    pub open spec fn is_zero_spec(self) -> bool {
        self.x == 0 && self.y == 0
    }

    pub fn new(x: i32, y: i32) -> (p: Point)
        ensures
            p == (Point { x, y }),
    {
        Point { x, y }
    }

    pub fn zero() -> (p: Point)
        ensures
            p == (Point { x: 0, y: 0 }),
    {
        Point { x: 0, y: 0 }
    }

    /// Component-wise sum of a position and a displacement.
    pub fn offset(self, delta: Point) -> (p: Point)
        requires
            self.can_offset(delta),
        ensures
            p == self.offset_spec(delta),
            p.x == self.x + delta.x,
            p.y == self.y + delta.y,
    {
        Point { x: self.x + delta.x, y: self.y + delta.y }
    }

    #[verifier::when_used_as_spec(is_zero_spec)]
    pub fn is_zero(self) -> (zero: bool)
        ensures
            zero == self.is_zero_spec(),
    {
        self.x == 0 && self.y == 0
    }
}

} // verus!
