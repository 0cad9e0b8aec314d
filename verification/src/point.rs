use vstd::prelude::*;

verus! {

/// Greatest coordinate magnitude the flattener accepts, in ticks.
pub const MAX_COORD: i64 = 0x10_0000;

/// Coordinate ticks per logical unit: coordinates are fixed-point values
/// with 8 fractional bits.
pub const UNIT: i64 = 256;

/// A point of the plane, both coordinates in fixed-point ticks.
#[derive(Clone, Copy, Debug, PartialEq, Eq, Structural)]
pub struct Point {
    pub x: i64,
    pub y: i64,
}

pub open spec fn coord_ok(c: i64) -> bool {
    -MAX_COORD <= c <= MAX_COORD
}

pub open spec fn point_ok(p: Point) -> bool {
    coord_ok(p.x) && coord_ok(p.y)
}

/// The implicit starting point of a path whose first command is not MoveTo.
pub open spec fn origin() -> Point {
    Point { x: 0, y: 0 }
}

impl Point {
    pub fn new(x: i64, y: i64) -> (p: Point)
        ensures
            p == (Point { x, y }),
    {
        Point { x, y }
    }
}

} // verus!
