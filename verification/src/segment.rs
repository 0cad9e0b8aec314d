use vstd::prelude::*;

verus! {

use crate::point::{point_ok, Point};

/// A geometric primitive derived from one drawing command. Each variant
/// carries its own start point, so a segment is self-contained and
/// order-independent once produced.
#[derive(Clone, Copy, Debug, PartialEq, Eq, Structural)]
pub enum Segment {
    Line(Point, Point),
    Quad(Point, Point, Point),
    Cubic(Point, Point, Point, Point),
}

pub open spec fn segment_ok(s: Segment) -> bool {
    match s {
        Segment::Line(a, b) => point_ok(a) && point_ok(b),
        Segment::Quad(a, c, b) => point_ok(a) && point_ok(c) && point_ok(b),
        Segment::Cubic(a, c1, c2, b) => point_ok(a) && point_ok(c1) && point_ok(c2) && point_ok(
            b,
        ),
    }
}

} // verus!
