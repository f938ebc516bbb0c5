//! Points, segments and routes in map space.
//!
//! Coordinates are fixed-point integers (centimeters), so equality of two
//! positions is exact.
use vstd::prelude::*;

verus! {

/// A point in map space.
#[derive(Clone, Copy, Debug, PartialEq, Eq, Structural)]
pub struct Position {
    pub x: i64,
    pub y: i64,
}

/// A segment from one point to another. `Segment::maybe_new` builds one
/// only between distinct points.
#[derive(Clone, Copy, Debug, PartialEq, Eq, Structural)]
pub struct Segment {
    pub pt1: Position,
    pub pt2: Position,
}

/// The segment from `a` to `b`, absent where `a == b`.
pub open spec fn segment_between(a: Position, b: Position) -> Option<Segment> {
    if a == b {
        None
    } else {
        Some(Segment { pt1: a, pt2: b })
    }
}

impl Segment {
    /// The segment from `a` to `b`, or `None` where the two coincide: a
    /// segment of length zero is not a segment.
    pub fn maybe_new(a: Position, b: Position) -> (r: Option<Segment>)
        ensures
            r == segment_between(a, b),
    {
        if a == b {
            None
        } else {
            Some(Segment { pt1: a, pt2: b })
        }
    }
}

} // verus!
