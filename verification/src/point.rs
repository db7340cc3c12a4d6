//! Fixed-point coordinates.
//!
//! Every coordinate is a whole number of sub-units, `UNIT` of them to one world
//! unit, so that the same inputs give the same positions on every machine.

use vstd::prelude::*;

verus! {

/// Sub-units in one world unit.
pub const UNIT: i32 = 1000;

/// A place in the world, in sub-units.
#[derive(Clone, Copy, Debug, PartialEq, Eq, Structural)]
pub struct Point {
    pub x: i32,
    pub y: i32,
}

/// A change of place over one tick, in sub-units.
#[derive(Clone, Copy, Debug, PartialEq, Eq, Structural)]
pub struct Offset {
    pub dx: i64,
    pub dy: i64,
}

impl Point {
    /// The point with the given coordinates.
    pub fn new(x: i32, y: i32) -> (p: Self)
        ensures
            p == (Point { x, y }),
    {
        Point { x, y }
    }

    /// The point where both coordinates are zero.
    pub open spec fn spec_origin() -> Self {
        Point { x: 0, y: 0 }
    }

    /// The point where both coordinates are zero.
    pub fn origin() -> (p: Self)
        ensures
            p == Self::spec_origin(),
    {
        Point { x: 0, y: 0 }
    }
}

impl Offset {
    /// No change of place.
    pub open spec fn spec_zero() -> Self {
        Offset { dx: 0, dy: 0 }
    }

    /// No change of place.
    pub fn zero() -> (o: Self)
        ensures
            o == Self::spec_zero(),
    {
        Offset { dx: 0, dy: 0 }
    }
}

} // verus!
