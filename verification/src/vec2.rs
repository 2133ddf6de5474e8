//! Plane vectors over fixed-point coordinates.

use vstd::prelude::*;
use crate::fx::LIMIT;

verus! {

/// A 2D vector (or point) in Q48.16 fixed-point coordinates.
#[derive(Clone, Copy, PartialEq, Eq, Structural, Debug)]
pub struct Vec2 {
    pub x: i64,
    pub y: i64,
}

impl Vec2 {
    /// The zero vector.
    pub fn zero() -> (r: Vec2)
        ensures
            r.x == 0 && r.y == 0,
    {
        Vec2 { x: 0, y: 0 }
    }

    /// Build a vector from its components.
    pub fn new(x: i64, y: i64) -> (r: Vec2)
        ensures
            r.x == x && r.y == y,
    {
        Vec2 { x, y }
    }
}

impl Default for Vec2 {
    fn default() -> (r: Vec2)
        ensures
            r.x == 0 && r.y == 0,
    {
        Vec2 { x: 0, y: 0 }
    }
}

/// Whether both components are within the stored range.
pub open spec fn vec_in_range(v: Vec2) -> bool {
    -LIMIT <= v.x <= LIMIT && -LIMIT <= v.y <= LIMIT
}

/// Dot product of two points given as mathematical pairs.
pub open spec fn dot(a: (int, int), b: (int, int)) -> int {
    a.0 * b.0 + a.1 * b.1
}

/// The mathematical pair behind an executable vector.
pub open spec fn pt(v: Vec2) -> (int, int) {
    (v.x as int, v.y as int)
}

} // verus!
