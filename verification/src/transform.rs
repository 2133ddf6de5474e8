//! World placement of a body: position and rotation angle.

use vstd::prelude::*;
use crate::fx::{LIMIT, TAU};
use crate::vec2::{Vec2, vec_in_range};

verus! {

/// Position (fixed-point world coordinates) and rotation (fixed-point
/// radians, counter-clockwise) of a body. Mutated only by the integrator,
/// or by callers for teleports.
#[derive(Clone, Copy, PartialEq, Eq, Structural, Debug)]
pub struct Transform {
    pub position: Vec2,
    pub rotation: i64,
}

impl Transform {
    /// Placement at the given position, unrotated.
    pub fn from_position(position: Vec2) -> (r: Transform)
        ensures
            r.position == position && r.rotation == 0,
    {
        Transform { position, rotation: 0 }
    }
}

impl Default for Transform {
    fn default() -> (r: Transform)
        ensures
            r.position.x == 0 && r.position.y == 0 && r.rotation == 0,
    {
        Transform { position: Vec2 { x: 0, y: 0 }, rotation: 0 }
    }
}

/// A transform the library accepts: bounded position, and a rotation within
/// one turn of zero (the integrator keeps it in `[0, TAU)`).
pub open spec fn transform_wf(t: Transform) -> bool {
    &&& vec_in_range(t.position)
    &&& -TAU <= t.rotation <= TAU
}

/// Executable check of `transform_wf`.
pub fn check_transform(t: &Transform) -> (r: bool)
    ensures
        r == transform_wf(*t),
{
    -LIMIT <= t.position.x && t.position.x <= LIMIT
        && -LIMIT <= t.position.y && t.position.y <= LIMIT
        && -TAU <= t.rotation && t.rotation <= TAU
}

} // verus!
