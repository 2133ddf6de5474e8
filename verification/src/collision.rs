//! Per-body collision records.

use vstd::prelude::*;
use crate::shape::ColliderShape;

verus! {

/// One direction of a detected overlap: destination body first, source
/// body second, both by handle.
#[derive(Clone, Copy, PartialEq, Eq, Structural, Debug)]
pub struct CollisionEvent(
    /// Collision destination
    pub u64,
    /// Collision source
    pub u64,
);

/// A body's persistent collision state: whether anything overlaps it, and
/// the handles of the bodies that do. `is_colliding` is true exactly when
/// `sources` is non-empty, and `sources` is kept sorted and duplicate-free.
#[derive(Clone, Debug)]
pub struct CollisionInfo {
    pub is_colliding: bool,
    pub sources: Vec<u64>,
}

impl Default for CollisionInfo {
    fn default() -> (r: CollisionInfo)
        ensures
            !r.is_colliding,
            r.sources@.len() == 0,
    {
        CollisionInfo { is_colliding: false, sources: Vec::new() }
    }
}

/// Strictly increasing handles: sorted and free of duplicates.
pub open spec fn sorted_unique(s: Seq<u64>) -> bool {
    forall|i: int, j: int| 0 <= i < j < s.len() ==> s[i] < s[j]
}

/// A collision record the library maintains: the flag mirrors the set.
pub open spec fn info_wf(ci: CollisionInfo) -> bool {
    &&& sorted_unique(ci.sources@)
    &&& ci.is_colliding <==> ci.sources@.len() > 0
}

/// What a body needs to take part in collision detection: its shape, and
/// the record the tracker maintains for it.
#[derive(Clone, Debug)]
pub struct ColliderBundle {
    pub shape: ColliderShape,
    pub info: CollisionInfo,
}

impl ColliderBundle {
    /// A collider with a fresh, empty collision record.
    pub fn new(shape: ColliderShape) -> (r: ColliderBundle)
        ensures
            r.shape == shape,
            !r.info.is_colliding,
            r.info.sources@.len() == 0,
    {
        ColliderBundle { shape, info: CollisionInfo::default() }
    }
}

impl Default for ColliderBundle {
    fn default() -> (r: ColliderBundle)
        ensures
            r.shape is Point,
            !r.info.is_colliding,
            r.info.sources@.len() == 0,
    {
        ColliderBundle {
            shape: ColliderShape::Point,
            info: CollisionInfo { is_colliding: false, sources: Vec::new() },
        }
    }
}

} // verus!
