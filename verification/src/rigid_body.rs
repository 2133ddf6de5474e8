//! Bodies: classification, dormancy, and the full per-body record.

use vstd::prelude::*;
use crate::collision::{ColliderBundle, CollisionInfo, info_wf};
use crate::fx::in_range;
use crate::kinematic::{Acceleration, Force, ForcesBundle, KinematicBundle, Velocity,
    acceleration_wf, forces_wf, velocity_wf};
use crate::shape::{ColliderShape, shape_wf};
use crate::transform::{Transform, transform_wf};
use crate::vec2::Vec2;

verus! {

/// Whether a body takes part in integration: static bodies never move.
#[derive(Clone, Copy, PartialEq, Eq, Structural, Debug)]
pub enum Body {
    Static,
    Dynamic,
}

impl Default for Body {
    fn default() -> (r: Body)
        ensures
            r is Dynamic,
    {
        Body::Dynamic
    }
}

/// Dormancy flag: a sleeping body keeps its velocity and transform frozen
/// until force reappears or a caller wakes it.
#[derive(Clone, Copy, PartialEq, Eq, Structural, Debug)]
pub struct IsSleep(pub bool);

impl Default for IsSleep {
    fn default() -> (r: IsSleep)
        ensures
            !r.0,
    {
        IsSleep(false)
    }
}

/// Everything a caller registers for one body.
#[derive(Clone, Debug)]
pub struct RigidBodyBundle {
    pub kinematic: KinematicBundle,
    pub collider: ColliderBundle,
    pub body: Body,
    pub is_sleep: IsSleep,
}

impl Default for RigidBodyBundle {
    fn default() -> (r: RigidBodyBundle)
        ensures
            r.kinematic.dynamic.velocity == (Velocity { linear: Vec2 { x: 0, y: 0 }, angular: 0 }),
            r.kinematic.forces.resistance.mass == crate::fx::FP_ONE,
            r.kinematic.forces.resistance.inertia == crate::fx::FP_ONE,
            r.kinematic.forces.force == (Force { linear: Vec2 { x: 0, y: 0 }, angular: 0 }),
            r.collider.shape is Point,
            r.body is Dynamic,
            !r.is_sleep.0,
    {
        RigidBodyBundle {
            kinematic: KinematicBundle::default(),
            collider: ColliderBundle::default(),
            body: Body::default(),
            is_sleep: IsSleep(false),
        }
    }
}

/// One registered body as the simulation stores it.
#[derive(Clone, Debug)]
pub struct BodyState {
    pub handle: u64,
    pub transform: Transform,
    pub velocity: Velocity,
    pub acceleration: Acceleration,
    pub forces: Option<ForcesBundle>,
    pub shape: Option<ColliderShape>,
    pub info: CollisionInfo,
    pub body: Body,
    pub is_sleep: IsSleep,
}

/// A body record the simulation accepts: every quantity bounded, positive
/// resistance wherever forces apply, a valid shape wherever one is attached,
/// and a consistent collision record.
pub open spec fn body_wf(b: BodyState) -> bool {
    &&& transform_wf(b.transform)
    &&& velocity_wf(b.velocity)
    &&& acceleration_wf(b.acceleration)
    &&& match b.forces {
        Option::Some(fb) => forces_wf(fb),
        Option::None => true,
    }
    &&& match b.shape {
        Option::Some(s) => shape_wf(s),
        Option::None => true,
    }
    &&& info_wf(b.info)
}

/// One raw fixed-point unit: the representation's machine epsilon. A
/// magnitude below it is exactly zero.
pub const SLEEP_EPSILON: i64 = 1;

/// A body should sleep only when the linear and angular components of its
/// velocity, acceleration and force are all within `SLEEP_EPSILON` of zero.
pub open spec fn should_sleep(v: Velocity, a: Acceleration, f: Force) -> bool {
    &&& -SLEEP_EPSILON < v.linear.x < SLEEP_EPSILON
    &&& -SLEEP_EPSILON < v.linear.y < SLEEP_EPSILON
    &&& -SLEEP_EPSILON < v.angular < SLEEP_EPSILON
    &&& -SLEEP_EPSILON < a.linear.x < SLEEP_EPSILON
    &&& -SLEEP_EPSILON < a.linear.y < SLEEP_EPSILON
    &&& -SLEEP_EPSILON < a.angular < SLEEP_EPSILON
    &&& -SLEEP_EPSILON < f.linear.x < SLEEP_EPSILON
    &&& -SLEEP_EPSILON < f.linear.y < SLEEP_EPSILON
    &&& -SLEEP_EPSILON < f.angular < SLEEP_EPSILON
}

/// Executable sleep decision.
pub fn evaluate_sleep(v: &Velocity, a: &Acceleration, f: &Force) -> (r: bool)
    ensures
        r == should_sleep(*v, *a, *f),
{
    -SLEEP_EPSILON < v.linear.x && v.linear.x < SLEEP_EPSILON
        && -SLEEP_EPSILON < v.linear.y && v.linear.y < SLEEP_EPSILON
        && -SLEEP_EPSILON < v.angular && v.angular < SLEEP_EPSILON
        && -SLEEP_EPSILON < a.linear.x && a.linear.x < SLEEP_EPSILON
        && -SLEEP_EPSILON < a.linear.y && a.linear.y < SLEEP_EPSILON
        && -SLEEP_EPSILON < a.angular && a.angular < SLEEP_EPSILON
        && -SLEEP_EPSILON < f.linear.x && f.linear.x < SLEEP_EPSILON
        && -SLEEP_EPSILON < f.linear.y && f.linear.y < SLEEP_EPSILON
        && -SLEEP_EPSILON < f.angular && f.angular < SLEEP_EPSILON
}

} // verus!
