//! The simulation: a registry of bodies and the per-tick entry points.
//!
//! A host drives one tick by calling, in order: `update_collisions`,
//! `apply_gravity` (if gravity is configured), `integrate`, and
//! `update_sleep_state`. Configuration (the gravity mode and vector) is fixed
//! or replaced between ticks and read-only during one.

use vstd::prelude::*;
use crate::collision::{CollisionEvent, CollisionInfo, info_wf, sorted_unique};
use crate::fx::{LIMIT, sat, sat_add};
use crate::kinematic::{Acceleration, Velocity, forces_wf, acceleration_wf, force_wf, model,
    step, update_transform, velocity_wf};
use crate::overlap::{shapes_overlap, test_overlap};
use crate::rigid_body::{Body, BodyState, IsSleep, RigidBodyBundle, body_wf, evaluate_sleep,
    should_sleep};
use crate::shape::shape_wf;
use crate::transform::{Transform, check_transform, transform_wf};
use crate::vec2::{Vec2, vec_in_range};

verus! {

/// Whether a body carries a collider shape.
pub open spec fn has_shape(b: BodyState) -> bool {
    b.shape is Some
}

/// Whether two bodies' placed shapes overlap; false where either carries
/// none.
pub open spec fn pair_overlaps(a: BodyState, b: BodyState) -> bool {
    match (a.shape, b.shape) {
        (Option::Some(sa), Option::Some(sb)) => shapes_overlap(sa, a.transform, sb, b.transform),
        _ => false,
    }
}

/// Equal in everything but the collision record.
pub open spec fn same_but_info(a: BodyState, b: BodyState) -> bool {
    &&& a.handle == b.handle
    &&& a.transform == b.transform
    &&& a.velocity == b.velocity
    &&& a.acceleration == b.acceleration
    &&& a.forces == b.forces
    &&& a.shape == b.shape
    &&& a.body == b.body
    &&& a.is_sleep == b.is_sleep
}

/// Whether some body other than the one at index `excl` carries handle `h`.
pub open spec fn other_body_handle(bodies: Seq<BodyState>, excl: int, h: u64) -> bool {
    exists|j: int| 0 <= j < bodies.len() && j != excl && bodies[j].handle == h
}

/// How the gravity vector acts on dynamic awake bodies, fixed at
/// construction time.
#[derive(Clone, Copy, PartialEq, Eq, Structural, Debug)]
pub enum GravityEffect {
    /// Gravity is disabled.
    Disabled,
    /// The vector is added to linear velocity each tick.
    Velocity,
    /// The vector is added to linear acceleration each tick.
    Acceleration,
}

impl Default for GravityEffect {
    fn default() -> (r: GravityEffect)
        ensures
            r is Disabled,
    {
        GravityEffect::Disabled
    }
}

/// The process-wide gravity vector.
#[derive(Clone, Copy, PartialEq, Eq, Structural, Debug)]
pub struct Gravity(pub Vec2);

/// The simulation's construction-time configuration.
#[derive(Clone, Copy, PartialEq, Eq, Structural, Debug)]
pub struct PhysicsPlugin {
    pub gravity_effect: GravityEffect,
}

impl Default for PhysicsPlugin {
    fn default() -> (r: PhysicsPlugin)
        ensures
            r.gravity_effect is Disabled,
    {
        PhysicsPlugin { gravity_effect: GravityEffect::Disabled }
    }
}

/// Why a registration or update was rejected.
#[derive(Clone, Copy, PartialEq, Eq, Structural, Debug)]
pub enum ConfigError {
    /// A mass or inertia was zero, negative, or out of range: the integrator
    /// divides by both.
    InvalidResistance,
    /// A drag coefficient was negative or out of range.
    InvalidDrag,
    /// A shape was out of range, or a polygon was degenerate: fewer than
    /// three vertices, not strictly convex, or not counter-clockwise.
    InvalidShape,
    /// A transform, velocity, acceleration or force exceeded the coordinate
    /// range.
    OutOfRange,
    /// No body carries the given handle.
    NoSuchBody,
}

/// A registry of bodies keyed by stable handle, with the simulation's
/// gravity configuration.
pub struct Simulation {
    pub gravity_effect: GravityEffect,
    pub gravity: Option<Gravity>,
    pub bodies: Vec<BodyState>,
    pub next_handle: u64,
}

impl Simulation {
    /// The registry's invariant: every body valid, handles strictly
    /// increasing by index and all below the next free handle, and a bounded
    /// gravity vector.
    pub open spec fn wf(self) -> bool {
        &&& forall|i: int| 0 <= i < self.bodies@.len() ==> body_wf(#[trigger] self.bodies@[i])
        &&& forall|i: int, j: int|
            0 <= i < j < self.bodies@.len() ==> self.bodies@[i].handle < self.bodies@[j].handle
        &&& forall|i: int|
            0 <= i < self.bodies@.len() ==> (#[trigger] self.bodies@[i]).handle < self.next_handle
        &&& match self.gravity {
            Option::Some(g) => vec_in_range(g.0),
            Option::None => true,
        }
    }

    /// An empty simulation under the given configuration.
    pub fn new(plugin: PhysicsPlugin) -> (r: Simulation)
        ensures
            r.wf(),
            r.gravity_effect == plugin.gravity_effect,
            r.gravity is None,
            r.bodies@.len() == 0,
    {
        Simulation {
            gravity_effect: plugin.gravity_effect,
            gravity: Option::None,
            bodies: Vec::new(),
            next_handle: 0,
        }
    }

    /// Replace the gravity vector (or remove it), between ticks.
    pub fn set_gravity(&mut self, gravity: Option<Gravity>) -> (r: Result<(), ConfigError>)
        requires
            old(self).wf(),
        ensures
            final(self).wf(),
            (match gravity {
                Option::Some(g) => vec_in_range(g.0),
                Option::None => true,
            }) ==> (r is Ok && *final(self) == (Simulation { gravity, ..*old(self) })),
            !(match gravity {
                Option::Some(g) => vec_in_range(g.0),
                Option::None => true,
            }) ==> (r == Result::<(), ConfigError>::Err(ConfigError::OutOfRange) && *final(self)
                == *old(self)),
    {
        match gravity {
            Option::Some(g) => {
                if -LIMIT <= g.0.x && g.0.x <= LIMIT && -LIMIT <= g.0.y && g.0.y <= LIMIT {
                    self.gravity = gravity;
                    Result::Ok(())
                } else {
                    Result::Err(ConfigError::OutOfRange)
                }
            },
            Option::None => {
                self.gravity = Option::None;
                Result::Ok(())
            },
        }
    }

    /// The index of the body with the given handle.
    fn find(&self, handle: u64) -> (r: Option<usize>)
        ensures
            match r {
                Option::Some(i) => i < self.bodies@.len() && self.bodies@[i as int].handle
                    == handle,
                Option::None => forall|i: int|
                    0 <= i < self.bodies@.len() ==> (#[trigger] self.bodies@[i]).handle != handle,
            },
    {
        let n = self.bodies.len();
        let mut i: usize = 0;
        while i < n
            invariant
                0 <= i <= n == self.bodies@.len(),
                forall|k: int| 0 <= k < i ==> (#[trigger] self.bodies@[k]).handle != handle,
            decreases n - i,
        {
            if self.bodies[i].handle == handle {
                return Option::Some(i);
            }
            i = i + 1;
        }
        Option::None
    }

    /// What is wrong with a registration, if anything: the first failing
    /// check, in the order the library tests them.
    pub open spec fn bundle_error(t: Transform, b: RigidBodyBundle) -> Option<ConfigError> {
        if !transform_wf(t) || !velocity_wf(b.kinematic.dynamic.velocity) || !acceleration_wf(
            b.kinematic.dynamic.acceleration,
        ) || !force_wf(b.kinematic.forces.force) {
            Option::Some(ConfigError::OutOfRange)
        } else if !(0 < b.kinematic.forces.resistance.mass <= LIMIT) || !(0
            < b.kinematic.forces.resistance.inertia <= LIMIT) {
            Option::Some(ConfigError::InvalidResistance)
        } else if !(0 <= b.kinematic.forces.drag.linear <= LIMIT) || !(0
            <= b.kinematic.forces.drag.angular <= LIMIT) {
            Option::Some(ConfigError::InvalidDrag)
        } else if !shape_wf(b.collider.shape) {
            Option::Some(ConfigError::InvalidShape)
        } else {
            Option::None
        }
    }

    /// Register a body: its placement and its bundle. Invalid configuration
    /// is rejected here, up front, so that the per-tick path never fails:
    /// a non-positive mass or inertia, a negative drag, a degenerate
    /// polygon, or an out-of-range quantity each return their error and
    /// leave the simulation unchanged. On success the new body's handle is
    /// returned; its collision record starts empty.
    pub fn add_body(&mut self, transform: Transform, bundle: RigidBodyBundle) -> (r: Result<
        u64,
        ConfigError,
    >)
        requires
            old(self).wf(),
            old(self).next_handle < 0xffff_ffff_ffff_ffff,
        ensures
            final(self).wf(),
            match Self::bundle_error(transform, bundle) {
                Option::Some(e) => r == Result::<u64, ConfigError>::Err(e) && *final(self) == *old(
                    self,
                ),
                Option::None => {
                    &&& r == Result::<u64, ConfigError>::Ok(old(self).next_handle)
                    &&& final(self).next_handle == old(self).next_handle + 1
                    &&& final(self).gravity == old(self).gravity
                    &&& final(self).gravity_effect == old(self).gravity_effect
                    &&& final(self).bodies@.len() == old(self).bodies@.len() + 1
                    &&& forall|i: int|
                        0 <= i < old(self).bodies@.len() ==> final(self).bodies@[i] == old(
                            self,
                        ).bodies@[i]
                    &&& {
                        let nb = final(self).bodies@[old(self).bodies@.len() as int];
                        &&& nb.handle == old(self).next_handle
                        &&& nb.transform == transform
                        &&& nb.velocity == bundle.kinematic.dynamic.velocity
                        &&& nb.acceleration == bundle.kinematic.dynamic.acceleration
                        &&& nb.forces == Option::Some(bundle.kinematic.forces)
                        &&& nb.shape == Option::Some(bundle.collider.shape)
                        &&& nb.info.sources@.len() == 0
                        &&& !nb.info.is_colliding
                        &&& nb.body == bundle.body
                        &&& nb.is_sleep == bundle.is_sleep
                    }
                },
            },
    {
        if !check_transform(&transform) || !check_velocity(&bundle.kinematic.dynamic.velocity)
            || !check_acceleration(&bundle.kinematic.dynamic.acceleration) || !check_force(
            &bundle.kinematic.forces.force,
        ) {
            return Result::Err(ConfigError::OutOfRange);
        }
        let rs = bundle.kinematic.forces.resistance;
        if !(0 < rs.mass && rs.mass <= LIMIT && 0 < rs.inertia && rs.inertia <= LIMIT) {
            return Result::Err(ConfigError::InvalidResistance);
        }
        let dr = bundle.kinematic.forces.drag;
        if !(0 <= dr.linear && dr.linear <= LIMIT && 0 <= dr.angular && dr.angular <= LIMIT) {
            return Result::Err(ConfigError::InvalidDrag);
        }
        if !bundle.collider.shape.check() {
            return Result::Err(ConfigError::InvalidShape);
        }
        let handle = self.next_handle;
        let state = BodyState {
            handle,
            transform,
            velocity: bundle.kinematic.dynamic.velocity,
            acceleration: bundle.kinematic.dynamic.acceleration,
            forces: Option::Some(bundle.kinematic.forces),
            shape: Option::Some(bundle.collider.shape),
            info: CollisionInfo { is_colliding: false, sources: Vec::new() },
            body: bundle.body,
            is_sleep: bundle.is_sleep,
        };
        self.bodies.push(state);
        self.next_handle = handle + 1;
        Result::Ok(handle)
    }

    /// Replace a body's placement (a teleport).
    pub fn set_transform(&mut self, handle: u64, t: Transform) -> (r: Result<(), ConfigError>)
        requires
            old(self).wf(),
        ensures
            final(self).wf(),
            final(self).bodies@.len() == old(self).bodies@.len(),
            !transform_wf(t) ==> r == Result::<(), ConfigError>::Err(ConfigError::OutOfRange)
                && *final(self) == *old(self),
            transform_wf(t) && (forall|i: int|
                0 <= i < old(self).bodies@.len() ==> (#[trigger] old(self).bodies@[i]).handle
                    != handle) ==> r == Result::<(), ConfigError>::Err(ConfigError::NoSuchBody)
                && *final(self) == *old(self),
            transform_wf(t) ==> forall|i: int|
                0 <= i < old(self).bodies@.len() ==> final(self).bodies@[i] == (if (#[trigger] old(
                    self,
                ).bodies@[i]).handle == handle {
                    BodyState { transform: t, ..old(self).bodies@[i] }
                } else {
                    old(self).bodies@[i]
                }),
            transform_wf(t) && (exists|i: int|
                0 <= i < old(self).bodies@.len() && (#[trigger] old(self).bodies@[i]).handle
                    == handle) ==> r is Ok,
            final(self).next_handle == old(self).next_handle,
            final(self).gravity == old(self).gravity,
            final(self).gravity_effect == old(self).gravity_effect,
    {
        if !check_transform(&t) {
            return Result::Err(ConfigError::OutOfRange);
        }
        match self.find(handle) {
            Option::Some(i) => {
                self.bodies[i].transform = t;
                Result::Ok(())
            },
            Option::None => Result::Err(ConfigError::NoSuchBody),
        }
    }

    /// Replace a body's velocity: the way a caller stirs a body, or wakes a
    /// sleeping one once the next sleep evaluation runs.
    pub fn set_velocity(&mut self, handle: u64, v: crate::kinematic::Velocity) -> (r: Result<
        (),
        ConfigError,
    >)
        requires
            old(self).wf(),
        ensures
            final(self).wf(),
            final(self).bodies@.len() == old(self).bodies@.len(),
            !velocity_wf(v) ==> r == Result::<(), ConfigError>::Err(ConfigError::OutOfRange)
                && *final(self) == *old(self),
            velocity_wf(v) && (forall|i: int|
                0 <= i < old(self).bodies@.len() ==> (#[trigger] old(self).bodies@[i]).handle
                    != handle) ==> r == Result::<(), ConfigError>::Err(ConfigError::NoSuchBody)
                && *final(self) == *old(self),
            velocity_wf(v) ==> forall|i: int|
                0 <= i < old(self).bodies@.len() ==> final(self).bodies@[i] == (if (#[trigger] old(
                    self,
                ).bodies@[i]).handle == handle {
                    BodyState { velocity: v, ..old(self).bodies@[i] }
                } else {
                    old(self).bodies@[i]
                }),
            velocity_wf(v) && (exists|i: int|
                0 <= i < old(self).bodies@.len() && (#[trigger] old(self).bodies@[i]).handle
                    == handle) ==> r is Ok,
            final(self).next_handle == old(self).next_handle,
            final(self).gravity == old(self).gravity,
            final(self).gravity_effect == old(self).gravity_effect,
    {
        if !check_velocity(&v) {
            return Result::Err(ConfigError::OutOfRange);
        }
        match self.find(handle) {
            Option::Some(i) => {
                self.bodies[i].velocity = v;
                Result::Ok(())
            },
            Option::None => Result::Err(ConfigError::NoSuchBody),
        }
    }

    /// Replace a body's acceleration directly, for kinematic-only bodies
    /// that carry no force triple.
    pub fn set_acceleration(&mut self, handle: u64, a: crate::kinematic::Acceleration) -> (r:
        Result<(), ConfigError>)
        requires
            old(self).wf(),
        ensures
            final(self).wf(),
            final(self).bodies@.len() == old(self).bodies@.len(),
            !acceleration_wf(a) ==> r == Result::<(), ConfigError>::Err(ConfigError::OutOfRange)
                && *final(self) == *old(self),
            acceleration_wf(a) && (forall|i: int|
                0 <= i < old(self).bodies@.len() ==> (#[trigger] old(self).bodies@[i]).handle
                    != handle) ==> r == Result::<(), ConfigError>::Err(ConfigError::NoSuchBody)
                && *final(self) == *old(self),
            acceleration_wf(a) ==> forall|i: int|
                0 <= i < old(self).bodies@.len() ==> final(self).bodies@[i] == (if (#[trigger] old(
                    self,
                ).bodies@[i]).handle == handle {
                    BodyState { acceleration: a, ..old(self).bodies@[i] }
                } else {
                    old(self).bodies@[i]
                }),
            acceleration_wf(a) && (exists|i: int|
                0 <= i < old(self).bodies@.len() && (#[trigger] old(self).bodies@[i]).handle
                    == handle) ==> r is Ok,
            final(self).next_handle == old(self).next_handle,
            final(self).gravity == old(self).gravity,
            final(self).gravity_effect == old(self).gravity_effect,
    {
        if !check_acceleration(&a) {
            return Result::Err(ConfigError::OutOfRange);
        }
        match self.find(handle) {
            Option::Some(i) => {
                self.bodies[i].acceleration = a;
                Result::Ok(())
            },
            Option::None => Result::Err(ConfigError::NoSuchBody),
        }
    }

    /// Attach or replace a body's force, resistance and drag triple.
    pub fn set_forces(&mut self, handle: u64, fb: crate::kinematic::ForcesBundle) -> (r: Result<
        (),
        ConfigError,
    >)
        requires
            old(self).wf(),
        ensures
            final(self).wf(),
            final(self).bodies@.len() == old(self).bodies@.len(),
            !force_wf(fb.force) ==> r == Result::<(), ConfigError>::Err(ConfigError::OutOfRange)
                && *final(self) == *old(self),
            force_wf(fb.force) && !(0 < fb.resistance.mass <= LIMIT && 0 < fb.resistance.inertia
                <= LIMIT) ==> r == Result::<(), ConfigError>::Err(ConfigError::InvalidResistance)
                && *final(self) == *old(self),
            force_wf(fb.force) && (0 < fb.resistance.mass <= LIMIT && 0 < fb.resistance.inertia
                <= LIMIT) && !(0 <= fb.drag.linear <= LIMIT && 0 <= fb.drag.angular <= LIMIT)
                ==> r == Result::<(), ConfigError>::Err(ConfigError::InvalidDrag) && *final(self)
                == *old(self),
            forces_wf(fb) && (forall|i: int|
                0 <= i < old(self).bodies@.len() ==> (#[trigger] old(self).bodies@[i]).handle
                    != handle) ==> r == Result::<(), ConfigError>::Err(ConfigError::NoSuchBody)
                && *final(self) == *old(self),
            forces_wf(fb) ==> forall|i: int|
                0 <= i < old(self).bodies@.len() ==> final(self).bodies@[i] == (if (#[trigger] old(
                    self,
                ).bodies@[i]).handle == handle {
                    BodyState { forces: Option::Some(fb), ..old(self).bodies@[i] }
                } else {
                    old(self).bodies@[i]
                }),
            forces_wf(fb) && (exists|i: int|
                0 <= i < old(self).bodies@.len() && (#[trigger] old(self).bodies@[i]).handle
                    == handle) ==> r is Ok,
            final(self).next_handle == old(self).next_handle,
            final(self).gravity == old(self).gravity,
            final(self).gravity_effect == old(self).gravity_effect,
    {
        if !check_force(&fb.force) {
            return Result::Err(ConfigError::OutOfRange);
        }
        if !(0 < fb.resistance.mass && fb.resistance.mass <= LIMIT && 0 < fb.resistance.inertia
            && fb.resistance.inertia <= LIMIT) {
            return Result::Err(ConfigError::InvalidResistance);
        }
        if !(0 <= fb.drag.linear && fb.drag.linear <= LIMIT && 0 <= fb.drag.angular
            && fb.drag.angular <= LIMIT) {
            return Result::Err(ConfigError::InvalidDrag);
        }
        match self.find(handle) {
            Option::Some(i) => {
                self.bodies[i].forces = Option::Some(fb);
                Result::Ok(())
            },
            Option::None => Result::Err(ConfigError::NoSuchBody),
        }
    }

    /// Detach a body's force triple: it keeps whatever acceleration a caller
    /// sets directly.
    pub fn clear_forces(&mut self, handle: u64) -> (r: bool)
        requires
            old(self).wf(),
        ensures
            final(self).wf(),
            final(self).bodies@.len() == old(self).bodies@.len(),
            r == (exists|i: int|
                0 <= i < old(self).bodies@.len() && (#[trigger] old(self).bodies@[i]).handle
                    == handle),
            forall|i: int|
                0 <= i < old(self).bodies@.len() ==> final(self).bodies@[i] == (if (#[trigger] old(
                    self,
                ).bodies@[i]).handle == handle {
                    BodyState { forces: Option::None, ..old(self).bodies@[i] }
                } else {
                    old(self).bodies@[i]
                }),
            final(self).next_handle == old(self).next_handle,
            final(self).gravity == old(self).gravity,
            final(self).gravity_effect == old(self).gravity_effect,
    {
        match self.find(handle) {
            Option::Some(i) => {
                self.bodies[i].forces = Option::None;
                true
            },
            Option::None => false,
        }
    }

    /// Attach or replace a body's collider shape; rejected when degenerate
    /// or out of range.
    pub fn set_shape(&mut self, handle: u64, shape: crate::shape::ColliderShape) -> (r: Result<
        (),
        ConfigError,
    >)
        requires
            old(self).wf(),
        ensures
            final(self).wf(),
            final(self).bodies@.len() == old(self).bodies@.len(),
            !shape_wf(shape) ==> r == Result::<(), ConfigError>::Err(ConfigError::InvalidShape)
                && *final(self) == *old(self),
            shape_wf(shape) && (forall|i: int|
                0 <= i < old(self).bodies@.len() ==> (#[trigger] old(self).bodies@[i]).handle
                    != handle) ==> r == Result::<(), ConfigError>::Err(ConfigError::NoSuchBody)
                && *final(self) == *old(self),
            shape_wf(shape) ==> forall|i: int|
                0 <= i < old(self).bodies@.len() ==> final(self).bodies@[i] == (if (#[trigger] old(
                    self,
                ).bodies@[i]).handle == handle {
                    BodyState { shape: Option::Some(shape), ..old(self).bodies@[i] }
                } else {
                    old(self).bodies@[i]
                }),
            shape_wf(shape) && (exists|i: int|
                0 <= i < old(self).bodies@.len() && (#[trigger] old(self).bodies@[i]).handle
                    == handle) ==> r is Ok,
            final(self).next_handle == old(self).next_handle,
            final(self).gravity == old(self).gravity,
            final(self).gravity_effect == old(self).gravity_effect,
    {
        if !shape.check() {
            return Result::Err(ConfigError::InvalidShape);
        }
        match self.find(handle) {
            Option::Some(i) => {
                self.bodies[i].shape = Option::Some(shape);
                Result::Ok(())
            },
            Option::None => Result::Err(ConfigError::NoSuchBody),
        }
    }

    /// Detach a body's collider shape; its collision record empties with it.
    pub fn clear_shape(&mut self, handle: u64) -> (r: bool)
        requires
            old(self).wf(),
        ensures
            final(self).wf(),
            final(self).bodies@.len() == old(self).bodies@.len(),
            r == (exists|i: int|
                0 <= i < old(self).bodies@.len() && (#[trigger] old(self).bodies@[i]).handle
                    == handle),
            forall|i: int|
                0 <= i < old(self).bodies@.len() && (#[trigger] old(self).bodies@[i]).handle
                    != handle ==> final(self).bodies@[i] == old(self).bodies@[i],
            forall|i: int|
                0 <= i < old(self).bodies@.len() && (#[trigger] old(self).bodies@[i]).handle
                    == handle ==> {
                    let nb = final(self).bodies@[i];
                    let ob = old(self).bodies@[i];
                    &&& (nb.shape is None)
                    &&& nb.info.sources@.len() == 0
                    &&& !nb.info.is_colliding
                    &&& nb.handle == ob.handle
                    &&& nb.transform == ob.transform
                    &&& nb.velocity == ob.velocity
                    &&& nb.acceleration == ob.acceleration
                    &&& nb.forces == ob.forces
                    &&& nb.body == ob.body
                    &&& nb.is_sleep == ob.is_sleep
                },
            final(self).next_handle == old(self).next_handle,
            final(self).gravity == old(self).gravity,
            final(self).gravity_effect == old(self).gravity_effect,
    {
        match self.find(handle) {
            Option::Some(i) => {
                self.bodies[i].shape = Option::None;
                self.bodies[i].info = CollisionInfo { is_colliding: false, sources: Vec::new() };
                true
            },
            Option::None => false,
        }
    }

    /// Set a body's classification: static bodies are exempt from
    /// integration and gravity.
    pub fn set_body(&mut self, handle: u64, body: crate::rigid_body::Body) -> (r: bool)
        requires
            old(self).wf(),
        ensures
            final(self).wf(),
            final(self).bodies@.len() == old(self).bodies@.len(),
            r == (exists|i: int|
                0 <= i < old(self).bodies@.len() && (#[trigger] old(self).bodies@[i]).handle
                    == handle),
            forall|i: int|
                0 <= i < old(self).bodies@.len() ==> final(self).bodies@[i] == (if (#[trigger] old(
                    self,
                ).bodies@[i]).handle == handle {
                    BodyState { body, ..old(self).bodies@[i] }
                } else {
                    old(self).bodies@[i]
                }),
            final(self).next_handle == old(self).next_handle,
            final(self).gravity == old(self).gravity,
            final(self).gravity_effect == old(self).gravity_effect,
    {
        match self.find(handle) {
            Option::Some(i) => {
                self.bodies[i].body = body;
                true
            },
            Option::None => false,
        }
    }

    /// Set or clear a body's sleep flag directly.
    pub fn set_sleep(&mut self, handle: u64, asleep: bool) -> (r: bool)
        requires
            old(self).wf(),
        ensures
            final(self).wf(),
            final(self).bodies@.len() == old(self).bodies@.len(),
            r == (exists|i: int|
                0 <= i < old(self).bodies@.len() && (#[trigger] old(self).bodies@[i]).handle
                    == handle),
            forall|i: int|
                0 <= i < old(self).bodies@.len() ==> final(self).bodies@[i] == (if (#[trigger] old(
                    self,
                ).bodies@[i]).handle == handle {
                    BodyState { is_sleep: crate::rigid_body::IsSleep(asleep), ..old(self).bodies@[i] }
                } else {
                    old(self).bodies@[i]
                }),
            final(self).next_handle == old(self).next_handle,
            final(self).gravity == old(self).gravity,
            final(self).gravity_effect == old(self).gravity_effect,
    {
        match self.find(handle) {
            Option::Some(i) => {
                self.bodies[i].is_sleep = crate::rigid_body::IsSleep(asleep);
                true
            },
            Option::None => false,
        }
    }

    /// Read a body's placement back.
    pub fn transform(&self, handle: u64) -> (r: Option<Transform>)
        ensures
            match r {
                Option::Some(t) => exists|i: int|
                    0 <= i < self.bodies@.len() && (#[trigger] self.bodies@[i]).handle == handle
                        && self.bodies@[i].transform == t,
                Option::None => forall|i: int|
                    0 <= i < self.bodies@.len() ==> (#[trigger] self.bodies@[i]).handle != handle,
            },
    {
        match self.find(handle) {
            Option::Some(i) => Option::Some(self.bodies[i].transform),
            Option::None => Option::None,
        }
    }

    /// Read a body's collision record back.
    pub fn collision_info(&self, handle: u64) -> (r: Option<&CollisionInfo>)
        ensures
            match r {
                Option::Some(ci) => exists|i: int|
                    0 <= i < self.bodies@.len() && (#[trigger] self.bodies@[i]).handle == handle
                        && self.bodies@[i].info == *ci,
                Option::None => forall|i: int|
                    0 <= i < self.bodies@.len() ==> (#[trigger] self.bodies@[i]).handle != handle,
            },
    {
        match self.find(handle) {
            Option::Some(i) => Option::Some(&self.bodies[i].info),
            Option::None => Option::None,
        }
    }

    /// Remove a body and all its attached data; stale references to it in
    /// other bodies' partner sets disappear on the next collision update.
    /// Returns whether the handle named a body.
    pub fn remove_body(&mut self, handle: u64) -> (r: bool)
        requires
            old(self).wf(),
        ensures
            final(self).wf(),
            r == (exists|i: int|
                0 <= i < old(self).bodies@.len() && (#[trigger] old(self).bodies@[i]).handle
                    == handle),
            r ==> {
                let idx = choose|i: int|
                    0 <= i < old(self).bodies@.len() && (#[trigger] old(self).bodies@[i]).handle
                        == handle;
                final(self).bodies@ == old(self).bodies@.remove(idx)
            },
            !r ==> *final(self) == *old(self),
            final(self).next_handle == old(self).next_handle,
            final(self).gravity == old(self).gravity,
            final(self).gravity_effect == old(self).gravity_effect,
    {
        match self.find(handle) {
            Option::Some(i) => {
                self.bodies.remove(i);
                proof {
                    let idx = choose|k: int|
                        0 <= k < old(self).bodies@.len() && (#[trigger] old(
                            self,
                        ).bodies@[k]).handle == handle;
                    assert(idx == i as int);
                }
                true
            },
            Option::None => false,
        }
    }

    /// Recompute every body's collision record from the current transforms.
    /// For each unordered pair of shaped bodies the overlap test of the
    /// collider abstraction decides once; afterwards a body's partner set
    /// holds exactly the handles of the shaped bodies overlapping it, and
    /// `is_colliding` mirrors non-emptiness in the same tick, with no lag.
    /// The result is a function of the set of overlapping pairs, so pair
    /// evaluation order cannot matter. Bodies without a shape are skipped.
    pub fn update_collisions(&mut self)
        requires
            old(self).wf(),
        ensures
            final(self).wf(),
            final(self).bodies@.len() == old(self).bodies@.len(),
            final(self).next_handle == old(self).next_handle,
            final(self).gravity == old(self).gravity,
            final(self).gravity_effect == old(self).gravity_effect,
            forall|i: int|
                0 <= i < old(self).bodies@.len() ==> same_but_info(
                    old(self).bodies@[i],
                    #[trigger] final(self).bodies@[i],
                ),
            forall|i: int|
                0 <= i < old(self).bodies@.len() && !has_shape(#[trigger] old(self).bodies@[i])
                    ==> final(self).bodies@[i].info == old(self).bodies@[i].info,
            forall|i: int, j: int|
                0 <= i < old(self).bodies@.len() && 0 <= j < old(self).bodies@.len() && i != j
                    && has_shape(old(self).bodies@[i]) ==> (final(self).bodies@[i].info.sources@
                    .contains(old(self).bodies@[j].handle)
                    <==> #[trigger] pair_overlaps(old(self).bodies@[i], old(self).bodies@[j])),
            forall|i: int, k: int|
                0 <= i < old(self).bodies@.len() && has_shape(old(self).bodies@[i]) && 0 <= k
                    < final(self).bodies@[i].info.sources@.len() ==> other_body_handle(
                    old(self).bodies@,
                    i,
                    #[trigger] final(self).bodies@[i].info.sources@[k],
                ),
            forall|i: int|
                0 <= i < old(self).bodies@.len() && has_shape(#[trigger] old(self).bodies@[i])
                    ==> (final(self).bodies@[i].info.is_colliding
                    <==> final(self).bodies@[i].info.sources@.len() > 0),
    {
        let ghost orig = self.bodies@;
        let n = self.bodies.len();
        let mut i: usize = 0;
        while i < n
            invariant
                self.wf(),
                n == self.bodies@.len(),
                orig == old(self).bodies@,
                orig.len() == n,
                0 <= i <= n,
                self.next_handle == old(self).next_handle,
                self.gravity == old(self).gravity,
                self.gravity_effect == old(self).gravity_effect,
                forall|k: int|
                    0 <= k < n ==> same_but_info(orig[k], #[trigger] self.bodies@[k]),
                forall|k: int| i <= k < n ==> (#[trigger] self.bodies@[k]).info == orig[k].info,
                forall|k: int|
                    0 <= k < i && !has_shape(#[trigger] orig[k]) ==> self.bodies@[k].info
                        == orig[k].info,
                forall|k: int, j: int|
                    0 <= k < i && 0 <= j < n && k != j && has_shape(orig[k]) ==> (
                    self.bodies@[k].info.sources@.contains(orig[j].handle)
                        <==> #[trigger] pair_overlaps(orig[k], orig[j])),
                forall|k: int, m: int|
                    0 <= k < i && has_shape(orig[k]) && 0 <= m
                        < self.bodies@[k].info.sources@.len() ==> other_body_handle(
                        orig,
                        k,
                        #[trigger] self.bodies@[k].info.sources@[m],
                    ),
                forall|k: int|
                    0 <= k < i && has_shape(#[trigger] orig[k]) ==> (
                    self.bodies@[k].info.is_colliding <==> self.bodies@[k].info.sources@.len()
                        > 0),
            decreases n - i,
        {
            if self.bodies[i].shape.is_some() {
                let srcs = collect_sources(&self.bodies, i);
                proof {
                    assert forall|j: int| 0 <= j < n && j != i implies (srcs@.contains(
                        orig[j].handle,
                    ) <==> #[trigger] pair_overlaps(orig[i as int], orig[j])) by {
                        assert(pair_overlaps(self.bodies@[i as int], self.bodies@[j])
                            == pair_overlaps(orig[i as int], orig[j]));
                        assert(self.bodies@[j].handle == orig[j].handle);
                    }
                }
                let colliding = srcs.len() > 0;
                let ghost srcs_seq = srcs@;
                let ghost pre = self.bodies@;
                self.bodies[i].info = CollisionInfo { is_colliding: colliding, sources: srcs };
                proof {
                    assert(self.bodies@[i as int].info.sources@ == srcs_seq);
                    assert forall|m: int| 0 <= m < srcs_seq.len() implies other_body_handle(
                        orig,
                        i as int,
                        #[trigger] srcs_seq[m],
                    ) by {
                        let jj = choose|j: int|
                            0 <= j < pre.len() && j != (i as int) && pre[j].handle == srcs_seq[m];
                        assert(orig[jj].handle == pre[jj].handle);
                        assert(0 <= jj < orig.len() && jj != (i as int) && orig[jj].handle
                            == srcs_seq[m]);
                    }
                }
            }
            i = i + 1;
        }
    }

    /// The overlaps among the registered bodies, as events: one in each
    /// direction for every unordered pair of distinct shaped bodies whose
    /// placed shapes overlap, and nothing else.
    pub fn collision_events(&self) -> (evs: Vec<CollisionEvent>)
        requires
            self.wf(),
        ensures
            forall|a: u64, b: u64|
                #[trigger] has_event(evs@, a, b) == overlapping_handles(self.bodies@, a, b),
    {
        let n = self.bodies.len();
        let mut evs: Vec<CollisionEvent> = Vec::new();
        let ghost mut pairs: Seq<(int, int)> = Seq::empty();
        let mut i: usize = 0;
        while i < n
            invariant
                self.wf(),
                n == self.bodies@.len(),
                0 <= i <= n,
                pairs.len() == evs@.len(),
                forall|k: int|
                    0 <= k < pairs.len() ==> event_of_pair(
                        self.bodies@,
                        #[trigger] pairs[k],
                        evs@[k],
                    ),
                forall|k: int|
                    0 <= k < pairs.len() ==> #[trigger] evs@[k] == CollisionEvent(
                        self.bodies@[pairs[k].0].handle,
                        self.bodies@[pairs[k].1].handle,
                    ),
                forall|x: int, y: int|
                    0 <= x < y < n && x < i && #[trigger] pair_overlaps(
                        self.bodies@[x],
                        self.bodies@[y],
                    ) ==> has_event(evs@, self.bodies@[x].handle, self.bodies@[y].handle)
                        && has_event(evs@, self.bodies@[y].handle, self.bodies@[x].handle),
            decreases n - i,
        {
            let mut j: usize = i + 1;
            while j < n
                invariant
                    self.wf(),
                    n == self.bodies@.len(),
                    0 <= i < n,
                    i < j <= n,
                    pairs.len() == evs@.len(),
                    forall|k: int|
                        0 <= k < pairs.len() ==> event_of_pair(
                            self.bodies@,
                            #[trigger] pairs[k],
                            evs@[k],
                        ),
                    forall|k: int|
                        0 <= k < pairs.len() ==> #[trigger] evs@[k] == CollisionEvent(
                            self.bodies@[pairs[k].0].handle,
                            self.bodies@[pairs[k].1].handle,
                        ),
                    forall|x: int, y: int|
                        0 <= x < y < n && x < i && #[trigger] pair_overlaps(
                            self.bodies@[x],
                            self.bodies@[y],
                        ) ==> has_event(evs@, self.bodies@[x].handle, self.bodies@[y].handle)
                            && has_event(evs@, self.bodies@[y].handle, self.bodies@[x].handle),
                    forall|y: int|
                        i < y < j && #[trigger] pair_overlaps(
                            self.bodies@[i as int],
                            self.bodies@[y],
                        ) ==> has_event(evs@, self.bodies@[i as int].handle, self.bodies@[y].handle)
                            && has_event(evs@, self.bodies@[y].handle, self.bodies@[i as int].handle),
                decreases n - j,
            {
                proof {
                    assert(body_wf(self.bodies@[i as int]));
                    assert(body_wf(self.bodies@[j as int]));
                }
                let hit = match (&self.bodies[i].shape, &self.bodies[j].shape) {
                    (Option::Some(sa), Option::Some(sb)) => test_overlap(
                        sa,
                        &self.bodies[i].transform,
                        sb,
                        &self.bodies[j].transform,
                    ),
                    _ => false,
                };
                proof {
                    assert(hit == pair_overlaps(self.bodies@[i as int], self.bodies@[j as int]));
                }
                if hit {
                    let hi = self.bodies[i].handle;
                    let hj = self.bodies[j].handle;
                    let ghost evs0 = evs@;
                    evs.push(CollisionEvent(hi, hj));
                    evs.push(CollisionEvent(hj, hi));
                    proof {
                        let ghost evs1 = evs0.push(CollisionEvent(hi, hj));
                        pairs = pairs.push((i as int, j as int)).push((j as int, i as int));
                        lemma_pair_overlaps_symmetric(
                            self.bodies@[i as int],
                            self.bodies@[j as int],
                        );
                        assert(evs@ == evs1.push(CollisionEvent(hj, hi)));
                        assert(evs@[evs0.len() as int] == CollisionEvent(hi, hj));
                        assert(evs@[evs0.len() as int + 1] == CollisionEvent(hj, hi));
                        assert(has_event(evs@, hi, hj));
                        assert(has_event(evs@, hj, hi));
                        assert forall|a: u64, b: u64| has_event(evs0, a, b) implies has_event(
                            evs@,
                            a,
                            b,
                        ) by {
                            lemma_has_event_push(evs0, CollisionEvent(hi, hj), a, b);
                            lemma_has_event_push(evs1, CollisionEvent(hj, hi), a, b);
                        }
                    }
                }
                j = j + 1;
            }
            i = i + 1;
        }
        proof {
            assert forall|a: u64, b: u64| #[trigger] has_event(evs@, a, b)
                == overlapping_handles(self.bodies@, a, b) by {
                if has_event(evs@, a, b) {
                    let k = choose|k: int| 0 <= k < evs@.len() && evs@[k] == CollisionEvent(a, b);
                    let p = pairs[k];
                    assert(event_of_pair(self.bodies@, p, evs@[k]));
                    assert(0 <= p.0 < n && 0 <= p.1 < n && p.0 != p.1 && self.bodies@[p.0].handle
                        == a && self.bodies@[p.1].handle == b && pair_overlaps(
                        self.bodies@[p.0],
                        self.bodies@[p.1],
                    ));
                    assert(overlapping_handles(self.bodies@, a, b));
                }
                if overlapping_handles(self.bodies@, a, b) {
                    let (x, y): (int, int) = choose|x: int, y: int|
                        0 <= x < self.bodies@.len() && 0 <= y < self.bodies@.len() && x != y
                            && self.bodies@[x].handle == a && self.bodies@[y].handle == b
                            && pair_overlaps(self.bodies@[x], self.bodies@[y]);
                    if x < y {
                        assert(has_event(evs@, self.bodies@[x].handle, self.bodies@[y].handle));
                    } else {
                        lemma_pair_overlaps_symmetric(self.bodies@[x], self.bodies@[y]);
                        assert(pair_overlaps(self.bodies@[y], self.bodies@[x]));
                        assert(has_event(evs@, self.bodies@[x].handle, self.bodies@[y].handle));
                    }
                }
            }
        }
        evs
    }

    /// Advance every body by one time delta, in registry order: each body's
    /// new motion state is exactly one `step` of its old one. A non-positive
    /// delta leaves every body unchanged.
    pub fn integrate(&mut self, dt: i64)
        requires
            old(self).wf(),
            dt <= LIMIT,
        ensures
            final(self).wf(),
            final(self).bodies@.len() == old(self).bodies@.len(),
            final(self).next_handle == old(self).next_handle,
            final(self).gravity == old(self).gravity,
            final(self).gravity_effect == old(self).gravity_effect,
            forall|i: int|
                0 <= i < old(self).bodies@.len() ==> {
                    let ob = old(self).bodies@[i];
                    let nb = #[trigger] final(self).bodies@[i];
                    &&& model(nb) == step(model(ob), dt as int)
                    &&& nb.handle == ob.handle
                    &&& nb.shape == ob.shape
                    &&& nb.info == ob.info
                    &&& nb.body == ob.body
                    &&& nb.is_sleep == ob.is_sleep
                },
    {
        let ghost orig = self.bodies@;
        let n = self.bodies.len();
        let mut i: usize = 0;
        while i < n
            invariant
                self.wf(),
                0 <= i <= n,
                n == self.bodies@.len() == orig.len(),
                orig == old(self).bodies@,
                dt <= LIMIT,
                self.next_handle == old(self).next_handle,
                self.gravity == old(self).gravity,
                self.gravity_effect == old(self).gravity_effect,
                forall|k: int| i <= k < n ==> #[trigger] self.bodies@[k] == orig[k],
                forall|k: int|
                    0 <= k < i ==> {
                        let ob = orig[k];
                        let nb = #[trigger] self.bodies@[k];
                        &&& model(nb) == step(model(ob), dt as int)
                        &&& nb.handle == ob.handle
                        &&& nb.shape == ob.shape
                        &&& nb.info == ob.info
                        &&& nb.body == ob.body
                        &&& nb.is_sleep == ob.is_sleep
                    },
            decreases n - i,
        {
            proof {
                assert(body_wf(self.bodies@[i as int]));
            }
            update_transform(&mut self.bodies[i], dt);
            i = i + 1;
        }
    }

    /// Fold the configured gravity into every dynamic awake body, before
    /// integration: onto linear velocity or linear acceleration, by the
    /// configured mode. Static and sleeping bodies are unaffected, and so is
    /// everything else about each body.
    pub fn apply_gravity(&mut self)
        requires
            old(self).wf(),
        ensures
            final(self).wf(),
            final(self).bodies@.len() == old(self).bodies@.len(),
            final(self).next_handle == old(self).next_handle,
            final(self).gravity == old(self).gravity,
            final(self).gravity_effect == old(self).gravity_effect,
            forall|i: int|
                0 <= i < old(self).bodies@.len() ==> gravity_applied(
                    old(self).bodies@[i],
                    #[trigger] final(self).bodies@[i],
                    old(self).gravity_effect,
                    old(self).gravity,
                ),
    {
        let g = match self.gravity {
            Option::Some(g) => g,
            Option::None => {
                return ;
            },
        };
        let to_velocity = match self.gravity_effect {
            GravityEffect::Disabled => {
                return ;
            },
            GravityEffect::Velocity => true,
            GravityEffect::Acceleration => false,
        };
        let ghost orig = self.bodies@;
        let n = self.bodies.len();
        let mut i: usize = 0;
        while i < n
            invariant
                self.wf(),
                0 <= i <= n,
                n == self.bodies@.len() == orig.len(),
                orig == old(self).bodies@,
                self.next_handle == old(self).next_handle,
                self.gravity == old(self).gravity,
                self.gravity_effect == old(self).gravity_effect,
                self.gravity == Option::Some(g),
                to_velocity == (self.gravity_effect is Velocity),
                !(self.gravity_effect is Disabled),
                forall|k: int| i <= k < n ==> #[trigger] self.bodies@[k] == orig[k],
                forall|k: int|
                    0 <= k < i ==> gravity_applied(
                        orig[k],
                        #[trigger] self.bodies@[k],
                        old(self).gravity_effect,
                        old(self).gravity,
                    ),
            decreases n - i,
        {
            proof {
                assert(body_wf(self.bodies@[i as int]));
            }
            let is_dynamic = match self.bodies[i].body {
                Body::Dynamic => true,
                Body::Static => false,
            };
            if is_dynamic && !self.bodies[i].is_sleep.0 {
                if to_velocity {
                    let vx = sat_add(self.bodies[i].velocity.linear.x, g.0.x);
                    let vy = sat_add(self.bodies[i].velocity.linear.y, g.0.y);
                    let ang = self.bodies[i].velocity.angular;
                    self.bodies[i].velocity = Velocity {
                        linear: Vec2 { x: vx, y: vy },
                        angular: ang,
                    };
                } else {
                    let ax = sat_add(self.bodies[i].acceleration.linear.x, g.0.x);
                    let ay = sat_add(self.bodies[i].acceleration.linear.y, g.0.y);
                    let ang = self.bodies[i].acceleration.angular;
                    self.bodies[i].acceleration = Acceleration {
                        linear: Vec2 { x: ax, y: ay },
                        angular: ang,
                    };
                }
            }
            i = i + 1;
        }
    }

    /// Re-evaluate dormancy for every body that carries a force triple: it
    /// is marked asleep exactly when the linear and angular components of
    /// its velocity, acceleration and force are all within `SLEEP_EPSILON`
    /// of zero, every tick, entering and leaving alike. Bodies without a
    /// force triple keep their flag.
    pub fn update_sleep_state(&mut self)
        requires
            old(self).wf(),
        ensures
            final(self).wf(),
            final(self).bodies@.len() == old(self).bodies@.len(),
            final(self).next_handle == old(self).next_handle,
            final(self).gravity == old(self).gravity,
            final(self).gravity_effect == old(self).gravity_effect,
            forall|i: int|
                0 <= i < old(self).bodies@.len() ==> sleep_updated(
                    old(self).bodies@[i],
                    #[trigger] final(self).bodies@[i],
                ),
    {
        let ghost orig = self.bodies@;
        let n = self.bodies.len();
        let mut i: usize = 0;
        while i < n
            invariant
                self.wf(),
                0 <= i <= n,
                n == self.bodies@.len() == orig.len(),
                orig == old(self).bodies@,
                self.next_handle == old(self).next_handle,
                self.gravity == old(self).gravity,
                self.gravity_effect == old(self).gravity_effect,
                forall|k: int| i <= k < n ==> #[trigger] self.bodies@[k] == orig[k],
                forall|k: int|
                    0 <= k < i ==> sleep_updated(orig[k], #[trigger] self.bodies@[k]),
            decreases n - i,
        {
            let fbopt = self.bodies[i].forces;
            match fbopt {
                Option::Some(fb) => {
                    let asleep = evaluate_sleep(
                        &self.bodies[i].velocity,
                        &self.bodies[i].acceleration,
                        &fb.force,
                    );
                    self.bodies[i].is_sleep = IsSleep(asleep);
                },
                Option::None => {},
            }
            i = i + 1;
        }
    }
}

/// Whether the events hold one from handle `a` to handle `b`.
pub open spec fn has_event(evs: Seq<CollisionEvent>, a: u64, b: u64) -> bool {
    exists|k: int| 0 <= k < evs.len() && evs[k] == CollisionEvent(a, b)
}

/// Whether two distinct registered bodies carry handles `a` and `b` and
/// their placed shapes overlap.
pub open spec fn overlapping_handles(bodies: Seq<BodyState>, a: u64, b: u64) -> bool {
    exists|i: int, j: int|
        0 <= i < bodies.len() && 0 <= j < bodies.len() && i != j && bodies[i].handle == a
            && bodies[j].handle == b && pair_overlaps(bodies[i], bodies[j])
}

/// Entry `k` of the events records the overlap of the body pair `p`.
pub open spec fn event_of_pair(bodies: Seq<BodyState>, p: (int, int), e: CollisionEvent) -> bool {
    &&& 0 <= p.0 < bodies.len()
    &&& 0 <= p.1 < bodies.len()
    &&& p.0 != p.1
    &&& e == CollisionEvent(bodies[p.0].handle, bodies[p.1].handle)
    &&& pair_overlaps(bodies[p.0], bodies[p.1])
}

/// Body overlap is symmetric in the two bodies.
pub proof fn lemma_pair_overlaps_symmetric(a: BodyState, b: BodyState)
    ensures
        pair_overlaps(a, b) == pair_overlaps(b, a),
{
    match (a.shape, b.shape) {
        (Option::Some(sa), Option::Some(sb)) => {
            crate::overlap::lemma_overlap_symmetric(sa, a.transform, sb, b.transform);
        },
        _ => {},
    }
}

proof fn lemma_has_event_push(evs: Seq<CollisionEvent>, e: CollisionEvent, a: u64, b: u64)
    requires
        has_event(evs, a, b),
    ensures
        has_event(evs.push(e), a, b),
{
    let k = choose|k: int| 0 <= k < evs.len() && evs[k] == CollisionEvent(a, b);
    assert(evs.push(e)[k] == CollisionEvent(a, b));
}

/// How one tick's gravity pass changes one body: dynamic awake bodies get
/// the vector added (saturating) to their linear velocity or linear
/// acceleration by mode; everything else is untouched.
pub open spec fn gravity_applied(
    ob: BodyState,
    nb: BodyState,
    effect: GravityEffect,
    g: Option<Gravity>,
) -> bool {
    if (effect is Disabled) || (g is None) || !(ob.body is Dynamic) || ob.is_sleep.0 {
        nb == ob
    } else {
        let gv = match g {
            Option::Some(gr) => gr.0,
            Option::None => Vec2 { x: 0, y: 0 },
        };
        &&& (if effect is Velocity {
            &&& nb.velocity.linear.x as int == sat(ob.velocity.linear.x + gv.x)
            &&& nb.velocity.linear.y as int == sat(ob.velocity.linear.y + gv.y)
            &&& nb.velocity.angular == ob.velocity.angular
            &&& nb.acceleration == ob.acceleration
        } else {
            &&& nb.acceleration.linear.x as int == sat(ob.acceleration.linear.x + gv.x)
            &&& nb.acceleration.linear.y as int == sat(ob.acceleration.linear.y + gv.y)
            &&& nb.acceleration.angular == ob.acceleration.angular
            &&& nb.velocity == ob.velocity
        })
        &&& nb.handle == ob.handle
        &&& nb.transform == ob.transform
        &&& nb.forces == ob.forces
        &&& nb.shape == ob.shape
        &&& nb.info == ob.info
        &&& nb.body == ob.body
        &&& nb.is_sleep == ob.is_sleep
    }
}

/// How one tick's sleep pass changes one body: with a force triple attached
/// the flag is recomputed from the current magnitudes; without one it is
/// kept.
pub open spec fn sleep_updated(ob: BodyState, nb: BodyState) -> bool {
    match ob.forces {
        Option::Some(fb) => nb == (BodyState {
            is_sleep: IsSleep(should_sleep(ob.velocity, ob.acceleration, fb.force)),
            ..ob
        }),
        Option::None => nb == ob,
    }
}

/// The handles of the shaped bodies whose placed shape overlaps body `i`'s,
/// in handle order.
fn collect_sources(bodies: &Vec<BodyState>, i: usize) -> (srcs: Vec<u64>)
    requires
        i < bodies@.len(),
        has_shape(bodies@[i as int]),
        forall|k: int| 0 <= k < bodies@.len() ==> body_wf(#[trigger] bodies@[k]),
        forall|k1: int, k2: int|
            0 <= k1 < k2 < bodies@.len() ==> bodies@[k1].handle < bodies@[k2].handle,
    ensures
        sorted_unique(srcs@),
        forall|j: int|
            0 <= j < bodies@.len() && j != i ==> (srcs@.contains(#[trigger] bodies@[j].handle)
                <==> pair_overlaps(bodies@[i as int], bodies@[j])),
        forall|m: int|
            0 <= m < srcs@.len() ==> other_body_handle(bodies@, i as int, #[trigger] srcs@[m]),
{
    let n = bodies.len();
    let mut srcs: Vec<u64> = Vec::new();
    let ghost mut idxs: Seq<int> = Seq::empty();
    let mut j: usize = 0;
    while j < n
        invariant
            i < n == bodies@.len(),
            0 <= j <= n,
            has_shape(bodies@[i as int]),
            forall|k: int| 0 <= k < n ==> body_wf(#[trigger] bodies@[k]),
            forall|k1: int, k2: int|
                0 <= k1 < k2 < n ==> bodies@[k1].handle < bodies@[k2].handle,
            idxs.len() == srcs@.len(),
            forall|m: int| 0 <= m < idxs.len() ==> 0 <= #[trigger] idxs[m] < j && idxs[m] != i,
            forall|m: int|
                0 <= m < idxs.len() ==> bodies@[#[trigger] idxs[m]].handle == srcs@[m],
            forall|m1: int, m2: int| 0 <= m1 < m2 < idxs.len() ==> idxs[m1] < idxs[m2],
            forall|jj: int|
                0 <= jj < j && jj != i ==> (srcs@.contains(#[trigger] bodies@[jj].handle)
                    <==> pair_overlaps(bodies@[i as int], bodies@[jj])),
        decreases n - j,
    {
        if j != i {
            proof {
                assert(body_wf(bodies@[i as int]));
                assert(body_wf(bodies@[j as int]));
            }
            let hit = match (&bodies[i].shape, &bodies[j].shape) {
                (Option::Some(sa), Option::Some(sb)) => test_overlap(
                    sa,
                    &bodies[i].transform,
                    sb,
                    &bodies[j].transform,
                ),
                _ => false,
            };
            proof {
                assert(hit == pair_overlaps(bodies@[i as int], bodies@[j as int]));
            }
            let h = bodies[j].handle;
            proof {
                assert forall|m: int| 0 <= m < srcs@.len() implies srcs@[m] < h by {
                    assert(bodies@[idxs[m]].handle < bodies@[j as int].handle);
                }
            }
            if hit {
                let ghost prev = srcs@;
                srcs.push(h);
                proof {
                    idxs = idxs.push(j as int);
                    assert(srcs@ == prev.push(h));
                    assert(srcs@[prev.len() as int] == h);
                    assert(srcs@.contains(h));
                    assert forall|x: u64| srcs@.contains(x) && x != h implies prev.contains(
                        x,
                    ) by {
                        let m = choose|m: int| 0 <= m < srcs@.len() && srcs@[m] == x;
                        assert(m < prev.len() && prev[m] == x);
                    }
                    assert forall|x: u64| prev.contains(x) implies srcs@.contains(x) by {
                        let m = choose|m: int| 0 <= m < prev.len() && prev[m] == x;
                        assert(srcs@[m] == x);
                    }
                }
            } else {
                proof {
                    assert forall|m: int| 0 <= m < srcs@.len() implies srcs@[m] != h by {
                        assert(srcs@[m] < h);
                    }
                    assert(!srcs@.contains(h));
                }
            }
        }
        j = j + 1;
    }
    proof {
        assert forall|m1: int, m2: int| 0 <= m1 < m2 < srcs@.len() implies srcs@[m1]
            < srcs@[m2] by {
            assert(idxs[m1] < idxs[m2]);
            assert(bodies@[idxs[m1]].handle < bodies@[idxs[m2]].handle);
        }
        assert forall|m: int| 0 <= m < srcs@.len() implies other_body_handle(
            bodies@,
            i as int,
            #[trigger] srcs@[m],
        ) by {
            assert(0 <= idxs[m] < bodies@.len() && idxs[m] != (i as int) && bodies@[idxs[m]].handle
                == srcs@[m]);
        }
    }
    srcs
}

/// Executable check of `velocity_wf`.
pub fn check_velocity(v: &crate::kinematic::Velocity) -> (r: bool)
    ensures
        r == velocity_wf(*v),
{
    -LIMIT <= v.linear.x && v.linear.x <= LIMIT && -LIMIT <= v.linear.y && v.linear.y <= LIMIT
        && -LIMIT <= v.angular && v.angular <= LIMIT
}

/// Executable check of `acceleration_wf`.
pub fn check_acceleration(a: &crate::kinematic::Acceleration) -> (r: bool)
    ensures
        r == acceleration_wf(*a),
{
    -LIMIT <= a.linear.x && a.linear.x <= LIMIT && -LIMIT <= a.linear.y && a.linear.y <= LIMIT
        && -LIMIT <= a.angular && a.angular <= LIMIT
}

/// Executable check of `force_wf`.
pub fn check_force(f: &crate::kinematic::Force) -> (r: bool)
    ensures
        r == force_wf(*f),
{
    -LIMIT <= f.linear.x && f.linear.x <= LIMIT && -LIMIT <= f.linear.y && f.linear.y <= LIMIT
        && -LIMIT <= f.angular && f.angular <= LIMIT
}

} // verus!
