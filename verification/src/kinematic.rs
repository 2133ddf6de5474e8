//! Motion state and the kinematic integrator.
//!
//! Each tick, for a dynamic awake body: quadratic drag is added to the
//! applied force, force becomes acceleration through mass and inertia,
//! acceleration advances velocity, and the post-update velocity advances the
//! transform (semi-implicit Euler). Static bodies are untouched; sleeping
//! bodies still get force and acceleration recomputed, so that they wake
//! promptly once force reappears, but keep velocity and transform frozen.

use vstd::prelude::*;
use vstd::arithmetic::div_mod::{lemma_fundamental_div_mod, lemma_fundamental_div_mod_converse_mod,
    lemma_mod_bound};
use crate::fx::{FP_ONE, FP_ONE_SQ, LIMIT, TAU, add_scaled, fx_div, in_range, isqrt,
    lemma_tdiv_bound, mul64, mul128, sat, sqrt_floor, sub_scaled3, tdiv};
use crate::rigid_body::{Body, BodyState, body_wf};
use crate::transform::Transform;
use crate::vec2::{Vec2, vec_in_range};

verus! {

/// Linear and angular velocity.
#[derive(Clone, Copy, PartialEq, Eq, Structural, Debug)]
pub struct Velocity {
    /// Affects the position
    pub linear: Vec2,
    /// Affects the rotation
    pub angular: i64,
}

/// Linear and angular acceleration.
#[derive(Clone, Copy, PartialEq, Eq, Structural, Debug)]
pub struct Acceleration {
    /// Affects the position
    pub linear: Vec2,
    /// Affects the rotation
    pub angular: i64,
}

/// Applied linear and angular force; drag is added into it each tick.
#[derive(Clone, Copy, PartialEq, Eq, Structural, Debug)]
pub struct Force {
    /// Affects the position
    pub linear: Vec2,
    /// Affects the rotation
    pub angular: i64,
}

/// Object resistance: positive mass and positive rotational inertia.
#[derive(Clone, Copy, PartialEq, Eq, Structural, Debug)]
pub struct Resistance {
    pub mass: i64,
    pub inertia: i64,
}

/// Environment resistance: quadratic drag coefficients.
#[derive(Clone, Copy, PartialEq, Eq, Structural, Debug)]
pub struct Drag {
    pub linear: i64,
    pub angular: i64,
}

impl Default for Velocity {
    fn default() -> (r: Velocity)
        ensures
            r.linear.x == 0 && r.linear.y == 0 && r.angular == 0,
    {
        Velocity { linear: Vec2 { x: 0, y: 0 }, angular: 0 }
    }
}

impl Default for Acceleration {
    fn default() -> (r: Acceleration)
        ensures
            r.linear.x == 0 && r.linear.y == 0 && r.angular == 0,
    {
        Acceleration { linear: Vec2 { x: 0, y: 0 }, angular: 0 }
    }
}

impl Default for Force {
    fn default() -> (r: Force)
        ensures
            r.linear.x == 0 && r.linear.y == 0 && r.angular == 0,
    {
        Force { linear: Vec2 { x: 0, y: 0 }, angular: 0 }
    }
}

impl Default for Resistance {
    /// Unit mass and unit inertia.
    fn default() -> (r: Resistance)
        ensures
            r.mass == FP_ONE && r.inertia == FP_ONE,
    {
        Resistance { mass: FP_ONE, inertia: FP_ONE }
    }
}

impl Default for Drag {
    /// No drag.
    fn default() -> (r: Drag)
        ensures
            r.linear == 0 && r.angular == 0,
    {
        Drag { linear: 0, angular: 0 }
    }
}

/// Velocity and acceleration together.
#[derive(Clone, Copy, PartialEq, Eq, Structural, Debug)]
pub struct DynamicBundle {
    pub velocity: Velocity,
    pub acceleration: Acceleration,
}

impl Default for DynamicBundle {
    fn default() -> (r: DynamicBundle)
        ensures
            r.velocity == (Velocity { linear: Vec2 { x: 0, y: 0 }, angular: 0 }),
            r.acceleration == (Acceleration { linear: Vec2 { x: 0, y: 0 }, angular: 0 }),
    {
        DynamicBundle { velocity: Velocity::default(), acceleration: Acceleration::default() }
    }
}

/// The force-driven part of a body: applied force, its resistance to it,
/// and the environment's drag.
#[derive(Clone, Copy, PartialEq, Eq, Structural, Debug)]
pub struct ForcesBundle {
    pub force: Force,
    pub resistance: Resistance,
    pub drag: Drag,
}

impl Default for ForcesBundle {
    fn default() -> (r: ForcesBundle)
        ensures
            r.force == (Force { linear: Vec2 { x: 0, y: 0 }, angular: 0 }),
            r.resistance == (Resistance { mass: FP_ONE, inertia: FP_ONE }),
            r.drag == (Drag { linear: 0, angular: 0 }),
    {
        ForcesBundle {
            force: Force::default(),
            resistance: Resistance::default(),
            drag: Drag::default(),
        }
    }
}

/// Everything the integrator reads and writes for one body.
#[derive(Clone, Copy, PartialEq, Eq, Structural, Debug)]
pub struct KinematicBundle {
    pub dynamic: DynamicBundle,
    pub forces: ForcesBundle,
}

impl Default for KinematicBundle {
    fn default() -> (r: KinematicBundle)
        ensures
            r.dynamic.velocity == (Velocity { linear: Vec2 { x: 0, y: 0 }, angular: 0 }),
            r.dynamic.acceleration == (Acceleration { linear: Vec2 { x: 0, y: 0 }, angular: 0 }),
            r.forces.force == (Force { linear: Vec2 { x: 0, y: 0 }, angular: 0 }),
            r.forces.resistance == (Resistance { mass: FP_ONE, inertia: FP_ONE }),
            r.forces.drag == (Drag { linear: 0, angular: 0 }),
    {
        KinematicBundle { dynamic: DynamicBundle::default(), forces: ForcesBundle::default() }
    }
}

/// Bounded motion quantities, and positive resistance where forces apply.
pub open spec fn velocity_wf(v: Velocity) -> bool {
    vec_in_range(v.linear) && in_range(v.angular as int)
}

pub open spec fn acceleration_wf(a: Acceleration) -> bool {
    vec_in_range(a.linear) && in_range(a.angular as int)
}

pub open spec fn force_wf(f: Force) -> bool {
    vec_in_range(f.linear) && in_range(f.angular as int)
}

/// A valid force triple: bounded force, strictly positive mass and inertia
/// (the integrator divides by them), non-negative bounded drag.
pub open spec fn forces_wf(fb: ForcesBundle) -> bool {
    &&& force_wf(fb.force)
    &&& 0 < fb.resistance.mass <= LIMIT
    &&& 0 < fb.resistance.inertia <= LIMIT
    &&& 0 <= fb.drag.linear <= LIMIT
    &&& 0 <= fb.drag.angular <= LIMIT
}

// ---------------------------------------------------------------------------
// The integrator's mathematical model.
// ---------------------------------------------------------------------------

/// The mathematical content of one body's motion state: every field of
/// `BodyState` that integration reads or writes, as unbounded integers.
pub ghost struct BodyModel {
    pub px: int,
    pub py: int,
    pub rot: int,
    pub vx: int,
    pub vy: int,
    pub vang: int,
    pub ax: int,
    pub ay: int,
    pub aang: int,
    pub has_forces: bool,
    pub fx: int,
    pub fy: int,
    pub fang: int,
    pub mass: int,
    pub inertia: int,
    pub drag_lin: int,
    pub drag_ang: int,
    pub is_static: bool,
    pub asleep: bool,
}

/// The attached force triple, or the neutral one where none is attached.
pub open spec fn forces_or_default(o: Option<ForcesBundle>) -> ForcesBundle {
    match o {
        Option::Some(fb) => fb,
        Option::None => ForcesBundle {
            force: Force { linear: Vec2 { x: 0, y: 0 }, angular: 0 },
            resistance: Resistance { mass: FP_ONE, inertia: FP_ONE },
            drag: Drag { linear: 0, angular: 0 },
        },
    }
}

/// The model behind a stored body.
pub open spec fn model(b: BodyState) -> BodyModel {
    let fb = forces_or_default(b.forces);
    BodyModel {
        px: b.transform.position.x as int,
        py: b.transform.position.y as int,
        rot: b.transform.rotation as int,
        vx: b.velocity.linear.x as int,
        vy: b.velocity.linear.y as int,
        vang: b.velocity.angular as int,
        ax: b.acceleration.linear.x as int,
        ay: b.acceleration.linear.y as int,
        aang: b.acceleration.angular as int,
        has_forces: b.forces is Some,
        fx: fb.force.linear.x as int,
        fy: fb.force.linear.y as int,
        fang: fb.force.angular as int,
        mass: fb.resistance.mass as int,
        inertia: fb.resistance.inertia as int,
        drag_lin: fb.drag.linear as int,
        drag_ang: fb.drag.angular as int,
        is_static: b.body is Static,
        asleep: b.is_sleep.0,
    }
}

/// The floor of a linear speed's magnitude.
pub open spec fn speed_mag(vx: int, vy: int) -> int {
    sqrt_floor(vx * vx + vy * vy)
}

/// An angle wrapped into `[0, TAU)`: composing rotations about one axis in
/// the plane is addition of angles, modulo a full turn.
pub open spec fn wrap_angle(a: int) -> int {
    a % (TAU as int)
}

/// Drag folded into force, then force converted to acceleration: the linear
/// drag is `-v * c * |v|` (that is, `-normalize(v) * c * |v|^2`), the angular
/// drag `-w * c * w^2`, each scaled back into fixed point; acceleration is
/// force over mass (inertia for the angular part).
pub open spec fn with_forces(m: BodyModel) -> BodyModel {
    let mag = speed_mag(m.vx, m.vy);
    let wsq = tdiv(m.vang * m.vang, FP_ONE as int);
    let f2x = sat(m.fx - tdiv(m.vx * m.drag_lin * mag, FP_ONE_SQ as int));
    let f2y = sat(m.fy - tdiv(m.vy * m.drag_lin * mag, FP_ONE_SQ as int));
    let f2a = sat(m.fang - tdiv(m.vang * m.drag_ang * wsq, FP_ONE_SQ as int));
    BodyModel {
        fx: f2x,
        fy: f2y,
        fang: f2a,
        ax: sat(tdiv(f2x * FP_ONE, m.mass)),
        ay: sat(tdiv(f2y * FP_ONE, m.mass)),
        aang: sat(tdiv(f2a * FP_ONE, m.inertia)),
        ..m
    }
}

/// Semi-implicit Euler: acceleration advances velocity first, and the
/// post-update velocity advances position and rotation.
pub open spec fn advanced(m: BodyModel, dt: int) -> BodyModel {
    let vx1 = sat(m.vx + tdiv(m.ax * dt, FP_ONE as int));
    let vy1 = sat(m.vy + tdiv(m.ay * dt, FP_ONE as int));
    let va1 = sat(m.vang + tdiv(m.aang * dt, FP_ONE as int));
    BodyModel {
        vx: vx1,
        vy: vy1,
        vang: va1,
        px: sat(m.px + tdiv(vx1 * dt, FP_ONE as int)),
        py: sat(m.py + tdiv(vy1 * dt, FP_ONE as int)),
        rot: wrap_angle(m.rot + tdiv(va1 * dt, FP_ONE as int)),
        ..m
    }
}

/// One integration step of one body. A non-positive delta is a no-op, a
/// static body is untouched; a sleeping body still has drag folded in and
/// acceleration recomputed, but keeps velocity and transform frozen.
pub open spec fn step(m: BodyModel, dt: int) -> BodyModel {
    if dt <= 0 || m.is_static {
        m
    } else {
        let m1 = if m.has_forces {
            with_forces(m)
        } else {
            m
        };
        if m.asleep {
            m1
        } else {
            advanced(m1, dt)
        }
    }
}

// ---------------------------------------------------------------------------
// The executable integrator.
// ---------------------------------------------------------------------------

/// The rotation after one step: the old angle plus the angular travel,
/// wrapped into `[0, TAU)`.
fn advance_rotation(rot: i64, vang: i64, dt: i64) -> (r: i64)
    requires
        -TAU <= rot <= TAU,
        in_range(vang as int),
        0 < dt <= LIMIT,
    ensures
        r as int == wrap_angle(rot + tdiv(vang * dt, FP_ONE as int)),
        0 <= r < TAU,
{
    proof {
        assert(-(68719476736 * FP_ONE) <= vang * dt <= 68719476736 * FP_ONE) by (nonlinear_arith)
            requires -LIMIT <= vang <= LIMIT && 0 < dt <= LIMIT;
    }
    let travel: i128 = mul64(vang, dt) / (FP_ONE as i128);
    proof {
        lemma_tdiv_bound(vang as int * dt as int, 68719476736, FP_ONE as int);
    }
    let raw: i128 = rot as i128 + travel;
    let q: i128 = raw / (TAU as i128);
    proof {
        lemma_tdiv_bound(raw as int, 400000, TAU as int);
    }
    let t: i128 = raw - mul128(q, TAU as i128);
    proof {
        if raw >= 0 {
            lemma_fundamental_div_mod(raw as int, TAU as int);
            lemma_mod_bound(raw as int, TAU as int);
        } else {
            let p = -(raw as int);
            lemma_fundamental_div_mod(p, TAU as int);
            lemma_mod_bound(p, TAU as int);
            assert(t as int == -(p % (TAU as int)));
            if t < 0 {
                lemma_fundamental_div_mod_converse_mod(
                    raw as int,
                    TAU as int,
                    q as int - 1,
                    t as int + TAU,
                );
            } else {
                lemma_fundamental_div_mod_converse_mod(raw as int, TAU as int, q as int, 0);
            }
        }
    }
    let wrapped: i128 = if t < 0 {
        t + (TAU as i128)
    } else {
        t
    };
    wrapped as i64
}

/// Advance one body's motion by one time delta. A non-positive delta is a
/// no-op;
/// a static body is untouched; a sleeping body has drag folded into its
/// force and its acceleration recomputed, but keeps velocity and transform
/// frozen.
pub fn update_transform(body: &mut BodyState, dt: i64)
    requires
        body_wf(*old(body)),
        dt <= LIMIT,
    ensures
        body_wf(*final(body)),
        model(*final(body)) == step(model(*old(body)), dt as int),
        final(body).handle == old(body).handle,
        final(body).shape == old(body).shape,
        final(body).info == old(body).info,
        final(body).body == old(body).body,
        final(body).is_sleep == old(body).is_sleep,
{
    if dt <= 0 {
        return ;
    }
    if body.body == Body::Static {
        return ;
    }
    let fbopt = body.forces;
    match fbopt {
        Option::Some(fb) => {
            let vx = body.velocity.linear.x;
            let vy = body.velocity.linear.y;
            let vang = body.velocity.angular;
            proof {
                assert(0 <= vx * vx <= LIMIT * LIMIT && 0 <= vy * vy <= LIMIT * LIMIT
                    && 0 <= vang * vang <= LIMIT * LIMIT) by (nonlinear_arith)
                    requires
                        -LIMIT <= vx <= LIMIT && -LIMIT <= vy <= LIMIT && -LIMIT <= vang <= LIMIT;
            }
            let sq: i128 = mul64(vx, vx) + mul64(vy, vy);
            let mag_u: u64 = isqrt(sq as u64);
            proof {
                assert(mag_u as int <= 2 * LIMIT) by (nonlinear_arith)
                    requires
                        (mag_u as int) * (mag_u as int) <= sq as int,
                        sq as int <= 2 * (LIMIT * LIMIT),
                        mag_u as int >= 0;
                assert(2 * LIMIT <= LIMIT * LIMIT) by (nonlinear_arith);
            }
            let mag: i64 = mag_u as i64;
            let f2x = sub_scaled3(fb.force.linear.x, vx, fb.drag.linear, mag);
            let f2y = sub_scaled3(fb.force.linear.y, vy, fb.drag.linear, mag);
            let wsq_wide: i128 = mul64(vang, vang) / (FP_ONE as i128);
            proof {
                lemma_tdiv_bound(vang as int * vang as int, 68719476736, FP_ONE as int);
                assert(wsq_wide >= 0) by (nonlinear_arith)
                    requires
                        wsq_wide == tdiv(vang as int * vang as int, FP_ONE as int),
                        vang as int * vang as int >= 0;
                assert(68719476736 <= LIMIT * LIMIT) by (nonlinear_arith);
            }
            let wsq: i64 = wsq_wide as i64;
            let f2a = sub_scaled3(fb.force.angular, vang, fb.drag.angular, wsq);
            let a2x = fx_div(f2x, fb.resistance.mass);
            let a2y = fx_div(f2y, fb.resistance.mass);
            let a2a = fx_div(f2a, fb.resistance.inertia);
            body.forces = Option::Some(
                ForcesBundle {
                    force: Force { linear: Vec2 { x: f2x, y: f2y }, angular: f2a },
                    resistance: fb.resistance,
                    drag: fb.drag,
                },
            );
            body.acceleration = Acceleration { linear: Vec2 { x: a2x, y: a2y }, angular: a2a };
        },
        Option::None => {},
    }
    if body.is_sleep.0 {
        return ;
    }
    let vx1 = add_scaled(body.velocity.linear.x, body.acceleration.linear.x, dt);
    let vy1 = add_scaled(body.velocity.linear.y, body.acceleration.linear.y, dt);
    let va1 = add_scaled(body.velocity.angular, body.acceleration.angular, dt);
    body.velocity = Velocity { linear: Vec2 { x: vx1, y: vy1 }, angular: va1 };
    let px1 = add_scaled(body.transform.position.x, vx1, dt);
    let py1 = add_scaled(body.transform.position.y, vy1, dt);
    let rot1 = advance_rotation(body.transform.rotation, va1, dt);
    body.transform = Transform { position: Vec2 { x: px1, y: py1 }, rotation: rot1 };
}

// ---------------------------------------------------------------------------
// Laws of integration.
// ---------------------------------------------------------------------------

/// The model after a run of several ticks.
pub open spec fn run(m: BodyModel, dts: Seq<int>) -> BodyModel
    decreases dts.len(),
{
    if dts.len() == 0 {
        m
    } else {
        run(step(m, dts[0]), dts.subrange(1, dts.len() as int))
    }
}

/// A static body is unchanged by any number of ticks, whatever its forces,
/// velocities and time deltas.
pub proof fn lemma_static_frozen(m: BodyModel, dts: Seq<int>)
    requires
        m.is_static,
    ensures
        run(m, dts) == m,
    decreases dts.len(),
{
    if dts.len() > 0 {
        assert(step(m, dts[0]) == m);
        lemma_static_frozen(m, dts.subrange(1, dts.len() as int));
    }
}

/// While asleep, a body's velocity and transform are frozen by a step, for
/// every force and acceleration configuration.
pub proof fn lemma_sleep_freezes(m: BodyModel, dt: int)
    requires
        m.asleep,
    ensures
        step(m, dt).px == m.px,
        step(m, dt).py == m.py,
        step(m, dt).rot == m.rot,
        step(m, dt).vx == m.vx,
        step(m, dt).vy == m.vy,
        step(m, dt).vang == m.vang,
{
}

/// Integration is deterministic: the new motion state is a function of the
/// old motion state and the time delta alone.
pub proof fn lemma_step_deterministic(a: BodyModel, b: BodyModel, dt1: int, dt2: int)
    requires
        a == b,
        dt1 == dt2,
    ensures
        step(a, dt1) == step(b, dt2),
{
}

} // verus!
