//! Simulation tests: registration, the tick pipeline, and its laws on
//! concrete values.

use rigid2d::fx::{FP_ONE, LIMIT, TAU};
use rigid2d::kinematic::{Drag, Force, ForcesBundle, Resistance, Velocity};
use rigid2d::rigid_body::{Body, RigidBodyBundle};
use rigid2d::shape::ColliderShape;
use rigid2d::sim::{ConfigError, Gravity, GravityEffect, PhysicsPlugin, Simulation};
use rigid2d::transform::Transform;
use rigid2d::vec2::Vec2;

fn fx(units: i64) -> i64 {
    units * FP_ONE
}

fn at(x: i64, y: i64) -> Transform {
    Transform { position: Vec2 { x, y }, rotation: 0 }
}

fn circle_body(radius: i64) -> RigidBodyBundle {
    let mut b = RigidBodyBundle::default();
    b.collider.shape = ColliderShape::Circle(radius);
    b
}

#[test]
fn add_body_rejects_non_positive_resistance() {
    let mut sim = Simulation::new(PhysicsPlugin::default());
    let mut b = RigidBodyBundle::default();
    b.kinematic.forces.resistance = Resistance { mass: 0, inertia: fx(1) };
    assert_eq!(sim.add_body(at(0, 0), b), Err(ConfigError::InvalidResistance));
    let mut b = RigidBodyBundle::default();
    b.kinematic.forces.resistance = Resistance { mass: fx(1), inertia: -5 };
    assert_eq!(sim.add_body(at(0, 0), b), Err(ConfigError::InvalidResistance));
    assert_eq!(sim.bodies.len(), 0);
}

#[test]
fn add_body_rejects_negative_drag() {
    let mut sim = Simulation::new(PhysicsPlugin::default());
    let mut b = RigidBodyBundle::default();
    b.kinematic.forces.drag = Drag { linear: -1, angular: 0 };
    assert_eq!(sim.add_body(at(0, 0), b), Err(ConfigError::InvalidDrag));
}

#[test]
fn add_body_rejects_degenerate_polygon() {
    let mut sim = Simulation::new(PhysicsPlugin::default());
    let mut b = RigidBodyBundle::default();
    b.collider.shape = ColliderShape::Polygon(vec![Vec2 { x: 0, y: 0 }, Vec2 { x: fx(1), y: 0 }]);
    assert_eq!(sim.add_body(at(0, 0), b), Err(ConfigError::InvalidShape));
}

#[test]
fn add_body_rejects_out_of_range_transform() {
    let mut sim = Simulation::new(PhysicsPlugin::default());
    let b = RigidBodyBundle::default();
    assert_eq!(sim.add_body(at(fx(100000), 0), b), Err(ConfigError::OutOfRange));
}

#[test]
fn setters_report_missing_bodies() {
    let mut sim = Simulation::new(PhysicsPlugin::default());
    assert_eq!(sim.set_transform(7, at(0, 0)), Err(ConfigError::NoSuchBody));
    assert_eq!(sim.set_velocity(7, Velocity::default()), Err(ConfigError::NoSuchBody));
    assert!(!sim.set_sleep(7, true));
    assert!(sim.transform(7).is_none());
    assert!(sim.collision_info(7).is_none());
}

#[test]
fn remove_body_forgets_the_handle() {
    let mut sim = Simulation::new(PhysicsPlugin::default());
    let h = sim.add_body(at(0, 0), circle_body(fx(5))).unwrap();
    assert!(sim.transform(h).is_some());
    assert!(sim.remove_body(h));
    assert!(!sim.remove_body(h));
    assert!(sim.transform(h).is_none());
}

#[test]
fn collision_persistence_enter_and_exit_same_tick() {
    let mut sim = Simulation::new(PhysicsPlugin::default());
    let a = sim.add_body(at(0, 0), circle_body(fx(10))).unwrap();
    let b = sim.add_body(at(fx(15), 0), circle_body(fx(10))).unwrap();
    sim.update_collisions();
    let ia = sim.collision_info(a).unwrap();
    assert!(ia.is_colliding);
    assert_eq!(ia.sources, vec![b]);
    let ib = sim.collision_info(b).unwrap();
    assert!(ib.is_colliding);
    assert_eq!(ib.sources, vec![a]);
    // Separate them: the very next update empties the records.
    sim.set_transform(b, at(fx(50), 0)).unwrap();
    sim.update_collisions();
    let ia = sim.collision_info(a).unwrap();
    assert!(!ia.is_colliding);
    assert!(ia.sources.is_empty());
    let ib = sim.collision_info(b).unwrap();
    assert!(!ib.is_colliding);
    assert!(ib.sources.is_empty());
}

#[test]
fn collision_events_both_directions() {
    let mut sim = Simulation::new(PhysicsPlugin::default());
    let a = sim.add_body(at(0, 0), circle_body(fx(10))).unwrap();
    let b = sim.add_body(at(fx(15), 0), circle_body(fx(10))).unwrap();
    let _far = sim.add_body(at(fx(100), 0), circle_body(fx(10))).unwrap();
    let events = sim.collision_events();
    assert_eq!(events.len(), 2);
    assert_eq!((events[0].0, events[0].1), (a, b));
    assert_eq!((events[1].0, events[1].1), (b, a));
}

#[test]
fn integration_semi_implicit_euler() {
    // Mass 2, force (10, 0), zero velocity, dt 1, zero drag: acceleration
    // becomes (5, 0), velocity (5, 0), and the position advances by the new
    // velocity: (5, 0) in the same tick.
    let mut sim = Simulation::new(PhysicsPlugin::default());
    let mut b = RigidBodyBundle::default();
    b.kinematic.forces.resistance = Resistance { mass: fx(2), inertia: fx(1) };
    b.kinematic.forces.force = Force { linear: Vec2 { x: fx(10), y: 0 }, angular: 0 };
    let h = sim.add_body(at(0, 0), b).unwrap();
    sim.integrate(fx(1));
    let body = &sim.bodies[0];
    assert_eq!(body.handle, h);
    assert_eq!(body.acceleration.linear, Vec2 { x: fx(5), y: 0 });
    assert_eq!(body.velocity.linear, Vec2 { x: fx(5), y: 0 });
    assert_eq!(sim.transform(h).unwrap().position, Vec2 { x: fx(5), y: 0 });
}

#[test]
fn integration_non_positive_delta_is_noop() {
    let mut sim = Simulation::new(PhysicsPlugin::default());
    let mut b = RigidBodyBundle::default();
    b.kinematic.dynamic.velocity = Velocity { linear: Vec2 { x: fx(3), y: 0 }, angular: 0 };
    let h = sim.add_body(at(0, 0), b).unwrap();
    sim.integrate(0);
    sim.integrate(-fx(1));
    assert_eq!(sim.transform(h).unwrap().position, Vec2 { x: 0, y: 0 });
    assert_eq!(sim.bodies[0].velocity.linear, Vec2 { x: fx(3), y: 0 });
}

#[test]
fn static_bodies_never_move() {
    let mut sim = Simulation::new(PhysicsPlugin::default());
    let mut b = RigidBodyBundle::default();
    b.body = Body::Static;
    b.kinematic.dynamic.velocity = Velocity { linear: Vec2 { x: fx(9), y: fx(9) }, angular: fx(1) };
    b.kinematic.forces.force = Force { linear: Vec2 { x: fx(50), y: 0 }, angular: fx(2) };
    let h = sim.add_body(at(fx(1), fx(2)), b).unwrap();
    for _ in 0..10 {
        sim.integrate(fx(1));
    }
    let t = sim.transform(h).unwrap();
    assert_eq!(t.position, Vec2 { x: fx(1), y: fx(2) });
    assert_eq!(t.rotation, 0);
    // Even its velocity and force are untouched.
    assert_eq!(sim.bodies[0].velocity.linear, Vec2 { x: fx(9), y: fx(9) });
}

#[test]
fn sleeping_bodies_freeze_and_resume() {
    let mut sim = Simulation::new(PhysicsPlugin::default());
    let mut b = RigidBodyBundle::default();
    b.kinematic.dynamic.velocity = Velocity { linear: Vec2 { x: fx(4), y: 0 }, angular: 0 };
    let h = sim.add_body(at(0, 0), b).unwrap();
    assert!(sim.set_sleep(h, true));
    sim.integrate(fx(1));
    assert_eq!(sim.transform(h).unwrap().position, Vec2 { x: 0, y: 0 });
    assert_eq!(sim.bodies[0].velocity.linear, Vec2 { x: fx(4), y: 0 });
    // Woken, it moves again.
    assert!(sim.set_sleep(h, false));
    sim.integrate(fx(1));
    assert_eq!(sim.transform(h).unwrap().position, Vec2 { x: fx(4), y: 0 });
}

#[test]
fn sleep_requires_all_components_near_zero() {
    let mut sim = Simulation::new(PhysicsPlugin::default());
    let h = sim.add_body(at(0, 0), RigidBodyBundle::default()).unwrap();
    sim.update_sleep_state();
    assert!(sim.bodies[0].is_sleep.0);
    // One large component keeps the body awake, even with the rest zero.
    sim.set_velocity(h, Velocity { linear: Vec2 { x: 0, y: fx(10) }, angular: 0 }).unwrap();
    sim.update_sleep_state();
    assert!(!sim.bodies[0].is_sleep.0);
    // Back to rest, it dozes off again on the next evaluation.
    sim.set_velocity(h, Velocity::default()).unwrap();
    sim.update_sleep_state();
    assert!(sim.bodies[0].is_sleep.0);
}

#[test]
fn gravity_velocity_mode_adds_to_velocity() {
    let mut sim = Simulation::new(PhysicsPlugin { gravity_effect: GravityEffect::Velocity });
    sim.set_gravity(Some(Gravity(Vec2 { x: 0, y: -fx(10) }))).unwrap();
    let h = sim.add_body(at(0, 0), RigidBodyBundle::default()).unwrap();
    let mut s = RigidBodyBundle::default();
    s.body = Body::Static;
    let hs = sim.add_body(at(0, 0), s).unwrap();
    sim.apply_gravity();
    assert_eq!(sim.bodies[0].handle, h);
    assert_eq!(sim.bodies[0].velocity.linear, Vec2 { x: 0, y: -fx(10) });
    assert_eq!(sim.bodies[0].acceleration.linear, Vec2 { x: 0, y: 0 });
    // The static body is unaffected.
    assert_eq!(sim.bodies[1].handle, hs);
    assert_eq!(sim.bodies[1].velocity.linear, Vec2 { x: 0, y: 0 });
}

#[test]
fn gravity_acceleration_mode_adds_to_acceleration() {
    let mut sim = Simulation::new(PhysicsPlugin { gravity_effect: GravityEffect::Acceleration });
    sim.set_gravity(Some(Gravity(Vec2 { x: 0, y: -fx(10) }))).unwrap();
    sim.add_body(at(0, 0), RigidBodyBundle::default()).unwrap();
    sim.apply_gravity();
    assert_eq!(sim.bodies[0].acceleration.linear, Vec2 { x: 0, y: -fx(10) });
    assert_eq!(sim.bodies[0].velocity.linear, Vec2 { x: 0, y: 0 });
}

#[test]
fn gravity_disabled_or_absent_changes_nothing() {
    let mut sim = Simulation::new(PhysicsPlugin { gravity_effect: GravityEffect::Velocity });
    sim.add_body(at(0, 0), RigidBodyBundle::default()).unwrap();
    // No vector set: nothing happens.
    sim.apply_gravity();
    assert_eq!(sim.bodies[0].velocity.linear, Vec2 { x: 0, y: 0 });
    // Disabled mode: nothing happens either, even with a vector.
    let mut sim = Simulation::new(PhysicsPlugin::default());
    sim.set_gravity(Some(Gravity(Vec2 { x: 0, y: -fx(10) }))).unwrap();
    sim.add_body(at(0, 0), RigidBodyBundle::default()).unwrap();
    sim.apply_gravity();
    assert_eq!(sim.bodies[0].velocity.linear, Vec2 { x: 0, y: 0 });
}

#[test]
fn gravity_skips_sleeping_bodies() {
    let mut sim = Simulation::new(PhysicsPlugin { gravity_effect: GravityEffect::Velocity });
    sim.set_gravity(Some(Gravity(Vec2 { x: 0, y: -fx(10) }))).unwrap();
    let h = sim.add_body(at(0, 0), RigidBodyBundle::default()).unwrap();
    sim.set_sleep(h, true);
    sim.apply_gravity();
    assert_eq!(sim.bodies[0].velocity.linear, Vec2 { x: 0, y: 0 });
}

#[test]
fn quadratic_drag_opposes_motion() {
    // Unit mass, unit drag, velocity 1.0: the drag force is exactly -1.0,
    // so one unit tick brings the body to rest.
    let mut sim = Simulation::new(PhysicsPlugin::default());
    let mut b = RigidBodyBundle::default();
    b.kinematic.dynamic.velocity = Velocity { linear: Vec2 { x: fx(1), y: 0 }, angular: 0 };
    b.kinematic.forces.drag = Drag { linear: fx(1), angular: 0 };
    let h = sim.add_body(at(0, 0), b).unwrap();
    sim.integrate(fx(1));
    assert_eq!(sim.bodies[0].velocity.linear, Vec2 { x: 0, y: 0 });
    assert_eq!(sim.transform(h).unwrap().position, Vec2 { x: 0, y: 0 });
}

#[test]
fn quadratic_angular_drag_opposes_spin() {
    let mut sim = Simulation::new(PhysicsPlugin::default());
    let mut b = RigidBodyBundle::default();
    b.kinematic.dynamic.velocity = Velocity { linear: Vec2 { x: 0, y: 0 }, angular: fx(1) };
    b.kinematic.forces.drag = Drag { linear: 0, angular: fx(1) };
    let h = sim.add_body(at(0, 0), b).unwrap();
    sim.integrate(fx(1));
    assert_eq!(sim.bodies[0].velocity.angular, 0);
    assert_eq!(sim.transform(h).unwrap().rotation, 0);
}

#[test]
fn rotation_advances_and_wraps() {
    let mut sim = Simulation::new(PhysicsPlugin::default());
    let mut b = RigidBodyBundle::default();
    b.kinematic.dynamic.velocity = Velocity { linear: Vec2 { x: 0, y: 0 }, angular: fx(1) };
    let h = sim.add_body(at(0, 0), b).unwrap();
    sim.integrate(fx(1));
    assert_eq!(sim.transform(h).unwrap().rotation, fx(1));
    // A full turn of angular travel wraps back to where it started.
    let mut sim = Simulation::new(PhysicsPlugin::default());
    let mut b = RigidBodyBundle::default();
    b.kinematic.dynamic.velocity = Velocity { linear: Vec2 { x: 0, y: 0 }, angular: TAU };
    let h = sim.add_body(at(0, 0), b).unwrap();
    sim.integrate(fx(1));
    assert_eq!(sim.transform(h).unwrap().rotation, 0);
}

#[test]
fn forces_can_be_detached_and_reattached() {
    let mut sim = Simulation::new(PhysicsPlugin::default());
    let h = sim.add_body(at(0, 0), RigidBodyBundle::default()).unwrap();
    assert!(sim.clear_forces(h));
    assert!(sim.bodies[0].forces.is_none());
    let fb = ForcesBundle {
        force: Force { linear: Vec2 { x: fx(2), y: 0 }, angular: 0 },
        resistance: Resistance { mass: fx(2), inertia: fx(1) },
        drag: Drag::default(),
    };
    assert_eq!(sim.set_forces(h, fb), Ok(()));
    assert_eq!(sim.bodies[0].forces.unwrap().force.linear, Vec2 { x: fx(2), y: 0 });
}

#[test]
fn full_tick_pipeline_order() {
    // One tick as the host drives it: collisions, gravity, integration,
    // sleep, in that order.
    let mut sim = Simulation::new(PhysicsPlugin { gravity_effect: GravityEffect::Velocity });
    sim.set_gravity(Some(Gravity(Vec2 { x: 0, y: -fx(5) }))).unwrap();
    let h = sim.add_body(at(0, fx(20)), circle_body(fx(10))).unwrap();
    let floor = sim.add_body(at(0, 0), circle_body(fx(10))).unwrap();
    sim.set_body(floor, Body::Static);
    sim.update_collisions();
    sim.apply_gravity();
    sim.integrate(fx(1));
    sim.update_sleep_state();
    // The falling circle dropped 5 units and now overlaps the floor circle.
    assert_eq!(sim.transform(h).unwrap().position, Vec2 { x: 0, y: fx(15) });
    sim.update_collisions();
    let info = sim.collision_info(h).unwrap();
    assert!(info.is_colliding);
    assert_eq!(info.sources, vec![floor]);
}

#[test]
fn empty_simulation_ticks_are_harmless() {
    let mut sim = Simulation::new(PhysicsPlugin { gravity_effect: GravityEffect::Velocity });
    sim.set_gravity(Some(Gravity(Vec2 { x: 0, y: -fx(10) }))).unwrap();
    sim.update_collisions();
    sim.apply_gravity();
    sim.integrate(fx(1));
    sim.update_sleep_state();
    assert_eq!(sim.bodies.len(), 0);
    assert!(sim.collision_events().is_empty());
}

#[test]
fn position_saturates_at_the_world_bound() {
    let mut sim = Simulation::new(PhysicsPlugin::default());
    let mut b = RigidBodyBundle::default();
    b.kinematic.dynamic.velocity = Velocity { linear: Vec2 { x: fx(10), y: 0 }, angular: 0 };
    let h = sim.add_body(at(LIMIT, 0), b).unwrap();
    sim.integrate(fx(1));
    assert_eq!(sim.transform(h).unwrap().position, Vec2 { x: LIMIT, y: 0 });
}

#[test]
fn partner_sets_are_sorted_by_handle() {
    let mut sim = Simulation::new(PhysicsPlugin::default());
    let a = sim.add_body(at(0, 0), circle_body(fx(10))).unwrap();
    let mid = sim.add_body(at(fx(15), 0), circle_body(fx(10))).unwrap();
    let c = sim.add_body(at(fx(30), 0), circle_body(fx(10))).unwrap();
    sim.update_collisions();
    // The middle circle touches both neighbours; the outer two only it.
    assert_eq!(sim.collision_info(mid).unwrap().sources, vec![a, c]);
    assert_eq!(sim.collision_info(a).unwrap().sources, vec![mid]);
    assert_eq!(sim.collision_info(c).unwrap().sources, vec![mid]);
}
