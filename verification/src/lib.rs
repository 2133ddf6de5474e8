//! A verified 2D rigid-body physics core.
//!
//! The core detects overlap between convex shapes attached to moving bodies,
//! tracks persistent per-body collision state across simulation steps, and
//! integrates forces into motion each tick. Every quantity is Q48.16 fixed
//! point (`fx::FP_ONE` raw units stand for 1.0), which keeps the geometry
//! and the integrator exact enough to verify; trigonometry for rotated
//! polygons goes through the CORDIC algorithm of an outside crate.
//!
//! A host drives one tick through `sim::Simulation` by calling, in order:
//! `update_collisions`, `apply_gravity`, `integrate`, `update_sleep_state`.

pub mod collision;
pub mod fx;
pub mod kinematic;
pub mod overlap;
pub mod rigid_body;
pub mod shape;
pub mod sim;
pub mod transform;
pub mod trig;
pub mod vec2;
