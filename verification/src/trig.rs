//! Fixed-point sine and cosine, through the `cordic` crate.
//!
//! The CORDIC results are named, not written out: `cos_units(a)` stands for
//! whatever `cordic::cos` returns on the Q48.16 angle bits `a`, a value that
//! depends on those bits alone. Verified code clamps the results into
//! `[-FP_ONE, FP_ONE]`, and a zero angle short-circuits to the exact
//! identity rotation.

use vstd::prelude::*;
use crate::fx::{FP_ONE, TAU};

verus! {

/// The Q48.16 bits that `cordic::cos` returns on the Q48.16 angle bits `a`.
pub uninterp spec fn cos_units(a: int) -> int;

/// The Q48.16 bits that `cordic::sin` returns on the Q48.16 angle bits `a`.
pub uninterp spec fn sin_units(a: int) -> int;

/// Relies on cordic::cos over fixed::types::I48F16: the result depends on
/// the angle bits alone; an angle within one turn keeps its range reduction
/// short, and the integrator wraps rotations into `[0, TAU)`.
#[verifier::external_body]
fn cos_raw(angle: i64) -> (r: i64)
    requires
        -TAU <= angle <= TAU,
    ensures
        r as int == cos_units(angle as int),
{
    cordic::cos(fixed::types::I48F16::from_bits(angle)).to_bits()
}

/// Relies on cordic::sin over fixed::types::I48F16: the result depends on
/// the angle bits alone; an angle within one turn keeps its range reduction
/// short, and the integrator wraps rotations into `[0, TAU)`.
#[verifier::external_body]
fn sin_raw(angle: i64) -> (r: i64)
    requires
        -TAU <= angle <= TAU,
    ensures
        r as int == sin_units(angle as int),
{
    cordic::sin(fixed::types::I48F16::from_bits(angle)).to_bits()
}

/// A value forced into the unit range `[-FP_ONE, FP_ONE]`.
pub open spec fn clamp_unit(x: int) -> int {
    if x < -FP_ONE {
        -FP_ONE as int
    } else if x > FP_ONE {
        FP_ONE as int
    } else {
        x
    }
}

/// Cosine of a rotation angle as the library evaluates it: exact at zero,
/// otherwise the clamped CORDIC value.
pub open spec fn rot_cos(a: int) -> int {
    if a == 0 {
        FP_ONE as int
    } else {
        clamp_unit(cos_units(a))
    }
}

/// Sine of a rotation angle as the library evaluates it: exact at zero,
/// otherwise the clamped CORDIC value.
pub open spec fn rot_sin(a: int) -> int {
    if a == 0 {
        0
    } else {
        clamp_unit(sin_units(a))
    }
}

fn clamp_unit_exec(x: i64) -> (r: i64)
    ensures
        r as int == clamp_unit(x as int),
{
    if x < -FP_ONE {
        -FP_ONE
    } else if x > FP_ONE {
        FP_ONE
    } else {
        x
    }
}

/// The (cosine, sine) pair for a rotation angle.
pub fn rotation_of(angle: i64) -> (r: (i64, i64))
    requires
        -TAU <= angle <= TAU,
    ensures
        r.0 as int == rot_cos(angle as int),
        r.1 as int == rot_sin(angle as int),
        -FP_ONE <= r.0 <= FP_ONE,
        -FP_ONE <= r.1 <= FP_ONE,
{
    if angle == 0 {
        (FP_ONE, 0)
    } else {
        (clamp_unit_exec(cos_raw(angle)), clamp_unit_exec(sin_raw(angle)))
    }
}

} // verus!
