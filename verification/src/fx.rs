//! Fixed-point scalar arithmetic.
//!
//! Every quantity in the library (positions, velocities, forces, masses,
//! radii, angles in radians, time deltas) is a signed 64-bit integer holding
//! a Q48.16 fixed-point value: `FP_ONE` raw units stand for 1.0.
//!
//! Stored quantities are kept within `[-LIMIT, LIMIT]`; arithmetic that could
//! leave that range saturates, and every helper states its exact result over
//! `int`, with truncated division (`tdiv`) matching the machine's `/`.

use vstd::prelude::*;

verus! {

/// Number of raw units in 1.0.
pub const FP_ONE: i64 = 65536;

/// `FP_ONE * FP_ONE`, the divisor after a triple fixed-point product.
pub const FP_ONE_SQ: i64 = 4294967296;

/// Bound on every stored fixed-point quantity: 1024.0 in raw units.
pub const LIMIT: i64 = 67108864;

/// One full turn (two pi radians) in raw units, rounded to nearest.
pub const TAU: i64 = 411775;

/// Truncated division (rounding toward zero), for a positive divisor.
pub open spec fn tdiv(a: int, b: int) -> int {
    if a >= 0 {
        a / b
    } else {
        -((-a) / b)
    }
}

/// Saturation of a mathematical result into the stored range.
pub open spec fn sat(x: int) -> int {
    if x < -LIMIT {
        -LIMIT as int
    } else if x > LIMIT {
        LIMIT as int
    } else {
        x
    }
}

/// Whether `x` is within the stored range.
pub open spec fn in_range(x: int) -> bool {
    -LIMIT <= x <= LIMIT
}

/// Exact product of two 64-bit values, in a wide intermediate.
pub fn mul64(a: i64, b: i64) -> (r: i128)
    ensures
        r as int == a as int * b as int,
{
    proof {
        assert(a as int * b as int <= 0x8000_0000_0000_0000 * 0x8000_0000_0000_0000
            && -(0x8000_0000_0000_0000 * 0x8000_0000_0000_0000) <= a as int * b as int)
            by (nonlinear_arith)
            requires
                -0x8000_0000_0000_0000 <= a as int <= 0x8000_0000_0000_0000,
                -0x8000_0000_0000_0000 <= b as int <= 0x8000_0000_0000_0000;
    }
    (a as i128) * (b as i128)
}

/// Exact product of two moderately sized wide values.
pub fn mul128(a: i128, b: i128) -> (r: i128)
    requires
        -0x1000_0000_0000_0000 <= a <= 0x1000_0000_0000_0000,
        -0x1000_0000_0000_0000 <= b <= 0x1000_0000_0000_0000,
    ensures
        r as int == a as int * b as int,
{
    proof {
        assert(a as int * b as int <= 0x1000_0000_0000_0000 * 0x1000_0000_0000_0000
            && -(0x1000_0000_0000_0000 * 0x1000_0000_0000_0000) <= a as int * b as int)
            by (nonlinear_arith)
            requires
                -0x1000_0000_0000_0000 <= a as int <= 0x1000_0000_0000_0000,
                -0x1000_0000_0000_0000 <= b as int <= 0x1000_0000_0000_0000;
    }
    a * b
}

/// Saturate a wide intermediate into the stored range.
pub fn saturate(x: i128) -> (r: i64)
    ensures
        r as int == sat(x as int),
{
    if x < -(LIMIT as i128) {
        -LIMIT
    } else if x > LIMIT as i128 {
        LIMIT
    } else {
        x as i64
    }
}

/// Saturating addition of two stored quantities.
pub fn sat_add(a: i64, b: i64) -> (r: i64)
    requires
        in_range(a as int),
        in_range(b as int),
    ensures
        r as int == sat(a + b),
{
    saturate(a as i128 + b as i128)
}

/// `v + (a * dt) / FP_ONE`, saturated: one semi-implicit Euler step of one
/// scalar component.
pub fn add_scaled(v: i64, a: i64, dt: i64) -> (r: i64)
    requires
        in_range(v as int),
        in_range(a as int),
        in_range(dt as int),
    ensures
        r as int == sat(v + tdiv(a * dt, FP_ONE as int)),
{
    proof {
        assert(a * dt <= LIMIT * LIMIT && -(LIMIT * LIMIT) <= a * dt) by (nonlinear_arith)
            requires -LIMIT <= a <= LIMIT && -LIMIT <= dt <= LIMIT;
    }
    let prod: i128 = (a as i128) * (dt as i128);
    let q: i128 = prod / (FP_ONE as i128);
    saturate(v as i128 + q)
}

/// `tdiv(a * FP_ONE, b)`, saturated: fixed-point division by a positive
/// divisor (force over mass).
pub fn fx_div(a: i64, b: i64) -> (r: i64)
    requires
        b > 0,
        in_range(a as int),
        in_range(b as int),
    ensures
        r as int == sat(tdiv(a * FP_ONE, b as int)),
{
    proof {
        assert(a * FP_ONE <= LIMIT * FP_ONE && -(LIMIT * FP_ONE) <= a * FP_ONE)
            by (nonlinear_arith)
            requires -LIMIT <= a <= LIMIT;
    }
    let prod: i128 = (a as i128) * (FP_ONE as i128);
    saturate(prod / (b as i128))
}

/// `f - tdiv(v * c * m, FP_ONE_SQ)`, saturated: add a quadratic drag
/// contribution to a force component.
pub fn sub_scaled3(f: i64, v: i64, c: i64, m: i64) -> (r: i64)
    requires
        in_range(f as int),
        in_range(v as int),
        in_range(c as int),
        0 <= m <= LIMIT * LIMIT,
    ensures
        r as int == sat(f - tdiv(v * c * m, FP_ONE_SQ as int)),
{
    proof {
        assert(-(LIMIT * LIMIT) <= v * c <= LIMIT * LIMIT) by (nonlinear_arith)
            requires -LIMIT <= v <= LIMIT && -LIMIT <= c <= LIMIT;
        assert((v * c) * m <= (LIMIT * LIMIT) * (LIMIT * LIMIT)
            && -((LIMIT * LIMIT) * (LIMIT * LIMIT)) <= (v * c) * m) by (nonlinear_arith)
            requires -(LIMIT * LIMIT) <= v * c <= LIMIT * LIMIT && 0 <= m <= LIMIT * LIMIT;
        assert((v * c) * m == v * c * m) by (nonlinear_arith);
    }
    let prod: i128 = ((v as i128) * (c as i128)) * (m as i128);
    let q: i128 = prod / (FP_ONE_SQ as i128);
    assert(q == tdiv(v * c * m, FP_ONE_SQ as int));
    saturate(f as i128 - q)
}

/// Truncated division by a positive divisor keeps a symmetric bound.
pub proof fn lemma_tdiv_bound(a: int, b: int, d: int)
    requires
        d > 0,
        b >= 0,
        -(b * d) <= a <= b * d,
    ensures
        -b <= tdiv(a, d) <= b,
{
    if a >= 0 {
        assert(a / d <= b) by (nonlinear_arith)
            requires d > 0 && 0 <= a <= b * d;
        assert(a / d >= 0) by (nonlinear_arith)
            requires d > 0 && a >= 0;
    } else {
        assert((-a) / d <= b) by (nonlinear_arith)
            requires d > 0 && 0 <= -a <= b * d;
        assert((-a) / d >= 0) by (nonlinear_arith)
            requires d > 0 && -a >= 0;
    }
}

/// Whether `r` is the floor of the square root of `n`.
pub open spec fn is_sqrt_floor(n: int, r: int) -> bool {
    0 <= r && r * r <= n && n < (r + 1) * (r + 1)
}

/// The floor of the square root of `n` (0 for negative `n`).
pub closed spec fn sqrt_floor(n: int) -> int
    decreases n,
{
    if n <= 0 {
        0
    } else if (sqrt_floor(n - 1) + 1) * (sqrt_floor(n - 1) + 1) <= n {
        sqrt_floor(n - 1) + 1
    } else {
        sqrt_floor(n - 1)
    }
}

pub proof fn lemma_sqrt_floor_is_sqrt(n: int)
    requires
        n >= 0,
    ensures
        is_sqrt_floor(n, sqrt_floor(n)),
    decreases n,
{
    if n == 0 {
        assert(sqrt_floor(0) == 0);
    } else {
        lemma_sqrt_floor_is_sqrt(n - 1);
        let r = sqrt_floor(n - 1);
        if (r + 1) * (r + 1) <= n {
            assert((r + 1 + 1) * (r + 1 + 1) > n) by (nonlinear_arith)
                requires r >= 0 && n - 1 < (r + 1) * (r + 1);
        }
    }
}

pub proof fn lemma_sqrt_floor_unique(n: int, r: int)
    requires
        is_sqrt_floor(n, r),
    ensures
        r == sqrt_floor(n),
{
    lemma_sqrt_floor_is_sqrt(n);
    let s = sqrt_floor(n);
    assert(r == s) by (nonlinear_arith)
        requires
            0 <= r && r * r <= n && n < (r + 1) * (r + 1),
            0 <= s && s * s <= n && n < (s + 1) * (s + 1);
}

/// Floor of the square root, by binary search.
pub fn isqrt(n: u64) -> (r: u64)
    ensures
        r as int == sqrt_floor(n as int),
        is_sqrt_floor(n as int, r as int),
{
    let mut lo: u64 = 0;
    let mut hi: u64 = 4294967296;
    proof {
        assert((4294967296 as int) * (4294967296 as int) > n as int) by (nonlinear_arith)
            requires n <= 0xffff_ffff_ffff_ffff;
    }
    while lo + 1 < hi
        invariant
            lo < hi <= 4294967296,
            lo * lo <= n,
            (n as int) < (hi as int) * (hi as int),
        decreases hi - lo,
    {
        let mid: u64 = lo + (hi - lo) / 2;
        proof {
            assert((mid as int) * (mid as int) < 0x1_0000_0000_0000_0000) by (nonlinear_arith)
                requires mid < 4294967296;
        }
        if mid * mid <= n {
            lo = mid;
        } else {
            hi = mid;
        }
    }
    proof {
        lemma_sqrt_floor_unique(n as int, lo as int);
    }
    lo
}

} // verus!
