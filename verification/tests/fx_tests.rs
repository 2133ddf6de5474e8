//! Fixed-point arithmetic tests.

use rigid2d::fx::{FP_ONE, LIMIT, add_scaled, fx_div, isqrt, sat_add, saturate, sub_scaled3};

#[test]
fn isqrt_exact_values() {
    assert_eq!(isqrt(0), 0);
    assert_eq!(isqrt(1), 1);
    assert_eq!(isqrt(3), 1);
    assert_eq!(isqrt(4), 2);
    assert_eq!(isqrt(65536 * 65536), 65536);
    assert_eq!(isqrt(u64::MAX), 4294967295);
}

#[test]
fn saturation_clamps_to_the_stored_range() {
    assert_eq!(saturate(i128::from(LIMIT) + 1), LIMIT);
    assert_eq!(saturate(-(i128::from(LIMIT)) - 1), -LIMIT);
    assert_eq!(saturate(42), 42);
    assert_eq!(sat_add(LIMIT, LIMIT), LIMIT);
    assert_eq!(sat_add(-LIMIT, -1), -LIMIT);
}

#[test]
fn scaled_arithmetic_truncates_toward_zero() {
    // 3 + (5 * 0.5) = 5.5 in units.
    assert_eq!(add_scaled(3 * FP_ONE, 5 * FP_ONE, FP_ONE / 2), 5 * FP_ONE + FP_ONE / 2);
    // Negative products truncate toward zero.
    assert_eq!(add_scaled(0, -3, 1), 0);
    // 10.0 / 4.0 = 2.5.
    assert_eq!(fx_div(10 * FP_ONE, 4 * FP_ONE), 2 * FP_ONE + FP_ONE / 2);
    // 1.0 - (1.0 * 1.0 * 1.0) = 0.
    assert_eq!(sub_scaled3(FP_ONE, FP_ONE, FP_ONE, FP_ONE), 0);
}
