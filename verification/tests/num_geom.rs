//! Arithmetic and geometry: truncating division, clamping, integer square
//! roots, and distances.

use magnet_arena::geom::{distance, point_in_radius, Vec2};
use magnet_arena::num::{abs64, clamp64, div_trunc_i64, isqrt};

#[test]
fn isqrt_exact_squares() {
    assert_eq!(isqrt(0), 0);
    assert_eq!(isqrt(1), 1);
    assert_eq!(isqrt(25_000_000 * 25_000_000), 25_000_000);
    assert_eq!(isqrt(40_000_000_000), 200_000);
}

#[test]
fn isqrt_rounds_down() {
    assert_eq!(isqrt(2), 1);
    assert_eq!(isqrt(3), 1);
    assert_eq!(isqrt(4), 2);
    assert_eq!(isqrt(24), 4);
    assert_eq!(isqrt(26), 5);
    assert_eq!(isqrt(u128::MAX), u64::MAX);
}

#[test]
fn div_trunc_rounds_toward_zero() {
    assert_eq!(div_trunc_i64(7, 2), 3);
    assert_eq!(div_trunc_i64(-7, 2), -3);
    assert_eq!(div_trunc_i64(-59, 60), 0);
    assert_eq!(div_trunc_i64(59, 60), 0);
    assert_eq!(div_trunc_i64(-120, 60), -2);
}

#[test]
fn abs64_both_signs() {
    assert_eq!(abs64(5), 5);
    assert_eq!(abs64(-5), 5);
    assert_eq!(abs64(0), 0);
    assert_eq!(abs64(i64::MIN + 1), 9_223_372_036_854_775_807);
}

#[test]
fn clamp64_forces_into_interval() {
    assert_eq!(clamp64(5, -10, 10), 5);
    assert_eq!(clamp64(-25, -10, 10), -10);
    assert_eq!(clamp64(25, -10, 10), 10);
    assert_eq!(clamp64(10, -10, 10), 10);
}

#[test]
fn distance_is_rounded_down_euclidean() {
    let o = Vec2 { x: 0, y: 0 };
    assert_eq!(distance(o, Vec2 { x: 3_000, y: 4_000 }), 5_000);
    assert_eq!(distance(Vec2 { x: -3_000, y: 0 }, Vec2 { x: 0, y: -4_000 }), 5_000);
    // sqrt(2) * 1000 rounded down
    assert_eq!(distance(o, Vec2 { x: 1_000, y: 1_000 }), 1_414);
    assert_eq!(distance(o, o), 0);
}

#[test]
fn point_in_radius_is_strict() {
    let o = Vec2 { x: 0, y: 0 };
    let p = Vec2 { x: 200_000, y: 0 };
    assert!(!point_in_radius(p, o, 200_000));
    assert!(point_in_radius(p, o, 200_001));
    assert!(point_in_radius(Vec2 { x: 199_999, y: 0 }, o, 200_000));
}
