//! Plane vectors in milliunits, squared distances, and the rounded-down
//! Euclidean distance.

use vstd::prelude::*;
use crate::num::{abs_i, abs64, is_sqrt_floor, isqrt, sqrt_floor};

verus! {

/// A point or direction in the plane, in milliunits (1/1000 world unit).
#[derive(Clone, Copy, PartialEq, Eq, Structural, Debug)]
pub struct Vec2 {
    pub x: i64,
    pub y: i64,
}

/// Largest coordinate magnitude the distance routines accept. Any two points
/// within this range have a squared distance that fits the machine words
/// below; the arena itself is smaller by twelve orders of magnitude.
pub const COORD_LIMIT: i64 = 4_000_000_000_000_000_000;

/// Both coordinates within `b` in magnitude.
pub open spec fn pos_within(v: Vec2, b: int) -> bool {
    &&& -b <= v.x <= b
    &&& -b <= v.y <= b
}

/// Both coordinates within `COORD_LIMIT` in magnitude.
pub open spec fn in_coord_range(v: Vec2) -> bool {
    pos_within(v, COORD_LIMIT as int)
}

/// Squared Euclidean distance between two points.
pub open spec fn dist2(a: Vec2, b: Vec2) -> int {
    (a.x - b.x) * (a.x - b.x) + (a.y - b.y) * (a.y - b.y)
}

/// Euclidean distance between two points, rounded down to a whole milliunit.
pub open spec fn dist(a: Vec2, b: Vec2) -> int {
    sqrt_floor(dist2(a, b))
}

/// The distance spec function really is the rounded-down square root of the
/// squared distance (its defining property, usable without unfolding).
pub proof fn lemma_dist_is_sqrt(a: Vec2, b: Vec2)
    ensures
        is_sqrt_floor(dist2(a, b), dist(a, b)),
        0 <= dist(a, b),
{
    lemma_square_nonneg(a.x - b.x);
    lemma_square_nonneg(a.y - b.y);
    assert(exists|r: int| is_sqrt_floor(dist2(a, b), r)) by {
        lemma_sqrt_exists(dist2(a, b));
    }
}

proof fn lemma_square_nonneg(x: int)
    ensures
        x * x >= 0,
        x * x == abs_i(x) * abs_i(x),
{
    if x < 0 {
        assert((-x) * (-x) == x * x) by (nonlinear_arith);
        assert((-x) * (-x) >= 0) by (nonlinear_arith);
    } else {
        assert(x * x >= 0) by (nonlinear_arith);
    }
}

/// Every nonnegative integer has a square root rounded down.
proof fn lemma_sqrt_exists(n: int)
    requires
        0 <= n,
    ensures
        exists|r: int| is_sqrt_floor(n, r),
    decreases n,
{
    if n == 0 {
        assert(is_sqrt_floor(0, 0));
    } else {
        lemma_sqrt_exists(n - 1);
        let r = choose|r: int| #[trigger] is_sqrt_floor(n - 1, r);
        if n < (r + 1) * (r + 1) {
            assert(is_sqrt_floor(n, r));
        } else {
            assert(n == (r + 1) * (r + 1));
            assert((r + 1) * (r + 1) < (r + 2) * (r + 2)) by (nonlinear_arith)
                requires
                    r >= 0,
            ;
            assert(is_sqrt_floor(n, r + 1));
        }
    }
}

/// Distance does not depend on the order of its endpoints.
pub proof fn lemma_dist_symm(a: Vec2, b: Vec2)
    ensures
        dist2(a, b) == dist2(b, a),
        dist(a, b) == dist(b, a),
{
    assert((a.x - b.x) * (a.x - b.x) == (b.x - a.x) * (b.x - a.x)) by (nonlinear_arith);
    assert((a.y - b.y) * (a.y - b.y) == (b.y - a.y) * (b.y - a.y)) by (nonlinear_arith);
}

/// Euclidean distance between two points, rounded down.
pub fn distance(a: Vec2, b: Vec2) -> (r: u64)
    requires
        in_coord_range(a),
        in_coord_range(b),
    ensures
        r == dist(a, b),
        is_sqrt_floor(dist2(a, b), r as int),
{
    let dx: i64 = a.x - b.x;
    let dy: i64 = a.y - b.y;
    let ax: u64 = abs64(dx);
    let ay: u64 = abs64(dy);
    proof {
        lemma_square_nonneg(dx as int);
        lemma_square_nonneg(dy as int);
        assert(ax * ax <= 8_000_000_000_000_000_000 * 8_000_000_000_000_000_000)
            by (nonlinear_arith)
            requires
                0 <= ax <= 8_000_000_000_000_000_000,
        ;
        assert(ay * ay <= 8_000_000_000_000_000_000 * 8_000_000_000_000_000_000)
            by (nonlinear_arith)
            requires
                0 <= ay <= 8_000_000_000_000_000_000,
        ;
    }
    let d2: u128 = (ax as u128) * (ax as u128) + (ay as u128) * (ay as u128);
    let r = isqrt(d2);
    proof {
        lemma_dist_is_sqrt(a, b);
        crate::num::lemma_sqrt_floor_unique(dist2(a, b), r as int, dist(a, b));
    }
    r
}

/// Whether `point` lies strictly within `radius` of `center` (points exactly
/// at the radius are outside).
pub fn point_in_radius(point: Vec2, center: Vec2, radius: u64) -> (r: bool)
    requires
        in_coord_range(point),
        in_coord_range(center),
    ensures
        r == (dist(point, center) < radius),
{
    distance(point, center) < radius
}

} // verus!
