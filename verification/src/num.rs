//! Integer arithmetic the simulation is built on: truncating division,
//! absolute value, and the floor of the square root.

use vstd::prelude::*;
use vstd::arithmetic::mul::lemma_mul_inequality;

verus! {

/// Absolute value of a mathematical integer.
pub open spec fn abs_i(x: int) -> int {
    if x >= 0 {
        x
    } else {
        -x
    }
}

/// Division with the quotient rounded toward zero, for a positive divisor.
/// This is the rounding used by every fixed-point quotient in the simulation.
pub open spec fn div_trunc(n: int, d: int) -> int
    recommends
        d > 0,
{
    if n >= 0 {
        n / d
    } else {
        -((-n) / d)
    }
}

/// Truncating division divides the magnitude: `|n / d| == |n| / d`.
pub proof fn lemma_div_trunc_abs(n: int, d: int)
    requires
        d > 0,
    ensures
        abs_i(div_trunc(n, d)) == abs_i(n) / d,
        abs_i(div_trunc(n, d)) <= abs_i(n),
{
    if n >= 0 {
        vstd::arithmetic::div_mod::lemma_div_pos_is_pos(n, d);
    } else {
        vstd::arithmetic::div_mod::lemma_div_pos_is_pos(-n, d);
    }
    vstd::arithmetic::div_mod::lemma_div_nonincreasing(abs_i(n), d);
}

/// `r` is the square root of `n`, rounded down.
pub open spec fn is_sqrt_floor(n: int, r: int) -> bool {
    &&& 0 <= r
    &&& r * r <= n
    &&& n < (r + 1) * (r + 1)
}

/// The square root of `n`, rounded down (meaningful for `n >= 0`).
pub open spec fn sqrt_floor(n: int) -> int {
    choose|r: int| is_sqrt_floor(n, r)
}

/// A number has at most one square root rounded down.
pub proof fn lemma_sqrt_floor_unique(n: int, r1: int, r2: int)
    requires
        is_sqrt_floor(n, r1),
        is_sqrt_floor(n, r2),
    ensures
        r1 == r2,
{
    if r1 < r2 {
        lemma_mul_inequality(r1 + 1, r2, r2);
        lemma_mul_inequality(r1 + 1, r2, r1 + 1);
        assert(false);
    }
    if r2 < r1 {
        lemma_mul_inequality(r2 + 1, r1, r1);
        lemma_mul_inequality(r2 + 1, r1, r2 + 1);
        assert(false);
    }
}

/// `v` forced into the interval `[lo, hi]` (meaningful for `lo <= hi`).
pub open spec fn clamp_i(v: int, lo: int, hi: int) -> int
    recommends
        lo <= hi,
{
    if v < lo {
        lo
    } else if v > hi {
        hi
    } else {
        v
    }
}

/// Force `v` into the interval `[lo, hi]`.
pub fn clamp64(v: i64, lo: i64, hi: i64) -> (r: i64)
    requires
        lo <= hi,
    ensures
        r == clamp_i(v as int, lo as int, hi as int),
        lo <= r <= hi,
{
    if v < lo {
        lo
    } else if v > hi {
        hi
    } else {
        v
    }
}

/// Absolute value of an `i64` (`i64::MIN` has no `i64` absolute value).
pub fn abs64(x: i64) -> (r: u64)
    requires
        x > i64::MIN,
    ensures
        r == abs_i(x as int),
{
    if x >= 0 {
        x as u64
    } else {
        (-x) as u64
    }
}

/// Truncating division of a signed value by a positive divisor.
pub fn div_trunc_i64(n: i64, d: u64) -> (r: i64)
    requires
        d > 0,
        n > i64::MIN,
    ensures
        r == div_trunc(n as int, d as int),
        abs_i(r as int) == abs_i(n as int) / (d as int),
        abs_i(r as int) <= abs_i(n as int),
{
    proof {
        vstd::arithmetic::div_mod::lemma_div_nonincreasing(abs_i(n as int), d as int);
        vstd::arithmetic::div_mod::lemma_div_pos_is_pos(abs_i(n as int), d as int);
    }
    if n >= 0 {
        ((n as u64) / d) as i64
    } else {
        let q: u64 = ((-n) as u64) / d;
        -(q as i64)
    }
}

/// The square root of `n`, rounded down, by binary search.
pub fn isqrt(n: u128) -> (r: u64)
    ensures
        is_sqrt_floor(n as int, r as int),
        r == sqrt_floor(n as int),
{
    let mut lo: u128 = 0;
    let mut hi: u128 = 0x1_0000_0000_0000_0000;
    while lo + 1 < hi
        invariant
            lo < hi <= 0x1_0000_0000_0000_0000,
            lo * lo <= n < hi * hi,
        decreases hi - lo,
    {
        let mid: u128 = lo + (hi - lo) / 2;
        proof {
            lemma_mul_inequality(mid as int, 0xffff_ffff_ffff_ffff, mid as int);
            lemma_mul_inequality(
                mid as int,
                0xffff_ffff_ffff_ffff,
                0xffff_ffff_ffff_ffff,
            );
        }
        if mid * mid <= n {
            lo = mid;
        } else {
            hi = mid;
        }
    }
    proof {
        assert(is_sqrt_floor(n as int, lo as int));
        assert(is_sqrt_floor(n as int, sqrt_floor(n as int))) by {
            assert(exists|r: int| is_sqrt_floor(n as int, r));
        }
        lemma_sqrt_floor_unique(n as int, lo as int, sqrt_floor(n as int));
    }
    lo as u64
}

} // verus!
