//! Sines and cosines of angles in degrees, in fixed point.
//!
//! Within one eighth of a turn the sine is a polynomial in the angle. The
//! other function of each pair is the integer square root of what the first
//! leaves of one, so that the pair never exceeds unit length, and falls short
//! of it by less than rounding. Quarter turns are exact symmetries.

use crate::fixed::{
    is_isqrt, isqrt, isqrt_u128, lemma_isqrt_exists, lemma_isqrt_witness, lemma_mul_bounds, ONE,
};
use vstd::prelude::*;

verus! {

/// A full turn, in millionths of a degree.
pub const FULL_TURN: i64 = 360_000_000;

/// A quarter of a turn, in millionths of a degree.
pub const QUARTER_TURN: i64 = 90_000_000;

/// An eighth of a turn, in millionths of a degree.
pub const EIGHTH_TURN: i64 = 45_000_000;

/// The sine of `x` millionths of a degree, for `x` within the first eighth of
/// a turn: the odd polynomial of degree nine in the angle in radians,
/// evaluated in billionths and rounded to the nearest millionth.
pub open spec fn sin_octant_at(x: int) -> int
    recommends
        0 <= x <= EIGHTH_TURN,
{
    let r = x * 17_453_292_519_943 / 1_000_000_000_000;
    let r2 = r * r / 1_000_000_000;
    let t4 = 1_000_000_000 - r2 / 72;
    let t3 = 1_000_000_000 - r2 * t4 / 42_000_000_000;
    let t2 = 1_000_000_000 - r2 * t3 / 20_000_000_000;
    let t1 = 1_000_000_000 - r2 * t2 / 6_000_000_000;
    (r * t1 / 1_000_000_000 + 500) / 1000
}

/// The pair (sine, cosine) of `x` millionths of a degree, for `x` within the
/// first quarter of a turn.
pub open spec fn sin_cos_quadrant_at(x: int) -> (int, int)
    recommends
        0 <= x <= QUARTER_TURN,
{
    if x <= EIGHTH_TURN {
        let s = sin_octant_at(x);
        (s, isqrt(ONE * ONE - s * s))
    } else {
        let c = sin_octant_at(QUARTER_TURN - x);
        (isqrt(ONE * ONE - c * c), c)
    }
}

/// The pair (sine, cosine) of any angle, in millionths of a degree.
pub open spec fn sin_cos_at(angle: int) -> (int, int) {
    let w = angle % (FULL_TURN as int);
    let q = w / (QUARTER_TURN as int);
    let (s, c) = sin_cos_quadrant_at(w % (QUARTER_TURN as int));
    if q == 0 {
        (s, c)
    } else if q == 1 {
        (c, -s)
    } else if q == 2 {
        (-s, -c)
    } else {
        (-c, s)
    }
}

/// The pair `(s, c)` lies on the unit circle up to rounding: its squared
/// length does not exceed one and falls short of it by at most two
/// millionths.
pub open spec fn near_unit(s: int, c: int) -> bool {
    &&& -ONE <= s <= ONE
    &&& -ONE <= c <= ONE
    &&& ONE * ONE - 2 * ONE <= s * s + c * c <= ONE * ONE
}

/// The polynomial sine of the first eighth of a turn lies between zero and
/// the angle in radians.
pub proof fn lemma_sin_octant_range(x: int)
    requires
        0 <= x <= EIGHTH_TURN,
    ensures
        0 <= sin_octant_at(x) <= 785_399,
{
    let r = x * 17_453_292_519_943 / 1_000_000_000_000;
    let r2 = r * r / 1_000_000_000;
    let t4 = 1_000_000_000 - r2 / 72;
    let t3 = 1_000_000_000 - r2 * t4 / 42_000_000_000;
    let t2 = 1_000_000_000 - r2 * t3 / 20_000_000_000;
    let t1 = 1_000_000_000 - r2 * t2 / 6_000_000_000;
    assert(0 <= r <= 785_398_163);
    lemma_mul_bounds(r, r, 785_398_163, 785_398_163);
    assert(r * r >= 0) by (nonlinear_arith);
    assert(0 <= r2 <= 616_850_275);
    assert(0 <= t4 <= 1_000_000_000);
    lemma_mul_bounds(r2, t4, 616_850_275, 1_000_000_000);
    assert(r2 * t4 >= 0) by (nonlinear_arith)
        requires
            r2 >= 0,
            t4 >= 0,
    ;
    assert(0 <= t3 <= 1_000_000_000);
    lemma_mul_bounds(r2, t3, 616_850_275, 1_000_000_000);
    assert(r2 * t3 >= 0) by (nonlinear_arith)
        requires
            r2 >= 0,
            t3 >= 0,
    ;
    assert(0 <= t2 <= 1_000_000_000);
    lemma_mul_bounds(r2, t2, 616_850_275, 1_000_000_000);
    assert(r2 * t2 >= 0) by (nonlinear_arith)
        requires
            r2 >= 0,
            t2 >= 0,
    ;
    assert(0 <= t1 <= 1_000_000_000);
    lemma_mul_bounds(r, t1, 785_398_163, 1_000_000_000);
    assert(r * t1 >= 0) by (nonlinear_arith)
        requires
            r >= 0,
            t1 >= 0,
    ;
}

/// Away from zero the polynomial sine is positive: from a hundredth of a
/// degree on it is at least 157 millionths.
pub proof fn lemma_sin_octant_positive(x: int)
    requires
        10_000 <= x <= EIGHTH_TURN,
    ensures
        sin_octant_at(x) >= 157,
{
    let r = x * 17_453_292_519_943 / 1_000_000_000_000;
    let r2 = r * r / 1_000_000_000;
    let t4 = 1_000_000_000 - r2 / 72;
    let t3 = 1_000_000_000 - r2 * t4 / 42_000_000_000;
    let t2 = 1_000_000_000 - r2 * t3 / 20_000_000_000;
    let t1 = 1_000_000_000 - r2 * t2 / 6_000_000_000;
    assert(174_532 <= r <= 785_398_163);
    lemma_mul_bounds(r, r, 785_398_163, 785_398_163);
    assert(r * r >= 0) by (nonlinear_arith);
    assert(0 <= r2 <= 616_850_275);
    assert(0 <= t4 <= 1_000_000_000);
    lemma_mul_bounds(r2, t4, 616_850_275, 1_000_000_000);
    assert(r2 * t4 >= 0) by (nonlinear_arith)
        requires
            r2 >= 0,
            t4 >= 0,
    ;
    assert(0 <= t3 <= 1_000_000_000);
    lemma_mul_bounds(r2, t3, 616_850_275, 1_000_000_000);
    assert(r2 * t3 >= 0) by (nonlinear_arith)
        requires
            r2 >= 0,
            t3 >= 0,
    ;
    assert(0 <= t2 <= 1_000_000_000);
    lemma_mul_bounds(r2, t2, 616_850_275, 1_000_000_000);
    assert(897_191_620 <= t1);
    assert(r * t1 >= 174_532 * 897_191_620) by (nonlinear_arith)
        requires
            r >= 174_532,
            t1 >= 897_191_620,
    ;
}

/// Within the first quarter of a turn and a hundredth of a degree away from
/// its end, the cosine is at least 157 millionths; a hundredth of a degree
/// away from its start, so is the sine.
pub proof fn lemma_sin_cos_quadrant_positive(x: int)
    requires
        0 <= x <= QUARTER_TURN,
    ensures
        x <= QUARTER_TURN - 10_000 ==> sin_cos_quadrant_at(x).1 >= 157,
        x >= 10_000 ==> sin_cos_quadrant_at(x).0 >= 157,
{
    let p = if x <= EIGHTH_TURN {
        sin_octant_at(x)
    } else {
        sin_octant_at(QUARTER_TURN - x)
    };
    if x <= EIGHTH_TURN {
        lemma_sin_octant_range(x);
        if x >= 10_000 {
            lemma_sin_octant_positive(x);
        }
    } else {
        lemma_sin_octant_range(QUARTER_TURN - x);
        if x <= QUARTER_TURN - 10_000 {
            lemma_sin_octant_positive(QUARTER_TURN - x);
        }
    }
    lemma_root_of_rest(p);
    let root = isqrt(ONE * ONE - p * p);
    assert(root >= 157) by (nonlinear_arith)
        requires
            is_isqrt(ONE * ONE - p * p, root),
            0 <= p <= 785_399,
    {
        if root < 157 {
            assert((root + 1) * (root + 1) <= 157 * 157);
            assert(p * p <= 785_399 * 785_399);
        }
    }
}

/// Within the first quarter of a turn, sine and cosine are non-negative and
/// the pair is of unit length up to rounding.
pub proof fn lemma_sin_cos_quadrant_unit(x: int)
    requires
        0 <= x <= QUARTER_TURN,
    ensures
        near_unit(sin_cos_quadrant_at(x).0, sin_cos_quadrant_at(x).1),
        sin_cos_quadrant_at(x).0 >= 0,
        sin_cos_quadrant_at(x).1 >= 0,
{
    let p = if x <= EIGHTH_TURN {
        sin_octant_at(x)
    } else {
        sin_octant_at(QUARTER_TURN - x)
    };
    if x <= EIGHTH_TURN {
        lemma_sin_octant_range(x);
    } else {
        lemma_sin_octant_range(QUARTER_TURN - x);
    }
    lemma_root_of_rest(p);
}

/// For `p` between zero and one, the integer square root of what `p` leaves of
/// one completes `p` to a pair of unit length up to rounding.
pub proof fn lemma_root_of_rest(p: int)
    requires
        0 <= p <= ONE,
    ensures
        is_isqrt(ONE * ONE - p * p, isqrt(ONE * ONE - p * p)),
        near_unit(p, isqrt(ONE * ONE - p * p)),
        near_unit(isqrt(ONE * ONE - p * p), p),
{
    let n = ONE * ONE - p * p;
    assert(0 <= n <= ONE * ONE) by (nonlinear_arith)
        requires
            n == ONE * ONE - p * p,
            0 <= p <= ONE,
    ;
    lemma_isqrt_exists(n);
    let r = isqrt(n);
    assert(r <= ONE && r * r + p * p <= ONE * ONE && ONE * ONE - 2 * ONE <= r * r + p * p)
        by (nonlinear_arith)
        requires
            is_isqrt(n, r),
            n == ONE * ONE - p * p,
            0 <= n <= ONE * ONE,
    {
        if r > ONE {
            assert(r * r > ONE * ONE);
        }
    }
}

/// The sine and cosine of every angle form a pair of unit length up to
/// rounding.
pub proof fn lemma_sin_cos_unit(angle: int)
    ensures
        near_unit(sin_cos_at(angle).0, sin_cos_at(angle).1),
{
    let w = angle % (FULL_TURN as int);
    let x = w % (QUARTER_TURN as int);
    lemma_sin_cos_quadrant_unit(x);
    let (s, c) = sin_cos_quadrant_at(x);
    assert((-s) * (-s) == s * s) by (nonlinear_arith);
    assert((-c) * (-c) == c * c) by (nonlinear_arith);
}

/// The sine and cosine of the quarter turns are exact.
pub proof fn lemma_sin_cos_quarter_turns()
    ensures
        sin_cos_at(0) == (0int, ONE as int),
        sin_cos_at(QUARTER_TURN as int) == (ONE as int, 0int),
        sin_cos_at(2 * QUARTER_TURN) == (0int, -(ONE as int)),
        sin_cos_at(3 * QUARTER_TURN) == (-(ONE as int), 0int),
{
    assert(sin_octant_at(0) == 0);
    assert(is_isqrt(ONE * ONE - 0 * 0, ONE as int));
    lemma_isqrt_witness(ONE * ONE - 0 * 0, ONE as int);
    assert(sin_cos_quadrant_at(0) == (0int, ONE as int));
}

/// The polynomial sine of the first eighth of a turn.
fn sin_octant(x: u64) -> (s: u64)
    requires
        x <= EIGHTH_TURN,
    ensures
        s == sin_octant_at(x as int),
        s <= 785_399,
{
    proof {
        lemma_sin_octant_range(x as int);
    }
    let r: u128 = (x as u128) * 17_453_292_519_943 / 1_000_000_000_000;
    assert(r <= 785_398_163);
    proof {
        lemma_mul_bounds(r as int, r as int, 785_398_163, 785_398_163);
    }
    let r2: u128 = r * r / 1_000_000_000;
    let t4: u128 = 1_000_000_000 - r2 / 72;
    proof {
        lemma_mul_bounds(r2 as int, t4 as int, 616_850_275, 1_000_000_000);
    }
    let t3: u128 = 1_000_000_000 - r2 * t4 / 42_000_000_000;
    proof {
        lemma_mul_bounds(r2 as int, t3 as int, 616_850_275, 1_000_000_000);
    }
    let t2: u128 = 1_000_000_000 - r2 * t3 / 20_000_000_000;
    proof {
        lemma_mul_bounds(r2 as int, t2 as int, 616_850_275, 1_000_000_000);
    }
    let t1: u128 = 1_000_000_000 - r2 * t2 / 6_000_000_000;
    proof {
        lemma_mul_bounds(r as int, t1 as int, 785_398_163, 1_000_000_000);
    }
    let s: u128 = (r * t1 / 1_000_000_000 + 500) / 1000;
    s as u64
}

/// The pair (sine, cosine) within the first quarter of a turn.
fn sin_cos_quadrant(x: u64) -> (r: (i64, i64))
    requires
        x <= QUARTER_TURN,
    ensures
        r.0 == sin_cos_quadrant_at(x as int).0,
        r.1 == sin_cos_quadrant_at(x as int).1,
        near_unit(r.0 as int, r.1 as int),
        r.0 >= 0,
        r.1 >= 0,
{
    proof {
        lemma_sin_cos_quadrant_unit(x as int);
    }
    if x <= EIGHTH_TURN as u64 {
        let s = sin_octant(x);
        proof {
            lemma_mul_bounds(s as int, s as int, 785_399, 785_399);
        }
        let rest: u128 = 1_000_000_000_000 - (s as u128) * (s as u128);
        let c = isqrt_u128(rest);
        (s as i64, c as i64)
    } else {
        let c = sin_octant(QUARTER_TURN as u64 - x);
        proof {
            lemma_mul_bounds(c as int, c as int, 785_399, 785_399);
        }
        let rest: u128 = 1_000_000_000_000 - (c as u128) * (c as u128);
        let s = isqrt_u128(rest);
        (s as i64, c as i64)
    }
}

/// The angle reduced to one turn: the representative in `[0, FULL_TURN)`.
pub fn wrap_degrees(angle: i128) -> (w: i64)
    ensures
        w == (angle as int) % (FULL_TURN as int),
        0 <= w < FULL_TURN,
{
    let turn: i128 = FULL_TURN as i128;
    let q: i128 = angle / turn;
    let r: i128 = angle - q * turn;
    if r < 0 {
        (r + turn) as i64
    } else {
        r as i64
    }
}

/// The pair (sine, cosine) of an angle given in millionths of a degree.
pub fn sin_cos(angle: i64) -> (r: (i64, i64))
    ensures
        r.0 == sin_cos_at(angle as int).0,
        r.1 == sin_cos_at(angle as int).1,
        near_unit(r.0 as int, r.1 as int),
{
    proof {
        lemma_sin_cos_unit(angle as int);
    }
    let w = wrap_degrees(angle as i128);
    let q = w / QUARTER_TURN;
    let x = w - q * QUARTER_TURN;
    let (s, c) = sin_cos_quadrant(x as u64);
    if q == 0 {
        (s, c)
    } else if q == 1 {
        (c, -s)
    } else if q == 2 {
        (-s, -c)
    } else {
        (-c, s)
    }
}

} // verus!
