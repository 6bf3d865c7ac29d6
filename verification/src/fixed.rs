//! Decimal fixed-point arithmetic.
//!
//! Every quantity of the camera (lengths, speeds, angles in degrees, seconds)
//! is an integer count of millionths: the integer `v` stands for the real
//! number `v / ONE`. Products and quotients round toward zero, so that
//! negating an operand negates the result and motion has no directional bias.

use vstd::prelude::*;

verus! {

/// The fixed-point representation of the number one.
pub const ONE: i64 = 1_000_000;

/// The square of `ONE`: the scale of a product of two fixed-point numbers.
pub const ONE_SQUARED: i128 = 1_000_000_000_000;

/// The quotient `n / d` rounded toward zero, for a positive divisor.
pub open spec fn trunc_div(n: int, d: int) -> int
    recommends
        d > 0,
{
    if n >= 0 {
        n / d
    } else {
        -((-n) / d)
    }
}

/// The fixed-point product of two fixed-point numbers.
pub open spec fn mul_fx(a: int, b: int) -> int {
    trunc_div(a * b, ONE as int)
}

/// The absolute value of an integer.
pub open spec fn magnitude(x: int) -> int {
    if x >= 0 {
        x
    } else {
        -x
    }
}

/// `x` limited to the interval `[lo, hi]`.
pub open spec fn clamp(x: int, lo: int, hi: int) -> int {
    if x < lo {
        lo
    } else if x > hi {
        hi
    } else {
        x
    }
}

/// `x` moved by `amp` in the direction of `to`, stopping at `to`.
pub open spec fn step_toward(x: int, to: int, amp: int) -> int
    recommends
        amp >= 0,
{
    if x < to {
        if x + amp > to {
            to
        } else {
            x + amp
        }
    } else {
        if x - amp < to {
            to
        } else {
            x - amp
        }
    }
}

/// `r` is the integer square root of `n`: the largest integer whose square
/// does not exceed `n`.
pub open spec fn is_isqrt(n: int, r: int) -> bool {
    r >= 0 && r * r <= n && n < (r + 1) * (r + 1)
}

/// The integer square root of a non-negative integer.
pub open spec fn isqrt(n: int) -> int
    recommends
        n >= 0,
{
    choose|r: int| is_isqrt(n, r)
}

/// A product is bounded by the product of the bounds of its factors.
pub proof fn lemma_mul_bounds(a: int, b: int, abound: int, bbound: int)
    by (nonlinear_arith)
    requires
        -abound <= a <= abound,
        -bbound <= b <= bbound,
    ensures
        -(abound * bbound) <= a * b <= abound * bbound,
{
}

/// Rounding toward zero loses less than one divisor and never changes sign.
pub proof fn lemma_trunc_div_error(n: int, d: int)
    by (nonlinear_arith)
    requires
        d > 0,
    ensures
        n >= 0 ==> 0 <= trunc_div(n, d) * d <= n < trunc_div(n, d) * d + d,
        n <= 0 ==> 0 >= trunc_div(n, d) * d >= n > trunc_div(n, d) * d - d,
        n >= 0 ==> trunc_div(n, d) >= 0,
        n <= 0 ==> trunc_div(n, d) <= 0,
        magnitude(trunc_div(n, d)) <= magnitude(n),
{
    if n >= 0 {
        assert(n == d * (n / d) + n % d && 0 <= n % d < d) by {
            vstd::arithmetic::div_mod::lemma_fundamental_div_mod(n, d);
            vstd::arithmetic::div_mod::lemma_mod_bound(n, d);
        }
    } else {
        let m = -n;
        assert(m == d * (m / d) + m % d && 0 <= m % d < d) by {
            vstd::arithmetic::div_mod::lemma_fundamental_div_mod(m, d);
            vstd::arithmetic::div_mod::lemma_mod_bound(m, d);
        }
    }
}

/// Rounding toward zero commutes with negation.
pub proof fn lemma_trunc_div_neg(n: int, d: int)
    requires
        d > 0,
    ensures
        trunc_div(-n, d) == -trunc_div(n, d),
{
    if n == 0 {
        assert(0int / d == 0) by (nonlinear_arith)
            requires
                d > 0,
        ;
    }
}

/// A multiple of the divisor is divided without rounding.
pub proof fn lemma_trunc_div_exact(q: int, d: int)
    requires
        d > 0,
    ensures
        trunc_div(q * d, d) == q,
{
    lemma_trunc_div_error(q * d, d);
    let r = trunc_div(q * d, d);
    assert(r == q) by (nonlinear_arith)
        requires
            d > 0,
            q * d >= 0 ==> r * d <= q * d < r * d + d,
            q * d <= 0 ==> r * d >= q * d > r * d - d,
    ;
}

/// A quotient is bounded by `bound` when the dividend is bounded by `bound * d`.
pub proof fn lemma_trunc_div_bound(n: int, d: int, bound: int)
    by (nonlinear_arith)
    requires
        d > 0,
        bound >= 0,
        -(bound * d) <= n <= bound * d,
    ensures
        -bound <= trunc_div(n, d) <= bound,
{
    lemma_trunc_div_error(n, d);
}

/// Every non-negative integer has an integer square root.
pub proof fn lemma_isqrt_exists(n: int)
    requires
        n >= 0,
    ensures
        is_isqrt(n, isqrt(n)),
    decreases n,
{
    if n == 0 {
        assert(is_isqrt(0, 0));
    } else {
        lemma_isqrt_exists(n - 1);
        let r = isqrt(n - 1);
        if (r + 1) * (r + 1) <= n {
            assert(is_isqrt(n, r + 1)) by (nonlinear_arith)
                requires
                    is_isqrt(n - 1, r),
                    (r + 1) * (r + 1) <= n,
            ;
        } else {
            assert(is_isqrt(n, r)) by (nonlinear_arith)
                requires
                    is_isqrt(n - 1, r),
                    !((r + 1) * (r + 1) <= n),
            ;
        }
    }
}

/// The integer square root is unique.
pub proof fn lemma_isqrt_unique(n: int, r1: int, r2: int)
    by (nonlinear_arith)
    requires
        is_isqrt(n, r1),
        is_isqrt(n, r2),
    ensures
        r1 == r2,
{
    if r1 < r2 {
        assert((r1 + 1) * (r1 + 1) <= r2 * r2);
    } else if r2 < r1 {
        assert((r2 + 1) * (r2 + 1) <= r1 * r1);
    }
}

/// Any witness of `is_isqrt` is the integer square root.
pub proof fn lemma_isqrt_witness(n: int, r: int)
    requires
        is_isqrt(n, r),
    ensures
        isqrt(n) == r,
{
    lemma_isqrt_unique(n, r, isqrt(n));
}

/// Computes the integer square root by bisection.
pub fn isqrt_u128(n: u128) -> (r: u128)
    ensures
        r == isqrt(n as int),
        is_isqrt(n as int, r as int),
        r < 0x1_0000_0000_0000_0000,
{
    let mut lo: u128 = 0;
    let mut hi: u128 = 0x1_0000_0000_0000_0000;
    assert(0x1_0000_0000_0000_0000int * 0x1_0000_0000_0000_0000int > u128::MAX) by (nonlinear_arith);
    while hi - lo > 1
        invariant
            lo < hi <= 0x1_0000_0000_0000_0000,
            lo * lo <= n < hi * hi,
        decreases hi - lo,
    {
        let mid: u128 = lo + (hi - lo) / 2;
        assert(mid * mid < 0x1_0000_0000_0000_0000int * 0x1_0000_0000_0000_0000int)
            by (nonlinear_arith)
            requires
                0 <= mid < 0x1_0000_0000_0000_0000int,
        ;
        assert(0x1_0000_0000_0000_0000int * 0x1_0000_0000_0000_0000int == u128::MAX + 1)
            by (nonlinear_arith);
        if mid * mid <= n {
            lo = mid;
        } else {
            hi = mid;
        }
    }
    proof {
        assert(hi == lo + 1);
        lemma_isqrt_witness(n as int, lo as int);
    }
    lo
}

/// Moves `*x` toward `to` by `amp`, without passing it.
pub fn step(x: &mut i64, to: i64, amp: u64)
    ensures
        *final(x) == step_toward(*old(x) as int, to as int, amp as int),
{
    let cur: i128 = *x as i128;
    let target: i128 = to as i128;
    let amount: i128 = amp as i128;
    if cur < target {
        let moved: i128 = cur + amount;
        if moved > target {
            *x = to;
        } else {
            *x = moved as i64;
        }
    } else {
        let moved: i128 = cur - amount;
        if moved < target {
            *x = to;
        } else {
            *x = moved as i64;
        }
    }
}

/// Limits `x` to the interval `[lo, hi]`.
pub fn clamp_i128(x: i128, lo: i64, hi: i64) -> (r: i64)
    ensures
        r == clamp(x as int, lo as int, hi as int),
{
    if x < lo as i128 {
        lo
    } else if x > hi as i128 {
        hi
    } else {
        x as i64
    }
}

} // verus!
