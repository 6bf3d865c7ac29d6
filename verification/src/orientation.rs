//! The look direction: yaw and pitch, and the frame of three axes that they
//! define.
//!
//! The yaw turns about the world's vertical and lives in `[0, FULL_TURN)`.
//! The pitch tilts up and down and stays within `PITCH_LIMIT` of the
//! horizontal, short of the vertical where the frame would be undefined.
//! With `(sy, cy)` the sine and cosine of the yaw and `(sp, cp)` those of the
//! pitch, the frame is
//!
//! ```text
//! forward = ( cy*cp,  sp,  sy*cp)
//! right   = (   -sy,   0,     cy)      the direction of forward x world-up
//! up      = (-cy*sp,  cp, -sy*sp)      the direction of right x forward
//! ```

use crate::fixed::{
    clamp, clamp_i128, lemma_mul_bounds, lemma_trunc_div_error, mul_fx, trunc_div, ONE,
    ONE_SQUARED,
};
use crate::trig::{
    lemma_sin_cos_quadrant_positive, lemma_sin_cos_unit, near_unit, sin_cos, sin_cos_at,
    wrap_degrees, FULL_TURN, QUARTER_TURN,
};
use crate::vector::{SpecVec3, Vec3};
use vstd::prelude::*;

verus! {

/// Degrees of turn per pixel of mouse motion and second.
pub const SENS: i64 = 20_000_000;

/// The steepest pitch, up or down: 89.99 degrees.
pub const PITCH_LIMIT: i64 = 89_990_000;

/// The forward axis for a yaw and a pitch.
pub open spec fn basis_forward(yaw: int, pitch: int) -> SpecVec3 {
    let (sy, cy) = sin_cos_at(yaw);
    let (sp, cp) = sin_cos_at(pitch);
    SpecVec3 { x: mul_fx(cy, cp), y: sp, z: mul_fx(sy, cp) }
}

/// The right axis for a yaw: horizontal, a quarter turn from the heading.
pub open spec fn basis_right(yaw: int) -> SpecVec3 {
    let (sy, cy) = sin_cos_at(yaw);
    SpecVec3 { x: -sy, y: 0, z: cy }
}

/// The up axis for a yaw and a pitch.
pub open spec fn basis_up(yaw: int, pitch: int) -> SpecVec3 {
    let (sy, cy) = sin_cos_at(yaw);
    let (sp, cp) = sin_cos_at(pitch);
    SpecVec3 { x: -mul_fx(cy, sp), y: cp, z: -mul_fx(sy, sp) }
}

/// The angle by which a mouse motion of `delta` millionths of a pixel turns
/// the camera in `dt` microseconds.
pub open spec fn look_angle(delta: int, dt: int) -> int {
    trunc_div(SENS * delta * dt, ONE * ONE)
}

/// The yaw after a horizontal mouse motion: turned, and wrapped into one turn.
pub open spec fn turned_yaw(yaw: int, dx: int, dt: int) -> int {
    (yaw + look_angle(dx, dt)) % (FULL_TURN as int)
}

/// The pitch after a vertical mouse motion: tilted against the motion, and
/// held within the limit.
pub open spec fn tilted_pitch(pitch: int, dy: int, dt: int) -> int {
    clamp(pitch + look_angle(-dy, dt), -PITCH_LIMIT, PITCH_LIMIT as int)
}

/// How far the frame may be from orthonormal, at the square of the
/// fixed-point scale: eight millionths.
pub const FRAME_TOLERANCE: i64 = 8_000_000;

/// The three axes are of unit length and at right angles to each other, up
/// to `FRAME_TOLERANCE`. No axis is longer than one.
pub open spec fn nearly_orthonormal(forward: SpecVec3, right: SpecVec3, up: SpecVec3) -> bool {
    &&& ONE * ONE - FRAME_TOLERANCE <= forward.norm_sq() <= ONE * ONE
    &&& ONE * ONE - FRAME_TOLERANCE <= right.norm_sq() <= ONE * ONE
    &&& ONE * ONE - FRAME_TOLERANCE <= up.norm_sq() <= ONE * ONE
    &&& -FRAME_TOLERANCE <= forward.dot(right) <= FRAME_TOLERANCE
    &&& -FRAME_TOLERANCE <= forward.dot(up) <= FRAME_TOLERANCE
    &&& -FRAME_TOLERANCE <= right.dot(up) <= FRAME_TOLERANCE
}

/// What rounding leaves of a product of two numbers of at most one: less
/// than one unit, of the sign of the product.
proof fn lemma_mul_unit_error(x: int, y: int)
    requires
        -ONE <= x <= ONE,
        -ONE <= y <= ONE,
    ensures
        -ONE < x * y - ONE * mul_fx(x, y) < ONE,
        -ONE <= mul_fx(x, y) <= ONE,
        -(ONE * ONE) <= x * y <= ONE * ONE,
        x * y >= 0 ==> x * y - ONE * mul_fx(x, y) >= 0 && mul_fx(x, y) >= 0,
        x * y <= 0 ==> x * y - ONE * mul_fx(x, y) <= 0 && mul_fx(x, y) <= 0,
{
    lemma_mul_bounds(x, y, ONE as int, ONE as int);
    lemma_trunc_div_error(x * y, ONE as int);
}

/// The square of a rounded product lies below the square of the product by
/// at most two units.
proof fn lemma_square_of_rounded(p: int, m: int, e: int)
    by (nonlinear_arith)
    requires
        ONE * m == p - e,
        -(ONE * ONE) <= p <= ONE * ONE,
        -ONE < e < ONE,
        p >= 0 ==> e >= 0 && m >= 0,
        p <= 0 ==> e <= 0 && m <= 0,
    ensures
        p * p - 2 * ONE * ONE * ONE <= ONE * ONE * (m * m) <= p * p,
{
    assert(ONE * ONE * (m * m) == (p - e) * (p - e));
    assert((p - e) * (p - e) == p * p - 2 * (p * e) + e * e);
    assert(0 <= p * e <= ONE * ONE * ONE);
    assert(e * e <= p * e);
}

/// A product of two products, regrouped.
proof fn lemma_mul_regroup(w: int, x: int, y: int, z: int)
    by (nonlinear_arith)
    ensures
        (w * x) * (y * z) == (w * y) * (x * z),
{
}

/// The product of two rounded products, in terms of the exact products and
/// what rounding left of them.
proof fn lemma_product_of_rounded(p: int, q: int, m: int, n: int, e: int, g: int)
    by (nonlinear_arith)
    requires
        ONE * m == p - e,
        ONE * n == q - g,
    ensures
        ONE * ONE * (m * n) == p * q - p * g - q * e + e * g,
{
    assert(ONE * ONE * (m * n) == (ONE * m) * (ONE * n));
}

/// The sum of the squares of two rounded products with a common factor.
proof fn lemma_rounded_pair_norm(a: int, b: int, q: int)
    requires
        near_unit(a, b),
        -ONE <= q <= ONE,
    ensures
        q * q - 6 * ONE <= mul_fx(b, q) * mul_fx(b, q) + mul_fx(a, q) * mul_fx(a, q) <= q * q,
{
    let m1 = mul_fx(b, q);
    let m2 = mul_fx(a, q);
    let e1 = b * q - ONE * m1;
    let e2 = a * q - ONE * m2;
    lemma_mul_unit_error(b, q);
    lemma_mul_unit_error(a, q);
    lemma_square_of_rounded(b * q, m1, e1);
    lemma_square_of_rounded(a * q, m2, e2);
    let u = a * a + b * b;
    assert((b * q) * (b * q) + (a * q) * (a * q) == (q * q) * u) by (nonlinear_arith)
        requires
            u == a * a + b * b,
    ;
    assert(0 <= q * q <= ONE * ONE) by (nonlinear_arith)
        requires
            -ONE <= q <= ONE,
    ;
    assert((q * q) * (ONE * ONE) - 2 * ONE * ONE * ONE <= (q * q) * u <= (q * q) * (ONE * ONE))
        by (nonlinear_arith)
        requires
            0 <= q * q <= ONE * ONE,
            ONE * ONE - 2 * ONE <= u <= ONE * ONE,
    ;
    let s = m1 * m1 + m2 * m2;
    assert(ONE * ONE * s == ONE * ONE * (m1 * m1) + ONE * ONE * (m2 * m2)) by (nonlinear_arith)
        requires
            s == m1 * m1 + m2 * m2,
    ;
    assert((q * q) * (ONE * ONE) - 6 * ONE * ONE * ONE <= ONE * ONE * s <= (q * q) * (ONE * ONE));
    assert(q * q - 6 * ONE <= s <= q * q) by (nonlinear_arith)
        requires
            (q * q) * (ONE * ONE) - 6 * ONE * ONE * ONE <= ONE * ONE * s <= (q * q) * (ONE * ONE),
    ;
}

/// Two rounded products, crossed with their other factors, cancel up to
/// rounding.
proof fn lemma_rounded_pair_cross(a: int, b: int, q: int)
    requires
        -ONE <= a <= ONE,
        -ONE <= b <= ONE,
        -ONE <= q <= ONE,
    ensures
        -2 * ONE <= a * mul_fx(b, q) - b * mul_fx(a, q) <= 2 * ONE,
{
    let m1 = mul_fx(b, q);
    let m2 = mul_fx(a, q);
    let e1 = b * q - ONE * m1;
    let e2 = a * q - ONE * m2;
    lemma_mul_unit_error(b, q);
    lemma_mul_unit_error(a, q);
    let d = a * m1 - b * m2;
    assert(ONE * d == b * e2 - a * e1) by (nonlinear_arith)
        requires
            d == a * m1 - b * m2,
            e1 == b * q - ONE * m1,
            e2 == a * q - ONE * m2,
    ;
    lemma_mul_bounds(b, e2, ONE as int, ONE as int);
    lemma_mul_bounds(a, e1, ONE as int, ONE as int);
}

/// The forward and up axes are at right angles up to rounding.
proof fn lemma_forward_up_cross(a: int, b: int, p: int, q: int)
    requires
        near_unit(a, b),
        near_unit(p, q),
    ensures
        -8 * ONE <= p * q - (mul_fx(b, q) * mul_fx(b, p) + mul_fx(a, q) * mul_fx(a, p)) <= 8 * ONE,
{
    let m1 = mul_fx(b, q);
    let m2 = mul_fx(a, q);
    let m3 = mul_fx(b, p);
    let m4 = mul_fx(a, p);
    let e1 = b * q - ONE * m1;
    let e2 = a * q - ONE * m2;
    let e3 = b * p - ONE * m3;
    let e4 = a * p - ONE * m4;
    lemma_mul_unit_error(b, q);
    lemma_mul_unit_error(a, q);
    lemma_mul_unit_error(b, p);
    lemma_mul_unit_error(a, p);
    lemma_product_of_rounded(b * q, b * p, m1, m3, e1, e3);
    lemma_product_of_rounded(a * q, a * p, m2, m4, e2, e4);
    let u = a * a + b * b;
    let pq = p * q;
    lemma_mul_regroup(b, q, b, p);
    lemma_mul_regroup(a, q, a, p);
    let aa = a * a;
    let bb = b * b;
    assert(bb * pq + aa * pq == pq * u) by (nonlinear_arith)
        requires
            u == aa + bb,
    ;
    lemma_mul_bounds(p, q, ONE as int, ONE as int);
    let rest = ONE * ONE - u;
    lemma_mul_bounds(pq, rest, ONE * ONE, 2 * ONE);
    assert(pq * (ONE * ONE) - pq * u == pq * rest) by (nonlinear_arith)
        requires
            rest == ONE * ONE - u,
    ;
    lemma_mul_bounds(b * q, e3, ONE * ONE, ONE as int);
    lemma_mul_bounds(b * p, e1, ONE * ONE, ONE as int);
    lemma_mul_bounds(a * q, e4, ONE * ONE, ONE as int);
    lemma_mul_bounds(a * p, e2, ONE * ONE, ONE as int);
    lemma_mul_bounds(e1, e3, ONE as int, ONE as int);
    lemma_mul_bounds(e2, e4, ONE as int, ONE as int);
    let s = m1 * m3 + m2 * m4;
    assert(ONE * ONE * s == ONE * ONE * (m1 * m3) + ONE * ONE * (m2 * m4)) by (nonlinear_arith)
        requires
            s == m1 * m3 + m2 * m4,
    ;
    let d = pq - s;
    assert(ONE * ONE * d == pq * (ONE * ONE) - ONE * ONE * s) by (nonlinear_arith)
        requires
            d == pq - s,
    ;
    assert(-8 * ONE * ONE * ONE <= ONE * ONE * d <= 8 * ONE * ONE * ONE);
    assert(-8 * ONE <= d <= 8 * ONE) by (nonlinear_arith)
        requires
            -8 * ONE * ONE * ONE <= ONE * ONE * d <= 8 * ONE * ONE * ONE,
    ;
}

/// For every yaw and pitch the three axes of the frame are of unit length
/// and at right angles to each other, up to `FRAME_TOLERANCE`.
pub proof fn lemma_basis_orthonormal(yaw: int, pitch: int)
    ensures
        nearly_orthonormal(basis_forward(yaw, pitch), basis_right(yaw), basis_up(yaw, pitch)),
        basis_forward(yaw, pitch).within(ONE as int),
        basis_right(yaw).within(ONE as int),
        basis_up(yaw, pitch).within(ONE as int),
{
    let (a, b) = sin_cos_at(yaw);
    let (p, q) = sin_cos_at(pitch);
    lemma_sin_cos_unit(yaw);
    lemma_sin_cos_unit(pitch);
    let forward = basis_forward(yaw, pitch);
    let right = basis_right(yaw);
    let up = basis_up(yaw, pitch);
    lemma_mul_unit_error(b, q);
    lemma_mul_unit_error(a, q);
    lemma_mul_unit_error(b, p);
    lemma_mul_unit_error(a, p);
    let m1 = mul_fx(b, q);
    let m2 = mul_fx(a, q);
    let m3 = mul_fx(b, p);
    let m4 = mul_fx(a, p);
    assert(right.norm_sq() == a * a + b * b) by (nonlinear_arith)
        requires
            right.norm_sq() == (-a) * (-a) + 0 * 0 + b * b,
    ;
    lemma_rounded_pair_norm(a, b, q);
    assert(forward.norm_sq() == m1 * m1 + p * p + m2 * m2);
    lemma_rounded_pair_norm(a, b, p);
    assert(up.norm_sq() == m3 * m3 + q * q + m4 * m4) by (nonlinear_arith)
        requires
            up.norm_sq() == (-m3) * (-m3) + q * q + (-m4) * (-m4),
    ;
    lemma_rounded_pair_cross(a, b, q);
    assert(forward.dot(right) == -(a * m1 - b * m2)) by (nonlinear_arith)
        requires
            forward.dot(right) == m1 * (-a) + p * 0 + m2 * b,
    ;
    lemma_rounded_pair_cross(a, b, p);
    assert(right.dot(up) == a * m3 - b * m4) by (nonlinear_arith)
        requires
            right.dot(up) == (-a) * (-m3) + 0 * q + b * (-m4),
    ;
    lemma_forward_up_cross(a, b, p, q);
    assert(forward.dot(up) == p * q - (m1 * m3 + m2 * m4)) by (nonlinear_arith)
        requires
            forward.dot(up) == m1 * (-m3) + p * q + m2 * (-m4),
    ;
}

/// The least cosine of a pitch within the limit.
pub const MIN_COS_PITCH: i64 = 157;

/// Within the limit the pitch stays clear of the vertical: its cosine is
/// positive, so that the camera never looks straight up or down and its
/// frame never turns over.
pub proof fn lemma_cos_pitch_positive(pitch: int)
    requires
        -PITCH_LIMIT <= pitch <= PITCH_LIMIT,
    ensures
        sin_cos_at(pitch).1 >= MIN_COS_PITCH,
        basis_up(0, pitch).y >= MIN_COS_PITCH,
{
    let w = pitch % (FULL_TURN as int);
    lemma_sin_cos_quadrant_positive(w % (QUARTER_TURN as int));
}

/// The frame is made of cross products. The cross product of `forward` and
/// the world's vertical is `right` times the cosine of the pitch, a positive
/// number. The cross product of `right` and `forward` is `up`: exactly in the
/// two horizontal components, and up to four millionths in the vertical one.
pub proof fn lemma_basis_cross_products(yaw: int, pitch: int)
    requires
        -PITCH_LIMIT <= pitch <= PITCH_LIMIT,
    ensures
        sin_cos_at(pitch).1 > 0,
        basis_forward(yaw, pitch).cross(SpecVec3 { x: 0, y: ONE as int, z: 0 }) == (SpecVec3 {
            x: ONE * mul_fx(basis_right(yaw).x, sin_cos_at(pitch).1),
            y: 0,
            z: ONE * mul_fx(basis_right(yaw).z, sin_cos_at(pitch).1),
        }),
        basis_up(yaw, pitch).x == trunc_div(
            basis_right(yaw).cross(basis_forward(yaw, pitch)).x,
            ONE as int,
        ),
        basis_up(yaw, pitch).z == trunc_div(
            basis_right(yaw).cross(basis_forward(yaw, pitch)).z,
            ONE as int,
        ),
        -4 * ONE <= basis_right(yaw).cross(basis_forward(yaw, pitch)).y - ONE * basis_up(
            yaw,
            pitch,
        ).y <= 4 * ONE,
{
    lemma_cos_pitch_positive(pitch);
    let (a, b) = sin_cos_at(yaw);
    let (p, q) = sin_cos_at(pitch);
    lemma_sin_cos_unit(yaw);
    lemma_sin_cos_unit(pitch);
    let forward = basis_forward(yaw, pitch);
    let right = basis_right(yaw);
    let up = basis_up(yaw, pitch);
    let vertical = SpecVec3 { x: 0, y: ONE as int, z: 0 };
    let m1 = mul_fx(b, q);
    let m2 = mul_fx(a, q);

    // forward x vertical = (-ONE * forward.z, 0, ONE * forward.x)
    assert(forward.cross(vertical).x == -(ONE * m2)) by (nonlinear_arith)
        requires
            forward.cross(vertical).x == p * 0 - m2 * ONE,
    ;
    assert(forward.cross(vertical).y == 0) by (nonlinear_arith)
        requires
            forward.cross(vertical).y == m2 * 0 - m1 * 0,
    ;
    assert(forward.cross(vertical).z == ONE * m1) by (nonlinear_arith)
        requires
            forward.cross(vertical).z == m1 * ONE - p * 0,
    ;
    assert(mul_fx(-a, q) == -m2) by {
        assert((-a) * q == -(a * q)) by (nonlinear_arith);
        crate::fixed::lemma_trunc_div_neg(a * q, ONE as int);
    }

    // right x forward = (-b * p, b * m1 + a * m2, -a * p)
    let side = right.cross(forward);
    assert(side.x == -(b * p)) by (nonlinear_arith)
        requires
            side.x == 0 * m2 - b * p,
    ;
    assert(side.z == -(a * p)) by (nonlinear_arith)
        requires
            side.z == (-a) * p - 0 * m1,
    ;
    assert(side.y == b * m1 + a * m2) by (nonlinear_arith)
        requires
            side.y == b * m1 - (-a) * m2,
    ;
    crate::fixed::lemma_trunc_div_neg(b * p, ONE as int);
    crate::fixed::lemma_trunc_div_neg(a * p, ONE as int);

    lemma_mul_unit_error(b, q);
    lemma_mul_unit_error(a, q);
    let e1 = b * q - ONE * m1;
    let e2 = a * q - ONE * m2;
    let u = a * a + b * b;
    assert(ONE * side.y == q * u - b * e1 - a * e2) by (nonlinear_arith)
        requires
            side.y == b * m1 + a * m2,
            e1 == b * q - ONE * m1,
            e2 == a * q - ONE * m2,
            u == a * a + b * b,
    ;
    lemma_mul_bounds(b, e1, ONE as int, ONE as int);
    lemma_mul_bounds(a, e2, ONE as int, ONE as int);
    let rest = ONE * ONE - u;
    lemma_mul_bounds(q, rest, ONE as int, 2 * ONE);
    assert(q * u == q * (ONE * ONE) - q * rest) by (nonlinear_arith)
        requires
            rest == ONE * ONE - u,
    ;
    assert(-4 * ONE * ONE <= ONE * side.y - ONE * (ONE * q) <= 4 * ONE * ONE);
}

/// The fixed-point product of two numbers between minus one and one.
fn mul_unit(a: i64, b: i64) -> (r: i64)
    requires
        -ONE <= a <= ONE,
        -ONE <= b <= ONE,
    ensures
        r == mul_fx(a as int, b as int),
        -ONE <= r <= ONE,
{
    proof {
        lemma_mul_bounds(a as int, b as int, ONE as int, ONE as int);
    }
    let p: i128 = (a as i128) * (b as i128);
    (p / (ONE as i128)) as i64
}

/// Computes the frame (forward, right, up) for a yaw and a pitch.
pub fn basis(yaw: i64, pitch: i64) -> (frame: (Vec3, Vec3, Vec3))
    ensures
        frame.0@ == basis_forward(yaw as int, pitch as int),
        frame.1@ == basis_right(yaw as int),
        frame.2@ == basis_up(yaw as int, pitch as int),
{
    let (sy, cy) = sin_cos(yaw);
    let (sp, cp) = sin_cos(pitch);
    let forward = Vec3 { x: mul_unit(cy, cp), y: sp, z: mul_unit(sy, cp) };
    let right = Vec3 { x: -sy, y: 0, z: cy };
    let up = Vec3 { x: -mul_unit(cy, sp), y: cp, z: -mul_unit(sy, sp) };
    (forward, right, up)
}

/// Computes the angle by which a mouse motion turns the camera.
fn look_angle_of(delta: i128, dt: u32) -> (angle: i128)
    requires
        -0x8000_0000_0000_0000 <= delta <= 0x8000_0000_0000_0000,
    ensures
        angle == look_angle(delta as int, dt as int),
        -0x8000_0000_0000_0000 * 100_000 <= angle <= 0x8000_0000_0000_0000 * 100_000,
{
    proof {
        lemma_mul_bounds(
            SENS * delta,
            dt as int,
            20_000_000int * 0x8000_0000_0000_0000int,
            0x1_0000_0000int,
        );
    }
    let p: i128 = (SENS as i128) * delta * (dt as i128);
    p / ONE_SQUARED
}

/// Turns a yaw by a horizontal mouse motion.
pub fn turn_yaw(yaw: i64, dx: i64, dt: u32) -> (turned: i64)
    ensures
        turned == turned_yaw(yaw as int, dx as int, dt as int),
        0 <= turned < FULL_TURN,
{
    let angle = look_angle_of(dx as i128, dt);
    wrap_degrees(yaw as i128 + angle)
}

/// Tilts a pitch by a vertical mouse motion.
pub fn tilt_pitch(pitch: i64, dy: i64, dt: u32) -> (tilted: i64)
    ensures
        tilted == tilted_pitch(pitch as int, dy as int, dt as int),
        -PITCH_LIMIT <= tilted <= PITCH_LIMIT,
{
    let angle = look_angle_of(-(dy as i128), dt);
    clamp_i128(pitch as i128 + angle, -PITCH_LIMIT, PITCH_LIMIT)
}

} // verus!
