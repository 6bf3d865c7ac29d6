//! The laws of motion of the camera: how held keys become acceleration, how
//! acceleration and friction change the velocity, how the velocity moves the
//! position, and how the walls of the play area throw the camera back.
//!
//! Positions and velocities are in world axes, `y` pointing up. Acceleration
//! is in the camera's own axes: `x` along its heading, `z` to its right, `y`
//! up. Times are in microseconds.

use crate::fixed::{
    clamp, is_isqrt, isqrt, isqrt_u128, lemma_isqrt_exists, lemma_mul_bounds,
    lemma_trunc_div_error, lemma_trunc_div_exact, magnitude, mul_fx, step_toward, trunc_div, ONE,
};
use crate::vector::SpecVec3;
use vstd::prelude::*;

verus! {

/// The speed of a sprint.
pub const SPRINT_SPEED: i64 = 10_000_000;

/// The speed of a walk.
pub const WALK_SPEED: i64 = 5_000_000;

/// What friction takes from the velocity, per second.
pub const DEACCELERATION: i64 = 5_000_000;

/// What a held key adds to the velocity, per second, beyond friction.
pub const ACCELERATION: i64 = 5_000_000;

/// By how much the speed rises or falls, per second.
pub const SPEED_RAMP: i64 = 5_000_000;

/// Rows of the grid of objects that the play area surrounds.
pub const INSTANCED_ROWS: i64 = 50;

/// Columns of the grid of objects that the play area surrounds.
pub const INSTANCED_COLS: i64 = 50;

/// The distance between neighbours in the grid.
pub const INSTANCE_SPACING: i64 = 3_000_000;

/// The room between the grid and the walls.
pub const BORDER_SPACE: i64 = 150_000_000;

/// The wall at the high end of the `x` axis.
pub const MAX_POS_X: i64 = 300_000_000;

/// The ceiling.
pub const MAX_POS_Y: i64 = 100_000_000;

/// The wall at the high end of the `z` axis.
pub const MAX_POS_Z: i64 = 300_000_000;

/// The wall at the low end of every axis.
pub const MIN_POS: i64 = -150_000_000;

/// The largest velocity component that is kept; faster ones are cut to it.
pub const VEL_LIMIT: i64 = 1_000_000_000_000;

/// The largest velocity component that can arise within a step, between
/// acceleration and the cut to `VEL_LIMIT`.
pub const VEL_REACH: i64 = 2_000_000_000_000;

/// The largest amount that friction can take in one step.
pub const FRICTION_REACH: i64 = 0x5_0000_0000;

/// The largest acceleration component that held keys can ask for.
pub const ACC_LIMIT: i64 = 20_000_000;

/// The walls stand `BORDER_SPACE` away from the grid of objects.
pub proof fn lemma_walls_surround_grid()
    ensures
        MAX_POS_X == INSTANCED_ROWS * INSTANCE_SPACING + BORDER_SPACE,
        MAX_POS_Z == INSTANCED_COLS * INSTANCE_SPACING + BORDER_SPACE,
        MIN_POS == -BORDER_SPACE,
        ACC_LIMIT == crate::input::SPRINT_MULTIPLIER * (ACCELERATION + DEACCELERATION),
{
}

/// The position lies between the walls.
pub open spec fn in_play_area(loc: SpecVec3) -> bool {
    &&& MIN_POS <= loc.x <= MAX_POS_X
    &&& MIN_POS <= loc.y <= MAX_POS_Y
    &&& MIN_POS <= loc.z <= MAX_POS_Z
}

/// The position moved to the nearest point between the walls.
pub open spec fn into_play_area(loc: SpecVec3) -> SpecVec3 {
    SpecVec3 {
        x: clamp(loc.x, MIN_POS as int, MAX_POS_X as int),
        y: clamp(loc.y, MIN_POS as int, MAX_POS_Y as int),
        z: clamp(loc.z, MIN_POS as int, MAX_POS_Z as int),
    }
}

/// The acceleration that an intent asks for: the intent times the sum of
/// acceleration and friction, so that a held key gains `ACCELERATION` over
/// the friction that works against it.
pub open spec fn acceleration_for(intent: SpecVec3) -> SpecVec3 {
    SpecVec3 {
        x: mul_fx(intent.x, ACCELERATION + DEACCELERATION),
        y: mul_fx(intent.y, ACCELERATION + DEACCELERATION),
        z: mul_fx(intent.z, ACCELERATION + DEACCELERATION),
    }
}

/// What friction takes from a velocity in `dt` microseconds.
pub open spec fn friction_step(dt: int) -> int {
    mul_fx(dt, DEACCELERATION as int)
}

/// The velocity after `dt` microseconds of acceleration. The camera's `x`
/// acts along its heading `(right.z, -right.x)` and its `z` along its right
/// axis `(right.x, right.z)`, both in the horizontal plane; its `y` acts
/// along the world's vertical, whatever the pitch.
pub open spec fn accelerate(vel: SpecVec3, acc: SpecVec3, right: SpecVec3, dt: int) -> SpecVec3 {
    SpecVec3 {
        x: vel.x + trunc_div((acc.x * right.z + acc.z * right.x) * dt, ONE * ONE),
        y: vel.y + trunc_div(acc.y * dt, ONE as int),
        z: vel.z + trunc_div((acc.z * right.z - acc.x * right.x) * dt, ONE * ONE),
    }
}

/// The component of the horizontal velocity `(vx, vz)` along the horizontal
/// direction `(dir_x, dir_z)`, at the square of the fixed-point scale.
pub open spec fn component_along(vx: int, vz: int, dir_x: int, dir_z: int) -> int {
    vx * dir_x + vz * dir_z
}

/// The speed of the horizontal velocity `(vx, vz)` along the horizontal
/// direction `(dir_x, dir_z)`: negative where it goes against the direction.
pub open spec fn speed_along(vx: int, vz: int, dir_x: int, dir_z: int) -> int {
    trunc_div(component_along(vx, vz, dir_x, dir_z), ONE as int)
}

/// What friction takes of a speed of `along` when it can take `amp`: all that
/// there is, and no more.
pub open spec fn nudge_take(along: int, amp: int) -> int {
    if magnitude(along) < amp {
        magnitude(along)
    } else {
        amp
    }
}

/// The horizontal velocity `(vx, vz)` slowed along the horizontal direction
/// `(dir_x, dir_z)`: what it has along that direction goes toward zero by
/// `amp`, and stops there. A velocity with nothing along the direction is
/// left alone.
pub open spec fn nudge(vx: int, vz: int, dir_x: int, dir_z: int, amp: int) -> (int, int) {
    let along = speed_along(vx, vz, dir_x, dir_z);
    let take = nudge_take(along, amp);
    if along > 0 {
        (vx - mul_fx(dir_x, take), vz - mul_fx(dir_z, take))
    } else if along < 0 {
        (vx + mul_fx(dir_x, take), vz + mul_fx(dir_z, take))
    } else {
        (vx, vz)
    }
}

/// What taking `take` along `(dir_x, dir_z)` changes the component along that
/// direction by.
pub open spec fn nudge_gain(dir_x: int, dir_z: int, take: int) -> int {
    component_along(mul_fx(dir_x, take), mul_fx(dir_z, take), dir_x, dir_z)
}

/// The horizontal axis of the camera on which no key is held, where a key is
/// held on the other: the heading `(right.z, -right.x)` or the right axis
/// `(right.x, right.z)`.
pub open spec fn idle_axis(acc: SpecVec3, right: SpecVec3) -> (int, int) {
    if acc.x == 0 {
        (right.z, -right.x)
    } else {
        (right.x, right.z)
    }
}

/// The length of the horizontal velocity `(vx, vz)`, rounded down.
pub open spec fn horizontal_speed(vx: int, vz: int) -> int {
    isqrt(vx * vx + vz * vz)
}

/// What remains of a length after friction has taken `amp` from it.
pub open spec fn kept_speed(len: int, amp: int) -> int {
    if len > amp {
        len - amp
    } else {
        0
    }
}

/// The horizontal velocity `(vx, vz)` shortened by `amp`, at most to rest,
/// without turning it.
pub open spec fn shrink(vx: int, vz: int, amp: int) -> (int, int) {
    if vx == 0 && vz == 0 {
        (vx, vz)
    } else {
        let len = horizontal_speed(vx, vz);
        let kept = kept_speed(len, amp);
        (trunc_div(vx * kept, len), trunc_div(vz * kept, len))
    }
}

/// Friction in the horizontal plane. With a key held on one of the camera's
/// two horizontal axes only, the velocity is slowed along the other axis.
/// With none held, it is shortened. With keys held on both, there is no
/// friction.
pub open spec fn horizontal_friction(vel: SpecVec3, acc: SpecVec3, right: SpecVec3, amp: int)
    -> SpecVec3 {
    let slowed = if acc.x == 0 && acc.z != 0 {
        nudge(vel.x, vel.z, right.z, -right.x, amp)
    } else if acc.x != 0 && acc.z == 0 {
        nudge(vel.x, vel.z, right.x, right.z, amp)
    } else if acc.x == 0 && acc.z == 0 {
        shrink(vel.x, vel.z, amp)
    } else {
        (vel.x, vel.z)
    };
    SpecVec3 { x: slowed.0, y: vel.y, z: slowed.1 }
}

/// Friction along the vertical: with no vertical key held, the vertical
/// velocity goes toward rest by `amp`, and stops there.
pub open spec fn vertical_friction(vel: SpecVec3, acc: SpecVec3, amp: int) -> SpecVec3 {
    SpecVec3 {
        x: vel.x,
        y: if acc.y == 0 {
            step_toward(vel.y, 0, amp)
        } else {
            vel.y
        },
        z: vel.z,
    }
}

/// Every component cut to `VEL_LIMIT`.
pub open spec fn limit_velocity(vel: SpecVec3) -> SpecVec3 {
    SpecVec3 {
        x: clamp(vel.x, -VEL_LIMIT, VEL_LIMIT as int),
        y: clamp(vel.y, -VEL_LIMIT, VEL_LIMIT as int),
        z: clamp(vel.z, -VEL_LIMIT, VEL_LIMIT as int),
    }
}

/// Every component cut to `ACC_LIMIT`.
pub open spec fn limit_acceleration(acc: SpecVec3) -> SpecVec3 {
    SpecVec3 {
        x: clamp(acc.x, -ACC_LIMIT, ACC_LIMIT as int),
        y: clamp(acc.y, -ACC_LIMIT, ACC_LIMIT as int),
        z: clamp(acc.z, -ACC_LIMIT, ACC_LIMIT as int),
    }
}

/// The velocity after one step of `dt` microseconds, before it is cut to the
/// limit: accelerated, and slowed by friction where no key works against it.
pub open spec fn before_cut(vel: SpecVec3, acc: SpecVec3, right: SpecVec3, dt: int) -> SpecVec3 {
    let amp = friction_step(dt);
    vertical_friction(horizontal_friction(accelerate(vel, acc, right, dt), acc, right, amp), acc, amp)
}

/// The velocity after one step of `dt` microseconds: accelerated, slowed by
/// friction where no key works against it, and cut to the limit.
pub open spec fn integrate_velocity(vel: SpecVec3, acc: SpecVec3, right: SpecVec3, dt: int)
    -> SpecVec3 {
    limit_velocity(before_cut(vel, acc, right, dt))
}

/// The speed after one step: it rises toward the sprint while sprinting and
/// falls toward the walk otherwise.
pub open spec fn ramp_speed(speed: int, sprinting: bool, dt: int) -> int {
    let change = mul_fx(dt, SPEED_RAMP as int);
    clamp(
        if sprinting {
            speed + change
        } else {
            speed - change
        },
        WALK_SPEED as int,
        SPRINT_SPEED as int,
    )
}

/// How far one component of the velocity carries in `dt` microseconds.
pub open spec fn displacement(speed: int, vel: int, dt: int) -> int {
    trunc_div(speed * vel * dt, ONE * ONE)
}

/// The position after `dt` microseconds at the given velocity and speed,
/// walls not yet considered.
pub open spec fn displace(loc: SpecVec3, vel: SpecVec3, speed: int, dt: int) -> SpecVec3 {
    SpecVec3 {
        x: loc.x + displacement(speed, vel.x, dt),
        y: loc.y + displacement(speed, vel.y, dt),
        z: loc.z + displacement(speed, vel.z, dt),
    }
}

/// One axis against its two walls: a position beyond a wall is put on the
/// wall and the velocity along the axis is reversed.
pub open spec fn bounce_axis(loc: int, vel: int, lo: int, hi: int) -> (int, int) {
    if loc > hi {
        (hi, -vel)
    } else if loc < lo {
        (lo, -vel)
    } else {
        (loc, vel)
    }
}

/// The position after the walls have been considered.
pub open spec fn bounced_loc(loc: SpecVec3, vel: SpecVec3) -> SpecVec3 {
    SpecVec3 {
        x: bounce_axis(loc.x, vel.x, MIN_POS as int, MAX_POS_X as int).0,
        y: bounce_axis(loc.y, vel.y, MIN_POS as int, MAX_POS_Y as int).0,
        z: bounce_axis(loc.z, vel.z, MIN_POS as int, MAX_POS_Z as int).0,
    }
}

/// The velocity after the walls have been considered.
pub open spec fn bounced_vel(loc: SpecVec3, vel: SpecVec3) -> SpecVec3 {
    SpecVec3 {
        x: bounce_axis(loc.x, vel.x, MIN_POS as int, MAX_POS_X as int).1,
        y: bounce_axis(loc.y, vel.y, MIN_POS as int, MAX_POS_Y as int).1,
        z: bounce_axis(loc.z, vel.z, MIN_POS as int, MAX_POS_Z as int).1,
    }
}

/// A number scaled by `kept / len`, a factor of at most one, keeps its sign
/// and does not grow; it shrinks if the factor is less than one and the
/// number is not zero.
pub proof fn lemma_scale_down(v: int, kept: int, len: int)
    requires
        0 <= kept <= len,
        len > 0,
    ensures
        magnitude(trunc_div(v * kept, len)) <= magnitude(v),
        v >= 0 ==> trunc_div(v * kept, len) >= 0,
        v <= 0 ==> trunc_div(v * kept, len) <= 0,
        kept < len && v != 0 ==> magnitude(trunc_div(v * kept, len)) < magnitude(v),
{
    let n = v * kept;
    let q = trunc_div(n, len);
    let m = magnitude(v);
    lemma_trunc_div_error(n, len);
    assert(v >= 0 ==> 0 <= n <= m * len) by (nonlinear_arith)
        requires
            n == v * kept,
            0 <= kept <= len,
            m == magnitude(v),
    ;
    assert(v <= 0 ==> 0 >= n >= -(m * len)) by (nonlinear_arith)
        requires
            n == v * kept,
            0 <= kept <= len,
            m == magnitude(v),
    ;
    assert(magnitude(q) <= m) by (nonlinear_arith)
        requires
            len > 0,
            m >= 0,
            n >= 0 ==> 0 <= q * len <= n,
            n <= 0 ==> 0 >= q * len >= n,
            n >= 0 ==> q >= 0,
            n <= 0 ==> q <= 0,
            -(m * len) <= n <= m * len,
    ;
    if kept < len && v != 0 {
        assert(-(m * len) + m <= n <= m * len - m) by (nonlinear_arith)
            requires
                n == v * kept,
                0 <= kept <= len - 1,
                m == magnitude(v),
        ;
        assert(magnitude(q) < m) by (nonlinear_arith)
            requires
                len > 0,
                m > 0,
                n >= 0 ==> 0 <= q * len <= n,
                n <= 0 ==> 0 >= q * len >= n,
                n >= 0 ==> q >= 0,
                n <= 0 ==> q <= 0,
                -(m * len) + m <= n <= m * len - m,
        ;
    }
}

/// With no vertical key held, a step does not let the vertical velocity grow
/// nor change its direction. It makes it smaller if time has passed and it
/// was not at rest, and brings it to rest if friction takes as much as there
/// is.
pub proof fn lemma_vertical_decay(vel: SpecVec3, acc: SpecVec3, right: SpecVec3, dt: int)
    requires
        acc.y == 0,
        dt >= 0,
    ensures
        magnitude(integrate_velocity(vel, acc, right, dt).y) <= magnitude(vel.y),
        vel.y >= 0 ==> integrate_velocity(vel, acc, right, dt).y >= 0,
        vel.y <= 0 ==> integrate_velocity(vel, acc, right, dt).y <= 0,
        dt > 0 && vel.y != 0 ==> magnitude(integrate_velocity(vel, acc, right, dt).y) < magnitude(
            vel.y,
        ),
        friction_step(dt) >= magnitude(vel.y) ==> integrate_velocity(vel, acc, right, dt).y == 0,
        magnitude(vel.y) <= VEL_LIMIT ==> magnitude(integrate_velocity(vel, acc, right, dt).y)
            == kept_speed(magnitude(vel.y), friction_step(dt)),
        magnitude(vel.y) <= VEL_LIMIT ==> integrate_velocity(vel, acc, right, dt).y
            == step_toward(vel.y, 0, friction_step(dt)),
{
    assert(acc.y * dt == 0) by (nonlinear_arith)
        requires
            acc.y == 0,
    ;
}

/// With no horizontal key held, a step does not let either horizontal
/// component of the velocity grow nor change its direction. It makes a
/// component smaller if time has passed and the component was not zero, and
/// brings the camera to rest in the plane if friction takes as much as the
/// horizontal speed.
pub proof fn lemma_horizontal_decay(vel: SpecVec3, acc: SpecVec3, right: SpecVec3, dt: int)
    requires
        acc.x == 0,
        acc.z == 0,
        dt >= 0,
    ensures
        magnitude(integrate_velocity(vel, acc, right, dt).x) <= magnitude(vel.x),
        magnitude(integrate_velocity(vel, acc, right, dt).z) <= magnitude(vel.z),
        vel.x >= 0 ==> integrate_velocity(vel, acc, right, dt).x >= 0,
        vel.x <= 0 ==> integrate_velocity(vel, acc, right, dt).x <= 0,
        vel.z >= 0 ==> integrate_velocity(vel, acc, right, dt).z >= 0,
        vel.z <= 0 ==> integrate_velocity(vel, acc, right, dt).z <= 0,
        dt > 0 && vel.x != 0 ==> magnitude(integrate_velocity(vel, acc, right, dt).x) < magnitude(
            vel.x,
        ),
        dt > 0 && vel.z != 0 ==> magnitude(integrate_velocity(vel, acc, right, dt).z) < magnitude(
            vel.z,
        ),
        friction_step(dt) >= horizontal_speed(vel.x, vel.z) ==> integrate_velocity(
            vel,
            acc,
            right,
            dt,
        ).x == 0 && integrate_velocity(vel, acc, right, dt).z == 0,
        magnitude(vel.x) <= VEL_LIMIT && magnitude(vel.z) <= VEL_LIMIT ==> integrate_velocity(
            vel,
            acc,
            right,
            dt,
        ).x == shrink(vel.x, vel.z, friction_step(dt)).0 && integrate_velocity(
            vel,
            acc,
            right,
            dt,
        ).z == shrink(vel.x, vel.z, friction_step(dt)).1,
{
    assert((acc.x * right.z + acc.z * right.x) * dt == 0) by (nonlinear_arith)
        requires
            acc.x == 0,
            acc.z == 0,
    ;
    assert((acc.z * right.z - acc.x * right.x) * dt == 0) by (nonlinear_arith)
        requires
            acc.x == 0,
            acc.z == 0,
    ;
    let pushed = accelerate(vel, acc, right, dt);
    assert(pushed.x == vel.x && pushed.z == vel.z);
    let amp = friction_step(dt);
    assert(amp == 5 * dt);
    if vel.x != 0 || vel.z != 0 {
        let square = vel.x * vel.x + vel.z * vel.z;
        assert(square >= 1) by (nonlinear_arith)
            requires
                square == vel.x * vel.x + vel.z * vel.z,
                vel.x != 0 || vel.z != 0,
        ;
        lemma_isqrt_exists(square);
        let len = horizontal_speed(vel.x, vel.z);
        assert(len >= 1) by (nonlinear_arith)
            requires
                is_isqrt(square, len),
                square >= 1,
        ;
        let kept = kept_speed(len, amp);
        lemma_scale_down(vel.x, kept, len);
        lemma_scale_down(vel.z, kept, len);
        if kept == 0 {
            assert(vel.x * kept == 0 && vel.z * kept == 0) by (nonlinear_arith)
                requires
                    kept == 0,
            ;
            assert(0int / len == 0) by (nonlinear_arith)
                requires
                    len > 0,
            ;
        }
    } else {
        assert(is_isqrt(0, 0));
        crate::fixed::lemma_isqrt_witness(0, 0);
    }
}

/// Shortening leaves a horizontal speed of at most what friction keeps:
/// rounding the components does not give back what friction took.
pub proof fn lemma_shrink_shortens(vx: int, vz: int, amp: int)
    requires
        amp >= 0,
    ensures
        horizontal_speed(shrink(vx, vz, amp).0, shrink(vx, vz, amp).1) <= kept_speed(
            horizontal_speed(vx, vz),
            amp,
        ),
        horizontal_speed(vx, vz) >= 0,
        horizontal_speed(vx, vz) == 0 <==> vx == 0 && vz == 0,
{
    let square = vx * vx + vz * vz;
    assert(square >= 0 && (square == 0 <==> vx == 0 && vz == 0)) by (nonlinear_arith)
        requires
            square == vx * vx + vz * vz,
    ;
    lemma_isqrt_exists(square);
    let len = horizontal_speed(vx, vz);
    assert(len == 0 <==> square == 0) by (nonlinear_arith)
        requires
            is_isqrt(square, len),
    ;
    if vx == 0 && vz == 0 {
    } else {
        let kept = kept_speed(len, amp);
        let x = trunc_div(vx * kept, len);
        let z = trunc_div(vz * kept, len);
        lemma_trunc_div_error(vx * kept, len);
        lemma_trunc_div_error(vz * kept, len);
        lemma_rounded_square(vx * kept, x, len);
        lemma_rounded_square(vz * kept, z, len);
        let after = x * x + z * z;
        assert((vx * kept) * (vx * kept) + (vz * kept) * (vz * kept) == square * (kept * kept))
            by (nonlinear_arith)
            requires
                square == vx * vx + vz * vz,
        ;
        assert(after * (len * len) <= square * (kept * kept)) by (nonlinear_arith)
            requires
                after == x * x + z * z,
                (x * len) * (x * len) <= (vx * kept) * (vx * kept),
                (z * len) * (z * len) <= (vz * kept) * (vz * kept),
                (vx * kept) * (vx * kept) + (vz * kept) * (vz * kept) == square * (kept * kept),
        ;
        assert(after >= 0) by (nonlinear_arith)
            requires
                after == x * x + z * z,
        ;
        assert(after < (kept + 1) * (kept + 1)) by (nonlinear_arith)
            requires
                after * (len * len) <= square * (kept * kept),
                square < (len + 1) * (len + 1),
                0 <= kept <= len,
                len >= 1,
                after >= 0,
                square >= 0,
        {
            if after >= (kept + 1) * (kept + 1) {
                assert(after * (len * len) >= ((kept + 1) * (kept + 1)) * (len * len));
                assert(((kept + 1) * (kept + 1)) * (len * len) == ((kept + 1) * len) * ((kept + 1)
                    * len));
                assert(((len + 1) * (len + 1)) * (kept * kept) == ((len + 1) * kept) * ((len + 1)
                    * kept));
                assert(0 <= (len + 1) * kept <= (kept + 1) * len);
                assert(((len + 1) * kept) * ((len + 1) * kept) <= ((kept + 1) * len) * ((kept + 1)
                    * len));
                assert(square * (kept * kept) <= ((len + 1) * (len + 1)) * (kept * kept));
                if kept > 0 {
                    assert(square * (kept * kept) < ((len + 1) * (len + 1)) * (kept * kept));
                } else {
                    assert(after * (len * len) <= 0);
                    assert(after * (len * len) >= len * len);
                }
            }
        }
        lemma_isqrt_exists(after);
        let shorter = isqrt(after);
        assert(shorter <= kept) by (nonlinear_arith)
            requires
                is_isqrt(after, shorter),
                after < (kept + 1) * (kept + 1),
                kept >= 0,
        {
            if shorter > kept {
                assert(shorter * shorter >= (kept + 1) * (kept + 1));
            }
        }
    }
}

/// The square of a rounded quotient, times the square of the divisor, does
/// not exceed the square of the dividend.
proof fn lemma_rounded_square(n: int, q: int, d: int)
    by (nonlinear_arith)
    requires
        d > 0,
        n >= 0 ==> 0 <= q * d <= n,
        n <= 0 ==> 0 >= q * d >= n,
    ensures
        (q * d) * (q * d) <= n * n,
{
}

/// The velocity after `n` steps of `dt` microseconds each with no key held.
pub open spec fn coast(vel: SpecVec3, right: SpecVec3, dt: int, n: nat) -> SpecVec3
    decreases n,
{
    if n == 0 {
        vel
    } else {
        integrate_velocity(coast(vel, right, dt, (n - 1) as nat), SpecVec3::zero(), right, dt)
    }
}

/// What `n` steps of friction leave of a speed.
pub open spec fn speed_left(speed: int, dt: int, n: nat) -> int {
    if speed > n * friction_step(dt) {
        speed - n * friction_step(dt)
    } else {
        0
    }
}

/// With no key held, step after step, no component of the velocity grows or
/// changes direction. Each step takes at least the friction of one step from
/// the vertical speed and from the horizontal speed, until each is zero, and
/// then the camera is at rest.
pub proof fn lemma_coast_comes_to_rest(vel: SpecVec3, right: SpecVec3, dt: int, n: nat)
    requires
        dt >= 0,
        vel.within(VEL_LIMIT as int),
    ensures
        magnitude(coast(vel, right, dt, n).x) <= magnitude(vel.x),
        magnitude(coast(vel, right, dt, n).y) <= magnitude(vel.y),
        magnitude(coast(vel, right, dt, n).z) <= magnitude(vel.z),
        magnitude(coast(vel, right, dt, n + 1).x) <= magnitude(coast(vel, right, dt, n).x),
        magnitude(coast(vel, right, dt, n + 1).y) <= magnitude(coast(vel, right, dt, n).y),
        magnitude(coast(vel, right, dt, n + 1).z) <= magnitude(coast(vel, right, dt, n).z),
        vel.x >= 0 ==> coast(vel, right, dt, n).x >= 0,
        vel.x <= 0 ==> coast(vel, right, dt, n).x <= 0,
        vel.y >= 0 ==> coast(vel, right, dt, n).y >= 0,
        vel.y <= 0 ==> coast(vel, right, dt, n).y <= 0,
        vel.z >= 0 ==> coast(vel, right, dt, n).z >= 0,
        vel.z <= 0 ==> coast(vel, right, dt, n).z <= 0,
        magnitude(coast(vel, right, dt, n).y) <= speed_left(magnitude(vel.y), dt, n),
        horizontal_speed(coast(vel, right, dt, n).x, coast(vel, right, dt, n).z) <= speed_left(
            horizontal_speed(vel.x, vel.z),
            dt,
            n,
        ),
        n * friction_step(dt) >= magnitude(vel.y) ==> coast(vel, right, dt, n).y == 0,
        n * friction_step(dt) >= horizontal_speed(vel.x, vel.z) ==> coast(vel, right, dt, n).x
            == 0 && coast(vel, right, dt, n).z == 0,
    decreases n,
{
    let zero = SpecVec3::zero();
    let amp = friction_step(dt);
    assert(amp == 5 * dt);
    let now = coast(vel, right, dt, n);
    lemma_shrink_shortens(vel.x, vel.z, amp);
    if n == 0 {
        assert(n * amp == 0) by (nonlinear_arith)
            requires
                n == 0,
        ;
    } else {
        let m = (n - 1) as nat;
        let before = coast(vel, right, dt, m);
        lemma_coast_comes_to_rest(vel, right, dt, m);
        lemma_vertical_decay(before, zero, right, dt);
        lemma_horizontal_decay(before, zero, right, dt);
        assert(n * amp == m * amp + amp) by (nonlinear_arith)
            requires
                n == m + 1,
        ;
        assert(m * amp >= 0) by (nonlinear_arith)
            requires
                amp >= 0,
                m >= 0,
        ;
        lemma_step_shortens_horizontal(before, right, dt);
        lemma_vertical_step(before, right, dt);
    }
    lemma_vertical_decay(now, zero, right, dt);
    lemma_horizontal_decay(now, zero, right, dt);
    lemma_shrink_shortens(now.x, now.z, amp);
}

/// With no vertical key held and the velocity within its limit, a step takes
/// the friction of one step from the vertical speed, or all of it.
proof fn lemma_vertical_step(vel: SpecVec3, right: SpecVec3, dt: int)
    requires
        dt >= 0,
        vel.within(VEL_LIMIT as int),
    ensures
        magnitude(integrate_velocity(vel, SpecVec3::zero(), right, dt).y) == kept_speed(
            magnitude(vel.y),
            friction_step(dt),
        ),
{
    assert(0 * dt == 0) by (nonlinear_arith);
}

/// With no horizontal key held and the velocity within its limit, a step
/// leaves a horizontal speed of at most what friction keeps.
proof fn lemma_step_shortens_horizontal(vel: SpecVec3, right: SpecVec3, dt: int)
    requires
        dt >= 0,
        vel.within(VEL_LIMIT as int),
    ensures
        horizontal_speed(
            integrate_velocity(vel, SpecVec3::zero(), right, dt).x,
            integrate_velocity(vel, SpecVec3::zero(), right, dt).z,
        ) <= kept_speed(horizontal_speed(vel.x, vel.z), friction_step(dt)),
{
    let zero = SpecVec3::zero();
    lemma_horizontal_decay(vel, zero, right, dt);
    lemma_shrink_shortens(vel.x, vel.z, friction_step(dt));
    assert((0 * right.z + 0 * right.x) * dt == 0) by (nonlinear_arith);
    assert((0 * right.z - 0 * right.x) * dt == 0) by (nonlinear_arith);
    let pushed = accelerate(vel, zero, right, dt);
    assert(pushed.x == vel.x && pushed.z == vel.z);
    let slowed = shrink(vel.x, vel.z, friction_step(dt));
    if vel.x != 0 || vel.z != 0 {
        let len = horizontal_speed(vel.x, vel.z);
        lemma_scale_down(vel.x, kept_speed(len, friction_step(dt)), len);
        lemma_scale_down(vel.z, kept_speed(len, friction_step(dt)), len);
    }
    assert(integrate_velocity(vel, zero, right, dt).x == slowed.0);
    assert(integrate_velocity(vel, zero, right, dt).z == slowed.1);
}

/// What a rounded product with `take` keeps of the factor `dir`: its sign,
/// and at most `take` times its square.
proof fn lemma_push_along(dir: int, take: int)
    requires
        take >= 0,
    ensures
        0 <= mul_fx(dir, take) * dir,
        ONE * (mul_fx(dir, take) * dir) <= (dir * dir) * take,
        (dir * dir) * take - ONE * magnitude(dir) <= ONE * (mul_fx(dir, take) * dir),
        magnitude(mul_fx(dir, take)) * ONE <= magnitude(dir) * take,
{
    let p = mul_fx(dir, take);
    let n = dir * take;
    lemma_trunc_div_error(n, ONE as int);
    let m = magnitude(dir);
    assert(dir >= 0 ==> n >= 0 && n == m * take) by (nonlinear_arith)
        requires
            n == dir * take,
            take >= 0,
            m == magnitude(dir),
    ;
    assert(dir <= 0 ==> n <= 0 && n == -(m * take)) by (nonlinear_arith)
        requires
            n == dir * take,
            take >= 0,
            m == magnitude(dir),
    ;
    let e = n - ONE * p;
    assert(ONE * (p * dir) == (dir * dir) * take - e * dir) by (nonlinear_arith)
        requires
            e == dir * take - ONE * p,
    ;
    assert(0 <= e * dir <= ONE * m && 0 <= p * dir) by (nonlinear_arith)
        requires
            m == magnitude(dir),
            dir >= 0 ==> 0 <= e < ONE && p >= 0,
            dir <= 0 ==> 0 >= e > -ONE && p <= 0,
    ;
}

/// Friction along a direction of at most unit length never lets the
/// component along that direction grow and never carries it past zero: it
/// takes `nudge_gain` of what friction takes from the size of the component,
/// and the gain is never more than the component has.
pub proof fn lemma_nudge_decay(vx: int, vz: int, dir_x: int, dir_z: int, amp: int)
    requires
        amp >= 0,
        dir_x * dir_x + dir_z * dir_z <= ONE * ONE,
    ensures
        0 <= nudge_gain(dir_x, dir_z, nudge_take(speed_along(vx, vz, dir_x, dir_z), amp))
            <= magnitude(component_along(vx, vz, dir_x, dir_z)),
        magnitude(
            component_along(
                nudge(vx, vz, dir_x, dir_z, amp).0,
                nudge(vx, vz, dir_x, dir_z, amp).1,
                dir_x,
                dir_z,
            ),
        ) == magnitude(component_along(vx, vz, dir_x, dir_z)) - nudge_gain(
            dir_x,
            dir_z,
            nudge_take(speed_along(vx, vz, dir_x, dir_z), amp),
        ),
        component_along(vx, vz, dir_x, dir_z) >= 0 ==> component_along(
            nudge(vx, vz, dir_x, dir_z, amp).0,
            nudge(vx, vz, dir_x, dir_z, amp).1,
            dir_x,
            dir_z,
        ) >= 0,
        component_along(vx, vz, dir_x, dir_z) <= 0 ==> component_along(
            nudge(vx, vz, dir_x, dir_z, amp).0,
            nudge(vx, vz, dir_x, dir_z, amp).1,
            dir_x,
            dir_z,
        ) <= 0,
{
    let whole = component_along(vx, vz, dir_x, dir_z);
    let along = speed_along(vx, vz, dir_x, dir_z);
    let take = nudge_take(along, amp);
    let px = mul_fx(dir_x, take);
    let pz = mul_fx(dir_z, take);
    let gain = nudge_gain(dir_x, dir_z, take);
    lemma_trunc_div_error(whole, ONE as int);
    assert(magnitude(along) * ONE <= magnitude(whole));
    lemma_push_along(dir_x, take);
    lemma_push_along(dir_z, take);
    let square = dir_x * dir_x + dir_z * dir_z;
    assert(ONE * gain <= square * take) by (nonlinear_arith)
        requires
            gain == px * dir_x + pz * dir_z,
            ONE * (px * dir_x) <= (dir_x * dir_x) * take,
            ONE * (pz * dir_z) <= (dir_z * dir_z) * take,
            square == dir_x * dir_x + dir_z * dir_z,
    ;
    assert(square * take <= (ONE * ONE) * take) by (nonlinear_arith)
        requires
            square <= ONE * ONE,
            take >= 0,
    ;
    assert(gain <= ONE * take) by (nonlinear_arith)
        requires
            ONE * gain <= (ONE * ONE) * take,
    ;
    assert(component_along(vx + px, vz + pz, dir_x, dir_z) == whole + gain) by (nonlinear_arith)
        requires
            whole == vx * dir_x + vz * dir_z,
            gain == px * dir_x + pz * dir_z,
            component_along(vx + px, vz + pz, dir_x, dir_z) == (vx + px) * dir_x + (vz + pz)
                * dir_z,
    ;
    assert(component_along(vx - px, vz - pz, dir_x, dir_z) == whole - gain) by (nonlinear_arith)
        requires
            whole == vx * dir_x + vz * dir_z,
            gain == px * dir_x + pz * dir_z,
            component_along(vx - px, vz - pz, dir_x, dir_z) == (vx - px) * dir_x + (vz - pz)
                * dir_z,
    ;
    if along == 0 {
        assert(dir_x * 0 == 0 && dir_z * 0 == 0) by (nonlinear_arith);
        assert(gain == 0) by (nonlinear_arith)
            requires
                gain == px * dir_x + pz * dir_z,
                px == 0,
                pz == 0,
        ;
    }
}

/// Friction takes nearly all that it can: along a direction of unit length up
/// to rounding, the gain falls short of what friction takes by at most two
/// millionths of it and two millionths more.
pub proof fn lemma_nudge_gain(dir_x: int, dir_z: int, take: int)
    requires
        take >= 0,
        ONE * ONE - 2 * ONE <= dir_x * dir_x + dir_z * dir_z <= ONE * ONE,
    ensures
        ONE * take - 2 * take - 2 * ONE <= nudge_gain(dir_x, dir_z, take) <= ONE * take,
{
    let px = mul_fx(dir_x, take);
    let pz = mul_fx(dir_z, take);
    let gain = nudge_gain(dir_x, dir_z, take);
    lemma_push_along(dir_x, take);
    lemma_push_along(dir_z, take);
    let square = dir_x * dir_x + dir_z * dir_z;
    assert(magnitude(dir_x) <= ONE && magnitude(dir_z) <= ONE) by (nonlinear_arith)
        requires
            dir_x * dir_x + dir_z * dir_z <= ONE * ONE,
    {
        if magnitude(dir_x) > ONE {
            assert(dir_x * dir_x > ONE * ONE);
            assert(dir_z * dir_z >= 0);
        }
        if magnitude(dir_z) > ONE {
            assert(dir_z * dir_z > ONE * ONE);
            assert(dir_x * dir_x >= 0);
        }
    }
    assert(square * take - 2 * (ONE * ONE) <= ONE * gain <= square * take) by (nonlinear_arith)
        requires
            gain == px * dir_x + pz * dir_z,
            (dir_x * dir_x) * take - ONE * magnitude(dir_x) <= ONE * (px * dir_x) <= (dir_x
                * dir_x) * take,
            (dir_z * dir_z) * take - ONE * magnitude(dir_z) <= ONE * (pz * dir_z) <= (dir_z
                * dir_z) * take,
            square == dir_x * dir_x + dir_z * dir_z,
            magnitude(dir_x) <= ONE,
            magnitude(dir_z) <= ONE,
    ;
    assert((ONE * ONE) * take - (2 * ONE) * take <= square * take <= (ONE * ONE) * take)
        by (nonlinear_arith)
        requires
            ONE * ONE - 2 * ONE <= square <= ONE * ONE,
            take >= 0,
    ;
    assert(ONE * take - 2 * take - 2 * ONE <= gain <= ONE * take) by (nonlinear_arith)
        requires
            (ONE * ONE) * take - (2 * ONE) * take - 2 * (ONE * ONE) <= ONE * gain <= (ONE * ONE)
                * take,
    ;
}

/// Along an axis of the world, friction is exact: the component on that axis
/// goes toward zero by `amp` and stops there, and the other is untouched.
pub proof fn lemma_nudge_on_world_axis(vx: int, vz: int, dir_x: int, dir_z: int, amp: int)
    requires
        amp >= 0,
        (dir_x == 0 && magnitude(dir_z) == ONE) || (dir_z == 0 && magnitude(dir_x) == ONE),
    ensures
        dir_x == 0 ==> nudge(vx, vz, dir_x, dir_z, amp) == (vx, step_toward(vz, 0, amp)),
        dir_z == 0 ==> nudge(vx, vz, dir_x, dir_z, amp) == (step_toward(vx, 0, amp), vz),
{
    let along = speed_along(vx, vz, dir_x, dir_z);
    let take = nudge_take(along, amp);
    assert(0 * take == 0) by (nonlinear_arith);
    if dir_x == 0 {
        assert(vx * dir_x == 0) by (nonlinear_arith)
            requires
                dir_x == 0,
        ;
        if dir_z == ONE {
            assert(vz * dir_z == vz * ONE) by (nonlinear_arith)
                requires
                    dir_z == ONE,
            ;
            lemma_trunc_div_exact(vz, ONE as int);
            assert(dir_z * take == take * ONE) by (nonlinear_arith)
                requires
                    dir_z == ONE,
            ;
            lemma_trunc_div_exact(take, ONE as int);
        } else {
            assert(vz * dir_z == (-vz) * ONE) by (nonlinear_arith)
                requires
                    dir_z == -ONE,
            ;
            lemma_trunc_div_exact(-vz, ONE as int);
            assert(dir_z * take == (-take) * ONE) by (nonlinear_arith)
                requires
                    dir_z == -ONE,
            ;
            lemma_trunc_div_exact(-take, ONE as int);
        }
    } else {
        assert(vz * dir_z == 0) by (nonlinear_arith)
            requires
                dir_z == 0,
        ;
        if dir_x == ONE {
            assert(vx * dir_x == vx * ONE) by (nonlinear_arith)
                requires
                    dir_x == ONE,
            ;
            lemma_trunc_div_exact(vx, ONE as int);
            assert(dir_x * take == take * ONE) by (nonlinear_arith)
                requires
                    dir_x == ONE,
            ;
            lemma_trunc_div_exact(take, ONE as int);
        } else {
            assert(vx * dir_x == (-vx) * ONE) by (nonlinear_arith)
                requires
                    dir_x == -ONE,
            ;
            lemma_trunc_div_exact(-vx, ONE as int);
            assert(dir_x * take == (-take) * ONE) by (nonlinear_arith)
                requires
                    dir_x == -ONE,
            ;
            lemma_trunc_div_exact(-take, ONE as int);
        }
    }
}

/// Two rounded quotients whose dividends cancel along a direction cancel
/// along it up to rounding, and exactly where the direction lies on an axis.
proof fn lemma_rounded_pair_cancels(nx: int, nz: int, ux: int, uz: int)
    requires
        nx * ux + nz * uz == 0,
        -ONE <= ux <= ONE,
        -ONE <= uz <= ONE,
    ensures
        -2 * ONE < trunc_div(nx, ONE * ONE) * ux + trunc_div(nz, ONE * ONE) * uz < 2 * ONE,
        ux == 0 || uz == 0 ==> trunc_div(nx, ONE * ONE) * ux + trunc_div(nz, ONE * ONE) * uz
            == 0,
{
    let d = ONE * ONE;
    let qx = trunc_div(nx, d);
    let qz = trunc_div(nz, d);
    lemma_trunc_div_error(nx, d);
    lemma_trunc_div_error(nz, d);
    let ex = nx - qx * d;
    let ez = nz - qz * d;
    let r = qx * ux + qz * uz;
    assert(d * r == -(ex * ux + ez * uz)) by (nonlinear_arith)
        requires
            r == qx * ux + qz * uz,
            ex == nx - qx * d,
            ez == nz - qz * d,
            nx * ux + nz * uz == 0,
    ;
    lemma_mul_bounds(ex, ux, d - 1, ONE as int);
    lemma_mul_bounds(ez, uz, d - 1, ONE as int);
    assert(-2 * ONE < r < 2 * ONE) by (nonlinear_arith)
        requires
            d == ONE * ONE,
            -(2 * ((d - 1) * ONE)) <= d * r <= 2 * ((d - 1) * ONE),
    ;
    if ux == 0 || uz == 0 {
        assert(r == 0) by (nonlinear_arith)
            requires
                r == qx * ux + qz * uz,
                nx * ux + nz * uz == 0,
                ux == 0 || uz == 0,
                nx >= 0 ==> qx >= 0,
                nx <= 0 ==> qx <= 0,
                nz >= 0 ==> qz >= 0,
                nz <= 0 ==> qz <= 0,
        {
            if ux == 0 {
                assert(nz * uz == 0);
                assert(nz == 0 || uz == 0);
            } else {
                assert(nx * ux == 0);
                assert(nx == 0 || ux == 0);
            }
        }
    }
}

/// A key held on one horizontal axis of the camera leaves the velocity along
/// the other axis alone, up to the rounding of the acceleration: less than
/// two millionths, and nothing where the camera's axes lie on the world's.
pub proof fn lemma_acceleration_keeps_idle_axis(
    vel: SpecVec3,
    acc: SpecVec3,
    right: SpecVec3,
    dt: int,
)
    requires
        (acc.x == 0) != (acc.z == 0),
        -ONE <= right.x <= ONE,
        -ONE <= right.z <= ONE,
    ensures
        -2 * ONE < component_along(
            accelerate(vel, acc, right, dt).x,
            accelerate(vel, acc, right, dt).z,
            idle_axis(acc, right).0,
            idle_axis(acc, right).1,
        ) - component_along(vel.x, vel.z, idle_axis(acc, right).0, idle_axis(acc, right).1) < 2
            * ONE,
        right.x == 0 || right.z == 0 ==> component_along(
            accelerate(vel, acc, right, dt).x,
            accelerate(vel, acc, right, dt).z,
            idle_axis(acc, right).0,
            idle_axis(acc, right).1,
        ) == component_along(vel.x, vel.z, idle_axis(acc, right).0, idle_axis(acc, right).1),
{
    let nx = (acc.x * right.z + acc.z * right.x) * dt;
    let nz = (acc.z * right.z - acc.x * right.x) * dt;
    let (ux, uz) = idle_axis(acc, right);
    assert(nx * ux + nz * uz == 0) by (nonlinear_arith)
        requires
            nx == (acc.x * right.z + acc.z * right.x) * dt,
            nz == (acc.z * right.z - acc.x * right.x) * dt,
            (acc.x == 0 && ux == right.z && uz == -right.x) || (acc.z == 0 && ux == right.x && uz
                == right.z),
    ;
    lemma_rounded_pair_cancels(nx, nz, ux, uz);
    let qx = trunc_div(nx, ONE * ONE);
    let qz = trunc_div(nz, ONE * ONE);
    assert(component_along(vel.x + qx, vel.z + qz, ux, uz) == component_along(vel.x, vel.z, ux, uz)
        + (qx * ux + qz * uz)) by (nonlinear_arith)
        requires
            component_along(vel.x + qx, vel.z + qz, ux, uz) == (vel.x + qx) * ux + (vel.z + qz)
                * uz,
            component_along(vel.x, vel.z, ux, uz) == vel.x * ux + vel.z * uz,
    ;
}

/// With a key held on one horizontal axis of the camera only, a step lets the
/// velocity along the other axis decay: it does not grow and does not pass
/// zero, but for the rounding of the acceleration, which is less than two
/// millionths. The step is one that the cut to the limit leaves alone.
pub proof fn lemma_idle_axis_decay(vel: SpecVec3, acc: SpecVec3, right: SpecVec3, dt: int)
    requires
        dt >= 0,
        (acc.x == 0) != (acc.z == 0),
        right.x * right.x + right.z * right.z <= ONE * ONE,
        before_cut(vel, acc, right, dt).within(VEL_LIMIT as int),
    ensures
        magnitude(
            component_along(
                integrate_velocity(vel, acc, right, dt).x,
                integrate_velocity(vel, acc, right, dt).z,
                idle_axis(acc, right).0,
                idle_axis(acc, right).1,
            ),
        ) < magnitude(
            component_along(vel.x, vel.z, idle_axis(acc, right).0, idle_axis(acc, right).1),
        ) + 2 * ONE,
        component_along(vel.x, vel.z, idle_axis(acc, right).0, idle_axis(acc, right).1) >= 2
            * ONE ==> component_along(
            integrate_velocity(vel, acc, right, dt).x,
            integrate_velocity(vel, acc, right, dt).z,
            idle_axis(acc, right).0,
            idle_axis(acc, right).1,
        ) >= 0,
        component_along(vel.x, vel.z, idle_axis(acc, right).0, idle_axis(acc, right).1) <= -2
            * ONE ==> component_along(
            integrate_velocity(vel, acc, right, dt).x,
            integrate_velocity(vel, acc, right, dt).z,
            idle_axis(acc, right).0,
            idle_axis(acc, right).1,
        ) <= 0,
{
    assert(-ONE <= right.x <= ONE && -ONE <= right.z <= ONE) by (nonlinear_arith)
        requires
            right.x * right.x + right.z * right.z <= ONE * ONE,
    {
        if right.x > ONE || right.x < -ONE {
            assert(right.x * right.x > ONE * ONE);
            assert(right.z * right.z >= 0);
        }
        if right.z > ONE || right.z < -ONE {
            assert(right.z * right.z > ONE * ONE);
            assert(right.x * right.x >= 0);
        }
    }
    lemma_acceleration_keeps_idle_axis(vel, acc, right, dt);
    let pushed = accelerate(vel, acc, right, dt);
    let (ux, uz) = idle_axis(acc, right);
    let amp = friction_step(dt);
    assert(amp == 5 * dt);
    assert(ux * ux + uz * uz == right.x * right.x + right.z * right.z) by (nonlinear_arith)
        requires
            (ux == right.z && uz == -right.x) || (ux == right.x && uz == right.z),
    ;
    lemma_nudge_decay(pushed.x, pushed.z, ux, uz, amp);
    let slowed = nudge(pushed.x, pushed.z, ux, uz, amp);
    assert(horizontal_friction(pushed, acc, right, amp).x == slowed.0);
    assert(horizontal_friction(pushed, acc, right, amp).z == slowed.1);
    assert(before_cut(vel, acc, right, dt).x == slowed.0);
    assert(before_cut(vel, acc, right, dt).z == slowed.1);
}

/// Where the camera's axes lie on the world's, friction on the idle axis is
/// exact: with a key held on one horizontal axis of the camera only, the
/// velocity on the world axis of the other goes toward zero by the friction
/// of the step and stops there.
pub proof fn lemma_idle_axis_on_world_axis(
    vel: SpecVec3,
    acc: SpecVec3,
    right: SpecVec3,
    dt: int,
)
    requires
        dt >= 0,
        (acc.x == 0) != (acc.z == 0),
        (right.x == 0 && magnitude(right.z) == ONE) || (right.z == 0 && magnitude(right.x)
            == ONE),
    ensures
        (acc.z == 0) == (right.x == 0) ==> before_cut(vel, acc, right, dt).z == step_toward(
            vel.z,
            0,
            friction_step(dt),
        ),
        (acc.z == 0) == (right.z == 0) ==> before_cut(vel, acc, right, dt).x == step_toward(
            vel.x,
            0,
            friction_step(dt),
        ),
        (acc.z == 0) == (right.x == 0) && magnitude(vel.z) <= VEL_LIMIT ==> integrate_velocity(
            vel,
            acc,
            right,
            dt,
        ).z == step_toward(vel.z, 0, friction_step(dt)),
        (acc.z == 0) == (right.z == 0) && magnitude(vel.x) <= VEL_LIMIT ==> integrate_velocity(
            vel,
            acc,
            right,
            dt,
        ).x == step_toward(vel.x, 0, friction_step(dt)),
{
    let amp = friction_step(dt);
    assert(amp == 5 * dt);
    let pushed = accelerate(vel, acc, right, dt);
    let (ux, uz) = idle_axis(acc, right);
    lemma_nudge_on_world_axis(pushed.x, pushed.z, ux, uz, amp);
    let nx = (acc.x * right.z + acc.z * right.x) * dt;
    let nz = (acc.z * right.z - acc.x * right.x) * dt;
    if (acc.z == 0) == (right.x == 0) {
        // The idle axis is the world's z: the acceleration has nothing on it.
        assert(nz == 0) by (nonlinear_arith)
            requires
                nz == (acc.z * right.z - acc.x * right.x) * dt,
                (acc.z == 0 && right.x == 0) || (acc.x == 0 && right.z == 0),
        ;
        assert(pushed.z == vel.z);
    }
    if (acc.z == 0) == (right.z == 0) {
        // The idle axis is the world's x.
        assert(nx == 0) by (nonlinear_arith)
            requires
                nx == (acc.x * right.z + acc.z * right.x) * dt,
                (acc.z == 0 && right.z == 0) || (acc.x == 0 && right.x == 0),
        ;
        assert(pushed.x == vel.x);
    }
}

/// A wall keeps what it throws back: the position ends between the walls and
/// the velocity keeps its size. A position that a step has carried beyond
/// the high wall ends on that wall with its velocity reversed, and likewise
/// at the low wall.
pub proof fn lemma_bounce_axis(loc: int, vel: int, lo: int, hi: int)
    requires
        lo <= hi,
    ensures
        lo <= bounce_axis(loc, vel, lo, hi).0 <= hi,
        magnitude(bounce_axis(loc, vel, lo, hi).1) == magnitude(vel),
        loc > hi ==> bounce_axis(loc, vel, lo, hi) == (hi, -vel),
        loc < lo ==> bounce_axis(loc, vel, lo, hi) == (lo, -vel),
        lo <= loc <= hi ==> bounce_axis(loc, vel, lo, hi) == (loc, vel),
{
}

/// The horizontal velocity slowed by `amp` along `(dir_x, dir_z)`.
pub(crate) fn nudge_velocity(vx: i128, vz: i128, dir_x: i64, dir_z: i64, amp: i128) -> (r: (
    i128,
    i128,
))
    requires
        -VEL_REACH <= vx <= VEL_REACH,
        -VEL_REACH <= vz <= VEL_REACH,
        -ONE <= dir_x <= ONE,
        -ONE <= dir_z <= ONE,
        0 <= amp <= FRICTION_REACH,
    ensures
        r.0 == nudge(vx as int, vz as int, dir_x as int, dir_z as int, amp as int).0,
        r.1 == nudge(vx as int, vz as int, dir_x as int, dir_z as int, amp as int).1,
        -VEL_REACH - FRICTION_REACH <= r.0 <= VEL_REACH + FRICTION_REACH,
        -VEL_REACH - FRICTION_REACH <= r.1 <= VEL_REACH + FRICTION_REACH,
{
    proof {
        lemma_mul_bounds(vx as int, dir_x as int, VEL_REACH as int, ONE as int);
        lemma_mul_bounds(vz as int, dir_z as int, VEL_REACH as int, ONE as int);
    }
    let along: i128 = (vx * (dir_x as i128) + vz * (dir_z as i128)) / (ONE as i128);
    // Friction takes what there is along the direction, and no more.
    let size: i128 = if along < 0 {
        -along
    } else {
        along
    };
    let take: i128 = if size < amp {
        size
    } else {
        amp
    };
    proof {
        lemma_mul_bounds(dir_x as int, take as int, ONE as int, FRICTION_REACH as int);
        lemma_mul_bounds(dir_z as int, take as int, ONE as int, FRICTION_REACH as int);
    }
    let push_x: i128 = (dir_x as i128) * take / (ONE as i128);
    let push_z: i128 = (dir_z as i128) * take / (ONE as i128);
    if along > 0 {
        (vx - push_x, vz - push_z)
    } else if along < 0 {
        (vx + push_x, vz + push_z)
    } else {
        (vx, vz)
    }
}

/// The horizontal velocity shortened by `amp`.
pub(crate) fn shrink_velocity(vx: i128, vz: i128, amp: i128) -> (r: (i128, i128))
    requires
        -VEL_REACH <= vx <= VEL_REACH,
        -VEL_REACH <= vz <= VEL_REACH,
        0 <= amp,
    ensures
        r.0 == shrink(vx as int, vz as int, amp as int).0,
        r.1 == shrink(vx as int, vz as int, amp as int).1,
        magnitude(r.0 as int) <= magnitude(vx as int),
        magnitude(r.1 as int) <= magnitude(vz as int),
{
    if vx == 0 && vz == 0 {
        return (vx, vz);
    }
    proof {
        lemma_mul_bounds(vx as int, vx as int, VEL_REACH as int, VEL_REACH as int);
        lemma_mul_bounds(vz as int, vz as int, VEL_REACH as int, VEL_REACH as int);
        assert(vx * vx >= 0 && (vx != 0 ==> vx * vx >= 1)) by (nonlinear_arith);
        assert(vz * vz >= 0 && (vz != 0 ==> vz * vz >= 1)) by (nonlinear_arith);
    }
    let square: i128 = vx * vx + vz * vz;
    let len: i128 = isqrt_u128(square as u128) as i128;
    assert(1 <= len <= 3_000_000_000_000) by (nonlinear_arith)
        requires
            is_isqrt(square as int, len as int),
            1 <= square <= 8_000_000_000_000_000_000_000_000,
    ;
    let kept: i128 = if len > amp {
        len - amp
    } else {
        0
    };
    proof {
        lemma_mul_bounds(vx as int, kept as int, VEL_REACH as int, 3_000_000_000_000);
        lemma_mul_bounds(vz as int, kept as int, VEL_REACH as int, 3_000_000_000_000);
        lemma_scale_down(vx as int, kept as int, len as int);
        lemma_scale_down(vz as int, kept as int, len as int);
    }
    ((vx * kept) / len, (vz * kept) / len)
}

} // verus!
