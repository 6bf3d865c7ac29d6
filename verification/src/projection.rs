//! The matrices that take the world to the screen.
//!
//! A view matrix moves the world in front of the camera, a perspective matrix
//! flattens it, and a fixed correction adapts the depth to a clip volume
//! whose depth runs from zero to one instead of from minus one to one. All
//! three are four-by-four matrices of fixed-point numbers held by columns,
//! and their product is rounded entry by entry.

use crate::fixed::{lemma_mul_bounds, lemma_trunc_div_bound, trunc_div, ONE};
use crate::vector::{Mat4, SpecMat4, SpecVec3, SpecVec4, Vec3, Vec4};
use vstd::prelude::*;

verus! {

/// The vertical field of view: 90 degrees.
pub const FOVY: i64 = 90_000_000;

/// The distance of the near clip plane.
pub const ZNEAR: i64 = 100_000;

/// The distance of the far clip plane.
pub const ZFAR: i64 = 1_000_000_000;

/// The cotangent of half the field of view. Half of `FOVY` is an eighth of a
/// turn, whose cotangent is one.
pub const FOCAL_LENGTH: i64 = 1_000_000;

/// What the perspective multiplies depth by: `(ZFAR + ZNEAR) / (ZNEAR - ZFAR)`.
pub const DEPTH_SCALE: i64 = -1_000_200;

/// What the perspective adds to depth: `2 * ZFAR * ZNEAR / (ZNEAR - ZFAR)`.
pub const DEPTH_OFFSET: i64 = -200_020;

/// The largest coordinate of a camera position that `look_at` takes.
pub const LOC_REACH: i64 = 300_000_000;

/// The depth constants are the rounded quotients that their names stand for.
pub proof fn lemma_depth_constants()
    ensures
        DEPTH_SCALE == -trunc_div((ZFAR + ZNEAR) * ONE, ZFAR - ZNEAR),
        DEPTH_OFFSET == -trunc_div(2 * ZFAR * ZNEAR, ZFAR - ZNEAR),
{
}

/// The correction from a clip volume with depth in `[-1, 1]` to one with depth
/// in `[0, 1]`: depth becomes half of itself plus half of the fourth
/// coordinate.
pub open spec fn gl_to_wgpu() -> SpecMat4 {
    SpecMat4 {
        x: SpecVec4 { x: ONE as int, y: 0, z: 0, w: 0 },
        y: SpecVec4 { x: 0, y: ONE as int, z: 0, w: 0 },
        z: SpecVec4 { x: 0, y: 0, z: ONE / 2, w: 0 },
        w: SpecVec4 { x: 0, y: 0, z: ONE / 2, w: ONE as int },
    }
}

/// The right-handed perspective matrix for the field of view `FOVY`, the clip
/// planes `ZNEAR` and `ZFAR` and the given ratio of width to height.
pub open spec fn perspective(aspect: int) -> SpecMat4
    recommends
        aspect > 0,
{
    SpecMat4 {
        x: SpecVec4 { x: trunc_div(FOCAL_LENGTH * ONE, aspect), y: 0, z: 0, w: 0 },
        y: SpecVec4 { x: 0, y: FOCAL_LENGTH as int, z: 0, w: 0 },
        z: SpecVec4 { x: 0, y: 0, z: DEPTH_SCALE as int, w: -ONE },
        w: SpecVec4 { x: 0, y: 0, z: DEPTH_OFFSET as int, w: 0 },
    }
}

/// The right-handed view matrix of a camera at `eye` that looks along
/// `forward`, with `right` to its side and `up` above. Its rows are `right`,
/// `up` and the reverse of `forward`, and its last column moves `eye` to the
/// origin. The three axes are taken as they are: they come from a frame that
/// is orthonormal already.
pub open spec fn look_at(eye: SpecVec3, forward: SpecVec3, right: SpecVec3, up: SpecVec3)
    -> SpecMat4 {
    SpecMat4 {
        x: SpecVec4 { x: right.x, y: up.x, z: -forward.x, w: 0 },
        y: SpecVec4 { x: right.y, y: up.y, z: -forward.y, w: 0 },
        z: SpecVec4 { x: right.z, y: up.z, z: -forward.z, w: 0 },
        w: SpecVec4 {
            x: -trunc_div(eye.dot(right), ONE as int),
            y: -trunc_div(eye.dot(up), ONE as int),
            z: trunc_div(eye.dot(forward), ONE as int),
            w: ONE as int,
        },
    }
}

/// The ratio of a width to a height in pixels, if the picture has both and
/// the ratio is at least a millionth.
pub open spec fn aspect_for(width: int, height: int) -> Option<int> {
    if width > 0 && height > 0 && width * ONE / height > 0 {
        Some(width * ONE / height)
    } else {
        None
    }
}

/// The matrix applied to a vector.
pub open spec fn transform(m: SpecMat4, v: SpecVec4) -> SpecVec4 {
    SpecVec4 {
        x: trunc_div(m.row0().dot(v), ONE as int),
        y: trunc_div(m.row1().dot(v), ONE as int),
        z: trunc_div(m.row2().dot(v), ONE as int),
        w: trunc_div(m.row3().dot(v), ONE as int),
    }
}

/// The product of two matrices: `b` first, then `a`.
pub open spec fn mat_mul(a: SpecMat4, b: SpecMat4) -> SpecMat4 {
    SpecMat4 {
        x: transform(a, b.x),
        y: transform(a, b.y),
        z: transform(a, b.z),
        w: transform(a, b.w),
    }
}

/// The matrix from world to clip space: the view, then the perspective, then
/// the correction of the depth.
pub open spec fn view_projection(
    eye: SpecVec3,
    forward: SpecVec3,
    right: SpecVec3,
    up: SpecVec3,
    aspect: int,
) -> SpecMat4 {
    mat_mul(gl_to_wgpu(), mat_mul(perspective(aspect), look_at(eye, forward, right, up)))
}

/// The ratio of width to height enters the first row of the matrix from
/// world to clip space and no other: two cameras that differ in nothing else
/// agree on the other three rows.
pub proof fn lemma_aspect_in_first_row_only(
    eye: SpecVec3,
    forward: SpecVec3,
    right: SpecVec3,
    up: SpecVec3,
    aspect1: int,
    aspect2: int,
)
    ensures
        view_projection(eye, forward, right, up, aspect1).row1() == view_projection(
            eye,
            forward,
            right,
            up,
            aspect2,
        ).row1(),
        view_projection(eye, forward, right, up, aspect1).row2() == view_projection(
            eye,
            forward,
            right,
            up,
            aspect2,
        ).row2(),
        view_projection(eye, forward, right, up, aspect1).row3() == view_projection(
            eye,
            forward,
            right,
            up,
            aspect2,
        ).row3(),
{
}

/// The rounded inner product of a row with a vector.
fn dot_row(
    ax: i64,
    ay: i64,
    az: i64,
    aw: i64,
    v: &Vec4,
    Ghost(la): Ghost<int>,
    Ghost(lb): Ghost<int>,
) -> (r: i64)
    requires
        -la <= ax <= la,
        -la <= ay <= la,
        -la <= az <= la,
        -la <= aw <= la,
        v@.within(lb),
        0 <= la,
        0 <= lb,
        4 * (la * lb) <= 9_000_000_000_000_000_000_000_000,
    ensures
        r == trunc_div(ax * v.x + ay * v.y + az * v.z + aw * v.w, ONE as int),
        -(4 * (la * lb) / 1_000_000 + 1) <= r <= 4 * (la * lb) / 1_000_000 + 1,
{
    proof {
        lemma_mul_bounds(ax as int, v.x as int, la, lb);
        lemma_mul_bounds(ay as int, v.y as int, la, lb);
        lemma_mul_bounds(az as int, v.z as int, la, lb);
        lemma_mul_bounds(aw as int, v.w as int, la, lb);
    }
    let sum: i128 = (ax as i128) * (v.x as i128) + (ay as i128) * (v.y as i128) + (az as i128) * (
    v.z as i128) + (aw as i128) * (v.w as i128);
    proof {
        let bound = 4 * (la * lb) / 1_000_000 + 1;
        assert(-(bound * ONE) <= sum <= bound * ONE);
        lemma_trunc_div_bound(sum as int, ONE as int, bound);
    }
    (sum / (ONE as i128)) as i64
}

/// The matrix applied to a vector.
fn transform_vec(a: &Mat4, v: &Vec4, Ghost(la): Ghost<int>, Ghost(lb): Ghost<int>) -> (r: Vec4)
    requires
        a@.within(la),
        v@.within(lb),
        0 <= la,
        0 <= lb,
        4 * (la * lb) <= 9_000_000_000_000_000_000_000_000,
    ensures
        r@ == transform(a@, v@),
        r@.within(4 * (la * lb) / 1_000_000 + 1),
{
    Vec4 {
        x: dot_row(a.x.x, a.y.x, a.z.x, a.w.x, v, Ghost(la), Ghost(lb)),
        y: dot_row(a.x.y, a.y.y, a.z.y, a.w.y, v, Ghost(la), Ghost(lb)),
        z: dot_row(a.x.z, a.y.z, a.z.z, a.w.z, v, Ghost(la), Ghost(lb)),
        w: dot_row(a.x.w, a.y.w, a.z.w, a.w.w, v, Ghost(la), Ghost(lb)),
    }
}

/// The product of two matrices whose entries are bounded by `la` and `lb`.
fn multiply(a: &Mat4, b: &Mat4, Ghost(la): Ghost<int>, Ghost(lb): Ghost<int>) -> (r: Mat4)
    requires
        a@.within(la),
        b@.within(lb),
        0 <= la,
        0 <= lb,
        4 * (la * lb) <= 9_000_000_000_000_000_000_000_000,
    ensures
        r@ == mat_mul(a@, b@),
        r@.within(4 * (la * lb) / 1_000_000 + 1),
{
    Mat4 {
        x: transform_vec(a, &b.x, Ghost(la), Ghost(lb)),
        y: transform_vec(a, &b.y, Ghost(la), Ghost(lb)),
        z: transform_vec(a, &b.z, Ghost(la), Ghost(lb)),
        w: transform_vec(a, &b.w, Ghost(la), Ghost(lb)),
    }
}

/// The rounded inner product of a position with an axis.
fn dot_axis(eye: &Vec3, axis: &Vec3) -> (r: i64)
    requires
        eye@.within(LOC_REACH as int),
        axis@.within(ONE as int),
    ensures
        r == trunc_div(eye@.dot(axis@), ONE as int),
        -900_000_000 <= r <= 900_000_000,
{
    proof {
        lemma_mul_bounds(eye.x as int, axis.x as int, LOC_REACH as int, ONE as int);
        lemma_mul_bounds(eye.y as int, axis.y as int, LOC_REACH as int, ONE as int);
        lemma_mul_bounds(eye.z as int, axis.z as int, LOC_REACH as int, ONE as int);
    }
    let sum: i128 = (eye.x as i128) * (axis.x as i128) + (eye.y as i128) * (axis.y as i128) + (
    eye.z as i128) * (axis.z as i128);
    (sum / (ONE as i128)) as i64
}

/// Computes the ratio of a width to a height in pixels. There is none for a
/// picture without width or height, nor where it would round to zero.
pub fn aspect_of(width: u32, height: u32) -> (aspect: Option<i64>)
    ensures
        aspect.is_some() == aspect_for(width as int, height as int).is_some(),
        aspect matches Some(ratio) ==> ratio > 0 && aspect_for(width as int, height as int)
            == Some(ratio as int),
{
    if width == 0 || height == 0 {
        return None;
    }
    let ratio: i64 = (width as i64) * ONE / (height as i64);
    if ratio > 0 {
        Some(ratio)
    } else {
        None
    }
}

/// Builds the correction of the depth.
pub fn gl_to_wgpu_matrix() -> (m: Mat4)
    ensures
        m@ == gl_to_wgpu(),
{
    Mat4 {
        x: Vec4 { x: ONE, y: 0, z: 0, w: 0 },
        y: Vec4 { x: 0, y: ONE, z: 0, w: 0 },
        z: Vec4 { x: 0, y: 0, z: ONE / 2, w: 0 },
        w: Vec4 { x: 0, y: 0, z: ONE / 2, w: ONE },
    }
}

/// Builds the perspective matrix for a ratio of width to height.
pub fn perspective_matrix(aspect: i64) -> (m: Mat4)
    requires
        aspect > 0,
    ensures
        m@ == perspective(aspect as int),
        m@.within(ONE * ONE),
{
    proof {
        assert(FOCAL_LENGTH * ONE <= (ONE * ONE) * aspect) by (nonlinear_arith)
            requires
                aspect >= 1,
                FOCAL_LENGTH == ONE,
        ;
        lemma_trunc_div_bound(FOCAL_LENGTH * ONE, aspect as int, ONE * ONE);
    }
    let focal: i128 = (FOCAL_LENGTH as i128) * (ONE as i128) / (aspect as i128);
    Mat4 {
        x: Vec4 { x: focal as i64, y: 0, z: 0, w: 0 },
        y: Vec4 { x: 0, y: FOCAL_LENGTH, z: 0, w: 0 },
        z: Vec4 { x: 0, y: 0, z: DEPTH_SCALE, w: -ONE },
        w: Vec4 { x: 0, y: 0, z: DEPTH_OFFSET, w: 0 },
    }
}

/// Builds the view matrix of a camera at `eye` with the given frame.
pub(crate) fn look_at_matrix(eye: &Vec3, forward: &Vec3, right: &Vec3, up: &Vec3) -> (m: Mat4)
    requires
        eye@.within(LOC_REACH as int),
        forward@.within(ONE as int),
        right@.within(ONE as int),
        up@.within(ONE as int),
    ensures
        m@ == look_at(eye@, forward@, right@, up@),
        m@.within(1_000_000_000),
{
    Mat4 {
        x: Vec4 { x: right.x, y: up.x, z: -forward.x, w: 0 },
        y: Vec4 { x: right.y, y: up.y, z: -forward.y, w: 0 },
        z: Vec4 { x: right.z, y: up.z, z: -forward.z, w: 0 },
        w: Vec4 {
            x: -dot_axis(eye, right),
            y: -dot_axis(eye, up),
            z: dot_axis(eye, forward),
            w: ONE,
        },
    }
}

/// Builds the matrix from world to clip space.
pub(crate) fn view_projection_matrix(
    eye: &Vec3,
    forward: &Vec3,
    right: &Vec3,
    up: &Vec3,
    aspect: i64,
) -> (m: Mat4)
    requires
        eye@.within(LOC_REACH as int),
        forward@.within(ONE as int),
        right@.within(ONE as int),
        up@.within(ONE as int),
        aspect > 0,
    ensures
        m@ == view_projection(eye@, forward@, right@, up@, aspect as int),
{
    let view = look_at_matrix(eye, forward, right, up);
    let proj = perspective_matrix(aspect);
    let flat = multiply(&proj, &view, Ghost(ONE * ONE), Ghost(1_000_000_000));
    let correction = gl_to_wgpu_matrix();
    multiply(&correction, &flat, Ghost(ONE as int), Ghost(4_000_000_000_000_001))
}

} // verus!
