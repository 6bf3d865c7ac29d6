//! Vectors and matrices of fixed-point numbers.

use vstd::prelude::*;

verus! {

/// A vector of three fixed-point components.
#[derive(Clone, Copy, Debug, PartialEq, Eq, Structural)]
pub struct Vec3 {
    pub x: i64,
    pub y: i64,
    pub z: i64,
}

/// The mathematical value of a [`Vec3`]: three unbounded integers.
pub struct SpecVec3 {
    pub x: int,
    pub y: int,
    pub z: int,
}

impl View for Vec3 {
    type V = SpecVec3;

    open spec fn view(&self) -> SpecVec3 {
        SpecVec3 { x: self.x as int, y: self.y as int, z: self.z as int }
    }
}

impl Vec3 {
    /// The vector with the given components.
    pub fn new(x: i64, y: i64, z: i64) -> (v: Vec3)
        ensures
            v == (Vec3 { x, y, z }),
    {
        Vec3 { x, y, z }
    }
}

impl SpecVec3 {
    /// The vector whose components are all zero.
    pub open spec fn zero() -> SpecVec3 {
        SpecVec3 { x: 0, y: 0, z: 0 }
    }

    /// The inner product, at the square of the fixed-point scale.
    pub open spec fn dot(self, other: SpecVec3) -> int {
        self.x * other.x + self.y * other.y + self.z * other.z
    }

    /// The cross product, at the square of the fixed-point scale.
    pub open spec fn cross(self, other: SpecVec3) -> SpecVec3 {
        SpecVec3 {
            x: self.y * other.z - self.z * other.y,
            y: self.z * other.x - self.x * other.z,
            z: self.x * other.y - self.y * other.x,
        }
    }

    /// The squared length, at the square of the fixed-point scale.
    pub open spec fn norm_sq(self) -> int {
        self.dot(self)
    }

    /// Every component lies within `[-bound, bound]`.
    pub open spec fn within(self, bound: int) -> bool {
        &&& -bound <= self.x <= bound
        &&& -bound <= self.y <= bound
        &&& -bound <= self.z <= bound
    }
}

/// A vector of four fixed-point components.
#[derive(Clone, Copy, Debug, PartialEq, Eq, Structural)]
pub struct Vec4 {
    pub x: i64,
    pub y: i64,
    pub z: i64,
    pub w: i64,
}

/// The mathematical value of a [`Vec4`].
pub struct SpecVec4 {
    pub x: int,
    pub y: int,
    pub z: int,
    pub w: int,
}

impl View for Vec4 {
    type V = SpecVec4;

    open spec fn view(&self) -> SpecVec4 {
        SpecVec4 { x: self.x as int, y: self.y as int, z: self.z as int, w: self.w as int }
    }
}

impl SpecVec4 {
    /// The inner product, at the square of the fixed-point scale.
    pub open spec fn dot(self, other: SpecVec4) -> int {
        self.x * other.x + self.y * other.y + self.z * other.z + self.w * other.w
    }

    /// Every component lies within `[-bound, bound]`.
    pub open spec fn within(self, bound: int) -> bool {
        &&& -bound <= self.x <= bound
        &&& -bound <= self.y <= bound
        &&& -bound <= self.z <= bound
        &&& -bound <= self.w <= bound
    }
}

/// A four-by-four matrix of fixed-point numbers, held by its columns
/// `x`, `y`, `z` and `w`.
#[derive(Clone, Copy, Debug, PartialEq, Eq, Structural)]
pub struct Mat4 {
    pub x: Vec4,
    pub y: Vec4,
    pub z: Vec4,
    pub w: Vec4,
}

/// The mathematical value of a [`Mat4`].
pub struct SpecMat4 {
    pub x: SpecVec4,
    pub y: SpecVec4,
    pub z: SpecVec4,
    pub w: SpecVec4,
}

impl View for Mat4 {
    type V = SpecMat4;

    open spec fn view(&self) -> SpecMat4 {
        SpecMat4 { x: self.x@, y: self.y@, z: self.z@, w: self.w@ }
    }
}

impl Mat4 {
    /// The sixteen entries, column after column.
    pub fn to_cols_array(&self) -> (a: [[i64; 4]; 4])
        ensures
            a[0][0] == self.x.x && a[0][1] == self.x.y && a[0][2] == self.x.z && a[0][3] == self.x.w,
            a[1][0] == self.y.x && a[1][1] == self.y.y && a[1][2] == self.y.z && a[1][3] == self.y.w,
            a[2][0] == self.z.x && a[2][1] == self.z.y && a[2][2] == self.z.z && a[2][3] == self.z.w,
            a[3][0] == self.w.x && a[3][1] == self.w.y && a[3][2] == self.w.z && a[3][3] == self.w.w,
    {
        [
            [self.x.x, self.x.y, self.x.z, self.x.w],
            [self.y.x, self.y.y, self.y.z, self.y.w],
            [self.z.x, self.z.y, self.z.z, self.z.w],
            [self.w.x, self.w.y, self.w.z, self.w.w],
        ]
    }
}

impl SpecMat4 {
    /// The first row.
    pub open spec fn row0(self) -> SpecVec4 {
        SpecVec4 { x: self.x.x, y: self.y.x, z: self.z.x, w: self.w.x }
    }

    /// The second row.
    pub open spec fn row1(self) -> SpecVec4 {
        SpecVec4 { x: self.x.y, y: self.y.y, z: self.z.y, w: self.w.y }
    }

    /// The third row.
    pub open spec fn row2(self) -> SpecVec4 {
        SpecVec4 { x: self.x.z, y: self.y.z, z: self.z.z, w: self.w.z }
    }

    /// The fourth row.
    pub open spec fn row3(self) -> SpecVec4 {
        SpecVec4 { x: self.x.w, y: self.y.w, z: self.z.w, w: self.w.w }
    }

    /// Every entry lies within `[-bound, bound]`.
    pub open spec fn within(self, bound: int) -> bool {
        self.x.within(bound) && self.y.within(bound) && self.z.within(bound) && self.w.within(
            bound,
        )
    }
}

} // verus!
