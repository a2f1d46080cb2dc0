//! Column-major integer matrices: 3×3 for planar transforms, 4×4 for
//! spatial ones, together with the saturating composition they share.

use vstd::prelude::*;

verus! {

use crate::sat32;
use crate::math::{dot2, dot3, dot4};

/// Planar vector.
#[derive(Clone, Copy, Debug, PartialEq, Eq, Structural)]
pub struct Vec2 {
    pub x: i32,
    pub y: i32,
}

/// Column of a 3×3 matrix.
#[derive(Clone, Copy, Debug, PartialEq, Eq, Structural)]
pub struct Vec3 {
    pub x: i32,
    pub y: i32,
    pub z: i32,
}

/// Column of a 4×4 matrix.
#[derive(Clone, Copy, Debug, PartialEq, Eq, Structural)]
pub struct Vec4 {
    pub x: i32,
    pub y: i32,
    pub z: i32,
    pub w: i32,
}

/// 3×3 matrix, columns `x_axis`, `y_axis` for the linear basis and
/// `z_axis` for the homogeneous translation column.
#[derive(Clone, Copy, Debug, PartialEq, Eq, Structural)]
pub struct Mat3 {
    pub x_axis: Vec3,
    pub y_axis: Vec3,
    pub z_axis: Vec3,
}

/// 4×4 matrix, columns `x_axis`, `y_axis`, `z_axis` for the linear basis
/// and `w_axis` for the homogeneous translation column.
#[derive(Clone, Copy, Debug, PartialEq, Eq, Structural)]
pub struct Mat4 {
    pub x_axis: Vec4,
    pub y_axis: Vec4,
    pub z_axis: Vec4,
    pub w_axis: Vec4,
}

pub open spec fn vec2_new(x: int, y: int) -> Vec2 {
    Vec2 { x: x as i32, y: y as i32 }
}

pub open spec fn vec3_new(x: int, y: int, z: int) -> Vec3 {
    Vec3 { x: x as i32, y: y as i32, z: z as i32 }
}

pub open spec fn vec4_new(x: int, y: int, z: int, w: int) -> Vec4 {
    Vec4 { x: x as i32, y: y as i32, z: z as i32, w: w as i32 }
}

pub open spec fn mat3_identity() -> Mat3 {
    Mat3 {
        x_axis: vec3_new(1, 0, 0),
        y_axis: vec3_new(0, 1, 0),
        z_axis: vec3_new(0, 0, 1),
    }
}

pub open spec fn mat4_identity() -> Mat4 {
    Mat4 {
        x_axis: vec4_new(1, 0, 0, 0),
        y_axis: vec4_new(0, 1, 0, 0),
        z_axis: vec4_new(0, 0, 1, 0),
        w_axis: vec4_new(0, 0, 0, 1),
    }
}

/// Image of column `v` under `a`, each entry saturated once over the exact
/// integer dot product.
pub open spec fn mat3_apply(a: Mat3, v: Vec3) -> Vec3 {
    Vec3 {
        x: sat32(a.x_axis.x * v.x + a.y_axis.x * v.y + a.z_axis.x * v.z) as i32,
        y: sat32(a.x_axis.y * v.x + a.y_axis.y * v.y + a.z_axis.y * v.z) as i32,
        z: sat32(a.x_axis.z * v.x + a.y_axis.z * v.y + a.z_axis.z * v.z) as i32,
    }
}

pub open spec fn mat3_mul(a: Mat3, b: Mat3) -> Mat3 {
    Mat3 {
        x_axis: mat3_apply(a, b.x_axis),
        y_axis: mat3_apply(a, b.y_axis),
        z_axis: mat3_apply(a, b.z_axis),
    }
}

pub open spec fn mat4_apply(a: Mat4, v: Vec4) -> Vec4 {
    Vec4 {
        x: sat32(a.x_axis.x * v.x + a.y_axis.x * v.y + a.z_axis.x * v.z + a.w_axis.x * v.w) as i32,
        y: sat32(a.x_axis.y * v.x + a.y_axis.y * v.y + a.z_axis.y * v.z + a.w_axis.y * v.w) as i32,
        z: sat32(a.x_axis.z * v.x + a.y_axis.z * v.y + a.z_axis.z * v.z + a.w_axis.z * v.w) as i32,
        w: sat32(a.x_axis.w * v.x + a.y_axis.w * v.y + a.z_axis.w * v.z + a.w_axis.w * v.w) as i32,
    }
}

pub open spec fn mat4_mul(a: Mat4, b: Mat4) -> Mat4 {
    Mat4 {
        x_axis: mat4_apply(a, b.x_axis),
        y_axis: mat4_apply(a, b.y_axis),
        z_axis: mat4_apply(a, b.z_axis),
        w_axis: mat4_apply(a, b.w_axis),
    }
}

/// Embed a planar matrix into a spatial one: x/y basis and translation are
/// copied, the z axis is the identity axis, so the out-of-plane coordinate
/// passes through composition untouched.
pub open spec fn mat3_embed(m: Mat3) -> Mat4 {
    Mat4 {
        x_axis: vec4_new(m.x_axis.x as int, m.x_axis.y as int, 0, 0),
        y_axis: vec4_new(m.y_axis.x as int, m.y_axis.y as int, 0, 0),
        z_axis: vec4_new(0, 0, 1, 0),
        w_axis: vec4_new(m.z_axis.x as int, m.z_axis.y as int, 0, 1),
    }
}

/// Project a spatial matrix onto the plane: the inverse direction of
/// [`mat3_embed`], lossy by design (z row and column are discarded).
pub open spec fn mat4_project(m: Mat4) -> Mat3 {
    Mat3 {
        x_axis: vec3_new(m.x_axis.x as int, m.x_axis.y as int, 0),
        y_axis: vec3_new(m.y_axis.x as int, m.y_axis.y as int, 0),
        z_axis: vec3_new(m.w_axis.x as int, m.w_axis.y as int, 1),
    }
}

/// Determinant of the 2×2 linear basis block, exact.
pub open spec fn mat3_det(m: Mat3) -> int {
    m.x_axis.x * m.y_axis.y - m.x_axis.y * m.y_axis.x
}

/// Determinant of the 3×3 linear basis block, exact.
pub open spec fn mat4_det(m: Mat4) -> int {
    m.x_axis.x * (m.y_axis.y * m.z_axis.z - m.y_axis.z * m.z_axis.y)
        - m.y_axis.x * (m.x_axis.y * m.z_axis.z - m.x_axis.z * m.z_axis.y)
        + m.z_axis.x * (m.x_axis.y * m.y_axis.z - m.x_axis.z * m.y_axis.y)
}

impl Mat3 {
    pub fn identity() -> (r: Mat3)
        ensures
            r == mat3_identity(),
    {
        Mat3 {
            x_axis: Vec3 { x: 1, y: 0, z: 0 },
            y_axis: Vec3 { x: 0, y: 1, z: 0 },
            z_axis: Vec3 { x: 0, y: 0, z: 1 },
        }
    }

    pub fn apply(&self, v: Vec3) -> (r: Vec3)
        ensures
            r == mat3_apply(*self, v),
    {
        Vec3 {
            x: dot3(self.x_axis.x, v.x, self.y_axis.x, v.y, self.z_axis.x, v.z),
            y: dot3(self.x_axis.y, v.x, self.y_axis.y, v.y, self.z_axis.y, v.z),
            z: dot3(self.x_axis.z, v.x, self.y_axis.z, v.y, self.z_axis.z, v.z),
        }
    }

    pub fn mul_mat3(&self, b: &Mat3) -> (r: Mat3)
        ensures
            r == mat3_mul(*self, *b),
    {
        Mat3 {
            x_axis: self.apply(b.x_axis),
            y_axis: self.apply(b.y_axis),
            z_axis: self.apply(b.z_axis),
        }
    }

    /// Exact determinant of the 2×2 basis block, carried out in `i128`.
    pub fn det(&self) -> (r: i128)
        ensures
            r == mat3_det(*self),
    {
        let a: i64 = crate::math::wide_mul(self.x_axis.x, self.y_axis.y);
        let b: i64 = crate::math::wide_mul(self.x_axis.y, self.y_axis.x);
        (a as i128) - (b as i128)
    }
}

impl Mat4 {
    pub fn identity() -> (r: Mat4)
        ensures
            r == mat4_identity(),
    {
        Mat4 {
            x_axis: Vec4 { x: 1, y: 0, z: 0, w: 0 },
            y_axis: Vec4 { x: 0, y: 1, z: 0, w: 0 },
            z_axis: Vec4 { x: 0, y: 0, z: 1, w: 0 },
            w_axis: Vec4 { x: 0, y: 0, z: 0, w: 1 },
        }
    }

    pub fn apply(&self, v: Vec4) -> (r: Vec4)
        ensures
            r == mat4_apply(*self, v),
    {
        Vec4 {
            x: dot4(self.x_axis.x, v.x, self.y_axis.x, v.y, self.z_axis.x, v.z, self.w_axis.x, v.w),
            y: dot4(self.x_axis.y, v.x, self.y_axis.y, v.y, self.z_axis.y, v.z, self.w_axis.y, v.w),
            z: dot4(self.x_axis.z, v.x, self.y_axis.z, v.y, self.z_axis.z, v.z, self.w_axis.z, v.w),
            w: dot4(self.x_axis.w, v.x, self.y_axis.w, v.y, self.z_axis.w, v.z, self.w_axis.w, v.w),
        }
    }

    pub fn mul_mat4(&self, b: &Mat4) -> (r: Mat4)
        ensures
            r == mat4_mul(*self, *b),
    {
        Mat4 {
            x_axis: self.apply(b.x_axis),
            y_axis: self.apply(b.y_axis),
            z_axis: self.apply(b.z_axis),
            w_axis: self.apply(b.w_axis),
        }
    }

    /// Exact determinant of the 3×3 basis block, carried out in `i128`.
    pub fn det(&self) -> (r: i128)
        ensures
            r == mat4_det(*self),
    {
        let m00: i64 = crate::math::wide_mul(self.y_axis.y, self.z_axis.z);
        let m01: i64 = crate::math::wide_mul(self.y_axis.z, self.z_axis.y);
        let m10: i64 = crate::math::wide_mul(self.x_axis.y, self.z_axis.z);
        let m11: i64 = crate::math::wide_mul(self.x_axis.z, self.z_axis.y);
        let m20: i64 = crate::math::wide_mul(self.x_axis.y, self.y_axis.z);
        let m21: i64 = crate::math::wide_mul(self.x_axis.z, self.y_axis.y);
        let c0: i128 = (m00 as i128) - (m01 as i128);
        let c1: i128 = (m10 as i128) - (m11 as i128);
        let c2: i128 = (m20 as i128) - (m21 as i128);
        proof {
            lemma_cofactor_bound(self.x_axis.x as int, c0 as int);
            lemma_cofactor_bound(self.y_axis.x as int, c1 as int);
            lemma_cofactor_bound(self.z_axis.x as int, c2 as int);
        }
        (self.x_axis.x as i128) * c0 - (self.y_axis.x as i128) * c1 + (self.z_axis.x as i128) * c2
    }

    pub fn embed(m: &Mat3) -> (r: Mat4)
        ensures
            r == mat3_embed(*m),
    {
        Mat4 {
            x_axis: Vec4 { x: m.x_axis.x, y: m.x_axis.y, z: 0, w: 0 },
            y_axis: Vec4 { x: m.y_axis.x, y: m.y_axis.y, z: 0, w: 0 },
            z_axis: Vec4 { x: 0, y: 0, z: 1, w: 0 },
            w_axis: Vec4 { x: m.z_axis.x, y: m.z_axis.y, z: 0, w: 1 },
        }
    }

    pub fn project(&self) -> (r: Mat3)
        ensures
            r == mat4_project(*self),
    {
        Mat3 {
            x_axis: Vec3 { x: self.x_axis.x, y: self.x_axis.y, z: 0 },
            y_axis: Vec3 { x: self.y_axis.x, y: self.y_axis.y, z: 0 },
            z_axis: Vec3 { x: self.w_axis.x, y: self.w_axis.y, z: 1 },
        }
    }
}

/// A product of an `i32` entry with an `i64` cofactor of two-product size
/// stays well inside `i128`.
proof fn lemma_cofactor_bound(a: int, c: int)
    requires
        -0x8000_0000 <= a <= 0x7fff_ffff,
        -0x1_0000_0000_0000_0000 <= c <= 0x1_0000_0000_0000_0000,
    ensures
        -0x1_0000_0000_0000_0000_0000_0000 <= a * c <= 0x1_0000_0000_0000_0000_0000_0000,
{
    assert(-0x1_0000_0000_0000_0000_0000_0000 <= a * c <= 0x1_0000_0000_0000_0000_0000_0000)
        by (nonlinear_arith)
        requires
            -0x8000_0000 <= a <= 0x7fff_ffff,
            -0x1_0000_0000_0000_0000 <= c <= 0x1_0000_0000_0000_0000,
    ;
}

} // verus!
