//! Locally authored poses: a planar translation/rotation/scale/shear and a
//! spatial translation/rotation/scale, plus the optional spatial shear
//! component, each with the matrix it denotes.
//!
//! Rotations are carried exactly: a planar rotation by its cosine/sine
//! pair, a spatial rotation by a quaternion.  Unit values of either kind
//! with integer coordinates are the quarter-turn and half-turn rotations;
//! the matrix formulas are total over all values.

use vstd::prelude::*;

verus! {

use crate::sat32;
use crate::math::{clamp32, dot2, wide_mul};
use crate::matrix::{Mat3, Mat4, Vec2, Vec3, vec3_new, vec4_new};

/// Planar rotation, stored as the cosine/sine pair of its angle.
#[derive(Clone, Copy, Debug, PartialEq, Eq, Structural)]
pub struct Rot2 {
    pub cos: i32,
    pub sin: i32,
}

/// Spatial rotation quaternion.
#[derive(Clone, Copy, Debug, PartialEq, Eq, Structural)]
pub struct Quat {
    pub x: i32,
    pub y: i32,
    pub z: i32,
    pub w: i32,
}

/// Planar local pose: translation, rotation, per-axis scale and a planar
/// shear pair.
#[derive(Clone, Copy, Debug, PartialEq, Eq, Structural)]
pub struct Transform2D {
    pub translation: Vec2,
    pub rotation: Rot2,
    pub scale: Vec2,
    pub shear: Vec2,
}

/// Spatial local pose: translation, rotation and per-axis scale.
#[derive(Clone, Copy, Debug, PartialEq, Eq, Structural)]
pub struct Transform3D {
    pub translation: Vec3,
    pub rotation: Quat,
    pub scale: Vec3,
}

/// Shearing along each coordinate plane, spatial poses only.
#[derive(Clone, Copy, Debug, PartialEq, Eq, Structural)]
pub struct Shear {
    pub xy: Vec2,
    pub xz: Vec2,
    pub yz: Vec2,
}

/// Diagonal rotation-matrix entry `1 - 2 (a² + b²)`, saturated.
pub open spec fn quat_diag(a: int, b: int) -> int {
    sat32(1 - 2 * (a * a + b * b))
}

/// Off-diagonal rotation-matrix entry `2 (a b + c d)`, saturated.
pub open spec fn quat_sum(a: int, b: int, c: int, d: int) -> int {
    sat32(2 * (a * b + c * d))
}

/// Off-diagonal rotation-matrix entry `2 (a b - c d)`, saturated.
pub open spec fn quat_diff(a: int, b: int, c: int, d: int) -> int {
    sat32(2 * (a * b - c * d))
}

/// One rotation entry scaled by a scale component, saturated.
pub open spec fn scaled(e: int, s: int) -> int {
    sat32(e * s)
}

/// The matrix of a spatial pose: rotation columns scaled per axis, the
/// translation in the homogeneous column.
pub open spec fn transform3d_matrix(t: Transform3D) -> Mat4 {
    let x = t.rotation.x as int;
    let y = t.rotation.y as int;
    let z = t.rotation.z as int;
    let w = t.rotation.w as int;
    let sx = t.scale.x as int;
    let sy = t.scale.y as int;
    let sz = t.scale.z as int;
    Mat4 {
        x_axis: vec4_new(
            scaled(quat_diag(y, z), sx),
            scaled(quat_sum(x, y, w, z), sx),
            scaled(quat_diff(x, z, w, y), sx),
            0,
        ),
        y_axis: vec4_new(
            scaled(quat_diff(x, y, w, z), sy),
            scaled(quat_diag(x, z), sy),
            scaled(quat_sum(y, z, w, x), sy),
            0,
        ),
        z_axis: vec4_new(
            scaled(quat_sum(x, z, w, y), sz),
            scaled(quat_diff(y, z, w, x), sz),
            scaled(quat_diag(x, y), sz),
            0,
        ),
        w_axis: vec4_new(t.translation.x as int, t.translation.y as int, t.translation.z as int, 1),
    }
}

/// The matrix of the spatial shear component.
pub open spec fn shear_matrix(s: Shear) -> Mat4 {
    Mat4 {
        x_axis: vec4_new(1, s.xy.x as int, s.xz.x as int, 0),
        y_axis: vec4_new(s.xy.y as int, 1, s.yz.x as int, 0),
        z_axis: vec4_new(s.xz.y as int, s.yz.y as int, 1, 0),
        w_axis: vec4_new(0, 0, 0, 1),
    }
}

/// The matrix of a planar pose: shear composed over the rotation/scale
/// block, the translation in the homogeneous column.
pub open spec fn transform2d_matrix(t: Transform2D) -> Mat3 {
    let c = t.rotation.cos as int;
    let s = t.rotation.sin as int;
    let sx = t.scale.x as int;
    let sy = t.scale.y as int;
    let hx = t.shear.x as int;
    let hy = t.shear.y as int;
    let bxx = sat32(c * sx);
    let bxy = sat32(s * sx);
    let byx = sat32(-(s * sy));
    let byy = sat32(c * sy);
    Mat3 {
        x_axis: vec3_new(sat32(bxx + hy * bxy), sat32(hx * bxx + bxy), 0),
        y_axis: vec3_new(sat32(byx + hy * byy), sat32(hx * byx + byy), 0),
        z_axis: vec3_new(t.translation.x as int, t.translation.y as int, 1),
    }
}

fn quat_diag_e(a: i32, b: i32) -> (r: i32)
    ensures
        r as int == quat_diag(a as int, b as int),
{
    let aa: i64 = wide_mul(a, a);
    let bb: i64 = wide_mul(b, b);
    clamp32(1 - 2 * ((aa as i128) + (bb as i128)))
}

fn quat_sum_e(a: i32, b: i32, c: i32, d: i32) -> (r: i32)
    ensures
        r as int == quat_sum(a as int, b as int, c as int, d as int),
{
    let ab: i64 = wide_mul(a, b);
    let cd: i64 = wide_mul(c, d);
    clamp32(2 * ((ab as i128) + (cd as i128)))
}

fn quat_diff_e(a: i32, b: i32, c: i32, d: i32) -> (r: i32)
    ensures
        r as int == quat_diff(a as int, b as int, c as int, d as int),
{
    let ab: i64 = wide_mul(a, b);
    let cd: i64 = wide_mul(c, d);
    clamp32(2 * ((ab as i128) - (cd as i128)))
}

fn scaled_e(e: i32, s: i32) -> (r: i32)
    ensures
        r as int == scaled(e as int, s as int),
{
    let p: i64 = wide_mul(e, s);
    clamp32(p as i128)
}

impl Rot2 {
    /// The zero-angle rotation.
    pub fn identity() -> (r: Rot2)
        ensures
            r == (Rot2 { cos: 1, sin: 0 }),
    {
        Rot2 { cos: 1, sin: 0 }
    }
}

impl Quat {
    /// The identity rotation.
    pub fn identity() -> (r: Quat)
        ensures
            r == (Quat { x: 0, y: 0, z: 0, w: 1 }),
    {
        Quat { x: 0, y: 0, z: 0, w: 1 }
    }
}

pub open spec fn transform2d_identity() -> Transform2D {
    Transform2D {
        translation: Vec2 { x: 0, y: 0 },
        rotation: Rot2 { cos: 1, sin: 0 },
        scale: Vec2 { x: 1, y: 1 },
        shear: Vec2 { x: 0, y: 0 },
    }
}

impl Transform2D {
    pub fn identity() -> (r: Transform2D)
        ensures
            r == transform2d_identity(),
    {
        Transform2D {
            translation: Vec2 { x: 0, y: 0 },
            rotation: Rot2 { cos: 1, sin: 0 },
            scale: Vec2 { x: 1, y: 1 },
            shear: Vec2 { x: 0, y: 0 },
        }
    }

    pub fn from_translation(translation: Vec2) -> (r: Transform2D)
        ensures
            r == (Transform2D { translation, ..transform2d_identity() }),
    {
        Transform2D { translation, ..Transform2D::identity() }
    }

    pub fn from_xy(x: i32, y: i32) -> (r: Transform2D)
        ensures
            r == (Transform2D { translation: Vec2 { x, y }, ..transform2d_identity() }),
    {
        Transform2D::from_translation(Vec2 { x, y })
    }

    pub fn from_rotation(rotation: Rot2) -> (r: Transform2D)
        ensures
            r == (Transform2D { rotation, ..transform2d_identity() }),
    {
        Transform2D { rotation, ..Transform2D::identity() }
    }

    pub fn from_scale(scale: Vec2) -> (r: Transform2D)
        ensures
            r == (Transform2D { scale, ..transform2d_identity() }),
    {
        Transform2D { scale, ..Transform2D::identity() }
    }

    /// Compose a further rotation onto this pose, exactly as complex
    /// multiplication of the two cosine/sine pairs, saturated.
    pub fn rotate(&mut self, rotation: Rot2)
        ensures
            *final(self) == (Transform2D {
                rotation: Rot2 {
                    cos: sat32(
                        old(self).rotation.cos * rotation.cos - old(self).rotation.sin
                            * rotation.sin,
                    ) as i32,
                    sin: sat32(
                        old(self).rotation.cos * rotation.sin + old(self).rotation.sin
                            * rotation.cos,
                    ) as i32,
                },
                ..*old(self)
            }),
    {
        let cc: i64 = wide_mul(self.rotation.cos, rotation.cos);
        let ss: i64 = wide_mul(self.rotation.sin, rotation.sin);
        let cs: i64 = wide_mul(self.rotation.cos, rotation.sin);
        let sc: i64 = wide_mul(self.rotation.sin, rotation.cos);
        self.rotation = Rot2 {
            cos: clamp32((cc as i128) - (ss as i128)),
            sin: clamp32((cs as i128) + (sc as i128)),
        };
    }

    pub fn compute_matrix(&self) -> (r: Mat3)
        ensures
            r == transform2d_matrix(*self),
    {
        let bxx: i32 = scaled_e(self.rotation.cos, self.scale.x);
        let bxy: i32 = scaled_e(self.rotation.sin, self.scale.x);
        let ssy: i64 = wide_mul(self.rotation.sin, self.scale.y);
        let byx: i32 = clamp32(-(ssy as i128));
        let byy: i32 = scaled_e(self.rotation.cos, self.scale.y);
        Mat3 {
            x_axis: Vec3 {
                x: dot2(bxx, 1, self.shear.y, bxy),
                y: dot2(self.shear.x, bxx, bxy, 1),
                z: 0,
            },
            y_axis: Vec3 {
                x: dot2(byx, 1, self.shear.y, byy),
                y: dot2(self.shear.x, byx, byy, 1),
                z: 0,
            },
            z_axis: Vec3 { x: self.translation.x, y: self.translation.y, z: 1 },
        }
    }
}

pub open spec fn transform3d_identity() -> Transform3D {
    Transform3D {
        translation: Vec3 { x: 0, y: 0, z: 0 },
        rotation: Quat { x: 0, y: 0, z: 0, w: 1 },
        scale: Vec3 { x: 1, y: 1, z: 1 },
    }
}

impl Transform3D {
    pub fn identity() -> (r: Transform3D)
        ensures
            r == transform3d_identity(),
    {
        Transform3D {
            translation: Vec3 { x: 0, y: 0, z: 0 },
            rotation: Quat { x: 0, y: 0, z: 0, w: 1 },
            scale: Vec3 { x: 1, y: 1, z: 1 },
        }
    }

    pub fn from_xyz(x: i32, y: i32, z: i32) -> (r: Transform3D)
        ensures
            r == (Transform3D { translation: Vec3 { x, y, z }, ..transform3d_identity() }),
    {
        Transform3D { translation: Vec3 { x, y, z }, ..Transform3D::identity() }
    }

    pub fn compute_matrix(&self) -> (r: Mat4)
        ensures
            r == transform3d_matrix(*self),
    {
        let qx = self.rotation.x;
        let qy = self.rotation.y;
        let qz = self.rotation.z;
        let qw = self.rotation.w;
        Mat4 {
            x_axis: crate::matrix::Vec4 {
                x: scaled_e(quat_diag_e(qy, qz), self.scale.x),
                y: scaled_e(quat_sum_e(qx, qy, qw, qz), self.scale.x),
                z: scaled_e(quat_diff_e(qx, qz, qw, qy), self.scale.x),
                w: 0,
            },
            y_axis: crate::matrix::Vec4 {
                x: scaled_e(quat_diff_e(qx, qy, qw, qz), self.scale.y),
                y: scaled_e(quat_diag_e(qx, qz), self.scale.y),
                z: scaled_e(quat_sum_e(qy, qz, qw, qx), self.scale.y),
                w: 0,
            },
            z_axis: crate::matrix::Vec4 {
                x: scaled_e(quat_sum_e(qx, qz, qw, qy), self.scale.z),
                y: scaled_e(quat_diff_e(qy, qz, qw, qx), self.scale.z),
                z: scaled_e(quat_diag_e(qx, qy), self.scale.z),
                w: 0,
            },
            w_axis: crate::matrix::Vec4 {
                x: self.translation.x,
                y: self.translation.y,
                z: self.translation.z,
                w: 1,
            },
        }
    }
}

impl Shear {
    pub fn from_shear_xy(x: i32, y: i32) -> (r: Shear)
        ensures
            r == (Shear {
                xy: Vec2 { x, y },
                xz: Vec2 { x: 0, y: 0 },
                yz: Vec2 { x: 0, y: 0 },
            }),
    {
        Shear { xy: Vec2 { x, y }, xz: Vec2 { x: 0, y: 0 }, yz: Vec2 { x: 0, y: 0 } }
    }

    pub fn compute_matrix(&self) -> (r: Mat4)
        ensures
            r == shear_matrix(*self),
    {
        Mat4 {
            x_axis: crate::matrix::Vec4 { x: 1, y: self.xy.x, z: self.xz.x, w: 0 },
            y_axis: crate::matrix::Vec4 { x: self.xy.y, y: 1, z: self.yz.x, w: 0 },
            z_axis: crate::matrix::Vec4 { x: self.xz.y, y: self.yz.y, z: 1, w: 0 },
            w_axis: crate::matrix::Vec4 { x: 0, y: 0, z: 0, w: 1 },
        }
    }
}

} // verus!
