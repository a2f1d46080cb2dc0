//! Propagation constraints: stripping degrees of freedom from a resolved
//! parent matrix before a child composes against it.
//!
//! The stripped copy is what the child multiplies with; the parent's own
//! cached world matrix is never touched.  Degenerate axes never fail:
//! a zero-length axis falls back to the canonical unit axis when
//! normalizing, and collapses to the zero vector when reciprocal-scaling,
//! so the result is total and deterministic.

use vstd::prelude::*;

verus! {

use crate::sat32;
use crate::math::{clamp32, div_toward_zero, div_tz, isqrt, spec_isqrt, wide_mul};
use crate::matrix::{Mat3, Mat4, Vec3, Vec4, mat3_det, mat4_det, vec3_new, vec4_new};

/// What a node inherits from its resolved parent matrix.
#[derive(Clone, Copy, Debug, PartialEq, Eq, Structural)]
pub enum TransformPropagationConstraint {
    /// Inherit the parent matrix unchanged.
    Normal,
    /// Inherit only the parent translation; the basis becomes identity.
    OnlyTranslation,
    /// Inherit axis lengths but no rotation; the sign of the first axis
    /// carries the handedness of the parent basis.
    NoRotationOrReflection,
    /// Inherit rotation but no scale: each axis normalized to unit length,
    /// a zero-length axis replaced by its canonical unit axis.
    NoScale,
    /// Reciprocal-scale each axis by its own length and flip the first
    /// axis by the determinant sign; a zero-length axis collapses to zero.
    NoScaleOrReflection,
}

/// `-1` for a negative determinant, `+1` otherwise.
pub open spec fn sign_or_one(d: int) -> int {
    if d < 0 {
        -1
    } else {
        1
    }
}

/// Length of a basis column, rounded down to an integer.
pub open spec fn len4(v: Vec4) -> int {
    spec_isqrt((v.x * v.x + v.y * v.y + v.z * v.z + v.w * v.w) as nat) as int
}

/// Length of a planar basis column, rounded down to an integer.
pub open spec fn len3(v: Vec3) -> int {
    spec_isqrt((v.x * v.x + v.y * v.y + v.z * v.z) as nat) as int
}

/// Axis divided by its own length, or the fallback axis when the length
/// is zero.
pub open spec fn norm4(v: Vec4, fallback: Vec4) -> Vec4 {
    let l = len4(v);
    if l == 0 {
        fallback
    } else {
        Vec4 {
            x: div_tz(v.x as int, l) as i32,
            y: div_tz(v.y as int, l) as i32,
            z: div_tz(v.z as int, l) as i32,
            w: div_tz(v.w as int, l) as i32,
        }
    }
}

pub open spec fn norm3(v: Vec3, fallback: Vec3) -> Vec3 {
    let l = len3(v);
    if l == 0 {
        fallback
    } else {
        Vec3 {
            x: div_tz(v.x as int, l) as i32,
            y: div_tz(v.y as int, l) as i32,
            z: div_tz(v.z as int, l) as i32,
        }
    }
}

/// Axis divided by its own length and flipped by `s`, or the zero vector
/// when the length is zero.
pub open spec fn recip4(v: Vec4, s: int) -> Vec4 {
    let l = len4(v);
    if l == 0 {
        vec4_new(0, 0, 0, 0)
    } else {
        Vec4 {
            x: sat32(div_tz(v.x as int, l) * s) as i32,
            y: sat32(div_tz(v.y as int, l) * s) as i32,
            z: sat32(div_tz(v.z as int, l) * s) as i32,
            w: sat32(div_tz(v.w as int, l) * s) as i32,
        }
    }
}

pub open spec fn recip3(v: Vec3, s: int) -> Vec3 {
    let l = len3(v);
    if l == 0 {
        vec3_new(0, 0, 0)
    } else {
        Vec3 {
            x: sat32(div_tz(v.x as int, l) * s) as i32,
            y: sat32(div_tz(v.y as int, l) * s) as i32,
            z: sat32(div_tz(v.z as int, l) * s) as i32,
        }
    }
}

/// The constrained copy of a spatial parent matrix.  The determinant sign
/// is that of the 3×3 linear basis block; the translation column always
/// passes through unchanged.
pub open spec fn constrain4(m: Mat4, k: TransformPropagationConstraint) -> Mat4 {
    match k {
        TransformPropagationConstraint::Normal => m,
        TransformPropagationConstraint::OnlyTranslation => Mat4 {
            x_axis: vec4_new(1, 0, 0, 0),
            y_axis: vec4_new(0, 1, 0, 0),
            z_axis: vec4_new(0, 0, 1, 0),
            w_axis: m.w_axis,
        },
        TransformPropagationConstraint::NoRotationOrReflection => {
            let s = sign_or_one(mat4_det(m));
            Mat4 {
                x_axis: vec4_new(sat32(len4(m.x_axis) * s), 0, 0, 0),
                y_axis: vec4_new(0, sat32(len4(m.y_axis)), 0, 0),
                z_axis: vec4_new(0, 0, sat32(len4(m.z_axis)), 0),
                w_axis: m.w_axis,
            }
        },
        TransformPropagationConstraint::NoScale => Mat4 {
            x_axis: norm4(m.x_axis, vec4_new(1, 0, 0, 0)),
            y_axis: norm4(m.y_axis, vec4_new(0, 1, 0, 0)),
            z_axis: norm4(m.z_axis, vec4_new(0, 0, 1, 0)),
            w_axis: m.w_axis,
        },
        TransformPropagationConstraint::NoScaleOrReflection => {
            let s = sign_or_one(mat4_det(m));
            Mat4 {
                x_axis: recip4(m.x_axis, s),
                y_axis: recip4(m.y_axis, 1),
                z_axis: recip4(m.z_axis, 1),
                w_axis: m.w_axis,
            }
        },
    }
}

/// The constrained copy of a planar parent matrix, identical in shape with
/// one fewer basis axis.
pub open spec fn constrain3(m: Mat3, k: TransformPropagationConstraint) -> Mat3 {
    match k {
        TransformPropagationConstraint::Normal => m,
        TransformPropagationConstraint::OnlyTranslation => Mat3 {
            x_axis: vec3_new(1, 0, 0),
            y_axis: vec3_new(0, 1, 0),
            z_axis: m.z_axis,
        },
        TransformPropagationConstraint::NoRotationOrReflection => {
            let s = sign_or_one(mat3_det(m));
            Mat3 {
                x_axis: vec3_new(sat32(len3(m.x_axis) * s), 0, 0),
                y_axis: vec3_new(0, sat32(len3(m.y_axis)), 0),
                z_axis: m.z_axis,
            }
        },
        TransformPropagationConstraint::NoScale => Mat3 {
            x_axis: norm3(m.x_axis, vec3_new(1, 0, 0)),
            y_axis: norm3(m.y_axis, vec3_new(0, 1, 0)),
            z_axis: m.z_axis,
        },
        TransformPropagationConstraint::NoScaleOrReflection => {
            let s = sign_or_one(mat3_det(m));
            Mat3 {
                x_axis: recip3(m.x_axis, s),
                y_axis: recip3(m.y_axis, 1),
                z_axis: m.z_axis,
            }
        },
    }
}

/// Exact squared length of a spatial column, always within `4 * 2^62`.
fn sq_sum4(v: &Vec4) -> (r: u128)
    ensures
        r as int == v.x * v.x + v.y * v.y + v.z * v.z + v.w * v.w,
        r <= 0x4_0000_0000_0000_0000,
{
    let xx: i64 = wide_mul(v.x, v.x);
    let yy: i64 = wide_mul(v.y, v.y);
    let zz: i64 = wide_mul(v.z, v.z);
    let ww: i64 = wide_mul(v.w, v.w);
    proof {
        lemma_square_bounds(v.x as int);
        lemma_square_bounds(v.y as int);
        lemma_square_bounds(v.z as int);
        lemma_square_bounds(v.w as int);
    }
    (xx as u64 as u128) + (yy as u64 as u128) + (zz as u64 as u128) + (ww as u64 as u128)
}

fn sq_sum3(v: &Vec3) -> (r: u128)
    ensures
        r as int == v.x * v.x + v.y * v.y + v.z * v.z,
        r <= 0x4_0000_0000_0000_0000,
{
    let xx: i64 = wide_mul(v.x, v.x);
    let yy: i64 = wide_mul(v.y, v.y);
    let zz: i64 = wide_mul(v.z, v.z);
    proof {
        lemma_square_bounds(v.x as int);
        lemma_square_bounds(v.y as int);
        lemma_square_bounds(v.z as int);
    }
    (xx as u64 as u128) + (yy as u64 as u128) + (zz as u64 as u128)
}

proof fn lemma_square_bounds(a: int)
    requires
        -0x8000_0000 <= a <= 0x7fff_ffff,
    ensures
        0 <= a * a <= 0x4000_0000_0000_0000,
{
    assert(0 <= a * a <= 0x4000_0000_0000_0000) by (nonlinear_arith)
        requires
            -0x8000_0000 <= a <= 0x7fff_ffff,
    ;
}

/// Length of a spatial column.
fn len4_e(v: &Vec4) -> (l: u64)
    ensures
        l as int == len4(*v),
{
    let s: u128 = sq_sum4(v);
    isqrt(s)
}

/// Length of a planar column.
fn len3_e(v: &Vec3) -> (l: u64)
    ensures
        l as int == len3(*v),
{
    let s: u128 = sq_sum3(v);
    isqrt(s)
}

pub(crate) fn normalize4(v: &Vec4, fallback: Vec4) -> (r: Vec4)
    ensures
        r == norm4(*v, fallback),
{
    let l: u64 = len4_e(v);
    if l == 0 {
        fallback
    } else {
        Vec4 {
            x: div_toward_zero(v.x, l),
            y: div_toward_zero(v.y, l),
            z: div_toward_zero(v.z, l),
            w: div_toward_zero(v.w, l),
        }
    }
}

pub(crate) fn normalize3(v: &Vec3, fallback: Vec3) -> (r: Vec3)
    ensures
        r == norm3(*v, fallback),
{
    let l: u64 = len3_e(v);
    if l == 0 {
        fallback
    } else {
        Vec3 {
            x: div_toward_zero(v.x, l),
            y: div_toward_zero(v.y, l),
            z: div_toward_zero(v.z, l),
        }
    }
}

/// `sat32(d * s)` for a sign factor `s`.
fn mul_sign(d: i32, s: i32) -> (r: i32)
    requires
        s == 1 || s == -1i32,
    ensures
        r as int == sat32(d * s),
{
    if s < 0 {
        clamp32(-(d as i128))
    } else {
        clamp32(d as i128)
    }
}

/// `sat32(l * s)` for an axis length `l` and a sign factor `s`.
fn len_sign(l: u64, s: i32) -> (r: i32)
    requires
        s == 1 || s == -1i32,
    ensures
        r as int == sat32(l * s),
{
    if s < 0 {
        clamp32(-(l as i128))
    } else {
        clamp32(l as i128)
    }
}

fn recip_axis4(v: &Vec4, s: i32) -> (r: Vec4)
    requires
        s == 1 || s == -1i32,
    ensures
        r == recip4(*v, s as int),
{
    let l: u64 = len4_e(v);
    if l == 0 {
        Vec4 { x: 0, y: 0, z: 0, w: 0 }
    } else {
        Vec4 {
            x: mul_sign(div_toward_zero(v.x, l), s),
            y: mul_sign(div_toward_zero(v.y, l), s),
            z: mul_sign(div_toward_zero(v.z, l), s),
            w: mul_sign(div_toward_zero(v.w, l), s),
        }
    }
}

fn recip_axis3(v: &Vec3, s: i32) -> (r: Vec3)
    requires
        s == 1 || s == -1i32,
    ensures
        r == recip3(*v, s as int),
{
    let l: u64 = len3_e(v);
    if l == 0 {
        Vec3 { x: 0, y: 0, z: 0 }
    } else {
        Vec3 {
            x: mul_sign(div_toward_zero(v.x, l), s),
            y: mul_sign(div_toward_zero(v.y, l), s),
            z: mul_sign(div_toward_zero(v.z, l), s),
        }
    }
}

fn det_sign4(m: &Mat4) -> (s: i32)
    ensures
        s as int == sign_or_one(mat4_det(*m)),
        s == 1 || s == -1i32,
{
    let d: i128 = m.det();
    if d < 0 {
        -1
    } else {
        1
    }
}

fn det_sign3(m: &Mat3) -> (s: i32)
    ensures
        s as int == sign_or_one(mat3_det(*m)),
        s == 1 || s == -1i32,
{
    let d: i128 = m.det();
    if d < 0 {
        -1
    } else {
        1
    }
}

impl TransformPropagationConstraint {
    /// Strip the constrained degrees of freedom from a spatial parent
    /// matrix, in place.
    pub fn constrain(&self, transform: &mut Mat4)
        ensures
            *final(transform) == constrain4(*old(transform), *self),
    {
        match self {
            TransformPropagationConstraint::Normal => {},
            TransformPropagationConstraint::OnlyTranslation => {
                transform.x_axis = Vec4 { x: 1, y: 0, z: 0, w: 0 };
                transform.y_axis = Vec4 { x: 0, y: 1, z: 0, w: 0 };
                transform.z_axis = Vec4 { x: 0, y: 0, z: 1, w: 0 };
            },
            TransformPropagationConstraint::NoRotationOrReflection => {
                let s: i32 = det_sign4(transform);
                let lx: u64 = len4_e(&transform.x_axis);
                let ly: u64 = len4_e(&transform.y_axis);
                let lz: u64 = len4_e(&transform.z_axis);
                transform.x_axis = Vec4 { x: len_sign(lx, s), y: 0, z: 0, w: 0 };
                transform.y_axis = Vec4 { x: 0, y: clamp32(ly as i128), z: 0, w: 0 };
                transform.z_axis = Vec4 { x: 0, y: 0, z: clamp32(lz as i128), w: 0 };
            },
            TransformPropagationConstraint::NoScale => {
                transform.x_axis = normalize4(&transform.x_axis, Vec4 { x: 1, y: 0, z: 0, w: 0 });
                transform.y_axis = normalize4(&transform.y_axis, Vec4 { x: 0, y: 1, z: 0, w: 0 });
                transform.z_axis = normalize4(&transform.z_axis, Vec4 { x: 0, y: 0, z: 1, w: 0 });
            },
            TransformPropagationConstraint::NoScaleOrReflection => {
                let s: i32 = det_sign4(transform);
                transform.x_axis = recip_axis4(&transform.x_axis, s);
                transform.y_axis = recip_axis4(&transform.y_axis, 1);
                transform.z_axis = recip_axis4(&transform.z_axis, 1);
            },
        }
    }

    /// Strip the constrained degrees of freedom from a planar parent
    /// matrix, in place.
    pub fn constrain_2d(&self, transform: &mut Mat3)
        ensures
            *final(transform) == constrain3(*old(transform), *self),
    {
        match self {
            TransformPropagationConstraint::Normal => {},
            TransformPropagationConstraint::OnlyTranslation => {
                transform.x_axis = Vec3 { x: 1, y: 0, z: 0 };
                transform.y_axis = Vec3 { x: 0, y: 1, z: 0 };
            },
            TransformPropagationConstraint::NoRotationOrReflection => {
                let s: i32 = det_sign3(transform);
                let lx: u64 = len3_e(&transform.x_axis);
                let ly: u64 = len3_e(&transform.y_axis);
                transform.x_axis = Vec3 { x: len_sign(lx, s), y: 0, z: 0 };
                transform.y_axis = Vec3 { x: 0, y: clamp32(ly as i128), z: 0 };
            },
            TransformPropagationConstraint::NoScale => {
                transform.x_axis = normalize3(&transform.x_axis, Vec3 { x: 1, y: 0, z: 0 });
                transform.y_axis = normalize3(&transform.y_axis, Vec3 { x: 0, y: 1, z: 0 });
            },
            TransformPropagationConstraint::NoScaleOrReflection => {
                let s: i32 = det_sign3(transform);
                transform.x_axis = recip_axis3(&transform.x_axis, s);
                transform.y_axis = recip_axis3(&transform.y_axis, 1);
            },
        }
    }
}

} // verus!
