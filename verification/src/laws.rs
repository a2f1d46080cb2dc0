//! The properties the library promises, stated once and proved.
//!
//! The cycle contract itself lives on [`crate::scene::Scene::update`]:
//! after a cycle every covered node's cached matrix equals the direct
//! recursive composition of the current local poses.  The lemmas here
//! state what that contract does not say by itself: a quiet scene stays
//! bit-identical, an edit is confined to its subtree, and constraint
//! stripping behaves as promised on degenerate and axis-aligned bases.

use vstd::prelude::*;

verus! {

use crate::constraint::{constrain3, constrain4, TransformPropagationConstraint};
use crate::math::{lemma_isqrt_unique, spec_isqrt};
use crate::matrix::{mat4_mul, Mat4, vec3_new, vec4_new};
use crate::pose::{transform3d_identity, transform3d_matrix};
use crate::scene::{
    eff, is_ancestor, is_2d, has_pose, lemma_npa_lt, lemma_subtree_congruence, npa, spec_world2,
    spec_world4, Node,
};

/// With every change flag down — as [`crate::scene::Scene::update`]
/// leaves them — no node is effectively changed, so a further cycle
/// keeps every cached matrix bit-identical (the stability clause of
/// `update`).
pub proof fn lemma_quiescent_scene(s: Seq<Node>, i: int)
    requires
        forall|j: int| 0 <= j < s.len() ==> !(#[trigger] s[j]).changed,
        0 <= i < s.len(),
    ensures
        !eff(s, i),
    decreases i,
{
    lemma_npa_lt(s, i);
    let q = npa(s, i);
    if q is Some && 0 <= q->0 < i {
        lemma_quiescent_scene(s, q->0);
    }
}

/// Editing the local data of one node never moves the resolved matrix of
/// any node outside that node's subtree: siblings and ancestors of an
/// edited leaf are untouched, and an edit at an interior node is
/// confined to the node and its descendants.  (What happens inside the
/// subtree is the cycle contract of `update`: those nodes are
/// re-resolved against the new data.)
pub proof fn lemma_edit_confined(a: Seq<Node>, b: Seq<Node>, k: int, i: int)
    requires
        a.len() == b.len(),
        forall|j: int| 0 <= j < a.len() && j != k ==> #[trigger] b[j] == a[j],
        0 <= i < a.len(),
        i != k,
        !is_ancestor(a, k, i),
    ensures
        has_pose(a, i) ==> spec_world4(b, i) == spec_world4(a, i),
        is_2d(a, i) ==> spec_world2(b, i) == spec_world2(a, i),
    decreases i,
{
    lemma_subtree_congruence(a, b, k, i);
}

/// `isqrt` inverts a perfect square.
proof fn lemma_isqrt_square(v: nat)
    ensures
        spec_isqrt(v * v) == v,
{
    assert(v * v < (v + 1) * (v + 1)) by (nonlinear_arith);
    lemma_isqrt_unique(v * v, v);
}

/// Division of a nonzero value by its own magnitude yields its sign.
proof fn lemma_div_tz_self(a: int)
    requires
        a != 0,
    ensures
        crate::math::div_tz(a, if a >= 0 { a } else { -a }) == if a > 0 { 1int } else { -1int },
{
    if a > 0 {
        vstd::arithmetic::div_mod::lemma_div_by_self(a);
    } else {
        vstd::arithmetic::div_mod::lemma_div_by_self(-a);
    }
}

/// Stripping scale from an axis-aligned spatial basis leaves exactly
/// unit basis axes: a nonzero diagonal entry collapses to its sign, and
/// a zero-length axis falls back to the canonical unit axis, so every
/// basis axis of the result has squared length one and the result is
/// everywhere defined.  The translation column passes through untouched.
pub proof fn lemma_no_scale_axis_aligned(m: Mat4)
    requires
        m.x_axis.y == 0 && m.x_axis.z == 0 && m.x_axis.w == 0,
        m.y_axis.x == 0 && m.y_axis.z == 0 && m.y_axis.w == 0,
        m.z_axis.x == 0 && m.z_axis.y == 0 && m.z_axis.w == 0,
    ensures
        constrain4(m, TransformPropagationConstraint::NoScale) == (Mat4 {
            x_axis: vec4_new(if m.x_axis.x == 0 { 1 } else if m.x_axis.x > 0 { 1 } else { -1 },
                0, 0, 0),
            y_axis: vec4_new(0, if m.y_axis.y == 0 { 1 } else if m.y_axis.y > 0 { 1 } else { -1 },
                0, 0),
            z_axis: vec4_new(0, 0, if m.z_axis.z == 0 { 1 } else if m.z_axis.z > 0 { 1 } else { -1 },
                0),
            w_axis: m.w_axis,
        }),
{
    lemma_axis_normal(m.x_axis.x as int);
    lemma_axis_normal(m.y_axis.y as int);
    lemma_axis_normal(m.z_axis.z as int);
}

/// Normalizing a single-component axis: length is the magnitude, each
/// component divides to its sign.
proof fn lemma_axis_normal(a: int)
    ensures
        a != 0 ==> spec_isqrt((a * a) as nat) == if a >= 0 { a } else { -a },
        a != 0 ==> crate::math::div_tz(a, spec_isqrt((a * a) as nat) as int) == (if a > 0 {
            1int
        } else {
            -1int
        }),
        a == 0 ==> spec_isqrt((a * a) as nat) == 0,
        a != 0 ==> crate::math::div_tz(0, if a >= 0 { a } else { -a }) == 0,
{
    if a != 0 {
        let v: nat = if a >= 0 {
            a as nat
        } else {
            (-a) as nat
        };
        assert((a * a) as nat == v * v) by (nonlinear_arith)
            requires
                v == if a >= 0 {
                    a
                } else {
                    -a
                },
        ;
        lemma_isqrt_square(v);
        lemma_div_tz_self(a);
    } else {
        assert(spec_isqrt(0) == 0);
    }
    if a > 0 {
        vstd::arithmetic::div_mod::lemma_basic_div(0, a);
    } else if a < 0 {
        vstd::arithmetic::div_mod::lemma_basic_div(0, -a);
    }
}

/// A matrix is unchanged by composition with the identity on the right.
pub proof fn lemma_mul_identity_right(m: Mat4)
    ensures
        mat4_mul(m, crate::matrix::mat4_identity()) == m,
{
    let id = crate::matrix::mat4_identity();
    lemma_select_dot(m.x_axis.x as int, m.y_axis.x as int, m.z_axis.x as int, m.w_axis.x as int);
    lemma_select_dot(m.x_axis.y as int, m.y_axis.y as int, m.z_axis.y as int, m.w_axis.y as int);
    lemma_select_dot(m.x_axis.z as int, m.y_axis.z as int, m.z_axis.z as int, m.w_axis.z as int);
    lemma_select_dot(m.x_axis.w as int, m.y_axis.w as int, m.z_axis.w as int, m.w_axis.w as int);
    assert(crate::matrix::mat4_apply(m, id.x_axis) == m.x_axis);
    assert(crate::matrix::mat4_apply(m, id.y_axis) == m.y_axis);
    assert(crate::matrix::mat4_apply(m, id.z_axis) == m.z_axis);
    assert(crate::matrix::mat4_apply(m, id.w_axis) == m.w_axis);
}

/// A dot product against a unit coordinate vector selects one operand.
proof fn lemma_select_dot(e: int, f: int, g: int, h: int)
    ensures
        e * 1 + f * 0 + g * 0 + h * 0 == e,
        e * 0 + f * 1 + g * 0 + h * 0 == f,
        e * 0 + f * 0 + g * 1 + h * 0 == g,
        e * 0 + f * 0 + g * 0 + h * 1 == h,
{
    assert(e * 1 + f * 0 + g * 0 + h * 0 == e && e * 0 + f * 1 + g * 0 + h * 0 == f && e * 0 + f
        * 0 + g * 1 + h * 0 == g && e * 0 + f * 0 + g * 0 + h * 1 == h) by (nonlinear_arith);
}

/// The local matrix of the identity spatial pose is the identity matrix.
pub proof fn lemma_identity_pose_matrix()
    ensures
        transform3d_matrix(transform3d_identity()) == crate::matrix::mat4_identity(),
{
}

/// A parent stripped to `OnlyTranslation`, composed with a child whose
/// local pose is the identity, is exactly the pure translation matrix of
/// the parent's translation column, whatever rotation or scale the
/// parent carried.
pub proof fn lemma_only_translation(m: Mat4)
    ensures
        mat4_mul(
            constrain4(m, TransformPropagationConstraint::OnlyTranslation),
            transform3d_matrix(transform3d_identity()),
        ) == (Mat4 {
            x_axis: vec4_new(1, 0, 0, 0),
            y_axis: vec4_new(0, 1, 0, 0),
            z_axis: vec4_new(0, 0, 1, 0),
            w_axis: m.w_axis,
        }),
{
    lemma_identity_pose_matrix();
    lemma_mul_identity_right(constrain4(m, TransformPropagationConstraint::OnlyTranslation));
}

/// The planar analogue of [`lemma_no_scale_axis_aligned`].
pub proof fn lemma_no_scale_axis_aligned_2d(m: crate::matrix::Mat3)
    requires
        m.x_axis.y == 0 && m.x_axis.z == 0,
        m.y_axis.x == 0 && m.y_axis.z == 0,
    ensures
        constrain3(m, TransformPropagationConstraint::NoScale) == (crate::matrix::Mat3 {
            x_axis: vec3_new(if m.x_axis.x == 0 { 1 } else if m.x_axis.x > 0 { 1 } else { -1 },
                0, 0),
            y_axis: vec3_new(0, if m.y_axis.y == 0 { 1 } else if m.y_axis.y > 0 { 1 } else { -1 },
                0),
            z_axis: m.z_axis,
        }),
{
    lemma_axis_normal(m.x_axis.x as int);
    lemma_axis_normal(m.y_axis.y as int);
}

} // verus!
