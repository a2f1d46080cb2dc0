//! The node arena and the propagation passes.
//!
//! Nodes live in a flat arena; every parent index is smaller than its
//! child's index, which both rules out cycles and lets each pass resolve
//! parents before children in one ascending sweep.  A node may carry a
//! planar or a spatial local pose, or none; a pose-less node is excluded
//! from every pass and is transparent to its descendants' resolution: a
//! node's *resolution ancestor* is its nearest pose-bearing ancestor.

use vstd::prelude::*;

verus! {

use crate::constraint::{constrain3, constrain4, TransformPropagationConstraint};
use crate::matrix::{mat3_embed, mat3_identity, mat3_mul, mat4_identity, mat4_mul, Mat3, Mat4};
use crate::pose::{
    shear_matrix, transform2d_matrix, transform3d_matrix, Shear, Transform2D, Transform3D,
};

/// A node's locally authored pose: exactly one representation at a time.
#[derive(Clone, Copy, Debug, PartialEq, Eq, Structural)]
pub enum LocalPose {
    /// Planar pose, resolved through 3×3 matrices.
    TwoD(Transform2D),
    /// Spatial pose, resolved through 4×4 matrices.
    ThreeD(Transform3D),
}

/// One arena slot.
#[derive(Clone, Copy, Debug, PartialEq, Eq, Structural)]
pub struct Node {
    /// Index of the parent slot; always smaller than this node's own index.
    pub parent: Option<usize>,
    /// The locally authored pose, if any.
    pub pose: Option<LocalPose>,
    /// Optional spatial shear, composed to the left of a spatial pose.
    pub shear: Option<Shear>,
    /// What this node inherits from its resolved parent matrix.
    pub constraint: TransformPropagationConstraint,
    /// A node marked non-propagating is still updated itself, but no pass
    /// descends below it.
    pub dont_propagate: bool,
    /// Local pose, shear or constraint changed since the last cycle.
    pub changed: bool,
    /// Parent link or pose representation changed since the last tagging.
    pub structure_changed: bool,
    /// Tag: planar node acting as a root relative to spatial context.
    pub root_2d: bool,
    /// Tag: spatial node whose resolution ancestor is planar.
    pub child_of_2d: bool,
    /// Cached planar world matrix (planar resolution).
    pub world2: Mat3,
    /// Cached spatial world matrix (spatial and bridged resolution).
    pub world4: Mat4,
}

/// Parent indices point strictly downward in the arena.
pub open spec fn wf(s: Seq<Node>) -> bool {
    forall|i: int|
        0 <= i < s.len() && s[i].parent is Some ==> 0 <= s[i].parent->0 < i
}

pub open spec fn has_pose(s: Seq<Node>, i: int) -> bool {
    0 <= i < s.len() && s[i].pose is Some
}

pub open spec fn is_2d(s: Seq<Node>, i: int) -> bool {
    0 <= i < s.len() && s[i].pose matches Some(LocalPose::TwoD(_))
}

pub open spec fn is_3d(s: Seq<Node>, i: int) -> bool {
    0 <= i < s.len() && s[i].pose matches Some(LocalPose::ThreeD(_))
}

/// Nearest pose-bearing strict ancestor: the node this one resolves
/// against.
pub open spec fn npa(s: Seq<Node>, i: int) -> Option<int>
    decreases i,
{
    if 0 <= i < s.len() && s[i].parent is Some {
        let p = s[i].parent->0 as int;
        if 0 <= p < i {
            if has_pose(s, p) {
                Some(p)
            } else {
                npa(s, p)
            }
        } else {
            None
        }
    } else {
        None
    }
}

/// The resolution ancestor is itself a smaller, pose-bearing index.
pub proof fn lemma_npa_lt(s: Seq<Node>, i: int)
    ensures
        npa(s, i) is Some ==> 0 <= npa(s, i)->0 < i && has_pose(s, npa(s, i)->0),
    decreases i,
{
    if 0 <= i < s.len() && s[i].parent is Some {
        let p = s[i].parent->0 as int;
        if 0 <= p < i && !has_pose(s, p) {
            lemma_npa_lt(s, p);
        }
    }
}

/// Some strict ancestor is marked non-propagating, so no pass reaches
/// this node.
pub open spec fn blocked(s: Seq<Node>, i: int) -> bool
    decreases i,
{
    if 0 <= i < s.len() && s[i].parent is Some {
        let p = s[i].parent->0 as int;
        if 0 <= p < i {
            s[p].dont_propagate || blocked(s, p)
        } else {
            false
        }
    } else {
        false
    }
}

/// Effective change flag: the node's own flag, or a change anywhere on
/// its resolution-ancestor chain.
pub open spec fn eff(s: Seq<Node>, i: int) -> bool
    decreases i,
{
    s[i].changed || {
        let q = npa(s, i);
        q is Some && 0 <= q->0 < i && eff(s, q->0)
    }
}

/// A spatial node somewhere below a planar node: its spatial resolution
/// is seeded across the bridge.
pub open spec fn bridged(s: Seq<Node>, i: int) -> bool
    decreases i,
{
    let q = npa(s, i);
    q is Some && 0 <= q->0 < i && (is_2d(s, q->0) || bridged(s, q->0))
}

/// `a` lies on the strict parent chain above `i`.
pub open spec fn is_ancestor(s: Seq<Node>, a: int, i: int) -> bool
    decreases i,
{
    if 0 <= i < s.len() && s[i].parent is Some {
        let p = s[i].parent->0 as int;
        if 0 <= p < i {
            p == a || is_ancestor(s, a, p)
        } else {
            false
        }
    } else {
        false
    }
}

/// The planar local matrix of a planar node.
pub open spec fn node_local2(n: Node) -> Mat3
    recommends
        n.pose matches Some(LocalPose::TwoD(_)),
{
    transform2d_matrix(n.pose->0->TwoD_0)
}

/// The spatial local matrix of a posed node: a spatial pose with its
/// optional shear composed in front, a planar pose embedded.
pub open spec fn node_local4(n: Node) -> Mat4
    recommends
        n.pose is Some,
{
    if n.pose matches Some(LocalPose::ThreeD(_)) {
        let trs = transform3d_matrix(n.pose->0->ThreeD_0);
        match n.shear {
            Some(sh) => mat4_mul(shear_matrix(sh), trs),
            None => trs,
        }
    } else {
        mat3_embed(node_local2(n))
    }
}

pub open spec fn local2(s: Seq<Node>, i: int) -> Mat3
    recommends
        is_2d(s, i),
{
    node_local2(s[i])
}

pub open spec fn local4(s: Seq<Node>, i: int) -> Mat4
    recommends
        has_pose(s, i),
{
    node_local4(s[i])
}

/// The fully resolved planar world matrix: compose against the
/// constrained resolution ancestor whenever that ancestor is planar too,
/// otherwise the node is a planar root.
pub open spec fn spec_world2(s: Seq<Node>, i: int) -> Mat3
    recommends
        is_2d(s, i),
    decreases i,
{
    let q = npa(s, i);
    if q is Some && 0 <= q->0 < i && is_2d(s, q->0) {
        mat3_mul(constrain3(spec_world2(s, q->0), s[i].constraint), local2(s, i))
    } else {
        local2(s, i)
    }
}

/// The fully resolved spatial world matrix of any posed node: every
/// composition step strips the parent factor through the node's
/// constraint; planar local matrices enter embedded.
pub open spec fn spec_world4(s: Seq<Node>, i: int) -> Mat4
    recommends
        has_pose(s, i),
    decreases i,
{
    let q = npa(s, i);
    if q is Some && 0 <= q->0 < i {
        mat4_mul(constrain4(spec_world4(s, q->0), s[i].constraint), local4(s, i))
    } else {
        local4(s, i)
    }
}

/// Tag condition: a planar node whose resolution context is spatial or
/// absent.
pub open spec fn want_root_2d(s: Seq<Node>, i: int) -> bool {
    is_2d(s, i) && match npa(s, i) {
        Some(p) => is_3d(s, p),
        None => true,
    }
}

/// Tag condition: a spatial node resolving against a planar ancestor.
pub open spec fn want_child_of_2d(s: Seq<Node>, i: int) -> bool {
    is_3d(s, i) && match npa(s, i) {
        Some(p) => is_2d(s, p),
        None => false,
    }
}

/// The pass pipeline resolves this node's spatial matrix within a single
/// cycle.  The fixed pass order crosses the planar/spatial boundary once
/// in each direction; a planar node sitting below a bridged spatial node
/// would need a further round and stays a cycle behind instead.
pub open spec fn chain_ok(s: Seq<Node>, i: int) -> bool
    decreases i,
{
    let q = npa(s, i);
    if q is Some && 0 <= q->0 < i {
        chain_ok(s, q->0) && !(is_2d(s, i) && is_3d(s, q->0) && bridged(s, q->0))
    } else {
        true
    }
}

/// Pass membership: spatial nodes in purely spatial context.
pub open spec fn in_pass_3d(s: Seq<Node>, i: int) -> bool {
    is_3d(s, i) && !bridged(s, i)
}

/// Pass membership: spatial nodes below a planar bridge.
pub open spec fn in_pass_bridge(s: Seq<Node>, i: int) -> bool {
    is_3d(s, i) && bridged(s, i)
}

/// A pass recomputes a node when it belongs to the pass, no ancestor
/// blocks propagation, and a change reaches it along its chain.
pub open spec fn recompute(s: Seq<Node>, i: int, member: bool) -> bool {
    member && !blocked(s, i) && eff(s, i)
}

/// Spatial world matrices as the purely spatial pass leaves them,
/// relative to the state `s` the pass started from.
pub open spec fn stage_3d(s: Seq<Node>, i: int) -> Mat4
    decreases i,
{
    if recompute(s, i, in_pass_3d(s, i)) {
        let q = npa(s, i);
        if q is Some && 0 <= q->0 < i {
            mat4_mul(constrain4(stage_3d(s, q->0), s[i].constraint), local4(s, i))
        } else {
            local4(s, i)
        }
    } else {
        s[i].world4
    }
}

/// Planar world matrices as the planar pass leaves them, relative to the
/// state `s` the pass started from.
pub open spec fn stage_2d(s: Seq<Node>, i: int) -> Mat3
    decreases i,
{
    if recompute(s, i, is_2d(s, i)) {
        let q = npa(s, i);
        if q is Some && 0 <= q->0 < i && is_2d(s, q->0) {
            mat3_mul(constrain3(stage_2d(s, q->0), s[i].constraint), local2(s, i))
        } else {
            local2(s, i)
        }
    } else {
        s[i].world2
    }
}

/// Spatial world matrices of planar nodes as the bridging pass leaves
/// them: each planar local matrix enters embedded; a spatial resolution
/// ancestor's matrix is read as the pass found it in `s`.
pub open spec fn stage_2d5(s: Seq<Node>, i: int) -> Mat4
    decreases i,
{
    if recompute(s, i, is_2d(s, i)) {
        let q = npa(s, i);
        if q is Some && 0 <= q->0 < i {
            let seed = if is_2d(s, q->0) {
                stage_2d5(s, q->0)
            } else {
                s[q->0].world4
            };
            mat4_mul(constrain4(seed, s[i].constraint), local4(s, i))
        } else {
            local4(s, i)
        }
    } else {
        s[i].world4
    }
}

/// Spatial world matrices of bridged spatial nodes as the final pass
/// leaves them: a planar resolution ancestor's bridged matrix is read as
/// the pass found it in `s`.
pub open spec fn stage_bridge(s: Seq<Node>, i: int) -> Mat4
    decreases i,
{
    if recompute(s, i, in_pass_bridge(s, i)) {
        let q = npa(s, i);
        if q is Some && 0 <= q->0 < i {
            let seed = if is_2d(s, q->0) {
                s[q->0].world4
            } else {
                stage_bridge(s, q->0)
            };
            mat4_mul(constrain4(seed, s[i].constraint), local4(s, i))
        } else {
            local4(s, i)
        }
    } else {
        s[i].world4
    }
}

/// `a` and `b` agree on every field that resolution reads: parent links,
/// poses, shears, constraints and propagation stops.  The change flags,
/// cached matrices and tag markers may differ.
pub open spec fn same_skeleton(a: Seq<Node>, b: Seq<Node>) -> bool {
    &&& a.len() == b.len()
    &&& forall|j: int|
        0 <= j < a.len() ==> {
            &&& (#[trigger] a[j]).parent == b[j].parent
            &&& a[j].pose == b[j].pose
            &&& a[j].shear == b[j].shear
            &&& a[j].constraint == b[j].constraint
            &&& a[j].dont_propagate == b[j].dont_propagate
        }
}

/// Every derived notion is a function of the skeleton alone.
pub proof fn lemma_skeleton_congruence(a: Seq<Node>, b: Seq<Node>, i: int)
    requires
        same_skeleton(a, b),
    ensures
        npa(a, i) == npa(b, i),
        blocked(a, i) == blocked(b, i),
        bridged(a, i) == bridged(b, i),
        chain_ok(a, i) == chain_ok(b, i),
        has_pose(a, i) ==> local4(a, i) == local4(b, i),
        is_2d(a, i) ==> local2(a, i) == local2(b, i),
        has_pose(a, i) ==> spec_world4(a, i) == spec_world4(b, i),
        is_2d(a, i) ==> spec_world2(a, i) == spec_world2(b, i),
    decreases i,
{
    lemma_npa_lt(a, i);
    lemma_npa_lt(b, i);
    if 0 <= i < a.len() && a[i].parent is Some {
        let p = a[i].parent->0 as int;
        if 0 <= p < i {
            lemma_skeleton_congruence(a, b, p);
        }
    }
    let q = npa(a, i);
    if q is Some && 0 <= q->0 < i {
        let p = q->0;
        lemma_skeleton_congruence(a, b, p);
        assert(a[p].pose == b[p].pose);
    }
    if 0 <= i < a.len() {
        assert(a[i].pose == b[i].pose && a[i].shear == b[i].shear && a[i].constraint
            == b[i].constraint);
        assert(node_local4(a[i]) == node_local4(b[i])) by {
            if a[i].pose matches Some(LocalPose::ThreeD(t)) {
                assert(b[i].pose == a[i].pose);
            }
        }
    }
}

/// With equal change flags on an equal skeleton, the effective change
/// flags agree too.
pub proof fn lemma_eff_congruence(a: Seq<Node>, b: Seq<Node>, i: int)
    requires
        same_skeleton(a, b),
        forall|j: int| 0 <= j < a.len() ==> (#[trigger] a[j]).changed == b[j].changed,
        0 <= i < a.len(),
    ensures
        eff(a, i) == eff(b, i),
    decreases i,
{
    lemma_skeleton_congruence(a, b, i);
    lemma_npa_lt(a, i);
    let q = npa(a, i);
    if q is Some && 0 <= q->0 < i {
        lemma_eff_congruence(a, b, q->0);
    }
}

/// A spatial node in purely spatial context is always resolved within
/// the cycle.
pub proof fn lemma_pass3d_chain_ok(s: Seq<Node>, i: int)
    ensures
        in_pass_3d(s, i) ==> chain_ok(s, i),
    decreases i,
{
    if in_pass_3d(s, i) {
        lemma_npa_lt(s, i);
        let q = npa(s, i);
        if q is Some && 0 <= q->0 < i {
            let p = q->0;
            assert(!is_2d(s, p) && !bridged(s, p));
            assert(is_3d(s, p));
            lemma_pass3d_chain_ok(s, p);
        }
    }
}

/// Propagation stops are inherited down the chain: a blocked resolution
/// ancestor means a blocked node.
pub proof fn lemma_blocked_npa(s: Seq<Node>, i: int)
    ensures
        npa(s, i) matches Some(q) && blocked(s, q) ==> blocked(s, i),
    decreases i,
{
    if 0 <= i < s.len() && s[i].parent is Some {
        let p = s[i].parent->0 as int;
        if 0 <= p < i && !has_pose(s, p) {
            lemma_blocked_npa(s, p);
        }
    }
}

/// Well-formedness depends on the parent links alone.
pub proof fn lemma_wf_preserved(a: Seq<Node>, b: Seq<Node>)
    requires
        wf(a),
        a.len() == b.len(),
        forall|j: int| 0 <= j < a.len() ==> (#[trigger] b[j]).parent == a[j].parent,
    ensures
        wf(b),
{
}

/// Nodes whose spatial cache is already current stay current through the
/// purely spatial pass, and every unblocked member node ends up exactly
/// at its fully resolved matrix.
pub proof fn lemma_stage_3d_correct(s: Seq<Node>, i: int)
    requires
        wf(s),
        forall|j: int|
            0 <= j < s.len() && in_pass_3d(s, j) && !blocked(s, j) && !eff(s, j)
                ==> (#[trigger] s[j]).world4 == spec_world4(s, j),
    ensures
        in_pass_3d(s, i) && !blocked(s, i) ==> stage_3d(s, i) == spec_world4(s, i),
    decreases i,
{
    if in_pass_3d(s, i) && !blocked(s, i) {
        lemma_npa_lt(s, i);
        lemma_blocked_npa(s, i);
        let q = npa(s, i);
        if eff(s, i) {
            if q is Some && 0 <= q->0 < i {
                let p = q->0;
                assert(is_3d(s, p) && !bridged(s, p));
                assert(!blocked(s, p));
                lemma_stage_3d_correct(s, p);
                if !eff(s, p) {
                    assert(stage_3d(s, p) == s[p].world4);
                }
            }
        }
    }
}

/// The planar analogue of [`lemma_stage_3d_correct`].
pub proof fn lemma_stage_2d_correct(s: Seq<Node>, i: int)
    requires
        wf(s),
        forall|j: int|
            0 <= j < s.len() && is_2d(s, j) && !blocked(s, j) && !eff(s, j)
                ==> (#[trigger] s[j]).world2 == spec_world2(s, j),
    ensures
        is_2d(s, i) && !blocked(s, i) ==> stage_2d(s, i) == spec_world2(s, i),
    decreases i,
{
    if is_2d(s, i) && !blocked(s, i) {
        lemma_npa_lt(s, i);
        lemma_blocked_npa(s, i);
        let q = npa(s, i);
        if eff(s, i) {
            if q is Some && 0 <= q->0 < i && is_2d(s, q->0) {
                lemma_stage_2d_correct(s, q->0);
            }
        }
    }
}

/// After the purely spatial pass has resolved the spatial context, the
/// bridging pass resolves every unblocked planar node whose chain the
/// pipeline covers in one cycle.
pub proof fn lemma_stage_2d5_correct(s: Seq<Node>, i: int)
    requires
        wf(s),
        forall|j: int|
            0 <= j < s.len() && in_pass_3d(s, j) && !blocked(s, j)
                ==> (#[trigger] s[j]).world4 == spec_world4(s, j),
        forall|j: int|
            0 <= j < s.len() && is_2d(s, j) && !blocked(s, j) && !eff(s, j) && chain_ok(s, j)
                ==> (#[trigger] s[j]).world4 == spec_world4(s, j),
    ensures
        is_2d(s, i) && !blocked(s, i) && chain_ok(s, i) ==> stage_2d5(s, i) == spec_world4(s, i),
    decreases i,
{
    if is_2d(s, i) && !blocked(s, i) && chain_ok(s, i) {
        lemma_npa_lt(s, i);
        lemma_blocked_npa(s, i);
        let q = npa(s, i);
        if eff(s, i) {
            if q is Some && 0 <= q->0 < i {
                let p = q->0;
                assert(!blocked(s, p) && chain_ok(s, p));
                if is_2d(s, p) {
                    lemma_stage_2d5_correct(s, p);
                } else {
                    assert(is_3d(s, p));
                    assert(!bridged(s, p));
                }
            }
        }
    }
}

/// After the bridging pass has resolved the planar bridges, the final
/// pass resolves every unblocked bridged spatial node the pipeline
/// covers.
pub proof fn lemma_stage_bridge_correct(s: Seq<Node>, i: int)
    requires
        wf(s),
        forall|j: int|
            0 <= j < s.len() && is_2d(s, j) && !blocked(s, j) && chain_ok(s, j)
                ==> (#[trigger] s[j]).world4 == spec_world4(s, j),
        forall|j: int|
            0 <= j < s.len() && in_pass_bridge(s, j) && !blocked(s, j) && !eff(s, j) && chain_ok(
                s,
                j,
            ) ==> (#[trigger] s[j]).world4 == spec_world4(s, j),
    ensures
        in_pass_bridge(s, i) && !blocked(s, i) && chain_ok(s, i) ==> stage_bridge(s, i)
            == spec_world4(s, i),
    decreases i,
{
    if in_pass_bridge(s, i) && !blocked(s, i) && chain_ok(s, i) {
        lemma_npa_lt(s, i);
        lemma_blocked_npa(s, i);
        let q = npa(s, i);
        if eff(s, i) {
            if q is Some && 0 <= q->0 < i {
                let p = q->0;
                assert(!blocked(s, p) && chain_ok(s, p));
                if is_2d(s, p) {
                } else {
                    assert(is_3d(s, p) && bridged(s, p));
                    lemma_stage_bridge_correct(s, p);
                }
            }
        }
    }
}

/// The resolution ancestor lies on the ancestor chain.
pub proof fn lemma_npa_is_ancestor(s: Seq<Node>, i: int)
    ensures
        npa(s, i) matches Some(q) ==> is_ancestor(s, q, i),
    decreases i,
{
    if 0 <= i < s.len() && s[i].parent is Some {
        let p = s[i].parent->0 as int;
        if 0 <= p < i && !has_pose(s, p) {
            lemma_npa_is_ancestor(s, p);
        }
    }
}

/// Ancestry is transitive.
pub proof fn lemma_ancestor_trans(s: Seq<Node>, x: int, y: int, z: int)
    requires
        is_ancestor(s, x, y),
        is_ancestor(s, y, z),
    ensures
        is_ancestor(s, x, z),
    decreases z,
{
    if 0 <= z < s.len() && s[z].parent is Some {
        let p = s[z].parent->0 as int;
        if 0 <= p < z {
            if p != y && is_ancestor(s, y, p) {
                lemma_ancestor_trans(s, x, y, p);
            }
        }
    }
}

/// Editing one node and its subtree leaves everything derived about the
/// nodes outside that subtree untouched, whatever was written inside it.
pub proof fn lemma_subtree_congruence(a: Seq<Node>, b: Seq<Node>, k: int, i: int)
    requires
        a.len() == b.len(),
        forall|j: int|
            0 <= j < a.len() && j != k && !is_ancestor(a, k, j) ==> #[trigger] b[j] == a[j],
        0 <= i < a.len(),
        i != k,
        !is_ancestor(a, k, i),
    ensures
        b[i] == a[i],
        npa(b, i) == npa(a, i),
        blocked(b, i) == blocked(a, i),
        eff(b, i) == eff(a, i),
        bridged(b, i) == bridged(a, i),
        chain_ok(b, i) == chain_ok(a, i),
        has_pose(a, i) ==> spec_world4(b, i) == spec_world4(a, i),
        is_2d(a, i) ==> spec_world2(b, i) == spec_world2(a, i),
        want_root_2d(b, i) == want_root_2d(a, i),
        want_child_of_2d(b, i) == want_child_of_2d(a, i),
    decreases i,
{
    if a[i].parent is Some {
        let p = a[i].parent->0 as int;
        if 0 <= p < i {
            assert(!is_ancestor(a, k, i));
            assert(p != k);
            if is_ancestor(a, k, p) {
                assert(is_ancestor(a, k, i));
            }
            lemma_subtree_congruence(a, b, k, p);
        }
    }
    lemma_npa_lt(a, i);
    lemma_npa_is_ancestor(a, i);
    let q = npa(a, i);
    if q is Some && 0 <= q->0 < i {
        let qq = q->0;
        assert(is_ancestor(a, qq, i));
        assert(qq != k);
        if is_ancestor(a, k, qq) {
            lemma_ancestor_trans(a, k, qq, i);
        }
        lemma_subtree_congruence(a, b, k, qq);
    }
}

/// Rewriting one node's pose value (same representation), shear,
/// constraint or change flag leaves the structure of the whole arena
/// unchanged, and every node whose chain the edit does not reach keeps
/// its resolution.
pub proof fn lemma_value_change(a: Seq<Node>, b: Seq<Node>, k: int, i: int)
    requires
        a.len() == b.len(),
        0 <= k < a.len(),
        forall|j: int| 0 <= j < a.len() && j != k ==> #[trigger] b[j] == a[j],
        b[k].parent == a[k].parent,
        b[k].dont_propagate == a[k].dont_propagate,
        b[k].structure_changed == a[k].structure_changed,
        b[k].root_2d == a[k].root_2d,
        b[k].child_of_2d == a[k].child_of_2d,
        (b[k].pose matches Some(LocalPose::TwoD(_))) == (a[k].pose matches Some(
            LocalPose::TwoD(_),
        )),
        (b[k].pose matches Some(LocalPose::ThreeD(_))) == (a[k].pose matches Some(
            LocalPose::ThreeD(_),
        )),
        b[k].changed,
        0 <= i < a.len(),
    ensures
        npa(b, i) == npa(a, i),
        blocked(b, i) == blocked(a, i),
        bridged(b, i) == bridged(a, i),
        chain_ok(b, i) == chain_ok(a, i),
        want_root_2d(b, i) == want_root_2d(a, i),
        want_child_of_2d(b, i) == want_child_of_2d(a, i),
        i != k && !eff(b, i) ==> {
            &&& !eff(a, i)
            &&& (has_pose(a, i) ==> spec_world4(b, i) == spec_world4(a, i))
            &&& (is_2d(a, i) ==> spec_world2(b, i) == spec_world2(a, i))
        },
    decreases i,
{
    if a[i].parent is Some {
        let p = a[i].parent->0 as int;
        if 0 <= p < i {
            lemma_value_change(a, b, k, p);
        }
    }
    lemma_npa_lt(a, i);
    let q = npa(a, i);
    if q is Some && 0 <= q->0 < i {
        lemma_value_change(a, b, k, q->0);
    }
    if i != k && !eff(b, i) {
        if q is Some && 0 <= q->0 < i {
            let qq = q->0;
            if qq == k {
                assert(eff(b, qq));
                assert(eff(b, i));
            }
        }
    }
}

/// No node is its own ancestor, nor an ancestor of a smaller index.
pub proof fn lemma_ancestor_ge(s: Seq<Node>, k: int, j: int)
    requires
        j <= k,
    ensures
        !is_ancestor(s, k, j),
    decreases j,
{
    if 0 <= j < s.len() && s[j].parent is Some {
        let p = s[j].parent->0 as int;
        if 0 <= p < j {
            lemma_ancestor_ge(s, k, p);
        }
    }
}

/// Appending a node leaves everything derived about the existing nodes
/// unchanged.
pub proof fn lemma_push_congruence(a: Seq<Node>, b: Seq<Node>, i: int)
    requires
        a.len() <= b.len(),
        forall|j: int| 0 <= j < a.len() ==> #[trigger] b[j] == a[j],
        0 <= i < a.len(),
    ensures
        npa(b, i) == npa(a, i),
        blocked(b, i) == blocked(a, i),
        eff(b, i) == eff(a, i),
        bridged(b, i) == bridged(a, i),
        chain_ok(b, i) == chain_ok(a, i),
        has_pose(a, i) ==> spec_world4(b, i) == spec_world4(a, i),
        is_2d(a, i) ==> spec_world2(b, i) == spec_world2(a, i),
        want_root_2d(b, i) == want_root_2d(a, i),
        want_child_of_2d(b, i) == want_child_of_2d(a, i),
    decreases i,
{
    if a[i].parent is Some {
        let p = a[i].parent->0 as int;
        if 0 <= p < i {
            lemma_push_congruence(a, b, p);
        }
    }
    lemma_npa_lt(a, i);
    let q = npa(a, i);
    if q is Some && 0 <= q->0 < i {
        lemma_push_congruence(a, b, q->0);
    }
}

/// A structural edit that marks the edited node and its whole subtree
/// keeps the scene invariant, whatever it wrote inside the subtree.
pub proof fn lemma_subtree_edit_inv(a: Seq<Node>, b: Seq<Node>, k: int)
    requires
        inv(a),
        a.len() == b.len(),
        wf(b),
        forall|j: int|
            0 <= j < a.len() && j != k && !is_ancestor(a, k, j) ==> #[trigger] b[j] == a[j],
        forall|j: int|
            0 <= j < a.len() && (j == k || is_ancestor(a, k, j)) ==> (#[trigger] b[j]).changed
                && b[j].structure_changed,
    ensures
        inv(b),
{
    assert forall|j: int| 0 <= j < b.len() && !(#[trigger] b[j]).structure_changed implies tags_ok(
        b,
        j,
    ) by {
        assert(j != k && !is_ancestor(a, k, j));
        lemma_subtree_congruence(a, b, k, j);
        assert(tags_ok(a, j));
    }
    assert forall|j: int| 0 <= j < b.len() && !eff(b, j) implies #[trigger] worlds_ok(b, j) by {
        assert(!(j == k || is_ancestor(a, k, j)));
        lemma_subtree_congruence(a, b, k, j);
        assert(worlds_ok(a, j));
    }
}

/// A value edit on one node (same pose representation) that sets the
/// node's change flag keeps the scene invariant.
pub proof fn lemma_value_edit_inv(a: Seq<Node>, b: Seq<Node>, k: int)
    requires
        inv(a),
        a.len() == b.len(),
        0 <= k < a.len(),
        forall|j: int| 0 <= j < a.len() && j != k ==> #[trigger] b[j] == a[j],
        b[k].parent == a[k].parent,
        b[k].dont_propagate == a[k].dont_propagate,
        b[k].structure_changed == a[k].structure_changed,
        b[k].root_2d == a[k].root_2d,
        b[k].child_of_2d == a[k].child_of_2d,
        (b[k].pose matches Some(LocalPose::TwoD(_))) == (a[k].pose matches Some(
            LocalPose::TwoD(_),
        )),
        (b[k].pose matches Some(LocalPose::ThreeD(_))) == (a[k].pose matches Some(
            LocalPose::ThreeD(_),
        )),
        b[k].changed,
    ensures
        inv(b),
{
    assert(wf(b)) by {
        assert forall|j: int| 0 <= j < b.len() && b[j].parent is Some implies 0 <= b[j].parent->0
            < j by {
            if j != k {
                assert(b[j] == a[j]);
            }
        }
    }
    assert forall|j: int| 0 <= j < b.len() && !(#[trigger] b[j]).structure_changed implies tags_ok(
        b,
        j,
    ) by {
        lemma_value_change(a, b, k, j);
        assert(tags_ok(a, j));
    }
    assert forall|j: int| 0 <= j < b.len() && !eff(b, j) implies #[trigger] worlds_ok(b, j) by {
        assert(j != k);
        lemma_value_change(a, b, k, j);
        assert(worlds_ok(a, j));
    }
}

/// One full cycle stitched together: given the exact effect of each
/// pass on its own entry state, the final state carries current tags,
/// retired flags and fully resolved world matrices, and the invariant is
/// restored.
#[verifier::rlimit(100)]
pub proof fn lemma_cycle(
    s0: Seq<Node>,
    s1: Seq<Node>,
    s2: Seq<Node>,
    s3: Seq<Node>,
    s4: Seq<Node>,
    s5: Seq<Node>,
    s6: Seq<Node>,
)
    requires
        inv(s0),
        s1.len() == s0.len(),
        s2.len() == s0.len(),
        s3.len() == s0.len(),
        s4.len() == s0.len(),
        s5.len() == s0.len(),
        s6.len() == s0.len(),
        forall|j: int| 0 <= j < s0.len() ==> same_but_tags(#[trigger] s0[j], s1[j]),
        forall|j: int| 0 <= j < s0.len() ==> !(#[trigger] s1[j]).structure_changed,
        forall|j: int|
            0 <= j < s0.len() && s0[j].structure_changed ==> {
                &&& (#[trigger] s1[j]).root_2d == want_root_2d(s0, j)
                &&& s1[j].child_of_2d == want_child_of_2d(s0, j)
            },
        forall|j: int|
            0 <= j < s0.len() && !s0[j].structure_changed ==> {
                &&& (#[trigger] s1[j]).root_2d == s0[j].root_2d
                &&& s1[j].child_of_2d == s0[j].child_of_2d
            },
        forall|j: int| 0 <= j < s0.len() ==> same_but_world4(#[trigger] s1[j], s2[j]),
        forall|j: int| 0 <= j < s0.len() ==> (#[trigger] s2[j]).world4 == stage_3d(s1, j),
        forall|j: int| 0 <= j < s0.len() ==> same_but_world2(#[trigger] s2[j], s3[j]),
        forall|j: int| 0 <= j < s0.len() ==> (#[trigger] s3[j]).world2 == stage_2d(s2, j),
        forall|j: int| 0 <= j < s0.len() ==> same_but_world4(#[trigger] s3[j], s4[j]),
        forall|j: int| 0 <= j < s0.len() ==> (#[trigger] s4[j]).world4 == stage_2d5(s3, j),
        forall|j: int| 0 <= j < s0.len() ==> same_but_world4(#[trigger] s4[j], s5[j]),
        forall|j: int| 0 <= j < s0.len() ==> (#[trigger] s5[j]).world4 == stage_bridge(s4, j),
        forall|j: int| 0 <= j < s0.len() ==> same_but_changed(#[trigger] s5[j], s6[j]),
        forall|j: int| 0 <= j < s0.len() ==> !(#[trigger] s6[j]).changed,
    ensures
        forall|j: int| 0 <= j < s0.len() ==> same_but_derived(#[trigger] s0[j], s6[j]),
        forall|j: int|
            0 <= j < s0.len() ==> !(#[trigger] s6[j]).changed && !s6[j].structure_changed,
        forall|j: int| 0 <= j < s0.len() ==> #[trigger] tags_ok(s6, j),
        forall|j: int|
            0 <= j < s0.len() && has_pose(s6, j) && !blocked(s6, j) && chain_ok(s6, j) ==> (
            #[trigger] s6[j]).world4 == spec_world4(s6, j),
        forall|j: int|
            0 <= j < s0.len() && is_2d(s6, j) && !blocked(s6, j) ==> (#[trigger] s6[j]).world2
                == spec_world2(s6, j),
        forall|j: int|
            0 <= j < s0.len() && !eff(s0, j) ==> {
                &&& (#[trigger] s6[j]).world4 == s0[j].world4
                &&& s6[j].world2 == s0[j].world2
            },
        inv(s6),
{
    let n = s0.len() as int;

    // The skeleton and the change flags survive every pass.
    assert forall|j: int| 0 <= j < n implies #[trigger] same_but_derived(s0[j], s6[j]) by {
        assert(same_but_tags(s0[j], s1[j]));
        assert(same_but_world4(s1[j], s2[j]));
        assert(same_but_world2(s2[j], s3[j]));
        assert(same_but_world4(s3[j], s4[j]));
        assert(same_but_world4(s4[j], s5[j]));
        assert(same_but_changed(s5[j], s6[j]));
    }
    assert forall|j: int| 0 <= j < n implies !(#[trigger] s6[j]).structure_changed by {
        assert(same_but_world4(s1[j], s2[j]));
        assert(same_but_world2(s2[j], s3[j]));
        assert(same_but_world4(s3[j], s4[j]));
        assert(same_but_world4(s4[j], s5[j]));
        assert(same_but_changed(s5[j], s6[j]));
    }
    assert(same_skeleton(s0, s1) && same_skeleton(s0, s2) && same_skeleton(s0, s3)
        && same_skeleton(s0, s4) && same_skeleton(s0, s6)) by {
        assert forall|j: int| 0 <= j < n implies {
            &&& (#[trigger] s1[j]).parent == s0[j].parent && s1[j].pose == s0[j].pose
                && s1[j].shear == s0[j].shear && s1[j].constraint == s0[j].constraint
                && s1[j].dont_propagate == s0[j].dont_propagate
            &&& s2[j].parent == s0[j].parent && s2[j].pose == s0[j].pose && s2[j].shear
                == s0[j].shear && s2[j].constraint == s0[j].constraint && s2[j].dont_propagate
                == s0[j].dont_propagate
            &&& s3[j].parent == s0[j].parent && s3[j].pose == s0[j].pose && s3[j].shear
                == s0[j].shear && s3[j].constraint == s0[j].constraint && s3[j].dont_propagate
                == s0[j].dont_propagate
            &&& s4[j].parent == s0[j].parent && s4[j].pose == s0[j].pose && s4[j].shear
                == s0[j].shear && s4[j].constraint == s0[j].constraint && s4[j].dont_propagate
                == s0[j].dont_propagate
            &&& s6[j].parent == s0[j].parent && s6[j].pose == s0[j].pose && s6[j].shear
                == s0[j].shear && s6[j].constraint == s0[j].constraint && s6[j].dont_propagate
                == s0[j].dont_propagate
        } by {
            assert(same_but_tags(s0[j], s1[j]));
            assert(same_but_world4(s1[j], s2[j]));
            assert(same_but_world2(s2[j], s3[j]));
            assert(same_but_world4(s3[j], s4[j]));
            assert(same_but_world4(s4[j], s5[j]));
            assert(same_but_changed(s5[j], s6[j]));
        }
    }
    assert forall|j: int| 0 <= j < n implies (#[trigger] s1[j]).parent == s0[j].parent && (
    #[trigger] s2[j]).parent == s0[j].parent && (#[trigger] s3[j]).parent == s0[j].parent && (
    #[trigger] s4[j]).parent == s0[j].parent && (#[trigger] s6[j]).parent == s0[j].parent by {
        assert(same_but_tags(s0[j], s1[j]));
        assert(same_but_world4(s1[j], s2[j]));
        assert(same_but_world2(s2[j], s3[j]));
        assert(same_but_world4(s3[j], s4[j]));
        assert(same_but_world4(s4[j], s5[j]));
        assert(same_but_changed(s5[j], s6[j]));
    }
    lemma_wf_preserved(s0, s1);
    lemma_wf_preserved(s0, s2);
    lemma_wf_preserved(s0, s3);
    lemma_wf_preserved(s0, s4);
    lemma_wf_preserved(s0, s6);
    assert forall|j: int| 0 <= j < n implies (#[trigger] s4[j]).changed == s0[j].changed
        && s3[j].changed == s0[j].changed && s2[j].changed == s0[j].changed && s1[j].changed
        == s0[j].changed by {
        assert(same_but_tags(s0[j], s1[j]));
        assert(same_but_world4(s1[j], s2[j]));
        assert(same_but_world2(s2[j], s3[j]));
        assert(same_but_world4(s3[j], s4[j]));
    }

    // The purely spatial pass lands every unblocked node of its category
    // on the full composition.
    assert forall|j: int|
        0 <= j < n && in_pass_3d(s1, j) && !blocked(s1, j) && !eff(s1, j) implies (
    #[trigger] s1[j]).world4 == spec_world4(s1, j) by {
        lemma_skeleton_congruence(s0, s1, j);
        lemma_eff_congruence(s0, s1, j);
        assert(s1[j].pose == s0[j].pose);
        lemma_pass3d_chain_ok(s0, j);
        assert(worlds_ok(s0, j));
        assert(same_but_tags(s0[j], s1[j]));
    }
    assert forall|j: int| 0 <= j < n && in_pass_3d(s1, j) && !blocked(s1, j) implies (
    #[trigger] s2[j]).world4 == spec_world4(s0, j) by {
        lemma_stage_3d_correct(s1, j);
        lemma_skeleton_congruence(s0, s1, j);
    }

    // The purely planar pass lands every unblocked planar node on the
    // full planar composition.
    assert forall|j: int|
        0 <= j < n && is_2d(s2, j) && !blocked(s2, j) && !eff(s2, j) implies (
    #[trigger] s2[j]).world2 == spec_world2(s2, j) by {
        lemma_skeleton_congruence(s0, s2, j);
        lemma_eff_congruence(s0, s2, j);
        assert(s2[j].pose == s0[j].pose);
        assert(worlds_ok(s0, j));
        assert(same_but_tags(s0[j], s1[j]));
        assert(same_but_world4(s1[j], s2[j]));
    }
    assert forall|j: int| 0 <= j < n && is_2d(s2, j) && !blocked(s2, j) implies (
    #[trigger] s3[j]).world2 == spec_world2(s0, j) by {
        lemma_stage_2d_correct(s2, j);
        lemma_skeleton_congruence(s0, s2, j);
    }

    // The bridging pass: precondition, then conclusion.
    assert forall|j: int| 0 <= j < n && in_pass_3d(s3, j) && !blocked(s3, j) implies (
    #[trigger] s3[j]).world4 == spec_world4(s3, j) by {
        lemma_skeleton_congruence(s0, s3, j);
        lemma_skeleton_congruence(s0, s1, j);
        assert(s3[j].pose == s0[j].pose && s1[j].pose == s0[j].pose);
        assert(in_pass_3d(s1, j) && !blocked(s1, j));
        assert(same_but_world2(s2[j], s3[j]));
        assert(s3[j].world4 == s2[j].world4);
    }
    assert forall|j: int|
        0 <= j < n && is_2d(s3, j) && !blocked(s3, j) && !eff(s3, j) && chain_ok(s3, j) implies (
    #[trigger] s3[j]).world4 == spec_world4(s3, j) by {
        lemma_skeleton_congruence(s0, s3, j);
        lemma_skeleton_congruence(s0, s1, j);
        lemma_eff_congruence(s0, s3, j);
        assert(s3[j].pose == s0[j].pose && s1[j].pose == s0[j].pose);
        assert(worlds_ok(s0, j));
        // a planar node is outside the spatial pass, so its spatial
        // cache is still the entry value
        assert(!in_pass_3d(s1, j));
        assert(stage_3d(s1, j) == s1[j].world4);
        assert(same_but_tags(s0[j], s1[j]));
        assert(same_but_world2(s2[j], s3[j]));
    }
    assert forall|j: int|
        0 <= j < n && is_2d(s3, j) && !blocked(s3, j) && chain_ok(s3, j) implies (
    #[trigger] s4[j]).world4 == spec_world4(s0, j) by {
        lemma_stage_2d5_correct(s3, j);
        lemma_skeleton_congruence(s0, s3, j);
    }

    // The bridge-descendant pass: precondition, then conclusion.
    assert forall|j: int|
        0 <= j < n && is_2d(s4, j) && !blocked(s4, j) && chain_ok(s4, j) implies (
    #[trigger] s4[j]).world4 == spec_world4(s4, j) by {
        lemma_skeleton_congruence(s0, s4, j);
        lemma_skeleton_congruence(s0, s3, j);
        assert(s4[j].pose == s0[j].pose && s3[j].pose == s0[j].pose);
        assert(is_2d(s3, j) && !blocked(s3, j) && chain_ok(s3, j));
    }
    assert forall|j: int|
        0 <= j < n && in_pass_bridge(s4, j) && !blocked(s4, j) && !eff(s4, j) && chain_ok(
            s4,
            j,
        ) implies (#[trigger] s4[j]).world4 == spec_world4(s4, j) by {
        lemma_skeleton_congruence(s0, s4, j);
        lemma_skeleton_congruence(s0, s1, j);
        lemma_skeleton_congruence(s0, s3, j);
        lemma_eff_congruence(s0, s4, j);
        assert(s4[j].pose == s0[j].pose && s1[j].pose == s0[j].pose && s3[j].pose == s0[j].pose);
        assert(worlds_ok(s0, j));
        // a bridged spatial node is outside both earlier spatial passes,
        // so its cache is still the entry value
        assert(!in_pass_3d(s1, j) && !is_2d(s3, j));
        assert(stage_3d(s1, j) == s1[j].world4);
        assert(stage_2d5(s3, j) == s3[j].world4);
        assert(same_but_tags(s0[j], s1[j]));
        assert(same_but_world2(s2[j], s3[j]));
    }
    assert forall|j: int|
        0 <= j < n && in_pass_bridge(s4, j) && !blocked(s4, j) && chain_ok(s4, j) implies (
    #[trigger] s5[j]).world4 == spec_world4(s0, j) by {
        lemma_stage_bridge_correct(s4, j);
        lemma_skeleton_congruence(s0, s4, j);
    }

    // Assemble the final state: matrices.
    assert forall|j: int|
        0 <= j < n && has_pose(s6, j) && !blocked(s6, j) && chain_ok(s6, j) implies (
    #[trigger] s6[j]).world4 == spec_world4(s6, j) by {
        lemma_skeleton_congruence(s0, s6, j);
        lemma_skeleton_congruence(s0, s1, j);
        lemma_skeleton_congruence(s0, s3, j);
        lemma_skeleton_congruence(s0, s4, j);
        assert(s6[j].pose == s0[j].pose && s1[j].pose == s0[j].pose && s3[j].pose == s0[j].pose
            && s4[j].pose == s0[j].pose);
        assert(same_but_changed(s5[j], s6[j]));
        if is_2d(s0, j) {
            // settled by the bridging pass, untouched afterwards
            assert(!in_pass_bridge(s4, j));
            assert(stage_bridge(s4, j) == s4[j].world4);
        } else if bridged(s0, j) {
            // settled by the final pass
            assert(in_pass_bridge(s4, j) && !blocked(s4, j) && chain_ok(s4, j));
        } else {
            // settled by the purely spatial pass, untouched afterwards
            assert(in_pass_3d(s1, j) && !blocked(s1, j));
            assert(same_but_world2(s2[j], s3[j]));
            assert(!is_2d(s3, j));
            assert(stage_2d5(s3, j) == s3[j].world4);
            assert(!in_pass_bridge(s4, j));
            assert(stage_bridge(s4, j) == s4[j].world4);
        }
    }
    assert forall|j: int| 0 <= j < n && is_2d(s6, j) && !blocked(s6, j) implies (
    #[trigger] s6[j]).world2 == spec_world2(s6, j) by {
        lemma_skeleton_congruence(s0, s6, j);
        lemma_skeleton_congruence(s0, s2, j);
        assert(s6[j].pose == s0[j].pose && s2[j].pose == s0[j].pose);
        assert(is_2d(s2, j) && !blocked(s2, j));
        assert(same_but_world4(s3[j], s4[j]));
        assert(same_but_world4(s4[j], s5[j]));
        assert(same_but_changed(s5[j], s6[j]));
        assert(s6[j].world2 == s3[j].world2);
    }

    // Bit-stability for clean chains.
    assert forall|j: int| 0 <= j < n && !eff(s0, j) implies (#[trigger] s6[j]).world4
        == s0[j].world4 && s6[j].world2 == s0[j].world2 by {
        lemma_eff_congruence(s0, s1, j);
        lemma_eff_congruence(s0, s2, j);
        lemma_eff_congruence(s0, s3, j);
        lemma_eff_congruence(s0, s4, j);
        assert(stage_3d(s1, j) == s1[j].world4);
        assert(stage_2d(s2, j) == s2[j].world2);
        assert(stage_2d5(s3, j) == s3[j].world4);
        assert(stage_bridge(s4, j) == s4[j].world4);
        assert(same_but_tags(s0[j], s1[j]));
        assert(same_but_world4(s1[j], s2[j]));
        assert(same_but_world2(s2[j], s3[j]));
        assert(same_but_world4(s3[j], s4[j]));
        assert(same_but_world4(s4[j], s5[j]));
        assert(same_but_changed(s5[j], s6[j]));
    }

    // Tags are current everywhere.
    assert forall|j: int| 0 <= j < n implies #[trigger] tags_ok(s6, j) by {
        lemma_skeleton_congruence(s0, s6, j);
        lemma_npa_lt(s0, j);
        assert(s6[j].pose == s0[j].pose);
        if npa(s0, j) is Some {
            let p = npa(s0, j)->0;
            assert(same_but_derived(s0[p], s6[p]));
        }
        assert(same_but_world4(s1[j], s2[j]));
        assert(same_but_world2(s2[j], s3[j]));
        assert(same_but_world4(s3[j], s4[j]));
        assert(same_but_world4(s4[j], s5[j]));
        assert(same_but_changed(s5[j], s6[j]));
        if s0[j].structure_changed {
            assert(s1[j].root_2d == want_root_2d(s0, j));
        } else {
            assert(tags_ok(s0, j));
        }
    }

    // The invariant is restored.
    assert forall|j: int| 0 <= j < n && !eff(s6, j) implies #[trigger] worlds_ok(s6, j) by {}
}

/// All fields of `b` agree with `a` except possibly `world4`.
pub open spec fn same_but_world4(a: Node, b: Node) -> bool {
    b == (Node { world4: b.world4, ..a })
}

/// All fields of `b` agree with `a` except possibly `world2`.
pub open spec fn same_but_world2(a: Node, b: Node) -> bool {
    b == (Node { world2: b.world2, ..a })
}

/// All fields of `b` agree with `a` except possibly the two tag markers
/// and the structure flag.
pub open spec fn same_but_tags(a: Node, b: Node) -> bool {
    b == (Node {
        root_2d: b.root_2d,
        child_of_2d: b.child_of_2d,
        structure_changed: b.structure_changed,
        ..a
    })
}

/// All fields of `b` agree with `a` except possibly `changed`.
pub open spec fn same_but_changed(a: Node, b: Node) -> bool {
    b == (Node { changed: b.changed, ..a })
}

/// All fields of `b` agree with `a` except possibly those the cycle
/// derives: tags, flags and cached matrices.
pub open spec fn same_but_derived(a: Node, b: Node) -> bool {
    b == (Node {
        root_2d: b.root_2d,
        child_of_2d: b.child_of_2d,
        structure_changed: b.structure_changed,
        changed: b.changed,
        world2: b.world2,
        world4: b.world4,
        ..a
    })
}

/// The node's tag markers agree with the tag conditions.
pub open spec fn tags_ok(s: Seq<Node>, i: int) -> bool {
    s[i].root_2d == want_root_2d(s, i) && s[i].child_of_2d == want_child_of_2d(s, i)
}

/// The node's cached matrices agree with full resolution, as far as the
/// pipeline covers the node.
pub open spec fn worlds_ok(s: Seq<Node>, i: int) -> bool {
    &&& (has_pose(s, i) && !blocked(s, i) && chain_ok(s, i) ==> s[i].world4 == spec_world4(s, i))
    &&& (is_2d(s, i) && !blocked(s, i) ==> s[i].world2 == spec_world2(s, i))
}

/// The scene invariant between cycles: the arena is well-formed, tags are
/// current wherever the structure did not change since the last tagging,
/// and cached matrices are current wherever no change is pending.
pub open spec fn inv(s: Seq<Node>) -> bool {
    &&& wf(s)
    &&& forall|i: int| 0 <= i < s.len() && !(#[trigger] s[i]).structure_changed ==> tags_ok(s, i)
    &&& forall|i: int| 0 <= i < s.len() && !eff(s, i) ==> #[trigger] worlds_ok(s, i)
}

fn node_is_2d(n: &Node) -> (r: bool)
    ensures
        r == (n.pose matches Some(LocalPose::TwoD(_))),
{
    match n.pose {
        Some(LocalPose::TwoD(_)) => true,
        _ => false,
    }
}

fn node_is_3d(n: &Node) -> (r: bool)
    ensures
        r == (n.pose matches Some(LocalPose::ThreeD(_))),
{
    match n.pose {
        Some(LocalPose::ThreeD(_)) => true,
        _ => false,
    }
}

/// The planar local matrix of one node.
fn local_matrix2(n: &Node) -> (r: Mat3)
    requires
        n.pose matches Some(LocalPose::TwoD(_)),
    ensures
        r == node_local2(*n),
{
    match n.pose {
        Some(LocalPose::TwoD(t)) => t.compute_matrix(),
        _ => Mat3::identity(),
    }
}

/// The spatial local matrix of one node.
fn local_matrix4(n: &Node) -> (r: Mat4)
    requires
        n.pose is Some,
    ensures
        r == node_local4(*n),
{
    match n.pose {
        Some(LocalPose::ThreeD(t)) => {
            let trs = t.compute_matrix();
            match n.shear {
                Some(sh) => sh.compute_matrix().mul_mat4(&trs),
                None => trs,
            }
        },
        Some(LocalPose::TwoD(t)) => Mat4::embed(&t.compute_matrix()),
        None => Mat4::identity(),
    }
}

/// Derived per-node facts, all relative to one arena snapshot: resolution
/// ancestor, blocked flag, effective change flag, bridged flag.
struct Analysis {
    npa: Vec<Option<usize>>,
    blocked: Vec<bool>,
    eff: Vec<bool>,
    bridged: Vec<bool>,
}

/// The analysis rows match the recursive definitions over `s`.
spec fn analysis_ok(a: Analysis, s: Seq<Node>) -> bool {
    &&& a.npa@.len() == s.len()
    &&& a.blocked@.len() == s.len()
    &&& a.eff@.len() == s.len()
    &&& a.bridged@.len() == s.len()
    &&& forall|j: int|
        0 <= j < s.len() ==> #[trigger] a.npa@[j] == match npa(s, j) {
            Some(q) => Some(q as usize),
            None => None,
        }
    &&& forall|j: int| 0 <= j < s.len() ==> #[trigger] a.blocked@[j] == blocked(s, j)
    &&& forall|j: int| 0 <= j < s.len() ==> #[trigger] a.eff@[j] == eff(s, j)
    &&& forall|j: int| 0 <= j < s.len() ==> #[trigger] a.bridged@[j] == bridged(s, j)
}

/// The scene: a flat arena of nodes, parents before children.
pub struct Scene {
    nodes: Vec<Node>,
}

impl Scene {
    /// The arena contents.
    pub closed spec fn s(&self) -> Seq<Node> {
        self.nodes@
    }

    pub fn new() -> (r: Scene)
        ensures
            r.s() == Seq::<Node>::empty(),
            inv(r.s()),
    {
        Scene { nodes: Vec::new() }
    }

    pub fn len(&self) -> (n: usize)
        ensures
            n == self.s().len(),
    {
        self.nodes.len()
    }

    /// One ascending sweep deriving the per-node facts every pass needs.
    fn analyze(&self) -> (r: Analysis)
        requires
            wf(self.s()),
        ensures
            analysis_ok(r, self.s()),
    {
        let ghost s = self.s();
        let n = self.nodes.len();
        let mut npa_a: Vec<Option<usize>> = Vec::new();
        let mut blocked_a: Vec<bool> = Vec::new();
        let mut eff_a: Vec<bool> = Vec::new();
        let mut bridged_a: Vec<bool> = Vec::new();
        let mut i: usize = 0;
        while i < n
            invariant
                wf(s),
                s == self.s(),
                n == s.len(),
                i <= n,
                npa_a@.len() == i,
                blocked_a@.len() == i,
                eff_a@.len() == i,
                bridged_a@.len() == i,
                forall|j: int|
                    0 <= j < i ==> #[trigger] npa_a@[j] == match npa(s, j) {
                        Some(q) => Some(q as usize),
                        None => None,
                    },
                forall|j: int| 0 <= j < i ==> #[trigger] blocked_a@[j] == blocked(s, j),
                forall|j: int| 0 <= j < i ==> #[trigger] eff_a@[j] == eff(s, j),
                forall|j: int| 0 <= j < i ==> #[trigger] bridged_a@[j] == bridged(s, j),
            decreases n - i,
        {
            proof {
                lemma_npa_lt(s, i as int);
            }
            let npa_i: Option<usize> = match self.nodes[i].parent {
                Some(p) => {
                    if self.nodes[p].pose.is_some() {
                        Some(p)
                    } else {
                        npa_a[p]
                    }
                },
                None => None,
            };
            let blocked_i: bool = match self.nodes[i].parent {
                Some(p) => self.nodes[p].dont_propagate || blocked_a[p],
                None => false,
            };
            let eff_i: bool = self.nodes[i].changed || match npa_i {
                Some(q) => eff_a[q],
                None => false,
            };
            let bridged_i: bool = match npa_i {
                Some(q) => node_is_2d(&self.nodes[q]) || bridged_a[q],
                None => false,
            };
            npa_a.push(npa_i);
            blocked_a.push(blocked_i);
            eff_a.push(eff_i);
            bridged_a.push(bridged_i);
            i = i + 1;
        }
        Analysis { npa: npa_a, blocked: blocked_a, eff: eff_a, bridged: bridged_a }
    }

    /// The purely spatial pass: recompute the spatial world matrix of
    /// every changed spatial node that lives in spatial context, parents
    /// before children; everything else keeps its cached matrix untouched.
    pub fn local_to_world_system(&mut self)
        requires
            wf(old(self).s()),
        ensures
            final(self).s().len() == old(self).s().len(),
            forall|j: int|
                0 <= j < final(self).s().len() ==> same_but_world4(
                    #[trigger] old(self).s()[j],
                    final(self).s()[j],
                ),
            forall|j: int|
                0 <= j < final(self).s().len() ==> #[trigger] final(self).s()[j].world4
                    == stage_3d(old(self).s(), j),
    {
        let ghost s0 = self.s();
        let a = self.analyze();
        let n = self.nodes.len();
        let mut i: usize = 0;
        while i < n
            invariant
                wf(s0),
                n == s0.len(),
                i <= n,
                analysis_ok(a, s0),
                self.s().len() == n,
                forall|j: int| 0 <= j < n ==> same_but_world4(#[trigger] s0[j], self.s()[j]),
                forall|j: int| 0 <= j < i ==> #[trigger] self.s()[j].world4 == stage_3d(s0, j),
                forall|j: int| i <= j < n ==> #[trigger] self.s()[j].world4 == s0[j].world4,
            decreases n - i,
        {
            proof {
                lemma_npa_lt(s0, i as int);
            }
            let member = node_is_3d(&self.nodes[i]) && !a.bridged[i];
            if member && !a.blocked[i] && a.eff[i] {
                let lm = local_matrix4(&self.nodes[i]);
                let w = match a.npa[i] {
                    Some(p) => {
                        let mut pm = self.nodes[p].world4;
                        self.nodes[i].constraint.constrain(&mut pm);
                        pm.mul_mat4(&lm)
                    },
                    None => lm,
                };
                let mut nd = self.nodes[i];
                nd.world4 = w;
                self.nodes[i] = nd;
            }
            i = i + 1;
        }
    }

    /// The purely planar pass: recompute the planar world matrix of every
    /// changed planar node; a planar node whose resolution ancestor is
    /// not planar is a planar root and starts from its own local matrix.
    pub fn local_to_world_2d_system(&mut self)
        requires
            wf(old(self).s()),
        ensures
            final(self).s().len() == old(self).s().len(),
            forall|j: int|
                0 <= j < final(self).s().len() ==> same_but_world2(
                    #[trigger] old(self).s()[j],
                    final(self).s()[j],
                ),
            forall|j: int|
                0 <= j < final(self).s().len() ==> #[trigger] final(self).s()[j].world2
                    == stage_2d(old(self).s(), j),
    {
        let ghost s0 = self.s();
        let a = self.analyze();
        let n = self.nodes.len();
        let mut i: usize = 0;
        while i < n
            invariant
                wf(s0),
                n == s0.len(),
                i <= n,
                analysis_ok(a, s0),
                self.s().len() == n,
                forall|j: int| 0 <= j < n ==> same_but_world2(#[trigger] s0[j], self.s()[j]),
                forall|j: int| 0 <= j < i ==> #[trigger] self.s()[j].world2 == stage_2d(s0, j),
                forall|j: int| i <= j < n ==> #[trigger] self.s()[j].world2 == s0[j].world2,
            decreases n - i,
        {
            proof {
                lemma_npa_lt(s0, i as int);
            }
            if node_is_2d(&self.nodes[i]) && !a.blocked[i] && a.eff[i] {
                let lm = local_matrix2(&self.nodes[i]);
                let w = match a.npa[i] {
                    Some(p) => {
                        if node_is_2d(&self.nodes[p]) {
                            let mut pm = self.nodes[p].world2;
                            self.nodes[i].constraint.constrain_2d(&mut pm);
                            pm.mul_mat3(&lm)
                        } else {
                            lm
                        }
                    },
                    None => lm,
                };
                let mut nd = self.nodes[i];
                nd.world2 = w;
                self.nodes[i] = nd;
            }
            i = i + 1;
        }
    }

    /// The planar-root bridging pass: give every changed planar node a
    /// spatial world matrix by embedding its planar local matrix, seeded
    /// from the resolved matrix of a spatial resolution ancestor where
    /// one exists.
    pub fn local_to_world_2d5_system(&mut self)
        requires
            wf(old(self).s()),
        ensures
            final(self).s().len() == old(self).s().len(),
            forall|j: int|
                0 <= j < final(self).s().len() ==> same_but_world4(
                    #[trigger] old(self).s()[j],
                    final(self).s()[j],
                ),
            forall|j: int|
                0 <= j < final(self).s().len() ==> #[trigger] final(self).s()[j].world4
                    == stage_2d5(old(self).s(), j),
    {
        let ghost s0 = self.s();
        let a = self.analyze();
        let n = self.nodes.len();
        let mut i: usize = 0;
        while i < n
            invariant
                wf(s0),
                n == s0.len(),
                i <= n,
                analysis_ok(a, s0),
                self.s().len() == n,
                forall|j: int| 0 <= j < n ==> same_but_world4(#[trigger] s0[j], self.s()[j]),
                forall|j: int| 0 <= j < i ==> #[trigger] self.s()[j].world4 == stage_2d5(s0, j),
                forall|j: int| i <= j < n ==> #[trigger] self.s()[j].world4 == s0[j].world4,
            decreases n - i,
        {
            proof {
                lemma_npa_lt(s0, i as int);
            }
            if node_is_2d(&self.nodes[i]) && !a.blocked[i] && a.eff[i] {
                let lm = local_matrix4(&self.nodes[i]);
                let w = match a.npa[i] {
                    Some(p) => {
                        let mut pm = self.nodes[p].world4;
                        self.nodes[i].constraint.constrain(&mut pm);
                        pm.mul_mat4(&lm)
                    },
                    None => lm,
                };
                let mut nd = self.nodes[i];
                nd.world4 = w;
                self.nodes[i] = nd;
            }
            i = i + 1;
        }
    }

    /// The bridge-descendant pass: recompute the spatial world matrix of
    /// every changed spatial node below a planar bridge, seeded from the
    /// planar ancestor's bridged matrix at the boundary.
    pub fn local_to_world_children_of_transform_2d_system(&mut self)
        requires
            wf(old(self).s()),
        ensures
            final(self).s().len() == old(self).s().len(),
            forall|j: int|
                0 <= j < final(self).s().len() ==> same_but_world4(
                    #[trigger] old(self).s()[j],
                    final(self).s()[j],
                ),
            forall|j: int|
                0 <= j < final(self).s().len() ==> #[trigger] final(self).s()[j].world4
                    == stage_bridge(old(self).s(), j),
    {
        let ghost s0 = self.s();
        let a = self.analyze();
        let n = self.nodes.len();
        let mut i: usize = 0;
        while i < n
            invariant
                wf(s0),
                n == s0.len(),
                i <= n,
                analysis_ok(a, s0),
                self.s().len() == n,
                forall|j: int| 0 <= j < n ==> same_but_world4(#[trigger] s0[j], self.s()[j]),
                forall|j: int| 0 <= j < i ==> #[trigger] self.s()[j].world4 == stage_bridge(s0, j),
                forall|j: int| i <= j < n ==> #[trigger] self.s()[j].world4 == s0[j].world4,
            decreases n - i,
        {
            proof {
                lemma_npa_lt(s0, i as int);
            }
            if node_is_3d(&self.nodes[i]) && a.bridged[i] && !a.blocked[i] && a.eff[i] {
                let lm = local_matrix4(&self.nodes[i]);
                let w = match a.npa[i] {
                    Some(p) => {
                        let mut pm = self.nodes[p].world4;
                        self.nodes[i].constraint.constrain(&mut pm);
                        pm.mul_mat4(&lm)
                    },
                    None => lm,
                };
                let mut nd = self.nodes[i];
                nd.world4 = w;
                self.nodes[i] = nd;
            }
            i = i + 1;
        }
    }

    /// The tagging pass: re-derive the two category tags for every node
    /// whose parent link or pose representation changed, and clear those
    /// structure flags.  Tags of untouched nodes stay as they are.
    pub fn transform_tagging_system(&mut self)
        requires
            wf(old(self).s()),
        ensures
            final(self).s().len() == old(self).s().len(),
            forall|j: int|
                0 <= j < final(self).s().len() ==> same_but_tags(
                    #[trigger] old(self).s()[j],
                    final(self).s()[j],
                ),
            forall|j: int|
                0 <= j < final(self).s().len() ==> !(#[trigger] final(self).s()[j]).structure_changed,
            forall|j: int|
                0 <= j < final(self).s().len() && old(self).s()[j].structure_changed ==> {
                    &&& (#[trigger] final(self).s()[j]).root_2d == want_root_2d(old(self).s(), j)
                    &&& final(self).s()[j].child_of_2d == want_child_of_2d(old(self).s(), j)
                },
            forall|j: int|
                0 <= j < final(self).s().len() && !old(self).s()[j].structure_changed ==> {
                    &&& (#[trigger] final(self).s()[j]).root_2d == old(self).s()[j].root_2d
                    &&& final(self).s()[j].child_of_2d == old(self).s()[j].child_of_2d
                },
    {
        let ghost s0 = self.s();
        let a = self.analyze();
        let n = self.nodes.len();
        let mut i: usize = 0;
        while i < n
            invariant
                wf(s0),
                n == s0.len(),
                i <= n,
                analysis_ok(a, s0),
                self.s().len() == n,
                forall|j: int| 0 <= j < n ==> same_but_tags(#[trigger] s0[j], self.s()[j]),
                forall|j: int| 0 <= j < i ==> !(#[trigger] self.s()[j]).structure_changed,
                forall|j: int|
                    0 <= j < i && s0[j].structure_changed ==> {
                        &&& (#[trigger] self.s()[j]).root_2d == want_root_2d(s0, j)
                        &&& self.s()[j].child_of_2d == want_child_of_2d(s0, j)
                    },
                forall|j: int|
                    0 <= j < i && !s0[j].structure_changed ==> {
                        &&& (#[trigger] self.s()[j]).root_2d == s0[j].root_2d
                        &&& self.s()[j].child_of_2d == s0[j].child_of_2d
                    },
                forall|j: int| i <= j < n ==> #[trigger] self.s()[j] == s0[j],
            decreases n - i,
        {
            proof {
                lemma_npa_lt(s0, i as int);
            }
            let mut nd = self.nodes[i];
            if nd.structure_changed {
                nd.root_2d = node_is_2d(&nd) && match a.npa[i] {
                    Some(p) => node_is_3d(&self.nodes[p]),
                    None => true,
                };
                nd.child_of_2d = node_is_3d(&nd) && match a.npa[i] {
                    Some(p) => node_is_2d(&self.nodes[p]),
                    None => false,
                };
            }
            nd.structure_changed = false;
            self.nodes[i] = nd;
            i = i + 1;
        }
    }

    /// One full cycle: tagging, the purely spatial pass, the purely
    /// planar pass, the planar-root bridging pass and the
    /// bridge-descendant pass, in that order, as full barriers; then the
    /// change flags are retired.
    ///
    /// Afterwards every cached matrix the pipeline covers equals the full
    /// recursive composition over the current local poses, and a node
    /// whose chain saw no change keeps both cached matrices
    /// bit-identically.  Not covered: everything below a non-propagating
    /// node, and the spatial matrix of a node past a second
    /// planar/spatial alternation (see [`chain_ok`]), which may stay a
    /// cycle behind.
    pub fn update(&mut self)
        requires
            inv(old(self).s()),
        ensures
            final(self).s().len() == old(self).s().len(),
            forall|j: int|
                0 <= j < final(self).s().len() ==> same_but_derived(
                    #[trigger] old(self).s()[j],
                    final(self).s()[j],
                ),
            forall|j: int|
                0 <= j < final(self).s().len() ==> !(#[trigger] final(self).s()[j]).changed
                    && !final(self).s()[j].structure_changed,
            forall|j: int| 0 <= j < final(self).s().len() ==> #[trigger] tags_ok(final(self).s(), j),
            forall|j: int|
                0 <= j < final(self).s().len() && has_pose(final(self).s(), j) && !blocked(
                    final(self).s(),
                    j,
                ) && chain_ok(final(self).s(), j) ==> (#[trigger] final(self).s()[j]).world4
                    == spec_world4(final(self).s(), j),
            forall|j: int|
                0 <= j < final(self).s().len() && is_2d(final(self).s(), j) && !blocked(
                    final(self).s(),
                    j,
                ) ==> (#[trigger] final(self).s()[j]).world2 == spec_world2(final(self).s(), j),
            forall|j: int|
                0 <= j < final(self).s().len() && !eff(old(self).s(), j) ==> {
                    &&& (#[trigger] final(self).s()[j]).world4 == old(self).s()[j].world4
                    &&& final(self).s()[j].world2 == old(self).s()[j].world2
                },
            inv(final(self).s()),
    {
        let ghost s0 = self.s();
        self.transform_tagging_system();
        let ghost s1 = self.s();
        proof {
            assert forall|j: int| 0 <= j < s0.len() implies (#[trigger] s1[j]).parent
                == s0[j].parent by {
                assert(same_but_tags(s0[j], s1[j]));
            }
            lemma_wf_preserved(s0, s1);
        }
        self.local_to_world_system();
        let ghost s2 = self.s();
        proof {
            assert forall|j: int| 0 <= j < s0.len() implies (#[trigger] s2[j]).parent
                == s1[j].parent by {
                assert(same_but_world4(s1[j], s2[j]));
            }
            lemma_wf_preserved(s1, s2);
        }
        self.local_to_world_2d_system();
        let ghost s3 = self.s();
        proof {
            assert forall|j: int| 0 <= j < s0.len() implies (#[trigger] s3[j]).parent
                == s2[j].parent by {
                assert(same_but_world2(s2[j], s3[j]));
            }
            lemma_wf_preserved(s2, s3);
        }
        self.local_to_world_2d5_system();
        let ghost s4 = self.s();
        proof {
            assert forall|j: int| 0 <= j < s0.len() implies (#[trigger] s4[j]).parent
                == s3[j].parent by {
                assert(same_but_world4(s3[j], s4[j]));
            }
            lemma_wf_preserved(s3, s4);
        }
        self.local_to_world_children_of_transform_2d_system();
        let ghost s5 = self.s();
        self.clear_changed();
        let ghost s6 = self.s();
        proof {
            lemma_cycle(s0, s1, s2, s3, s4, s5, s6);
        }
    }

    /// Clear every per-cycle change flag.
    fn clear_changed(&mut self)
        ensures
            final(self).s().len() == old(self).s().len(),
            forall|j: int|
                0 <= j < final(self).s().len() ==> same_but_changed(
                    #[trigger] old(self).s()[j],
                    final(self).s()[j],
                ),
            forall|j: int|
                0 <= j < final(self).s().len() ==> !(#[trigger] final(self).s()[j]).changed,
    {
        let ghost s0 = self.s();
        let n = self.nodes.len();
        let mut i: usize = 0;
        while i < n
            invariant
                n == s0.len(),
                i <= n,
                self.s().len() == n,
                forall|j: int| 0 <= j < n ==> same_but_changed(#[trigger] s0[j], self.s()[j]),
                forall|j: int| 0 <= j < i ==> !(#[trigger] self.s()[j]).changed,
                forall|j: int| i <= j < n ==> #[trigger] self.s()[j] == s0[j],
            decreases n - i,
        {
            let mut nd = self.nodes[i];
            nd.changed = false;
            self.nodes[i] = nd;
            i = i + 1;
        }
    }

    /// The node at one slot, as a value.
    pub fn node(&self, i: usize) -> (n: Node)
        requires
            i < self.s().len(),
        ensures
            n == self.s()[i as int],
    {
        self.nodes[i]
    }

    /// Walk the parent chain up to the nearest pose-bearing ancestor.
    pub fn resolution_ancestor(&self, i: usize) -> (r: Option<usize>)
        requires
            wf(self.s()),
            i < self.s().len(),
        ensures
            r matches Some(p) ==> npa(self.s(), i as int) == Some(p as int),
            r is None ==> npa(self.s(), i as int) is None,
    {
        let ghost s = self.s();
        let mut cur: usize = i;
        loop
            invariant
                wf(s),
                s == self.s(),
                cur < s.len(),
                npa(s, i as int) == npa(s, cur as int),
            decreases cur,
        {
            match self.nodes[cur].parent {
                Some(p) => {
                    if self.nodes[p].pose.is_some() {
                        return Some(p);
                    } else {
                        cur = p;
                    }
                },
                None => {
                    return None;
                },
            }
        }
    }

    /// The resolved world matrix a consumer should read, tagged with its
    /// rank: planar nodes in planar context expose their 3x3 matrix,
    /// everything else (spatial nodes and planar bridge roots) the 4x4.
    pub fn world_matrix(&self, i: usize) -> (r: WorldMatrix)
        requires
            wf(self.s()),
            i < self.s().len(),
            has_pose(self.s(), i as int),
        ensures
            r == if is_2d(self.s(), i as int) && !want_root_2d(self.s(), i as int) {
                WorldMatrix::TwoD(self.s()[i as int].world2)
            } else {
                WorldMatrix::ThreeD(self.s()[i as int].world4)
            },
    {
        if node_is_2d(&self.nodes[i]) {
            let root = match self.resolution_ancestor(i) {
                Some(p) => {
                    proof {
                        lemma_npa_lt(self.s(), i as int);
                    }
                    node_is_3d(&self.nodes[p])
                },
                None => true,
            };
            if root {
                WorldMatrix::ThreeD(self.nodes[i].world4)
            } else {
                WorldMatrix::TwoD(self.nodes[i].world2)
            }
        } else {
            WorldMatrix::ThreeD(self.nodes[i].world4)
        }
    }

    /// Append a node.  It arrives marked changed and structure-dirty, so
    /// the next cycle tags it and resolves its matrices.
    pub fn add_node(&mut self, parent: Option<usize>, pose: Option<LocalPose>) -> (idx: usize)
        requires
            inv(old(self).s()),
            old(self).s().len() < usize::MAX,
            parent matches Some(p) ==> p < old(self).s().len(),
        ensures
            inv(final(self).s()),
            idx == old(self).s().len(),
            final(self).s() == old(self).s().push(
                Node {
                    parent,
                    pose,
                    shear: None,
                    constraint: TransformPropagationConstraint::Normal,
                    dont_propagate: false,
                    changed: true,
                    structure_changed: true,
                    root_2d: false,
                    child_of_2d: false,
                    world2: mat3_identity(),
                    world4: mat4_identity(),
                },
            ),
    {
        let ghost a = self.s();
        let idx = self.nodes.len();
        let nd = Node {
            parent,
            pose,
            shear: None,
            constraint: TransformPropagationConstraint::Normal,
            dont_propagate: false,
            changed: true,
            structure_changed: true,
            root_2d: false,
            child_of_2d: false,
            world2: Mat3::identity(),
            world4: Mat4::identity(),
        };
        self.nodes.push(nd);
        proof {
            let b = self.s();
            assert forall|j: int|
                0 <= j < b.len() && !(#[trigger] b[j]).structure_changed implies tags_ok(
                b,
                j,
            ) by {
                assert(j < a.len() && b[j] == a[j]);
                lemma_push_congruence(a, b, j);
                assert(tags_ok(a, j));
            }
            assert forall|j: int| 0 <= j < b.len() && !eff(b, j) implies #[trigger] worlds_ok(
                b,
                j,
            ) by {
                assert(j < a.len() && b[j] == a[j]);
                lemma_push_congruence(a, b, j);
                assert(worlds_ok(a, j));
            }
        }
        idx
    }

    /// Mark every strict descendant of `i` changed and structure-dirty.
    fn mark_descendants(&mut self, i: usize)
        requires
            wf(old(self).s()),
            i < old(self).s().len(),
        ensures
            final(self).s().len() == old(self).s().len(),
            forall|j: int|
                0 <= j < final(self).s().len() && is_ancestor(old(self).s(), i as int, j)
                    ==> #[trigger] final(self).s()[j] == (Node {
                    changed: true,
                    structure_changed: true,
                    ..old(self).s()[j]
                }),
            forall|j: int|
                0 <= j < final(self).s().len() && !is_ancestor(old(self).s(), i as int, j)
                    ==> #[trigger] final(self).s()[j] == old(self).s()[j],
    {
        let ghost a = self.s();
        let n = self.nodes.len();
        let mut desc: Vec<bool> = Vec::new();
        let mut j: usize = 0;
        while j < n
            invariant
                wf(a),
                a == self.s(),
                n == a.len(),
                i < n,
                j <= n,
                desc@.len() == j,
                forall|x: int| 0 <= x < j ==> #[trigger] desc@[x] == is_ancestor(a, i as int, x),
            decreases n - j,
        {
            proof {
                if j <= i {
                    lemma_ancestor_ge(a, i as int, j as int);
                }
                if a[j as int].parent is Some && a[j as int].parent->0 <= i {
                    lemma_ancestor_ge(a, i as int, a[j as int].parent->0 as int);
                }
                assert(a[j as int].parent is Some ==> 0 <= a[j as int].parent->0 < j as int);
            }
            let d: bool = match self.nodes[j].parent {
                Some(p) => p == i || desc[p],
                None => false,
            };
            desc.push(d);
            j = j + 1;
        }
        let mut k: usize = 0;
        while k < n
            invariant
                n == a.len(),
                self.s().len() == n,
                k <= n,
                desc@.len() == n,
                forall|x: int| 0 <= x < n ==> #[trigger] desc@[x] == is_ancestor(a, i as int, x),
                forall|j2: int|
                    0 <= j2 < k && is_ancestor(a, i as int, j2) ==> #[trigger] self.s()[j2]
                        == (Node { changed: true, structure_changed: true, ..a[j2] }),
                forall|j2: int|
                    0 <= j2 < k && !is_ancestor(a, i as int, j2) ==> #[trigger] self.s()[j2]
                        == a[j2],
                forall|j2: int| k <= j2 < n ==> #[trigger] self.s()[j2] == a[j2],
            decreases n - k,
        {
            if desc[k] {
                let mut nd = self.nodes[k];
                nd.changed = true;
                nd.structure_changed = true;
                self.nodes[k] = nd;
            }
            k = k + 1;
        }
    }

    /// Move a node under a new parent (or make it a root).  The node and
    /// its whole subtree are marked for re-tagging and re-resolution.
    pub fn set_parent(&mut self, i: usize, parent: Option<usize>)
        requires
            inv(old(self).s()),
            i < old(self).s().len(),
            parent matches Some(p) ==> p < i,
        ensures
            inv(final(self).s()),
            final(self).s().len() == old(self).s().len(),
            final(self).s()[i as int] == (Node {
                parent,
                changed: true,
                structure_changed: true,
                ..old(self).s()[i as int]
            }),
            forall|j: int|
                0 <= j < final(self).s().len() && j != i && is_ancestor(old(self).s(), i as int, j)
                    ==> #[trigger] final(self).s()[j] == (Node {
                    changed: true,
                    structure_changed: true,
                    ..old(self).s()[j]
                }),
            forall|j: int|
                0 <= j < final(self).s().len() && j != i && !is_ancestor(
                    old(self).s(),
                    i as int,
                    j,
                ) ==> #[trigger] final(self).s()[j] == old(self).s()[j],
    {
        let ghost a = self.s();
        proof {
            lemma_ancestor_ge(a, i as int, i as int);
        }
        self.mark_descendants(i);
        let mut nd = self.nodes[i];
        nd.parent = parent;
        nd.changed = true;
        nd.structure_changed = true;
        self.nodes[i] = nd;
        proof {
            let b = self.s();
            assert(wf(b)) by {
                assert forall|j: int| 0 <= j < b.len() && b[j].parent is Some implies 0
                    <= b[j].parent->0 < j by {
                    if j != i as int {
                        assert(b[j].parent == a[j].parent);
                    }
                }
            }
            lemma_subtree_edit_inv(a, b, i as int);
        }
    }

    /// Replace a node's local pose, possibly switching representation or
    /// removing it.  The node and its subtree are marked for re-tagging
    /// and re-resolution.
    pub fn set_pose(&mut self, i: usize, pose: Option<LocalPose>)
        requires
            inv(old(self).s()),
            i < old(self).s().len(),
        ensures
            inv(final(self).s()),
            final(self).s().len() == old(self).s().len(),
            final(self).s()[i as int] == (Node {
                pose,
                changed: true,
                structure_changed: true,
                ..old(self).s()[i as int]
            }),
            forall|j: int|
                0 <= j < final(self).s().len() && j != i && is_ancestor(old(self).s(), i as int, j)
                    ==> #[trigger] final(self).s()[j] == (Node {
                    changed: true,
                    structure_changed: true,
                    ..old(self).s()[j]
                }),
            forall|j: int|
                0 <= j < final(self).s().len() && j != i && !is_ancestor(
                    old(self).s(),
                    i as int,
                    j,
                ) ==> #[trigger] final(self).s()[j] == old(self).s()[j],
    {
        let ghost a = self.s();
        proof {
            lemma_ancestor_ge(a, i as int, i as int);
        }
        self.mark_descendants(i);
        let mut nd = self.nodes[i];
        nd.pose = pose;
        nd.changed = true;
        nd.structure_changed = true;
        self.nodes[i] = nd;
        proof {
            let b = self.s();
            assert(wf(b)) by {
                assert forall|j: int| 0 <= j < b.len() && b[j].parent is Some implies 0
                    <= b[j].parent->0 < j by {
                    assert(b[j].parent == a[j].parent);
                }
            }
            lemma_subtree_edit_inv(a, b, i as int);
        }
    }

    /// Mark or unmark a node as non-propagating.  Descendants may have
    /// gone stale either way, so the subtree is marked for re-resolution.
    pub fn set_dont_propagate(&mut self, i: usize, v: bool)
        requires
            inv(old(self).s()),
            i < old(self).s().len(),
        ensures
            inv(final(self).s()),
            final(self).s().len() == old(self).s().len(),
            final(self).s()[i as int] == (Node {
                dont_propagate: v,
                changed: true,
                structure_changed: true,
                ..old(self).s()[i as int]
            }),
            forall|j: int|
                0 <= j < final(self).s().len() && j != i && is_ancestor(old(self).s(), i as int, j)
                    ==> #[trigger] final(self).s()[j] == (Node {
                    changed: true,
                    structure_changed: true,
                    ..old(self).s()[j]
                }),
            forall|j: int|
                0 <= j < final(self).s().len() && j != i && !is_ancestor(
                    old(self).s(),
                    i as int,
                    j,
                ) ==> #[trigger] final(self).s()[j] == old(self).s()[j],
    {
        let ghost a = self.s();
        proof {
            lemma_ancestor_ge(a, i as int, i as int);
        }
        self.mark_descendants(i);
        let mut nd = self.nodes[i];
        nd.dont_propagate = v;
        nd.changed = true;
        nd.structure_changed = true;
        self.nodes[i] = nd;
        proof {
            let b = self.s();
            assert(wf(b)) by {
                assert forall|j: int| 0 <= j < b.len() && b[j].parent is Some implies 0
                    <= b[j].parent->0 < j by {
                    assert(b[j].parent == a[j].parent);
                }
            }
            lemma_subtree_edit_inv(a, b, i as int);
        }
    }

    /// Overwrite the planar pose value of a planar node; only this node's
    /// change flag is raised, descendants follow through the chain.
    pub fn set_transform_2d(&mut self, i: usize, t: Transform2D)
        requires
            inv(old(self).s()),
            is_2d(old(self).s(), i as int),
        ensures
            inv(final(self).s()),
            final(self).s().len() == old(self).s().len(),
            final(self).s()[i as int] == (Node {
                pose: Some(LocalPose::TwoD(t)),
                changed: true,
                ..old(self).s()[i as int]
            }),
            forall|j: int|
                0 <= j < final(self).s().len() && j != i ==> #[trigger] final(self).s()[j] == old(
                    self,
                ).s()[j],
    {
        let ghost a = self.s();
        let mut nd = self.nodes[i];
        nd.pose = Some(LocalPose::TwoD(t));
        nd.changed = true;
        self.nodes[i] = nd;
        proof {
            lemma_value_edit_inv(a, self.s(), i as int);
        }
    }

    /// Overwrite the spatial pose value of a spatial node.
    pub fn set_transform_3d(&mut self, i: usize, t: Transform3D)
        requires
            inv(old(self).s()),
            is_3d(old(self).s(), i as int),
        ensures
            inv(final(self).s()),
            final(self).s().len() == old(self).s().len(),
            final(self).s()[i as int] == (Node {
                pose: Some(LocalPose::ThreeD(t)),
                changed: true,
                ..old(self).s()[i as int]
            }),
            forall|j: int|
                0 <= j < final(self).s().len() && j != i ==> #[trigger] final(self).s()[j] == old(
                    self,
                ).s()[j],
    {
        let ghost a = self.s();
        let mut nd = self.nodes[i];
        nd.pose = Some(LocalPose::ThreeD(t));
        nd.changed = true;
        self.nodes[i] = nd;
        proof {
            lemma_value_edit_inv(a, self.s(), i as int);
        }
    }

    /// Attach, replace or remove a node's shear component.  A shear edit
    /// counts as a pose change for dirty tracking.
    pub fn set_shear(&mut self, i: usize, shear: Option<Shear>)
        requires
            inv(old(self).s()),
            i < old(self).s().len(),
        ensures
            inv(final(self).s()),
            final(self).s().len() == old(self).s().len(),
            final(self).s()[i as int] == (Node {
                shear,
                changed: true,
                ..old(self).s()[i as int]
            }),
            forall|j: int|
                0 <= j < final(self).s().len() && j != i ==> #[trigger] final(self).s()[j] == old(
                    self,
                ).s()[j],
    {
        let ghost a = self.s();
        let mut nd = self.nodes[i];
        nd.shear = shear;
        nd.changed = true;
        self.nodes[i] = nd;
        proof {
            lemma_value_edit_inv(a, self.s(), i as int);
        }
    }

    /// Set what a node inherits from its resolved parent matrix.
    pub fn set_constraint(&mut self, i: usize, constraint: TransformPropagationConstraint)
        requires
            inv(old(self).s()),
            i < old(self).s().len(),
        ensures
            inv(final(self).s()),
            final(self).s().len() == old(self).s().len(),
            final(self).s()[i as int] == (Node {
                constraint,
                changed: true,
                ..old(self).s()[i as int]
            }),
            forall|j: int|
                0 <= j < final(self).s().len() && j != i ==> #[trigger] final(self).s()[j] == old(
                    self,
                ).s()[j],
    {
        let ghost a = self.s();
        let mut nd = self.nodes[i];
        nd.constraint = constraint;
        nd.changed = true;
        self.nodes[i] = nd;
        proof {
            lemma_value_edit_inv(a, self.s(), i as int);
        }
    }
}

/// A resolved world matrix together with its rank.
#[derive(Clone, Copy, Debug, PartialEq, Eq, Structural)]
pub enum WorldMatrix {
    /// Planar resolution.
    TwoD(Mat3),
    /// Spatial resolution, including bridged planar roots.
    ThreeD(Mat4),
}

} // verus!
