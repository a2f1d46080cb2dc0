//! Scene-hierarchy transform propagation over exact integer coordinates.
//!
//! Every node of a parent/child hierarchy carries a locally authored pose,
//! either planar (2-D) or spatial (3-D); the library composes those poses
//! into cached world matrices, incrementally, re-multiplying only along the
//! chains where something actually changed.  Subtrees of either pose kind
//! can be nested inside the other; bridging passes embed planar matrices
//! into spatial ones at the category boundaries.
//!
//! All coordinates are integers; every arithmetic step saturates at the
//! `i32` range, so composition is total and deterministic.

use vstd::prelude::*;

pub mod atlas;
pub mod components;
pub mod constraint;
pub mod math;
pub mod matrix;
pub mod pose;
pub mod laws;
pub mod scene;
pub mod spine;

verus! {

/// Clamping both ends of the `i32` range keeps every matrix entry total.
pub open spec fn sat32(x: int) -> int {
    if x > i32::MAX as int {
        i32::MAX as int
    } else if x < i32::MIN as int {
        i32::MIN as int
    } else {
        x
    }
}

} // verus!
