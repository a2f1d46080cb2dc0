//! The matrix components a consumer reads: the resolved local-to-world
//! matrices of both ranks, their inverses' carriers, and the directional
//! getters a renderer asks of them.
//!
//! Normalized getters divide an axis by its integer length; a
//! zero-length axis yields the zero vector.

use vstd::prelude::*;

verus! {

use crate::constraint::{norm3, normalize3};
use crate::matrix::{
    mat3_embed, mat3_identity, mat3_mul, mat4_identity, mat4_mul, mat4_project, Mat3, Mat4, Vec2,
    Vec3, vec3_new,
};
use crate::pose::{transform2d_matrix, transform3d_matrix, Transform2D, Transform3D};

/// A node's resolved spatial model matrix.
#[derive(Clone, Copy, Debug, PartialEq, Eq, Structural)]
pub struct LocalToWorld(pub Mat4);

/// A node's resolved planar model matrix.
#[derive(Clone, Copy, Debug, PartialEq, Eq, Structural)]
pub struct LocalToWorld2D(pub Mat3);

/// Carrier for an inverse of [`LocalToWorld`].
#[derive(Clone, Copy, Debug, PartialEq, Eq, Structural)]
pub struct WorldToLocal(pub Mat4);

/// Carrier for an inverse of [`LocalToWorld2D`].
#[derive(Clone, Copy, Debug, PartialEq, Eq, Structural)]
pub struct WorldToLocal2D(pub Mat3);

impl Default for LocalToWorld {
    fn default() -> (r: Self)
        ensures
            r.0 == mat4_identity(),
    {
        LocalToWorld(Mat4::identity())
    }
}

impl Default for LocalToWorld2D {
    fn default() -> (r: Self)
        ensures
            r.0 == mat3_identity(),
    {
        LocalToWorld2D(Mat3::identity())
    }
}

impl Default for WorldToLocal {
    fn default() -> (r: Self)
        ensures
            r.0 == mat4_identity(),
    {
        WorldToLocal(Mat4::identity())
    }
}

impl Default for WorldToLocal2D {
    fn default() -> (r: Self)
        ensures
            r.0 == mat3_identity(),
    {
        WorldToLocal2D(Mat3::identity())
    }
}

impl LocalToWorld {
    /// The matrix of a spatial local pose.
    pub fn from_transform(t: &Transform3D) -> (r: LocalToWorld)
        ensures
            r.0 == transform3d_matrix(*t),
    {
        LocalToWorld(t.compute_matrix())
    }

    /// Lift a planar model matrix, the z axis left at identity.
    pub fn from_2d(v: &LocalToWorld2D) -> (r: LocalToWorld)
        ensures
            r.0 == mat3_embed(v.0),
    {
        LocalToWorld(Mat4::embed(&v.0))
    }

    /// Compose with another model matrix on the right.
    pub fn mul_local(&self, rhs: &LocalToWorld) -> (r: LocalToWorld)
        ensures
            r.0 == mat4_mul(self.0, rhs.0),
    {
        LocalToWorld(self.0.mul_mat4(&rhs.0))
    }

    pub fn right_scaled(&self) -> (r: Vec3)
        ensures
            r == (Vec3 { x: self.0.x_axis.x, y: self.0.x_axis.y, z: self.0.x_axis.z }),
    {
        Vec3 { x: self.0.x_axis.x, y: self.0.x_axis.y, z: self.0.x_axis.z }
    }

    /// The x basis axis at unit length; the zero vector if the axis has
    /// length zero.
    pub fn right(&self) -> (r: Vec3)
        ensures
            r == norm3(
                Vec3 { x: self.0.x_axis.x, y: self.0.x_axis.y, z: self.0.x_axis.z },
                vec3_new(0, 0, 0),
            ),
    {
        let v = self.right_scaled();
        normalize3(&v, Vec3 { x: 0, y: 0, z: 0 })
    }

    pub fn up_scaled(&self) -> (r: Vec3)
        ensures
            r == (Vec3 { x: self.0.y_axis.x, y: self.0.y_axis.y, z: self.0.y_axis.z }),
    {
        Vec3 { x: self.0.y_axis.x, y: self.0.y_axis.y, z: self.0.y_axis.z }
    }

    /// The y basis axis at unit length; the zero vector if the axis has
    /// length zero.
    pub fn up(&self) -> (r: Vec3)
        ensures
            r == norm3(
                Vec3 { x: self.0.y_axis.x, y: self.0.y_axis.y, z: self.0.y_axis.z },
                vec3_new(0, 0, 0),
            ),
    {
        let v = self.up_scaled();
        normalize3(&v, Vec3 { x: 0, y: 0, z: 0 })
    }

    pub fn forward_scaled(&self) -> (r: Vec3)
        ensures
            r == (Vec3 { x: self.0.z_axis.x, y: self.0.z_axis.y, z: self.0.z_axis.z }),
    {
        Vec3 { x: self.0.z_axis.x, y: self.0.z_axis.y, z: self.0.z_axis.z }
    }

    /// The z basis axis at unit length; the zero vector if the axis has
    /// length zero.
    pub fn forward(&self) -> (r: Vec3)
        ensures
            r == norm3(
                Vec3 { x: self.0.z_axis.x, y: self.0.z_axis.y, z: self.0.z_axis.z },
                vec3_new(0, 0, 0),
            ),
    {
        let v = self.forward_scaled();
        normalize3(&v, Vec3 { x: 0, y: 0, z: 0 })
    }

    pub fn translation(&self) -> (r: Vec3)
        ensures
            r == (Vec3 { x: self.0.w_axis.x, y: self.0.w_axis.y, z: self.0.w_axis.z }),
    {
        Vec3 { x: self.0.w_axis.x, y: self.0.w_axis.y, z: self.0.w_axis.z }
    }
}

impl LocalToWorld2D {
    /// The matrix of a planar local pose.
    pub fn from_transform(t: &Transform2D) -> (r: LocalToWorld2D)
        ensures
            r.0 == transform2d_matrix(*t),
    {
        LocalToWorld2D(t.compute_matrix())
    }

    /// Project a spatial model matrix onto the plane; lossy by design.
    pub fn from_3d(v: &LocalToWorld) -> (r: LocalToWorld2D)
        ensures
            r.0 == mat4_project(v.0),
    {
        LocalToWorld2D(v.0.project())
    }

    /// Compose with the matrix of a planar local pose on the right.
    pub fn mul_transform(&self, transform: Transform2D) -> (r: LocalToWorld2D)
        ensures
            r.0 == mat3_mul(self.0, transform2d_matrix(transform)),
    {
        LocalToWorld2D(self.0.mul_mat3(&transform.compute_matrix()))
    }

    /// Compose with another planar model matrix on the right.
    pub fn mul_local(&self, rhs: &LocalToWorld2D) -> (r: LocalToWorld2D)
        ensures
            r.0 == mat3_mul(self.0, rhs.0),
    {
        LocalToWorld2D(self.0.mul_mat3(&rhs.0))
    }

    pub fn right_scaled(&self) -> (r: Vec2)
        ensures
            r == (Vec2 { x: self.0.x_axis.x, y: self.0.x_axis.y }),
    {
        Vec2 { x: self.0.x_axis.x, y: self.0.x_axis.y }
    }

    /// The x basis axis at unit length; the zero vector if the axis has
    /// length zero.
    pub fn right(&self) -> (r: Vec2)
        ensures
            ({
                let n = norm3(
                    Vec3 { x: self.0.x_axis.x, y: self.0.x_axis.y, z: 0 },
                    vec3_new(0, 0, 0),
                );
                r == (Vec2 { x: n.x, y: n.y })
            }),
    {
        let v = Vec3 { x: self.0.x_axis.x, y: self.0.x_axis.y, z: 0 };
        let n = normalize3(&v, Vec3 { x: 0, y: 0, z: 0 });
        Vec2 { x: n.x, y: n.y }
    }

    pub fn up_scaled(&self) -> (r: Vec2)
        ensures
            r == (Vec2 { x: self.0.y_axis.x, y: self.0.y_axis.y }),
    {
        Vec2 { x: self.0.y_axis.x, y: self.0.y_axis.y }
    }

    /// The y basis axis at unit length; the zero vector if the axis has
    /// length zero.
    pub fn up(&self) -> (r: Vec2)
        ensures
            ({
                let n = norm3(
                    Vec3 { x: self.0.y_axis.x, y: self.0.y_axis.y, z: 0 },
                    vec3_new(0, 0, 0),
                );
                r == (Vec2 { x: n.x, y: n.y })
            }),
    {
        let v = Vec3 { x: self.0.y_axis.x, y: self.0.y_axis.y, z: 0 };
        let n = normalize3(&v, Vec3 { x: 0, y: 0, z: 0 });
        Vec2 { x: n.x, y: n.y }
    }

    pub fn translation(&self) -> (r: Vec2)
        ensures
            r == (Vec2 { x: self.0.z_axis.x, y: self.0.z_axis.y }),
    {
        Vec2 { x: self.0.z_axis.x, y: self.0.z_axis.y }
    }
}

impl WorldToLocal {
    /// Lift a planar inverse matrix, the z axis left at identity.
    pub fn from_2d(v: &WorldToLocal2D) -> (r: WorldToLocal)
        ensures
            r.0 == mat3_embed(v.0),
    {
        WorldToLocal(Mat4::embed(&v.0))
    }

    /// Compose with another inverse matrix on the right.
    pub fn mul_local(&self, rhs: &WorldToLocal) -> (r: WorldToLocal)
        ensures
            r.0 == mat4_mul(self.0, rhs.0),
    {
        WorldToLocal(self.0.mul_mat4(&rhs.0))
    }
}

impl WorldToLocal2D {
    /// Project a spatial inverse matrix onto the plane; lossy by design.
    pub fn from_3d(v: &WorldToLocal) -> (r: WorldToLocal2D)
        ensures
            r.0 == mat4_project(v.0),
    {
        WorldToLocal2D(v.0.project())
    }

    /// Compose with another planar inverse matrix on the right.
    pub fn mul_local(&self, rhs: &WorldToLocal2D) -> (r: WorldToLocal2D)
        ensures
            r.0 == mat3_mul(self.0, rhs.0),
    {
        WorldToLocal2D(self.0.mul_mat3(&rhs.0))
    }
}

/// A local pose paired with its cached model matrix, the unit a node is
/// spawned with.
#[derive(Clone, Copy, Debug, PartialEq, Eq, Structural)]
pub struct TransformBundleBase<T, M> {
    pub transform: T,
    pub local_to_world: M,
}

impl<T, M> TransformBundleBase<T, M> {
    pub fn new(transform: T, local_to_world: M) -> (r: TransformBundleBase<T, M>)
        ensures
            r.transform == transform,
            r.local_to_world == local_to_world,
    {
        TransformBundleBase { transform, local_to_world }
    }
}

/// A planar pose resolved purely in the plane.
pub type TransformBundle2D = TransformBundleBase<Transform2D, LocalToWorld2D>;

/// A planar pose resolved into a spatial matrix (a bridge node).
pub type TransformBundle2D5 = TransformBundleBase<Transform2D, LocalToWorld>;

/// A spatial pose resolved spatially.
pub type TransformBundle = TransformBundleBase<Transform3D, LocalToWorld>;

} // verus!
