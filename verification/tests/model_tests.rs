use spine2d5::components::{
    LocalToWorld, LocalToWorld2D, TransformBundle, TransformBundleBase, WorldToLocal,
    WorldToLocal2D,
};
use spine2d5::constraint::TransformPropagationConstraint;
use spine2d5::math::{div_toward_zero, isqrt};
use spine2d5::matrix::{Mat3, Mat4, Vec2, Vec3, Vec4};
use spine2d5::pose::{Transform2D, Transform3D};
use spine2d5::spine::{
    bone_default_color, default_fps, white_color, yes, InheritTransform, PositionMode, RotateMode,
    SlotBlend, SpacingMode,
};

#[test]
fn skeleton_defaults_match_the_format() {
    assert_eq!(default_fps(), 30);
    assert!(yes());
    assert_eq!(bone_default_color(), "989898FF".to_string());
    assert_eq!(white_color(), "FFFFFFFF".to_string());
    assert!(matches!(PositionMode::default(), PositionMode::Percent));
    assert!(matches!(SpacingMode::default(), SpacingMode::Length));
    assert!(matches!(RotateMode::default(), RotateMode::Tangent));
    assert!(matches!(InheritTransform::default(), InheritTransform::Normal));
    assert!(matches!(SlotBlend::Normal, SlotBlend::Normal));
}

#[test]
fn inherit_transform_names_its_constraint() {
    assert_eq!(
        InheritTransform::OnlyTranslation.to_constraint(),
        TransformPropagationConstraint::OnlyTranslation
    );
    assert_eq!(
        InheritTransform::NoScale.to_constraint(),
        TransformPropagationConstraint::NoScale
    );
    assert_eq!(
        InheritTransform::NoScaleOrReflection.to_constraint(),
        TransformPropagationConstraint::NoScaleOrReflection
    );
}

#[test]
fn integer_square_root_rounds_down() {
    assert_eq!(isqrt(0), 0);
    assert_eq!(isqrt(10), 3);
    assert_eq!(isqrt(16), 4);
    assert_eq!(isqrt(1u128 << 64), 1u64 << 32);
}

#[test]
fn division_rounds_toward_zero() {
    assert_eq!(div_toward_zero(7, 2), 3);
    assert_eq!(div_toward_zero(-7, 2), -3);
    assert_eq!(div_toward_zero(0, 9), 0);
}

#[test]
fn model_matrix_getters() {
    let m = LocalToWorld(Mat4 {
        x_axis: Vec4 { x: 5, y: 0, z: 0, w: 0 },
        y_axis: Vec4 { x: 0, y: 0, z: -2, w: 0 },
        z_axis: Vec4 { x: 0, y: 3, z: 0, w: 0 },
        w_axis: Vec4 { x: 9, y: 8, z: 7, w: 1 },
    });
    assert_eq!(m.right_scaled(), Vec3 { x: 5, y: 0, z: 0 });
    assert_eq!(m.right(), Vec3 { x: 1, y: 0, z: 0 });
    assert_eq!(m.up_scaled(), Vec3 { x: 0, y: 0, z: -2 });
    assert_eq!(m.up(), Vec3 { x: 0, y: 0, z: -1 });
    assert_eq!(m.forward_scaled(), Vec3 { x: 0, y: 3, z: 0 });
    assert_eq!(m.forward(), Vec3 { x: 0, y: 1, z: 0 });
    assert_eq!(m.translation(), Vec3 { x: 9, y: 8, z: 7 });
}

#[test]
fn planar_model_matrix_getters_and_composition() {
    let a = LocalToWorld2D::from_transform(&Transform2D::from_xy(2, 3));
    let b = a.mul_transform(Transform2D::from_xy(1, 1));
    assert_eq!(b.translation(), Vec2 { x: 3, y: 4 });
    assert_eq!(a.right_scaled(), Vec2 { x: 1, y: 0 });
    assert_eq!(a.right(), Vec2 { x: 1, y: 0 });
    assert_eq!(a.up(), Vec2 { x: 0, y: 1 });
}

#[test]
fn embedding_and_projection_are_inverse_on_the_plane() {
    let p = LocalToWorld2D::from_transform(&Transform2D::from_xy(4, 5));
    let lifted = LocalToWorld::from_2d(&p);
    assert_eq!(lifted.translation(), Vec3 { x: 4, y: 5, z: 0 });
    let back = LocalToWorld2D::from_3d(&lifted);
    assert_eq!(back, p);
    let w = WorldToLocal::from_2d(&WorldToLocal2D(p.0));
    assert_eq!(WorldToLocal2D::from_3d(&w).0, p.0);
}

#[test]
fn defaults_are_identity_matrices() {
    assert_eq!(LocalToWorld::default().0, Mat4::identity());
    assert_eq!(LocalToWorld2D::default().0, Mat3::identity());
    assert_eq!(WorldToLocal::default().0, Mat4::identity());
    assert_eq!(WorldToLocal2D::default().0, Mat3::identity());
}

#[test]
fn bundles_pair_pose_and_matrix() {
    let b: TransformBundle = TransformBundleBase::new(
        Transform3D::from_xyz(1, 2, 3),
        LocalToWorld::default(),
    );
    assert_eq!(b.transform.translation, Vec3 { x: 1, y: 2, z: 3 });
    assert_eq!(b.local_to_world.0, Mat4::identity());
}

#[test]
fn rotation_composition_is_complex_multiplication() {
    let mut t = Transform2D::identity();
    t.rotate(spine2d5::pose::Rot2 { cos: 0, sin: 1 });
    assert_eq!(t.rotation, spine2d5::pose::Rot2 { cos: 0, sin: 1 });
    t.rotate(spine2d5::pose::Rot2 { cos: 0, sin: 1 });
    assert_eq!(t.rotation, spine2d5::pose::Rot2 { cos: -1, sin: 0 });
}
