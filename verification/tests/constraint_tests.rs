use spine2d5::constraint::TransformPropagationConstraint;
use spine2d5::matrix::{Mat3, Mat4, Vec3, Vec4};

fn diag_basis(x: i32, y: i32, z: i32) -> Mat4 {
    Mat4 {
        x_axis: Vec4 { x, y: 0, z: 0, w: 0 },
        y_axis: Vec4 { x: 0, y, z: 0, w: 0 },
        z_axis: Vec4 { x: 0, y: 0, z, w: 0 },
        w_axis: Vec4 { x: 1, y: 2, z: 3, w: 1 },
    }
}

#[test]
fn no_scale_normalizes_axis_aligned_bases() {
    let mut m = diag_basis(2, -3, 5);
    TransformPropagationConstraint::NoScale.constrain(&mut m);
    assert_eq!(m.x_axis, Vec4 { x: 1, y: 0, z: 0, w: 0 });
    assert_eq!(m.y_axis, Vec4 { x: 0, y: -1, z: 0, w: 0 });
    assert_eq!(m.z_axis, Vec4 { x: 0, y: 0, z: 1, w: 0 });
    assert_eq!(m.w_axis, Vec4 { x: 1, y: 2, z: 3, w: 1 });
}

#[test]
fn no_scale_replaces_a_zero_axis_by_the_canonical_axis() {
    let mut m = diag_basis(0, 4, 5);
    TransformPropagationConstraint::NoScale.constrain(&mut m);
    assert_eq!(m.x_axis, Vec4 { x: 1, y: 0, z: 0, w: 0 });
    assert_eq!(m.y_axis, Vec4 { x: 0, y: 1, z: 0, w: 0 });
    assert_eq!(m.z_axis, Vec4 { x: 0, y: 0, z: 1, w: 0 });
}

#[test]
fn no_rotation_keeps_lengths_and_handedness() {
    let mut m = diag_basis(2, -3, 5);
    // determinant of the basis block is negative
    TransformPropagationConstraint::NoRotationOrReflection.constrain(&mut m);
    assert_eq!(m.x_axis, Vec4 { x: -2, y: 0, z: 0, w: 0 });
    assert_eq!(m.y_axis, Vec4 { x: 0, y: 3, z: 0, w: 0 });
    assert_eq!(m.z_axis, Vec4 { x: 0, y: 0, z: 5, w: 0 });
    assert_eq!(m.w_axis, Vec4 { x: 1, y: 2, z: 3, w: 1 });
}

#[test]
fn only_translation_resets_the_basis() {
    let mut m = Mat4 {
        x_axis: Vec4 { x: 9, y: 8, z: 7, w: 0 },
        y_axis: Vec4 { x: 6, y: 5, z: 4, w: 0 },
        z_axis: Vec4 { x: 3, y: 2, z: 1, w: 0 },
        w_axis: Vec4 { x: 7, y: 8, z: 9, w: 1 },
    };
    TransformPropagationConstraint::OnlyTranslation.constrain(&mut m);
    assert_eq!(m.x_axis, Vec4 { x: 1, y: 0, z: 0, w: 0 });
    assert_eq!(m.y_axis, Vec4 { x: 0, y: 1, z: 0, w: 0 });
    assert_eq!(m.z_axis, Vec4 { x: 0, y: 0, z: 1, w: 0 });
    assert_eq!(m.w_axis, Vec4 { x: 7, y: 8, z: 9, w: 1 });
}

#[test]
fn no_scale_or_reflection_collapses_zero_axes() {
    let mut m = Mat4 {
        x_axis: Vec4 { x: 5, y: 0, z: 0, w: 0 },
        y_axis: Vec4 { x: 0, y: 0, z: 0, w: 0 },
        z_axis: Vec4 { x: 0, y: 0, z: 1, w: 0 },
        w_axis: Vec4 { x: 1, y: 2, z: 3, w: 1 },
    };
    TransformPropagationConstraint::NoScaleOrReflection.constrain(&mut m);
    assert_eq!(m.x_axis, Vec4 { x: 1, y: 0, z: 0, w: 0 });
    assert_eq!(m.y_axis, Vec4 { x: 0, y: 0, z: 0, w: 0 });
    assert_eq!(m.z_axis, Vec4 { x: 0, y: 0, z: 1, w: 0 });
}

#[test]
fn normal_changes_nothing() {
    let mut m = diag_basis(2, -3, 5);
    let before = m;
    TransformPropagationConstraint::Normal.constrain(&mut m);
    assert_eq!(m, before);
}

#[test]
fn planar_constraints_mirror_the_spatial_ones() {
    let mut m = Mat3 {
        x_axis: Vec3 { x: 2, y: 0, z: 0 },
        y_axis: Vec3 { x: 0, y: -3, z: 0 },
        z_axis: Vec3 { x: 4, y: 5, z: 1 },
    };
    let mut n = m;
    TransformPropagationConstraint::NoScale.constrain_2d(&mut m);
    assert_eq!(m.x_axis, Vec3 { x: 1, y: 0, z: 0 });
    assert_eq!(m.y_axis, Vec3 { x: 0, y: -1, z: 0 });
    assert_eq!(m.z_axis, Vec3 { x: 4, y: 5, z: 1 });
    TransformPropagationConstraint::NoRotationOrReflection.constrain_2d(&mut n);
    // determinant of the 2x2 basis block is negative
    assert_eq!(n.x_axis, Vec3 { x: -2, y: 0, z: 0 });
    assert_eq!(n.y_axis, Vec3 { x: 0, y: 3, z: 0 });
}

#[test]
fn multiplication_saturates_at_the_i32_range() {
    let a = Mat4 {
        x_axis: Vec4 { x: 2, y: 0, z: 0, w: 0 },
        y_axis: Vec4 { x: 0, y: 1, z: 0, w: 0 },
        z_axis: Vec4 { x: 0, y: 0, z: 1, w: 0 },
        w_axis: Vec4 { x: 0, y: 0, z: 0, w: 1 },
    };
    let b = Mat4 {
        x_axis: Vec4 { x: i32::MAX, y: 0, z: 0, w: 0 },
        y_axis: Vec4 { x: 0, y: 1, z: 0, w: 0 },
        z_axis: Vec4 { x: 0, y: 0, z: 1, w: 0 },
        w_axis: Vec4 { x: i32::MIN, y: 0, z: 0, w: 1 },
    };
    let c = a.mul_mat4(&b);
    assert_eq!(c.x_axis.x, i32::MAX);
    assert_eq!(c.w_axis.x, i32::MIN);
}
