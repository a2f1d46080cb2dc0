use spine2d5::matrix::{Vec2, Vec3, Vec4};
use spine2d5::pose::{Rot2, Shear, Transform2D, Transform3D};
use spine2d5::scene::{LocalPose, Scene, WorldMatrix};
use spine2d5::constraint::TransformPropagationConstraint;

#[test]
fn bridged_child_carries_z_through() {
    // A planar root at (2, 3) with a spatial child at (0, 0, 5): the
    // child's world translation is (2, 3, 5), z untouched by the
    // embedding.
    let mut sc = Scene::new();
    let root = sc.add_node(None, Some(LocalPose::TwoD(Transform2D::from_xy(2, 3))));
    let child = sc.add_node(Some(root), Some(LocalPose::ThreeD(Transform3D::from_xyz(0, 0, 5))));
    sc.update();
    assert!(sc.node(root).root_2d);
    assert!(sc.node(child).child_of_2d);
    assert_eq!(sc.node(child).world4.w_axis, Vec4 { x: 2, y: 3, z: 5, w: 1 });
}

#[test]
fn only_translation_strips_rotation_and_scale() {
    // Parent with a half-turn rotation and uniform scale 2; child with
    // identity local pose under OnlyTranslation sees a pure translation.
    let mut sc = Scene::new();
    let parent = sc.add_node(
        None,
        Some(LocalPose::ThreeD(Transform3D {
            translation: Vec3 { x: 7, y: 8, z: 9 },
            rotation: spine2d5::pose::Quat { x: 0, y: 0, z: 1, w: 0 },
            scale: Vec3 { x: 2, y: 2, z: 2 },
        })),
    );
    let child = sc.add_node(Some(parent), Some(LocalPose::ThreeD(Transform3D::identity())));
    sc.set_constraint(child, TransformPropagationConstraint::OnlyTranslation);
    sc.update();
    let w = sc.node(child).world4;
    assert_eq!(w.x_axis, Vec4 { x: 1, y: 0, z: 0, w: 0 });
    assert_eq!(w.y_axis, Vec4 { x: 0, y: 1, z: 0, w: 0 });
    assert_eq!(w.z_axis, Vec4 { x: 0, y: 0, z: 1, w: 0 });
    assert_eq!(w.w_axis, Vec4 { x: 7, y: 8, z: 9, w: 1 });
}

#[test]
fn rerun_without_changes_is_bit_identical() {
    let mut sc = Scene::new();
    let root = sc.add_node(None, Some(LocalPose::ThreeD(Transform3D::from_xyz(1, 2, 3))));
    let mid = sc.add_node(Some(root), Some(LocalPose::TwoD(Transform2D::from_xy(4, 5))));
    let leaf = sc.add_node(Some(mid), Some(LocalPose::ThreeD(Transform3D::from_xyz(6, 7, 8))));
    sc.update();
    let snap: Vec<_> = (0..sc.len()).map(|i| sc.node(i)).collect();
    sc.update();
    for i in 0..sc.len() {
        assert_eq!(sc.node(i).world4, snap[i].world4);
        assert_eq!(sc.node(i).world2, snap[i].world2);
    }
    assert_eq!(snap[leaf].world4.w_axis, Vec4 { x: 11, y: 14, z: 11, w: 1 });
    let _ = (root, mid);
}

#[test]
fn leaf_edit_leaves_siblings_and_ancestors_alone() {
    let mut sc = Scene::new();
    let root = sc.add_node(None, Some(LocalPose::ThreeD(Transform3D::from_xyz(1, 0, 0))));
    let a = sc.add_node(Some(root), Some(LocalPose::ThreeD(Transform3D::from_xyz(0, 2, 0))));
    let b = sc.add_node(Some(root), Some(LocalPose::ThreeD(Transform3D::from_xyz(0, 0, 3))));
    sc.update();
    let root_before = sc.node(root).world4;
    let b_before = sc.node(b).world4;
    sc.set_transform_3d(a, Transform3D::from_xyz(0, 4, 0));
    sc.update();
    assert_eq!(sc.node(root).world4, root_before);
    assert_eq!(sc.node(b).world4, b_before);
    assert_eq!(sc.node(a).world4.w_axis, Vec4 { x: 1, y: 4, z: 0, w: 1 });
}

#[test]
fn interior_edit_reaches_every_descendant_and_nothing_else() {
    let mut sc = Scene::new();
    let root = sc.add_node(None, Some(LocalPose::ThreeD(Transform3D::from_xyz(1, 0, 0))));
    let mid = sc.add_node(Some(root), Some(LocalPose::ThreeD(Transform3D::from_xyz(0, 1, 0))));
    let leaf = sc.add_node(Some(mid), Some(LocalPose::ThreeD(Transform3D::from_xyz(0, 0, 1))));
    let other = sc.add_node(Some(root), Some(LocalPose::ThreeD(Transform3D::from_xyz(5, 0, 0))));
    sc.update();
    let root_before = sc.node(root).world4;
    let other_before = sc.node(other).world4;
    sc.set_transform_3d(mid, Transform3D::from_xyz(0, 10, 0));
    sc.update();
    assert_eq!(sc.node(root).world4, root_before);
    assert_eq!(sc.node(other).world4, other_before);
    assert_eq!(sc.node(mid).world4.w_axis, Vec4 { x: 1, y: 10, z: 0, w: 1 });
    assert_eq!(sc.node(leaf).world4.w_axis, Vec4 { x: 1, y: 10, z: 1, w: 1 });
}

#[test]
fn reparenting_onto_a_planar_node_retags_and_recomputes() {
    let mut sc = Scene::new();
    let r3 = sc.add_node(None, Some(LocalPose::ThreeD(Transform3D::from_xyz(10, 0, 0))));
    let s2d = sc.add_node(Some(r3), Some(LocalPose::TwoD(Transform2D::from_xy(2, 3))));
    let m3 = sc.add_node(Some(r3), Some(LocalPose::ThreeD(Transform3D::from_xyz(0, 0, 5))));
    let sib = sc.add_node(Some(r3), Some(LocalPose::ThreeD(Transform3D::from_xyz(4, 0, 0))));
    sc.update();
    assert!(!sc.node(m3).child_of_2d);
    let sib_before = sc.node(sib).world4;
    sc.set_parent(m3, Some(s2d));
    sc.update();
    assert!(sc.node(m3).child_of_2d);
    assert!(!sc.node(sib).child_of_2d);
    assert_eq!(sc.node(sib).world4, sib_before);
    // New chain: spatial root at (10,0,0), planar bridge at (2,3),
    // spatial child at (0,0,5).
    assert_eq!(sc.node(m3).world4.w_axis, Vec4 { x: 12, y: 3, z: 5, w: 1 });
}

#[test]
fn pure_planar_chain_composes_in_the_plane() {
    let mut sc = Scene::new();
    let root = sc.add_node(None, Some(LocalPose::TwoD(Transform2D::from_xy(2, 3))));
    let child = sc.add_node(Some(root), Some(LocalPose::TwoD(Transform2D::from_xy(1, 1))));
    sc.update();
    assert_eq!(sc.node(child).world2.z_axis, Vec3 { x: 3, y: 4, z: 1 });
    match sc.world_matrix(child) {
        WorldMatrix::TwoD(m) => assert_eq!(m.z_axis, Vec3 { x: 3, y: 4, z: 1 }),
        WorldMatrix::ThreeD(_) => panic!("planar child must expose its planar matrix"),
    }
    match sc.world_matrix(root) {
        WorldMatrix::ThreeD(m) => assert_eq!(m.w_axis, Vec4 { x: 2, y: 3, z: 0, w: 1 }),
        WorldMatrix::TwoD(_) => panic!("a planar root bridges into a spatial matrix"),
    }
}

#[test]
fn quarter_turn_planar_rotation_is_exact() {
    let t = Transform2D::from_rotation(Rot2 { cos: 0, sin: 1 });
    let m = t.compute_matrix();
    assert_eq!(m.x_axis, Vec3 { x: 0, y: 1, z: 0 });
    assert_eq!(m.y_axis, Vec3 { x: -1, y: 0, z: 0 });
    assert_eq!(m.z_axis, Vec3 { x: 0, y: 0, z: 1 });
}

#[test]
fn planar_pose_matrix_with_shear_and_scale() {
    let t = Transform2D {
        translation: Vec2 { x: 1, y: 2 },
        rotation: Rot2 { cos: 1, sin: 0 },
        scale: Vec2 { x: 3, y: 4 },
        shear: Vec2 { x: 5, y: 6 },
    };
    let m = t.compute_matrix();
    assert_eq!(m.x_axis, Vec3 { x: 3, y: 15, z: 0 });
    assert_eq!(m.y_axis, Vec3 { x: 24, y: 4, z: 0 });
    assert_eq!(m.z_axis, Vec3 { x: 1, y: 2, z: 1 });
}

#[test]
fn spatial_shear_composes_before_the_pose() {
    let mut sc = Scene::new();
    let n = sc.add_node(None, Some(LocalPose::ThreeD(Transform3D::from_xyz(1, 0, 0))));
    sc.set_shear(n, Some(Shear::from_shear_xy(1, 2)));
    sc.update();
    let w = sc.node(n).world4;
    assert_eq!(w.x_axis, Vec4 { x: 1, y: 1, z: 0, w: 0 });
    assert_eq!(w.y_axis, Vec4 { x: 2, y: 1, z: 0, w: 0 });
    assert_eq!(w.z_axis, Vec4 { x: 0, y: 0, z: 1, w: 0 });
    assert_eq!(w.w_axis, Vec4 { x: 1, y: 1, z: 0, w: 1 });
}

#[test]
fn non_propagating_node_stops_its_subtree() {
    let mut sc = Scene::new();
    let root = sc.add_node(None, Some(LocalPose::ThreeD(Transform3D::from_xyz(1, 0, 0))));
    let child = sc.add_node(Some(root), Some(LocalPose::ThreeD(Transform3D::from_xyz(0, 1, 0))));
    sc.set_dont_propagate(root, true);
    sc.update();
    // The non-propagating node itself resolves, its child keeps the
    // initial identity cache.
    assert_eq!(sc.node(root).world4.w_axis, Vec4 { x: 1, y: 0, z: 0, w: 1 });
    assert_eq!(sc.node(child).world4.w_axis, Vec4 { x: 0, y: 0, z: 0, w: 1 });
}

#[test]
fn composition_saturates_instead_of_wrapping() {
    let mut sc = Scene::new();
    let root = sc.add_node(
        None,
        Some(LocalPose::ThreeD(Transform3D {
            translation: Vec3 { x: 0, y: 0, z: 0 },
            rotation: spine2d5::pose::Quat { x: 0, y: 0, z: 0, w: 1 },
            scale: Vec3 { x: 2, y: 1, z: 1 },
        })),
    );
    let child = sc.add_node(
        Some(root),
        Some(LocalPose::ThreeD(Transform3D::from_xyz(i32::MAX, 0, 0))),
    );
    sc.update();
    assert_eq!(sc.node(child).world4.w_axis.x, i32::MAX);
}
