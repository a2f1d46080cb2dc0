use spine2d5::pose::{Transform2D, Transform3D};
use spine2d5::scene::{LocalPose, Scene};

#[test]
fn transform_2d_has_no_parent_but_is_tagged_as_root() {
    let mut sc = Scene::new();
    let n = sc.add_node(None, Some(LocalPose::TwoD(Transform2D::identity())));
    sc.update();
    assert!(sc.node(n).root_2d);
    assert!(!sc.node(n).child_of_2d);
}

#[test]
fn transform_2d_is_child_of_a_transform_and_tagged_as_root() {
    let mut sc = Scene::new();
    let parent = sc.add_node(None, Some(LocalPose::ThreeD(Transform3D::identity())));
    let child = sc.add_node(Some(parent), Some(LocalPose::TwoD(Transform2D::identity())));
    sc.update();
    assert!(sc.node(child).root_2d);
    assert!(!sc.node(parent).root_2d);
}

#[test]
fn transform_is_child_of_a_transform_2d_and_tagged_as_such() {
    let mut sc = Scene::new();
    let parent = sc.add_node(None, Some(LocalPose::TwoD(Transform2D::identity())));
    let child = sc.add_node(Some(parent), Some(LocalPose::ThreeD(Transform3D::identity())));
    sc.update();
    assert!(sc.node(child).child_of_2d);
    assert!(!sc.node(child).root_2d);
    assert!(sc.node(parent).root_2d);
}

#[test]
fn plain_2d_child_keeps_no_tags() {
    let mut sc = Scene::new();
    let parent = sc.add_node(None, Some(LocalPose::TwoD(Transform2D::identity())));
    let child = sc.add_node(Some(parent), Some(LocalPose::TwoD(Transform2D::identity())));
    sc.update();
    assert!(!sc.node(child).root_2d);
    assert!(!sc.node(child).child_of_2d);
}
