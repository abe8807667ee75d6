use xd_engine::gizmo::{is_highlighted, GizmoAxis, GizmoPart};
use xd_engine::render::uniform_stride;
use xd_engine::scene::{ProjectionMode, Scene, Selection};

#[test]
fn new_scene_has_a_camera_and_no_selection() {
    let s: Scene<&str, u32> = Scene::new(1);
    assert!(s.objects.is_empty());
    assert_eq!(s.selected, Selection::Nothing);
    assert_eq!(s.scene_camera, Some(1));
}

#[test]
fn removing_the_selected_camera_clears_the_selection() {
    let mut s: Scene<&str, u32> = Scene::new(1);
    s.selected = Selection::Camera;
    s.remove_camera();
    assert_eq!(s.scene_camera, None);
    assert_eq!(s.selected, Selection::Nothing);
}

#[test]
fn removing_the_camera_keeps_an_object_selection() {
    let mut s: Scene<&str, u32> = Scene::new(1);
    s.objects.push("cube");
    s.selected = Selection::Object(0);
    s.remove_camera();
    assert_eq!(s.selected, Selection::Object(0));
}

#[test]
fn adding_a_camera_keeps_an_existing_one() {
    let mut s: Scene<&str, u32> = Scene::new(1);
    s.add_default_camera(2);
    assert_eq!(s.scene_camera, Some(1));
    s.remove_camera();
    s.add_default_camera(3);
    assert_eq!(s.scene_camera, Some(3));
}

#[test]
fn deleting_an_object_clears_the_selection() {
    let mut s: Scene<&str, u32> = Scene::new(1);
    s.objects.push("a");
    s.objects.push("b");
    s.objects.push("c");
    s.selected = Selection::Object(2);
    s.delete_object(1);
    assert_eq!(s.objects, vec!["a", "c"]);
    assert_eq!(s.selected, Selection::Nothing);
}

#[test]
fn deleting_out_of_range_changes_nothing() {
    let mut s: Scene<&str, u32> = Scene::new(1);
    s.objects.push("a");
    s.selected = Selection::Object(0);
    s.delete_object(1);
    assert_eq!(s.objects, vec!["a"]);
    assert_eq!(s.selected, Selection::Object(0));
}

#[test]
fn projection_modes_differ() {
    assert_ne!(ProjectionMode::Perspective, ProjectionMode::Orthographic);
}

#[test]
fn dragged_or_hovered_handles_are_highlighted() {
    let mx = GizmoPart::Move(GizmoAxis::X);
    let ry = GizmoPart::Rotate(GizmoAxis::Y);
    assert!(is_highlighted(mx, Some(mx), None));
    assert!(is_highlighted(mx, None, Some(mx)));
    assert!(is_highlighted(mx, Some(ry), Some(mx)));
    assert!(!is_highlighted(mx, Some(ry), None));
    assert!(!is_highlighted(mx, None, None));
    assert!(!is_highlighted(GizmoPart::Move(GizmoAxis::Y), Some(ry), Some(mx)));
}

#[test]
fn uniform_stride_rounds_up_to_the_alignment() {
    assert_eq!(uniform_stride(80, 256), 256);
    assert_eq!(uniform_stride(256, 256), 256);
    assert_eq!(uniform_stride(257, 256), 512);
    assert_eq!(uniform_stride(0, 4), 0);
    assert_eq!(uniform_stride(80, 1), 80);
}
