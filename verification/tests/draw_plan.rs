use xd_engine::render::{game_view_draws, scene_view_draws, Draw, DrawItem, GAME_VIEW_SLOT_OFFSET, MAX_DRAWS};
use xd_engine::scene::Selection;

fn items(d: &[Draw]) -> Vec<DrawItem> {
    d.iter().map(|x| x.item).collect()
}

#[test]
fn scene_view_draws_in_order_with_consecutive_slots() {
    let d = scene_view_draws(Selection::Object(1), 2, true, false, 0, 6).unwrap();
    assert_eq!(
        items(&d),
        vec![
            DrawItem::Outline(1),
            DrawItem::Object(0),
            DrawItem::Object(1),
            DrawItem::CameraIcon,
            DrawItem::Handle(0),
            DrawItem::Handle(1),
            DrawItem::Handle(2),
            DrawItem::Handle(3),
            DrawItem::Handle(4),
            DrawItem::Handle(5),
        ]
    );
    assert!(d.iter().enumerate().all(|(j, x)| x.slot == j as u64));
}

#[test]
fn selected_camera_draws_frustum_and_axes() {
    let d = scene_view_draws(Selection::Camera, 1, true, true, 3, 0).unwrap();
    assert_eq!(
        items(&d),
        vec![
            DrawItem::Object(0),
            DrawItem::CameraIcon,
            DrawItem::CameraFrustum,
            DrawItem::CameraAxis(0),
            DrawItem::CameraAxis(1),
            DrawItem::CameraAxis(2),
        ]
    );
}

#[test]
fn a_stale_object_selection_has_no_outline() {
    let d = scene_view_draws(Selection::Object(5), 2, false, false, 0, 0).unwrap();
    assert_eq!(items(&d), vec![DrawItem::Object(0), DrawItem::Object(1)]);
}

#[test]
fn too_many_draws_are_refused() {
    assert!(scene_view_draws(Selection::Nothing, 64, false, false, 0, 0).is_some());
    assert!(scene_view_draws(Selection::Nothing, 64, true, false, 0, 0).is_none());
    assert!(scene_view_draws(Selection::Object(0), 63, false, false, 0, 0).is_some());
    assert!(scene_view_draws(Selection::Object(0), 64, false, false, 0, 0).is_none());
    assert!(scene_view_draws(Selection::Nothing, 128, false, false, 0, 0).is_none());
    assert!(scene_view_draws(Selection::Nothing, 0, false, false, 0, usize::MAX).is_none());
    assert_eq!(MAX_DRAWS, 128);
}

#[test]
fn game_view_uses_the_upper_slots() {
    let d = game_view_draws(3).unwrap();
    assert_eq!(items(&d), vec![DrawItem::Object(0), DrawItem::Object(1), DrawItem::Object(2)]);
    assert_eq!(d.iter().map(|x| x.slot).collect::<Vec<_>>(), vec![64, 65, 66]);
    assert!(game_view_draws(64).is_some());
    assert!(game_view_draws(65).is_none());
    assert_eq!(GAME_VIEW_SLOT_OFFSET, 64);
}

#[test]
fn views_never_share_slots() {
    let scene = scene_view_draws(Selection::Object(0), 40, true, true, 3, 18).unwrap();
    assert_eq!(scene.len(), 64);
    let game = game_view_draws(64).unwrap();
    assert!(scene.iter().all(|s| game.iter().all(|g| s.slot < g.slot)));
    assert!(scene_view_draws(Selection::Nothing, 65, false, false, 0, 0).is_none());
}
