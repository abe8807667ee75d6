use xd_engine::input::{InputState, MoveAction, ReleaseAction};

type P = (i32, i32);

#[test]
fn press_starts_an_orbit_drag_from_the_last_position() {
    let mut s: InputState<P> = InputState::new();
    assert!(matches!(s.cursor_moved((1, 2), false, false), MoveAction::Hover));
    s.left_pressed(false);
    assert!(s.is_dragging);
    assert_eq!(s.mouse_down_pos, Some((1, 2)));
}

#[test]
fn press_on_a_handle_starts_no_orbit() {
    let mut s: InputState<P> = InputState::new();
    s.cursor_moved((1, 2), false, false);
    s.left_pressed(true);
    assert!(!s.is_dragging);
    assert_eq!(s.mouse_down_pos, None);
    assert!(matches!(s.cursor_moved((3, 3), true, false), MoveAction::DragGizmo));
    assert!(matches!(s.left_released(true), ReleaseAction::EndGizmoDrag));
}

#[test]
fn release_reports_the_click_positions() {
    let mut s: InputState<P> = InputState::new();
    s.cursor_moved((10, 10), false, false);
    s.left_pressed(false);
    s.cursor_moved((12, 11), false, false);
    match s.left_released(false) {
        ReleaseAction::Click { down, up } => {
            assert_eq!(down, (10, 10));
            assert_eq!(up, (12, 11));
        }
        _ => panic!("expected a click"),
    }
    assert!(!s.is_dragging);
    assert_eq!(s.mouse_down_pos, None);
}

#[test]
fn release_without_positions_is_no_click() {
    let mut s: InputState<P> = InputState::new();
    s.left_pressed(false);
    assert!(matches!(s.left_released(false), ReleaseAction::EndDrag));
}

#[test]
fn dragging_orbits_or_pans_from_the_previous_position() {
    let mut s: InputState<P> = InputState::new();
    s.left_pressed(false);
    assert!(matches!(s.cursor_moved((5, 5), false, false), MoveAction::Nothing));
    match s.cursor_moved((6, 7), false, false) {
        MoveAction::Orbit { from } => assert_eq!(from, (5, 5)),
        _ => panic!("expected an orbit"),
    }
    s.space_held = true;
    match s.cursor_moved((8, 7), false, false) {
        MoveAction::Pan { from } => assert_eq!(from, (6, 7)),
        _ => panic!("expected a pan"),
    }
    assert_eq!(s.last_mouse_pos, Some((8, 7)));
}

#[test]
fn dragging_pans_in_the_2d_grid_mode() {
    let mut s: InputState<P> = InputState::new();
    s.cursor_moved((0, 0), false, true);
    s.left_pressed(false);
    match s.cursor_moved((4, 0), false, true) {
        MoveAction::Pan { from } => assert_eq!(from, (0, 0)),
        _ => panic!("expected a pan"),
    }
    assert!(matches!(s.cursor_moved((5, 0), false, false), MoveAction::Orbit { .. }));
}
