use color_wheel::picker::{Bounds, PickerState};
use color_wheel::wheel::{CENTER, PIXEL, RADIUS};

const ORIGIN: Bounds = Bounds { left: 0, top: 0 };

fn snapshot(p: &PickerState) -> (String, (i64, i64), bool) {
    (p.color().clone(), p.cursor_position(), p.is_dragging())
}

#[test]
fn initial_state_is_red_centered_and_idle() {
    let p = PickerState::new();
    assert_eq!(p.color(), "#FF0000");
    assert_eq!(p.cursor_position(), (150 * PIXEL, 150 * PIXEL));
    assert!(!p.is_dragging());
}

#[test]
fn pointer_down_starts_a_drag_and_changes_nothing_else() {
    let mut p = PickerState::new();
    p.on_pointer_down();
    assert!(p.is_dragging());
    assert_eq!(p.color(), "#FF0000");
    assert_eq!(p.cursor_position(), (CENTER, CENTER));
    p.on_pointer_down();
    assert!(p.is_dragging());
}

#[test]
fn pointer_up_right_after_pointer_down_keeps_the_color() {
    let mut p = PickerState::new();
    p.on_pointer_down();
    p.on_pointer_up();
    assert_eq!(p.color(), "#FF0000");
    assert_eq!(p.cursor_position(), (CENTER, CENTER));
    assert!(!p.is_dragging());
}

#[test]
fn pointer_up_keeps_a_selected_color() {
    let mut p = PickerState::new();
    p.on_pointer_down();
    p.on_pointer_move(300 * PIXEL, 150 * PIXEL, ORIGIN, 0);
    p.on_pointer_up();
    assert_eq!(p.color(), "#00FFFF");
    assert_eq!(p.cursor_position(), (300 * PIXEL, 150 * PIXEL));
    assert!(!p.is_dragging());
}

#[test]
fn move_while_idle_is_ignored() {
    let mut p = PickerState::new();
    p.on_pointer_move(300 * PIXEL, 150 * PIXEL, ORIGIN, 0);
    assert_eq!(p.color(), "#FF0000");
    assert_eq!(p.cursor_position(), (CENTER, CENTER));
    assert!(!p.is_dragging());
}

#[test]
fn drag_to_the_right_edge_selects_cyan() {
    let mut p = PickerState::new();
    p.on_pointer_down();
    p.on_pointer_move(300 * PIXEL, 150 * PIXEL, ORIGIN, 0);
    assert_eq!(p.color(), "#00FFFF");
    assert_eq!(p.cursor_position(), (300 * PIXEL, 150 * PIXEL));
    assert!(p.is_dragging());
}

#[test]
fn drag_to_the_left_edge_selects_red() {
    let mut p = PickerState::new();
    p.on_pointer_down();
    p.on_pointer_move(0, 150 * PIXEL, ORIGIN, 180_000);
    assert_eq!(p.color(), "#FF0000");
    assert_eq!(p.cursor_position(), (0, 150 * PIXEL));
}

#[test]
fn drag_to_the_center_selects_white() {
    let mut p = PickerState::new();
    p.on_pointer_down();
    p.on_pointer_move(300 * PIXEL, 150 * PIXEL, ORIGIN, 0);
    p.on_pointer_move(150 * PIXEL, 150 * PIXEL, ORIGIN, 0);
    assert_eq!(p.color(), "#FFFFFF");
    assert_eq!(p.cursor_position(), (CENTER, CENTER));
}

#[test]
fn drag_half_way_down_is_half_saturated() {
    // Straight down: angle 90 degrees, hue 270, saturation one half.
    let mut p = PickerState::new();
    p.on_pointer_down();
    p.on_pointer_move(150 * PIXEL, 225 * PIXEL, ORIGIN, 90_000);
    // c = 1/2, x = 1/4, m = 1/2 in the sextant from 240 to 300 degrees.
    assert_eq!(p.color(), "#BF7FFF");
    assert_eq!(p.cursor_position(), (150 * PIXEL, 225 * PIXEL));
}

#[test]
fn bounding_box_offset_is_subtracted() {
    let mut p = PickerState::new();
    p.on_pointer_down();
    let bounds = Bounds { left: 40 * PIXEL + 5_000, top: -20 * PIXEL };
    p.on_pointer_move(340 * PIXEL + 5_000, 130 * PIXEL, bounds, 0);
    assert_eq!(p.cursor_position(), (300 * PIXEL, 150 * PIXEL));
    assert_eq!(p.color(), "#00FFFF");
}

#[test]
fn sample_on_the_rim_is_accepted() {
    let mut p = PickerState::new();
    p.on_pointer_down();
    p.on_pointer_move(CENTER + RADIUS, CENTER, ORIGIN, 0);
    assert_eq!(p.cursor_position(), (CENTER + RADIUS, CENTER));
    assert_eq!(p.color(), "#00FFFF");
}

#[test]
fn sample_just_beyond_the_rim_is_discarded() {
    // 150.0001 pixels from the centre.
    let mut p = PickerState::new();
    p.on_pointer_down();
    p.on_pointer_move(CENTER + RADIUS + 1, CENTER, ORIGIN, 0);
    assert_eq!(p.color(), "#FF0000");
    assert_eq!(p.cursor_position(), (CENTER, CENTER));
    assert!(p.is_dragging());

    p.on_pointer_move(CENTER, CENTER + 75 * PIXEL, ORIGIN, 90_000);
    let before = snapshot(&p);
    p.on_pointer_move(CENTER + RADIUS + 1, CENTER, ORIGIN, 0);
    assert_eq!(snapshot(&p), before);
}

#[test]
fn sample_far_outside_is_discarded() {
    let mut p = PickerState::new();
    p.on_pointer_down();
    p.on_pointer_move(i64::MAX, i64::MAX, Bounds { left: i64::MIN, top: i64::MIN }, 45_000);
    p.on_pointer_move(i64::MIN, 0, Bounds { left: i64::MAX, top: 0 }, 45_000);
    p.on_pointer_move(0, 0, ORIGIN, -135_000);
    assert_eq!(p.color(), "#FF0000");
    assert_eq!(p.cursor_position(), (CENTER, CENTER));
    assert!(p.is_dragging());
}

#[test]
fn repeated_move_changes_nothing_more() {
    let mut p = PickerState::new();
    p.on_pointer_down();
    let bounds = Bounds { left: 12 * PIXEL, top: 7 * PIXEL };
    p.on_pointer_move(100 * PIXEL, 200 * PIXEL, bounds, 150_000);
    let once = snapshot(&p);
    for _ in 0..10 {
        p.on_pointer_move(100 * PIXEL, 200 * PIXEL, bounds, 150_000);
        assert_eq!(snapshot(&p), once);
    }
}

#[test]
fn drag_can_start_again_after_release() {
    let mut p = PickerState::new();
    p.on_pointer_down();
    p.on_pointer_move(300 * PIXEL, 150 * PIXEL, ORIGIN, 0);
    p.on_pointer_up();
    p.on_pointer_move(150 * PIXEL, 150 * PIXEL, ORIGIN, 0);
    assert_eq!(p.color(), "#00FFFF");
    p.on_pointer_down();
    p.on_pointer_move(150 * PIXEL, 150 * PIXEL, ORIGIN, 0);
    assert_eq!(p.color(), "#FFFFFF");
}
