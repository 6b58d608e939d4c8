use color_wheel::hsv::UNIT;
use color_wheel::wheel::{hue_of_angle, inside_wheel, saturation, CENTER, PIXEL, RADIUS};

#[test]
fn geometry_is_150_pixels() {
    assert_eq!(CENTER, 150 * PIXEL);
    assert_eq!(RADIUS, 150 * PIXEL);
}

#[test]
fn rim_is_inside_and_one_step_beyond_is_not() {
    assert!(inside_wheel(CENTER + RADIUS, CENTER));
    assert!(!inside_wheel(CENTER + RADIUS + 1, CENTER));
    assert!(inside_wheel(CENTER, CENTER - RADIUS));
    assert!(!inside_wheel(CENTER, CENTER - RADIUS - 1));
    // 90, 120, 150 is a right triangle.
    assert!(inside_wheel(CENTER + 90 * PIXEL, CENTER + 120 * PIXEL));
    assert!(!inside_wheel(CENTER + 90 * PIXEL + 1, CENTER + 120 * PIXEL));
}

#[test]
fn corners_of_the_bounding_square_are_outside() {
    assert!(!inside_wheel(0, 0));
    assert!(!inside_wheel(2 * CENTER, 0));
    assert!(!inside_wheel(0, 2 * CENTER));
    assert!(!inside_wheel(2 * CENTER, 2 * CENTER));
}

#[test]
fn far_positions_are_outside() {
    assert!(!inside_wheel(i64::MIN, CENTER));
    assert!(!inside_wheel(i64::MAX, CENTER));
    assert!(!inside_wheel(CENTER, i64::MIN));
    assert!(!inside_wheel(i64::MAX, i64::MAX));
}

#[test]
fn saturation_is_distance_over_radius() {
    assert_eq!(saturation(CENTER, CENTER), 0);
    assert_eq!(saturation(CENTER + RADIUS, CENTER), UNIT);
    assert_eq!(saturation(CENTER, CENTER - RADIUS), UNIT);
    assert_eq!(saturation(CENTER + 75 * PIXEL, CENTER), 500_000);
    assert_eq!(saturation(CENTER - 30 * PIXEL, CENTER + 40 * PIXEL), 333_333);
    assert_eq!(saturation(CENTER + 90 * PIXEL, CENTER - 120 * PIXEL), UNIT);
}

#[test]
fn saturation_rounds_down() {
    // One unit from the centre is two thirds of a millionth of the radius.
    assert_eq!(saturation(CENTER + 1, CENTER), 0);
    assert_eq!(saturation(CENTER + 2, CENTER), 1);
    assert_eq!(saturation(CENTER + 3, CENTER), 2);
    assert_eq!(saturation(CENTER + RADIUS - 1, CENTER), 999_999);
}

#[test]
fn hue_is_angle_plus_half_a_turn() {
    assert_eq!(hue_of_angle(0), 180_000);
    assert_eq!(hue_of_angle(90_000), 270_000);
    assert_eq!(hue_of_angle(-90_000), 90_000);
    assert_eq!(hue_of_angle(-180_000), 0);
    assert_eq!(hue_of_angle(180_000), 0);
    assert_eq!(hue_of_angle(179_999), 359_999);
    assert_eq!(hue_of_angle(-1), 179_999);
}

#[test]
fn hue_wraps_for_any_angle() {
    for angle in [i32::MIN, i32::MIN + 1, -360_001, -360_000, 360_000, 540_000, i32::MAX] {
        let expected = (angle as i64 + 180_000).rem_euclid(360_000) as u32;
        assert_eq!(hue_of_angle(angle), expected);
    }
}
