use layer_canvas::color::{Color, FULL_TURN, SECTOR, UNIT};
use layer_canvas::geometry::{isqrt, Rectangle, Vector2};
use layer_canvas::wheel::{acos_fixed, hue_of_direction, point_to_color};

#[test]
fn isqrt_values() {
    assert_eq!(isqrt(0), 0);
    assert_eq!(isqrt(1), 1);
    assert_eq!(isqrt(15), 3);
    assert_eq!(isqrt(16), 4);
    assert_eq!(isqrt(17), 4);
    assert_eq!(isqrt(u64::MAX), 4294967295);
}

#[test]
fn vector_len_and_norm() {
    let v = Vector2::new(3, 4);
    assert_eq!(v.len(), 5);
    assert_eq!(v.norm(), Vector2::new(39321, 52428));
    assert_eq!(Vector2::new(-3, -4).norm(), Vector2::new(-39321, -52428));
    assert_eq!(Vector2::new(0, -7).norm(), Vector2::new(0, -65536));
}

#[test]
fn norm_of_short_vectors_has_unit_length() {
    assert_eq!(Vector2::new(1, 1).norm(), Vector2::new(46341, 46341));
    let unit = UNIT as i64;
    for (x, y) in [(1, 1), (3, 1), (1, -2), (-5, 7), (2147483647, -1), (-2147483648, 0)] {
        let n = Vector2::new(x, y).norm();
        let sq = n.x as i64 * n.x as i64 + n.y as i64 * n.y as i64;
        assert!((unit - 2) * (unit - 2) <= sq && sq <= (unit + 2) * (unit + 2), "{:?}", n);
    }
}

#[test]
fn rectangle_new() {
    let r = Rectangle::new(1, 2, 3, 4);
    assert_eq!(r.coord, Vector2::new(1, 2));
    assert_eq!(r.size, Vector2::new(3, 4));
}

#[test]
fn acos_endpoints() {
    assert_eq!(acos_fixed(UNIT as i64), 0);
    assert_eq!(acos_fixed(0), 98300);
    assert_eq!(acos_fixed(-(UNIT as i64)), 3 * SECTOR);
}

#[test]
fn acos_is_close_to_sixty_degrees_at_one_half() {
    // acos(0.5) is 60 degrees: one sector
    let a = acos_fixed(UNIT as i64 / 2);
    assert!((a - SECTOR).abs() < 16, "{}", a);
}

#[test]
fn hue_follows_direction() {
    assert_eq!(hue_of_direction(Vector2::new(5, 0)), FULL_TURN);
    assert_eq!(hue_of_direction(Vector2::new(0, 5)), 98300);
    assert_eq!(hue_of_direction(Vector2::new(-5, 0)), 3 * SECTOR);
    assert_eq!(hue_of_direction(Vector2::new(0, -5)), FULL_TURN - 98300);
    // about 18.43 degrees
    let h = hue_of_direction(Vector2::new(3, 1));
    assert!(20100 < h && h < 20170, "{}", h);
}

#[test]
fn center_point_is_white() {
    let (c, p) = point_to_color(Vector2::new(0, 0));
    assert_eq!(c, Color::white());
    assert_eq!(p, Vector2::new(0, 0));
}

#[test]
fn point_on_positive_x_axis_is_red() {
    let (c, p) = point_to_color(Vector2::new(UNIT as i32, 0));
    assert_eq!(c, Color::new(255, 0, 0, 255));
    assert_eq!(p, Vector2::new(UNIT as i32, 0));
}

#[test]
fn outside_point_is_clamped_to_border() {
    let (near, near_marker) = point_to_color(Vector2::new(UNIT as i32, 0));
    let (far, far_marker) = point_to_color(Vector2::new(2 * UNIT as i32, 0));
    assert_eq!(far, near);
    assert_eq!(far_marker, near_marker);

    let (near, near_marker) = point_to_color(Vector2::new(39322, 52429));
    let (far, far_marker) = point_to_color(Vector2::new(78644, 104858));
    assert_eq!(far, near);
    assert_eq!(far_marker, near_marker);
}

#[test]
fn point_below_center_is_between_yellow_and_green() {
    let (c, _) = point_to_color(Vector2::new(0, UNIT as i32));
    assert_eq!(c, Color::new(128, 255, 0, 255));
}

#[test]
fn inner_point_keeps_its_place_and_partial_saturation() {
    let p = Vector2::new(UNIT as i32 / 2, 0);
    let (c, marker) = point_to_color(p);
    assert_eq!(marker, p);
    assert_eq!(c, Color::new(255, 128, 128, 255));
}
