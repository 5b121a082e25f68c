use layer_canvas::color::Color;
use layer_canvas::geometry::Rectangle;
use layer_canvas::surface::{Fill, Surface};
use layer_canvas::virtual_context::{Backend, DrawOp, VirtualContext};

fn same_pixels(a: &Surface, b: &Surface) -> bool {
    if a.width() != b.width() || a.height() != b.height() {
        return false;
    }
    for y in 0..a.height() {
        for x in 0..a.width() {
            if a.get_pixel(x, y) != b.get_pixel(x, y) {
                return false;
            }
        }
    }
    true
}

#[test]
fn new_context_has_size() {
    let c = VirtualContext::new(30, 20);
    assert_eq!(c.width(), 30);
    assert_eq!(c.height(), 20);
    assert_eq!(c.get_canvas().get_pixel(29, 19), Color::new(0, 0, 0, 0));
}

#[test]
fn clear_replaces_with_flat_color() {
    let mut c = VirtualContext::new(5, 5);
    c.fill_circle(2, 2, 2, Color::new(255, 0, 0, 255));
    let half = Color::new(0, 255, 255, 0);
    c.clear(half);
    for y in 0..5 {
        for x in 0..5 {
            assert_eq!(c.get_canvas().get_pixel(x, y), half);
        }
    }
}

#[test]
fn clear_twice_equals_clear_once() {
    let mut once = VirtualContext::new(6, 4);
    once.line(0, 0, 5, 3, 2, Color::black());
    let mut twice = VirtualContext::new(6, 4);
    twice.line(0, 0, 5, 3, 2, Color::black());
    let c = Color::new(12, 34, 56, 78);
    once.clear(c);
    twice.clear(c);
    twice.clear(c);
    assert!(same_pixels(once.get_canvas(), twice.get_canvas()));
}

#[test]
fn checkerboard_pixels_follow_parity_regardless_of_contents() {
    let a = Color::new(191, 191, 191, 255);
    let b = Color::white();
    let mut c = VirtualContext::new(40, 30);
    c.fill_circle(20, 15, 12, Color::new(255, 0, 0, 255));
    c.hsv_circle(10, 10, 8);
    c.checkerboard(10, a, b);
    for y in 0..30u16 {
        for x in 0..40u16 {
            let expected = if (x / 10 + y / 10) % 2 == 0 { a } else { b };
            assert_eq!(c.get_canvas().get_pixel(x, y), expected);
        }
    }
}

#[test]
fn fill_circle_paints_center() {
    let mut c = VirtualContext::new(100, 100);
    let red = Color::new(255, 0, 0, 255);
    c.fill_circle(50, 50, 10, red);
    assert_eq!(c.get_canvas().get_pixel(50, 50), red);
    assert_eq!(c.get_canvas().get_pixel(0, 0), Color::new(0, 0, 0, 0));
}

#[test]
fn line_and_outline() {
    let mut c = VirtualContext::new(20, 20);
    let blue = Color::new(0, 0, 255, 255);
    c.line(2, 10, 17, 10, 3, blue);
    assert_eq!(c.get_canvas().get_pixel(10, 10), blue);
    assert_eq!(c.get_canvas().get_pixel(10, 14), Color::new(0, 0, 0, 0));
    c.draw_circle(10, 10, 6, 1);
    assert_eq!(c.get_canvas().get_pixel(15, 10), Color::black());
    assert_eq!(c.get_canvas().get_pixel(10, 10), blue);
}

#[test]
fn draw_image_at_origin_and_bounded() {
    let mut src = Surface::new(2, 2);
    src.fill(Fill::Flat(Color::new(0, 255, 0, 255)));
    let mut c = VirtualContext::new(6, 6);
    c.draw_image(&src);
    assert_eq!(c.get_canvas().get_pixel(1, 1), Color::new(0, 255, 0, 255));
    assert_eq!(c.get_canvas().get_pixel(2, 2), Color::new(0, 0, 0, 0));
    c.draw_image_bounded(&src, Rectangle::new(2, 2, 4, 4));
    assert_eq!(c.get_canvas().get_pixel(5, 5), Color::new(0, 255, 0, 255));
    assert_eq!(c.get_canvas().get_pixel(1, 4), Color::new(0, 0, 0, 0));
}

#[test]
fn hsv_circle_reaches_the_raster_surface() {
    let mut c = VirtualContext::new(150, 150);
    c.clear(Color::new(0, 255, 255, 0));
    c.hsv_circle(75, 75, 70);
    let center = c.get_canvas().get_pixel(75, 75);
    assert_eq!(center.a, 255);
    assert!(center.r > 250 && center.g > 250 && center.b > 250);
    // pixels outside the wheel keep their values
    assert_eq!(c.get_canvas().get_pixel(0, 0), Color::new(0, 255, 255, 0));
    let right = c.get_canvas().get_pixel(140, 74);
    assert_eq!(right.r, 255);
    assert!(right.g < 20 && right.b < 20);
}

#[test]
fn hsv_circle_leaves_translucent_pixels_outside_alone() {
    let mut c = VirtualContext::new(10, 1);
    c.clear(Color::new(0, 0, 0, 128));
    c.hsv_circle(0, 0, 2);
    assert_eq!(c.get_canvas().get_pixel(9, 0), Color::new(0, 0, 0, 128));
    assert_eq!(c.get_canvas().get_pixel(5, 0), Color::new(0, 0, 0, 128));
}

#[test]
fn set_size_resizes_everything() {
    let mut c = VirtualContext::new(10, 10);
    c.clear(Color::white());
    c.set_size(4, 3);
    assert_eq!(c.width(), 4);
    assert_eq!(c.height(), 3);
    c.checkerboard(1, Color::black(), Color::white());
    assert_eq!(c.get_canvas().get_pixel(3, 2), Color::white());
    assert_eq!(c.get_canvas().get_pixel(3, 1), Color::black());
}

#[test]
fn apply_all_runs_in_order() {
    let mut c = VirtualContext::new(10, 10);
    let red = Color::new(255, 0, 0, 255);
    c.apply_all(&vec![
        DrawOp::Checkerboard { cell_size: 5, color_a: Color::black(), color_b: Color::white() },
        DrawOp::FillCircle { x: 2, y: 2, r: 2, color: red },
        DrawOp::Clear(Color::white()),
        DrawOp::Line { x0: 0, y0: 0, x1: 9, y1: 0, width: 2, color: red },
        DrawOp::DrawCircle { x: 5, y: 5, r: 3, width: 1 },
        DrawOp::HsvCircle { x: 5, y: 5, r: 1 },
    ]);
    assert_eq!(c.get_canvas().get_pixel(4, 0), red);
    assert_eq!(c.get_canvas().get_pixel(9, 9), Color::white());
}

#[test]
fn backend_tag_is_public() {
    assert_ne!(Backend::Raster, Backend::Accelerated);
}
