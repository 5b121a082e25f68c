use layer_canvas::color::Color;
use layer_canvas::geometry::Rectangle;
use layer_canvas::shaders::{CheckerboardShader, CopyImageShader, HsvCircleShader};
use layer_canvas::surface::{covers, shade, wheel_at, Composite, Fill, Shape, Surface};

const CLEAR: Color = Color { r: 0, g: 0, b: 0, a: 0 };

#[test]
fn new_surface_is_transparent() {
    let s = Surface::new(4, 3);
    assert_eq!(s.width(), 4);
    assert_eq!(s.height(), 3);
    for y in 0..3 {
        for x in 0..4 {
            assert_eq!(s.get_pixel(x, y), CLEAR);
        }
    }
}

#[test]
fn empty_surface() {
    let mut s = Surface::new(0, 5);
    s.fill(Fill::Flat(Color::white()));
    assert_eq!(s.width(), 0);
}

#[test]
fn flat_fill_replaces_everything() {
    let mut s = Surface::new(3, 2);
    let c = Color::new(10, 20, 30, 40);
    s.fill(Fill::Flat(c));
    for y in 0..2 {
        for x in 0..3 {
            assert_eq!(s.get_pixel(x, y), c);
        }
    }
}

#[test]
fn disc_coverage() {
    let d = Shape::Disc { cx: 50, cy: 50, r: 10 };
    assert!(covers(d, 50, 50));
    assert!(covers(d, 59, 50));
    assert!(covers(d, 40, 50));
    assert!(!covers(d, 60, 50));
    assert!(!covers(d, 58, 58));
    assert!(!covers(Shape::Disc { cx: 0, cy: 0, r: 0 }, 0, 0));
}

#[test]
fn ring_coverage() {
    let r = Shape::Ring { cx: 10, cy: 10, r: 5, width: 2 };
    assert!(covers(r, 14, 10));
    assert!(covers(r, 15, 10));
    assert!(!covers(r, 10, 10));
    assert!(!covers(r, 17, 10));
    // a band wider than the diameter fills the center too
    assert!(covers(Shape::Ring { cx: 10, cy: 10, r: 1, width: 4 }, 10, 10));
}

#[test]
fn segment_coverage() {
    let s = Shape::Segment { x0: 0, y0: 5, x1: 10, y1: 5, width: 2 };
    assert!(covers(s, 0, 5));
    assert!(covers(s, 5, 5));
    assert!(covers(s, 5, 4));
    assert!(!covers(s, 5, 3));
    assert!(!covers(s, 5, 7));
    assert!(!covers(s, 12, 5));
    // round cap around a single point
    let dot = Shape::Segment { x0: 3, y0: 3, x1: 3, y1: 3, width: 4 };
    assert!(covers(dot, 3, 3));
    assert!(!covers(dot, 6, 3));
}

#[test]
fn paint_blends_only_covered_pixels() {
    let mut s = Surface::new(100, 100);
    s.fill(Fill::Flat(Color::white()));
    let red = Color::new(255, 0, 0, 255);
    s.fill(Fill::Paint(Shape::Disc { cx: 50, cy: 50, r: 10 }, red));
    assert_eq!(s.get_pixel(50, 50), red);
    assert_eq!(s.get_pixel(70, 70), Color::white());
}

#[test]
fn checker_fill_by_parity() {
    let mut s = Surface::new(8, 8);
    let a = Color::new(191, 191, 191, 255);
    let b = Color::new(255, 255, 255, 100);
    s.fill(Fill::Checker { cell: 2, a, b });
    assert_eq!(s.get_pixel(0, 0), a);
    assert_eq!(s.get_pixel(1, 1), a);
    assert_eq!(s.get_pixel(2, 0), Color::white());
    assert_eq!(s.get_pixel(2, 2), a);
    assert_eq!(s.get_pixel(7, 0), Color::white());
}

#[test]
fn wheel_pixels() {
    // outside the disk
    assert_eq!(wheel_at(10, 10, 5, 0, 0), None);
    // zero radius draws nothing
    assert_eq!(wheel_at(10, 10, 0, 10, 10), None);
    // near the center: almost no saturation, full alpha
    let c = wheel_at(50, 50, 40, 50, 50).unwrap();
    assert_eq!(c.a, 255);
    assert!(c.r > 250 && c.g > 250 && c.b > 250);
    // at the rim on the positive x axis: strong red, feathered alpha
    let rim = wheel_at(50, 50, 40, 89, 49).unwrap();
    assert!(rim.a < 255);
    assert_eq!(rim.r, 255);
}

#[test]
fn shade_keeps_uncovered_pixel() {
    let dst = Color::new(1, 2, 3, 4);
    let f = Fill::Paint(Shape::Disc { cx: 0, cy: 0, r: 1 }, Color::white());
    assert_eq!(shade(f, 50, 50, dst), dst);
}

#[test]
fn blit_copy_and_scale() {
    let mut src = Surface::new(2, 1);
    src.fill(Fill::Paint(Shape::Disc { cx: 0, cy: 0, r: 1 }, Color::new(255, 0, 0, 255)));
    assert_eq!(src.get_pixel(0, 0), Color::new(255, 0, 0, 255));
    assert_eq!(src.get_pixel(1, 0), CLEAR);

    let mut dst = Surface::new(4, 2);
    dst.fill(Fill::Flat(Color::white()));
    dst.blit(&src, Rectangle::new(0, 0, 4, 2), Composite::Copy);
    assert_eq!(dst.get_pixel(0, 0), Color::new(255, 0, 0, 255));
    assert_eq!(dst.get_pixel(1, 1), Color::new(255, 0, 0, 255));
    assert_eq!(dst.get_pixel(2, 0), CLEAR);
    assert_eq!(dst.get_pixel(3, 1), CLEAR);
}

#[test]
fn blit_source_over_keeps_destination_under_transparency() {
    let src = Surface::new(2, 2);
    let mut dst = Surface::new(2, 2);
    dst.fill(Fill::Flat(Color::white()));
    dst.blit(&src, Rectangle::new(0, 0, 2, 2), Composite::SourceOver);
    assert_eq!(dst.get_pixel(1, 1), Color::white());
}

#[test]
fn blit_outside_rect_and_empty_rect() {
    let mut src = Surface::new(1, 1);
    src.fill(Fill::Flat(Color::black()));
    let mut dst = Surface::new(3, 3);
    dst.blit(&src, Rectangle::new(1, 1, 1, 1), Composite::SourceOver);
    assert_eq!(dst.get_pixel(1, 1), Color::black());
    assert_eq!(dst.get_pixel(0, 0), CLEAR);
    dst.blit(&src, Rectangle::new(0, 0, 0, 3), Composite::SourceOver);
    assert_eq!(dst.get_pixel(0, 0), CLEAR);
    dst.blit(&src, Rectangle::new(-5, -5, 6, 6), Composite::Copy);
    assert_eq!(dst.get_pixel(0, 0), Color::black());
}

#[test]
fn resize_clears() {
    let mut s = Surface::new(2, 2);
    s.fill(Fill::Flat(Color::white()));
    s.resize(3, 1);
    assert_eq!(s.width(), 3);
    assert_eq!(s.height(), 1);
    assert_eq!(s.get_pixel(2, 0), CLEAR);
}

#[test]
fn shader_programs_draw() {
    let mut s = Surface::new(4, 4);
    let checker = CheckerboardShader::new(4, 4);
    checker.draw(&mut s, 1, Color::black(), Color::white());
    assert_eq!(s.get_pixel(0, 0), Color::black());
    assert_eq!(s.get_pixel(1, 0), Color::white());

    let mut src = Surface::new(1, 1);
    src.fill(Fill::Flat(Color::new(0, 0, 255, 255)));
    let copy = CopyImageShader::new(4, 4);
    copy.draw(&mut s, 2, 2, 2, 2, &src);
    assert_eq!(s.get_pixel(3, 3), Color::new(0, 0, 255, 255));
    assert_eq!(s.get_pixel(1, 1), Color::black());

    let mut w = Surface::new(20, 20);
    let wheel = HsvCircleShader::new(20, 20);
    wheel.draw(&mut w, 10, 10, 8);
    assert_eq!(w.get_pixel(0, 0), CLEAR);
    assert_eq!(w.get_pixel(10, 10).a, 255);
}

#[test]
fn shader_set_size() {
    let mut c = CheckerboardShader::new(1, 1);
    c.set_size(5, 6);
    assert_eq!((c.width, c.height), (5, 6));
    let mut h = HsvCircleShader::new(1, 1);
    h.set_size(5, 6);
    assert_eq!((h.width, h.height), (5, 6));
    let mut p = CopyImageShader::new(1, 1);
    p.set_size(5, 6);
    assert_eq!((p.width, p.height), (5, 6));
}
