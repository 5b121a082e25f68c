use layer_canvas::color::{
    blend, clamp_channel, Color, ColorPicker, Palette, PickerAction, FULL_TURN, SECTOR, UNIT,
};

#[test]
fn new_keeps_channels() {
    let c = Color::new(1, 2, 3, 4);
    assert_eq!((c.r, c.g, c.b, c.a), (1, 2, 3, 4));
}

#[test]
fn black_and_white() {
    assert_eq!(Color::black(), Color::new(0, 0, 0, 255));
    assert_eq!(Color::white(), Color::new(255, 255, 255, 255));
}

#[test]
fn clamp_channel_limits() {
    assert_eq!(clamp_channel(300), 255);
    assert_eq!(clamp_channel(-5), 0);
    assert_eq!(clamp_channel(100), 100);
    assert_eq!(clamp_channel(255), 255);
    assert_eq!(clamp_channel(0), 0);
}

#[test]
fn from_unclamped_clamps_each_channel() {
    assert_eq!(Color::from_unclamped(-1, 256, 7, 1000), Color::new(0, 255, 7, 255));
}

#[test]
fn opaque_sets_alpha() {
    assert_eq!(Color::new(9, 8, 7, 0).opaque(), Color::new(9, 8, 7, 255));
}

#[test]
fn to_style_formats_decimal_channels() {
    assert_eq!(Color::new(255, 0, 10, 255).to_style(), "rgba(255, 0, 10, 255)");
    assert_eq!(Color::new(7, 99, 100, 0).to_style(), "rgba(7, 99, 100, 0)");
}

#[test]
fn from_hsv_primaries() {
    assert_eq!(Color::from_hsv(0, UNIT, UNIT), Color::new(255, 0, 0, 255));
    assert_eq!(Color::from_hsv(SECTOR, UNIT, UNIT), Color::new(255, 255, 0, 255));
    assert_eq!(Color::from_hsv(2 * SECTOR, UNIT, UNIT), Color::new(0, 255, 0, 255));
    assert_eq!(Color::from_hsv(3 * SECTOR, UNIT, UNIT), Color::new(0, 255, 255, 255));
    assert_eq!(Color::from_hsv(4 * SECTOR, UNIT, UNIT), Color::new(0, 0, 255, 255));
    assert_eq!(Color::from_hsv(5 * SECTOR, UNIT, UNIT), Color::new(255, 0, 255, 255));
}

#[test]
fn from_hsv_half_sector() {
    // 30 degrees: red with half green
    assert_eq!(Color::from_hsv(SECTOR / 2, UNIT, UNIT), Color::new(255, 128, 0, 255));
}

#[test]
fn from_hsv_half_saturation_and_value() {
    // v = 0.5, s = 0.5 at red: c = 0.25, m = 0.25
    assert_eq!(Color::from_hsv(0, UNIT / 2, UNIT / 2), Color::new(128, 64, 64, 255));
    assert_eq!(Color::from_hsv(0, UNIT, 0), Color::new(0, 0, 0, 255));
}

#[test]
fn zero_saturation_is_white_for_every_hue() {
    for h in [0, 1, SECTOR, 12345, 3 * SECTOR + 7, FULL_TURN - 1, -40000, 10 * FULL_TURN + 3] {
        let c = Color::from_hsv(h, 0, UNIT);
        assert_eq!(c.r, c.g);
        assert_eq!(c.g, c.b);
        assert_eq!(c, Color::white());
    }
}

#[test]
fn zero_saturation_is_gray() {
    let c = Color::from_hsv(777, 0, UNIT / 2);
    assert_eq!(c, Color::new(128, 128, 128, 255));
}

#[test]
fn from_hsv_is_periodic() {
    for h in [0, 1, SECTOR / 3, 2 * SECTOR + 100, 5 * SECTOR + 65535, -1, -SECTOR] {
        for (s, v) in [(UNIT, UNIT), (UNIT / 3, UNIT), (UNIT, UNIT / 4), (12345, 54321)] {
            assert_eq!(Color::from_hsv(h + FULL_TURN, s, v), Color::from_hsv(h, s, v));
        }
    }
}

#[test]
fn negative_hue_wraps_around() {
    assert_eq!(Color::from_hsv(-SECTOR, UNIT, UNIT), Color::new(255, 0, 255, 255));
}

#[test]
fn blend_opaque_source_replaces() {
    let src = Color::new(10, 20, 30, 255);
    assert_eq!(blend(src, Color::new(200, 100, 50, 77)), src);
}

#[test]
fn blend_transparent_source_keeps_destination() {
    let dst = Color::new(200, 100, 50, 255);
    assert_eq!(blend(Color::new(1, 2, 3, 0), dst), dst);
}

#[test]
fn blend_half_alpha() {
    let r = blend(Color::new(255, 0, 0, 128), Color::new(0, 0, 255, 255));
    assert_eq!(r, Color::new(128, 0, 127, 255));
}

#[test]
fn blend_onto_nothing() {
    assert_eq!(blend(Color::new(1, 2, 3, 0), Color::new(4, 5, 6, 0)), Color::new(0, 0, 0, 0));
    assert_eq!(blend(Color::new(90, 60, 30, 51), Color::new(4, 5, 6, 0)), Color::new(90, 60, 30, 51));
}

#[test]
fn palette_default_is_black_on_white() {
    let p = Palette::default();
    assert_eq!(p.main, Color::black());
    assert_eq!(p.help, Color::white());
}

#[test]
fn palette_swap_exchanges() {
    let a = Color::new(1, 1, 1, 255);
    let b = Color::new(2, 2, 2, 255);
    let mut p = Palette::new(a, b);
    p.swap();
    assert_eq!(p, Palette::new(b, a));
}

#[test]
fn color_picker_actions() {
    let red = Color::new(255, 0, 0, 255);
    let mut picker = ColorPicker::new(Palette::default());
    let p = picker.update(PickerAction::ColorPick(red));
    assert_eq!(p, Palette::new(red, Color::white()));
    let p = picker.update(PickerAction::SwapColors);
    assert_eq!(p, Palette::new(Color::white(), red));
    let p = picker.update(PickerAction::ToDefault);
    assert_eq!(p, Palette::default());
    assert_eq!(picker.palette, Palette::default());
}
