use vstd::arithmetic::div_mod::lemma_mod_add_multiples_vanish;
use vstd::prelude::*;

verus! {

/// One full unit in the fixed-point scale used for saturation and value
/// (a value of `UNIT` stands for 1.0).
pub const UNIT: u32 = 65536;

/// The length of one hue sector (60 degrees) in fixed-point hue units.
pub const SECTOR: i64 = 65536;

/// A full turn of hue (six sectors, 360 degrees) in fixed-point hue units.
pub const FULL_TURN: i64 = 393216;

/// An RGBA color with one byte per channel.
#[derive(Clone, Copy, Debug, PartialEq, Eq, Structural)]
pub struct Color {
    pub r: u8,
    pub g: u8,
    pub b: u8,
    pub a: u8,
}

/// A channel value clamped into the byte range.
pub open spec fn clamp_spec(v: int) -> u8 {
    if v > 255 {
        255
    } else if v < 0 {
        0
    } else {
        v as u8
    }
}

/// Standard HSV to RGB on fixed-point inputs, before conversion to bytes.
///
/// The hue is reduced to one turn, split into six sectors; `c = v * s`,
/// `x = c * (1 - |h mod 2 - 1|)`, `m = v - c`. Every component is returned
/// at the common scale `UNIT * UNIT * SECTOR`.
pub open spec fn hsv_components(h: int, s: int, v: int) -> (int, int, int) {
    let hr = h % (FULL_TURN as int);
    let sector = hr / (SECTOR as int);
    let hm2 = hr % (2 * SECTOR as int);
    let f = SECTOR as int - if hm2 >= SECTOR as int {
        hm2 - SECTOR as int
    } else {
        SECTOR as int - hm2
    };
    let c = v * s;
    let big_c = c * SECTOR as int;
    let big_x = c * f;
    let big_m = (v * UNIT as int - c) * SECTOR as int;
    if sector == 0 {
        (big_c + big_m, big_x + big_m, big_m)
    } else if sector == 1 {
        (big_x + big_m, big_c + big_m, big_m)
    } else if sector == 2 {
        (big_m, big_c + big_m, big_x + big_m)
    } else if sector == 3 {
        (big_m, big_x + big_m, big_c + big_m)
    } else if sector == 4 {
        (big_x + big_m, big_m, big_c + big_m)
    } else {
        (big_c + big_m, big_m, big_x + big_m)
    }
}

/// The common scale of the components returned by `hsv_components`.
pub open spec fn hsv_scale() -> int {
    UNIT as int * UNIT as int * SECTOR as int
}

/// A component at scale `hsv_scale()` rounded to the nearest byte and clamped.
pub open spec fn component_to_byte(c: int) -> u8 {
    clamp_spec((255 * c + hsv_scale() / 2) / hsv_scale())
}

/// The opaque color with hue `h` (in `SECTOR` units per 60 degrees),
/// saturation `s` and value `v` (in `UNIT` units).
pub open spec fn hsv_spec(h: int, s: int, v: int) -> Color {
    let (r, g, b) = hsv_components(h, s, v);
    Color { r: component_to_byte(r), g: component_to_byte(g), b: component_to_byte(b), a: 255 }
}

/// Source-over alpha compositing of `src` onto `dst`, on straight
/// (non-premultiplied) channels.
pub open spec fn blend_spec(src: Color, dst: Color) -> Color {
    let sa = src.a as int;
    let da = dst.a as int;
    let keep = da * (255 - sa);
    let den = sa * 255 + keep;
    if den == 0 {
        Color { r: 0, g: 0, b: 0, a: 0 }
    } else {
        Color {
            r: ((src.r as int * sa * 255 + dst.r as int * keep) / den) as u8,
            g: ((src.g as int * sa * 255 + dst.g as int * keep) / den) as u8,
            b: ((src.b as int * sa * 255 + dst.b as int * keep) / den) as u8,
            a: (den / 255) as u8,
        }
    }
}

/// The decimal digits of `n`, most significant first, without leading zeros.
pub open spec fn decimal(n: nat) -> Seq<char>
    decreases n,
{
    if n < 10 {
        seq![digit_char(n)]
    } else {
        decimal(n / 10).push(digit_char(n % 10))
    }
}

pub open spec fn digit_char(d: nat) -> char {
    if d == 0 {
        '0'
    } else if d == 1 {
        '1'
    } else if d == 2 {
        '2'
    } else if d == 3 {
        '3'
    } else if d == 4 {
        '4'
    } else if d == 5 {
        '5'
    } else if d == 6 {
        '6'
    } else if d == 7 {
        '7'
    } else if d == 8 {
        '8'
    } else {
        '9'
    }
}

/// The CSS text `rgba(r, g, b, a)` of a color, channels in decimal.
pub open spec fn style_spec(c: Color) -> Seq<char> {
    seq!['r', 'g', 'b', 'a', '('] + decimal(c.r as nat) + seq![',', ' '] + decimal(c.g as nat)
        + seq![',', ' '] + decimal(c.b as nat) + seq![',', ' '] + decimal(c.a as nat) + seq![')']
}

/// Clamps an integer channel value into `0..=255`.
pub fn clamp_channel(v: i64) -> (r: u8)
    ensures
        r == clamp_spec(v as int),
{
    if v > 255 {
        255
    } else if v < 0 {
        0
    } else {
        v as u8
    }
}

impl Color {
    pub fn new(r: u8, g: u8, b: u8, a: u8) -> (c: Color)
        ensures
            c == (Color { r, g, b, a }),
    {
        Color { r, g, b, a }
    }

    pub fn black() -> (c: Color)
        ensures
            c == (Color { r: 0, g: 0, b: 0, a: 255 }),
    {
        Color { r: 0, g: 0, b: 0, a: 255 }
    }

    pub fn white() -> (c: Color)
        ensures
            c == (Color { r: 255, g: 255, b: 255, a: 255 }),
    {
        Color { r: 255, g: 255, b: 255, a: 255 }
    }

    /// Builds a color from channel values that may lie outside the byte
    /// range; each is clamped into `0..=255`.
    pub fn from_unclamped(r: i64, g: i64, b: i64, a: i64) -> (c: Color)
        ensures
            c == (Color {
                r: clamp_spec(r as int),
                g: clamp_spec(g as int),
                b: clamp_spec(b as int),
                a: clamp_spec(a as int),
            }),
    {
        Color::new(clamp_channel(r), clamp_channel(g), clamp_channel(b), clamp_channel(a))
    }

    /// The same color with its alpha channel set to fully opaque.
    pub fn opaque(self) -> (c: Color)
        ensures
            c == (Color { a: 255, ..self }),
    {
        Color { r: self.r, g: self.g, b: self.b, a: 255 }
    }
}


/// The text of a single decimal digit.
fn digit_str(d: u8) -> (r: &'static str)
    requires
        d < 10,
    ensures
        r@ == seq![digit_char(d as nat)],
{
    proof {
        reveal_strlit("0");
        reveal_strlit("1");
        reveal_strlit("2");
        reveal_strlit("3");
        reveal_strlit("4");
        reveal_strlit("5");
        reveal_strlit("6");
        reveal_strlit("7");
        reveal_strlit("8");
        reveal_strlit("9");
    }
    if d == 0 {
        "0"
    } else if d == 1 {
        "1"
    } else if d == 2 {
        "2"
    } else if d == 3 {
        "3"
    } else if d == 4 {
        "4"
    } else if d == 5 {
        "5"
    } else if d == 6 {
        "6"
    } else if d == 7 {
        "7"
    } else if d == 8 {
        "8"
    } else {
        "9"
    }
}

/// Appends the decimal text of a byte.
fn push_decimal(s: &mut String, n: u8)
    ensures
        final(s)@ == old(s)@ + decimal(n as nat),
{
    reveal_with_fuel(decimal, 3);
    if n >= 100 {
        s.append(digit_str(n / 100));
    }
    if n >= 10 {
        s.append(digit_str((n / 10) % 10));
    }
    s.append(digit_str(n % 10));
    proof {
        let n = n as nat;
        if n >= 100 {
            assert(n / 10 / 10 == n / 100);
            assert((n / 10) / 10 < 10);
        }
        assert(old(s)@ + decimal(n) =~= final(s)@);
    }
}

impl Color {
    /// The color with hue `h`, saturation `s` and value `v`, fully opaque.
    ///
    /// `h` counts `SECTOR` units per 60 degrees and may be any integer: only
    /// its position within one turn matters. `s` and `v` count `UNIT` units
    /// per 1.0 and must lie in `0..=UNIT`.
    pub fn from_hsv(h: i64, s: u32, v: u32) -> (c: Color)
        requires
            s <= UNIT,
            v <= UNIT,
        ensures
            c == hsv_spec(h as int, s as int, v as int),
    {
        let mut hr: i64 = h % FULL_TURN;
        if hr < 0 {
            hr = hr + FULL_TURN;
        }
        assert(hr as int == h as int % FULL_TURN as int);
        let sector: i64 = hr / SECTOR;
        let hm2: i64 = hr % (2 * SECTOR);
        let f: i64 = SECTOR - if hm2 >= SECTOR {
            hm2 - SECTOR
        } else {
            SECTOR - hm2
        };
        assert(v * s <= UNIT * UNIT) by (nonlinear_arith)
            requires
                s <= UNIT,
                v <= UNIT,
        ;
        let c: u64 = v as u64 * s as u64;
        let fu: u64 = f as u64;
        let big_c: u64 = c * SECTOR as u64;
        assert(c * fu <= big_c) by (nonlinear_arith)
            requires
                big_c == c * SECTOR,
                fu <= SECTOR,
        ;
        let big_x: u64 = c * fu;
        let vu: u64 = v as u64 * UNIT as u64;
        assert(c <= vu) by (nonlinear_arith)
            requires
                c == v * s,
                vu == v * UNIT,
                s <= UNIT,
        ;
        let big_m: u64 = (vu - c) * SECTOR as u64;
        assert(big_c + big_m == v * UNIT * SECTOR) by (nonlinear_arith)
            requires
                big_c == c * SECTOR,
                big_m == (vu - c) * SECTOR,
                vu == v * UNIT,
        ;
        assert(v * UNIT * SECTOR <= UNIT * UNIT * SECTOR) by (nonlinear_arith)
            requires
                v <= UNIT,
        ;
        let (r, g, b) = if sector == 0 {
            (big_c + big_m, big_x + big_m, big_m)
        } else if sector == 1 {
            (big_x + big_m, big_c + big_m, big_m)
        } else if sector == 2 {
            (big_m, big_c + big_m, big_x + big_m)
        } else if sector == 3 {
            (big_m, big_x + big_m, big_c + big_m)
        } else if sector == 4 {
            (big_x + big_m, big_m, big_c + big_m)
        } else {
            (big_c + big_m, big_m, big_x + big_m)
        };
        Color::new(component_byte(r), component_byte(g), component_byte(b), 255)
    }

    /// The CSS text `rgba(r, g, b, a)` of this color.
    pub fn to_style(self) -> (r: String)
        ensures
            r@ == style_spec(self),
    {
        let mut s = String::new();
        proof {
            reveal_strlit("rgba(");
            reveal_strlit(", ");
            reveal_strlit(")");
        }
        s.append("rgba(");
        push_decimal(&mut s, self.r);
        s.append(", ");
        push_decimal(&mut s, self.g);
        s.append(", ");
        push_decimal(&mut s, self.b);
        s.append(", ");
        push_decimal(&mut s, self.a);
        s.append(")");
        assert(s@ =~= style_spec(self));
        s
    }
}

/// Rounds a component at scale `hsv_scale()` to the nearest byte.
fn component_byte(c: u64) -> (r: u8)
    requires
        c <= hsv_scale(),
    ensures
        r == component_to_byte(c as int),
{
    let q: u64 = (255 * c + 140737488355328) / 281474976710656;
    assert(q <= 255) by (nonlinear_arith)
        requires
            q == (255 * c + 140737488355328) / 281474976710656,
            c <= 281474976710656,
    ;
    q as u8
}

proof fn lemma_blend_channel(sc: int, dc: int, sa: int, keep: int)
    requires
        0 <= sc <= 255,
        0 <= dc <= 255,
        0 <= sa <= 255,
        0 <= keep <= 255 * 255,
    ensures
        0 <= sc * sa * 255 + dc * keep <= 255 * (sa * 255 + keep),
        sc * sa * 255 + dc * keep <= 255 * 255 * 255 * 2,
{
    assert(0 <= sc * sa * 255 <= 255 * (sa * 255)) by (nonlinear_arith)
        requires
            0 <= sc <= 255,
            0 <= sa <= 255,
    ;
    assert(0 <= dc * keep <= 255 * keep) by (nonlinear_arith)
        requires
            0 <= dc <= 255,
            0 <= keep,
    ;
    assert(sa * 255 <= 255 * 255) by (nonlinear_arith)
        requires
            0 <= sa <= 255,
    ;
}

/// Source-over alpha compositing of `src` onto `dst`.
pub fn blend(src: Color, dst: Color) -> (r: Color)
    ensures
        r == blend_spec(src, dst),
{
    let sa: u32 = src.a as u32;
    let da: u32 = dst.a as u32;
    assert(da * (255 - sa) <= 255 * 255) by (nonlinear_arith)
        requires
            da <= 255,
            sa <= 255,
    ;
    let keep: u32 = da * (255 - sa);
    let den: u32 = sa * 255 + keep;
    assert(den <= 255 * 255) by (nonlinear_arith)
        requires
            den == sa * 255 + da * (255 - sa),
            da <= 255,
            sa <= 255,
    ;
    if den == 0 {
        return Color::new(0, 0, 0, 0);
    }
    proof {
        lemma_blend_channel(src.r as int, dst.r as int, sa as int, keep as int);
        lemma_blend_channel(src.g as int, dst.g as int, sa as int, keep as int);
        lemma_blend_channel(src.b as int, dst.b as int, sa as int, keep as int);
        assert(src.r as u32 * sa <= 255 * 255) by (nonlinear_arith)
            requires
                src.r <= 255,
                sa <= 255,
        ;
        assert(src.g as u32 * sa <= 255 * 255) by (nonlinear_arith)
            requires
                src.g <= 255,
                sa <= 255,
        ;
        assert(src.b as u32 * sa <= 255 * 255) by (nonlinear_arith)
            requires
                src.b <= 255,
                sa <= 255,
        ;
        assert(dst.r as u32 * keep <= 255 * 255 * 255) by (nonlinear_arith)
            requires
                dst.r <= 255,
                keep <= 255 * 255,
        ;
        assert(dst.g as u32 * keep <= 255 * 255 * 255) by (nonlinear_arith)
            requires
                dst.g <= 255,
                keep <= 255 * 255,
        ;
        assert(dst.b as u32 * keep <= 255 * 255 * 255) by (nonlinear_arith)
            requires
                dst.b <= 255,
                keep <= 255 * 255,
        ;
    }
    let r: u32 = (src.r as u32 * sa * 255 + dst.r as u32 * keep) / den;
    let g: u32 = (src.g as u32 * sa * 255 + dst.g as u32 * keep) / den;
    let b: u32 = (src.b as u32 * sa * 255 + dst.b as u32 * keep) / den;
    proof {
        lemma_div_bound(
            src.r as u32 * sa * 255 + dst.r as u32 * keep,
            den as int,
        );
        lemma_div_bound(
            src.g as u32 * sa * 255 + dst.g as u32 * keep,
            den as int,
        );
        lemma_div_bound(
            src.b as u32 * sa * 255 + dst.b as u32 * keep,
            den as int,
        );
    }
    Color::new(r as u8, g as u8, b as u8, (den / 255) as u8)
}

proof fn lemma_div_bound(num: int, den: int)
    requires
        0 <= num <= 255 * den,
        den > 0,
    ensures
        num / den <= 255,
{
    assert(num / den <= 255) by (nonlinear_arith)
        requires
            0 <= num <= 255 * den,
            den > 0,
    ;
}

/// With zero saturation the hue has no effect: red, green and blue are
/// equal whatever the hue, and with full value the color is white.
pub proof fn lemma_zero_saturation_is_gray(h: int, v: int)
    requires
        0 <= v <= UNIT,
    ensures
        hsv_spec(h, 0, v).r == hsv_spec(h, 0, v).g,
        hsv_spec(h, 0, v).g == hsv_spec(h, 0, v).b,
        hsv_spec(h, 0, UNIT as int) == (Color { r: 255, g: 255, b: 255, a: 255 }),
{
    assert(UNIT as int * UNIT as int * SECTOR as int == hsv_scale());
    let k = hsv_scale();
    assert((255 * k + k / 2) / k == 255) by (nonlinear_arith)
        requires
            k == 281474976710656,
    ;
}

/// HSV to RGB is periodic in the hue: adding one full turn gives the same
/// color.
pub proof fn lemma_hue_periodic(h: int, s: int, v: int)
    ensures
        hsv_spec(h + FULL_TURN as int, s, v) == hsv_spec(h, s, v),
{
    lemma_mod_add_multiples_vanish(h, FULL_TURN as int);
    assert(h + FULL_TURN as int == FULL_TURN as int + h);
}

/// The two colors in use: `main` paints, `help` is the alternate.
#[derive(Clone, Copy, Debug, PartialEq, Eq, Structural)]
pub struct Palette {
    pub main: Color,
    pub help: Color,
}

impl Palette {
    pub fn new(main: Color, help: Color) -> (p: Palette)
        ensures
            p == (Palette { main, help }),
    {
        Palette { main, help }
    }

    /// Exchanges the main and the alternate color.
    pub fn swap(&mut self)
        ensures
            final(self).main == old(self).help,
            final(self).help == old(self).main,
    {
        let t = self.main;
        self.main = self.help;
        self.help = t;
    }
}

impl Default for Palette {
    /// Black as the main color, white as the alternate.
    fn default() -> (p: Palette)
        ensures
            p == (Palette {
                main: Color { r: 0, g: 0, b: 0, a: 255 },
                help: Color { r: 255, g: 255, b: 255, a: 255 },
            }),
    {
        Palette::new(Color::black(), Color::white())
    }
}

/// What the user asks of the color picker.
#[derive(Clone, Copy, Debug, PartialEq, Eq, Structural)]
pub enum PickerAction {
    /// A color was picked on the wheel: it becomes the main color.
    ColorPick(Color),
    /// Main and alternate colors trade places.
    SwapColors,
    /// Back to the default palette.
    ToDefault,
}

/// The palette after one picker action.
pub open spec fn picker_step(p: Palette, action: PickerAction) -> Palette {
    match action {
        PickerAction::ColorPick(c) => Palette { main: c, ..p },
        PickerAction::SwapColors => Palette { main: p.help, help: p.main },
        PickerAction::ToDefault => Palette {
            main: Color { r: 0, g: 0, b: 0, a: 255 },
            help: Color { r: 255, g: 255, b: 255, a: 255 },
        },
    }
}

/// The state of the color picker: the palette it edits.
pub struct ColorPicker {
    pub palette: Palette,
}

impl ColorPicker {
    pub fn new(palette: Palette) -> (r: ColorPicker)
        ensures
            r.palette == palette,
    {
        ColorPicker { palette }
    }

    /// Applies one action and returns the palette to publish; every action
    /// changes what the picker shows.
    pub fn update(&mut self, action: PickerAction) -> (r: Palette)
        ensures
            final(self).palette == picker_step(old(self).palette, action),
            r == final(self).palette,
    {
        match action {
            PickerAction::ColorPick(c) => {
                self.palette.main = c;
            },
            PickerAction::SwapColors => {
                self.palette.swap();
            },
            PickerAction::ToDefault => {
                self.palette = Palette::default();
            },
        }
        self.palette
    }
}

} // verus!
