use vstd::arithmetic::div_mod::{
    lemma_fundamental_div_mod, lemma_fundamental_div_mod_converse_div,
    lemma_fundamental_div_mod_converse_mod,
};
use vstd::prelude::*;

use crate::color::{blend, blend_spec, hsv_spec, Color, UNIT};
use crate::geometry::{floor_sqrt, isqrt, Rectangle, Vector2};
use crate::wheel::{direction_hue, hue_of_direction};

verus! {

/// What a surface holds: its size and its pixels, row by row from the top.
pub struct SurfaceView {
    pub width: nat,
    pub height: nat,
    pub pixels: Seq<Color>,
}

/// A shape drawn on a surface. Coordinates count pixels; a pixel is covered
/// when its center lies in the shape.
#[derive(Clone, Copy, Debug, PartialEq, Eq, Structural)]
pub enum Shape {
    /// The disk with center `(cx, cy)` and radius `r`.
    Disc { cx: i16, cy: i16, r: u16 },
    /// The band of width `width` centered on the circle with center
    /// `(cx, cy)` and radius `r`.
    Ring { cx: i16, cy: i16, r: u16, width: u16 },
    /// The points within `width / 2` of the segment from `(x0, y0)` to
    /// `(x1, y1)` (a stroke with round caps).
    Segment { x0: i16, y0: i16, x1: i16, y1: i16, width: u16 },
}

/// How a pass over a surface sets each pixel.
#[derive(Clone, Copy, Debug, PartialEq, Eq, Structural)]
pub enum Fill {
    /// Every pixel becomes the color (no blending).
    Flat(Color),
    /// The color is blended over the pixels that the shape covers.
    Paint(Shape, Color),
    /// Every pixel becomes the opaque version of `a` or `b`, by the parity of
    /// `x / cell + y / cell`.
    Checker { cell: u16, a: Color, b: Color },
    /// The HSV color wheel with center `(x, y)` and radius `r` is blended
    /// over the pixels inside it.
    Wheel { x: i16, y: i16, r: u16 },
}

impl Fill {
    /// A checkerboard needs a positive cell size.
    pub open spec fn valid(self) -> bool {
        match self {
            Fill::Checker { cell, .. } => cell > 0,
            _ => true,
        }
    }
}

pub open spec fn square(v: int) -> int {
    v * v
}

/// Doubled pixel-center coordinates: the center of pixel `x` is `2 x + 1`.
pub open spec fn disc_covers(cx: int, cy: int, r: int, x: int, y: int) -> bool {
    square(2 * x + 1 - 2 * cx) + square(2 * y + 1 - 2 * cy) <= square(2 * r)
}

pub open spec fn ring_covers(cx: int, cy: int, r: int, w: int, x: int, y: int) -> bool {
    let d2 = square(2 * x + 1 - 2 * cx) + square(2 * y + 1 - 2 * cy);
    d2 <= square(2 * r + w) && (2 * r <= w || square(2 * r - w) <= d2)
}

/// The distance from the pixel center to the segment is at most `w / 2`
/// (everything in doubled coordinates, where the half width is `w`).
pub open spec fn segment_covers(
    x0: int,
    y0: int,
    x1: int,
    y1: int,
    w: int,
    x: int,
    y: int,
) -> bool {
    let dx = 2 * x1 - 2 * x0;
    let dy = 2 * y1 - 2 * y0;
    let qx = 2 * x + 1 - 2 * x0;
    let qy = 2 * y + 1 - 2 * y0;
    let dd = square(dx) + square(dy);
    let t = qx * dx + qy * dy;
    let qq = square(qx) + square(qy);
    if dd == 0 || t <= 0 {
        qq <= square(w)
    } else if t >= dd {
        square(2 * x + 1 - 2 * x1) + square(2 * y + 1 - 2 * y1) <= square(w)
    } else {
        qq * dd - t * t <= square(w) * dd
    }
}

pub open spec fn shape_covers(s: Shape, x: int, y: int) -> bool {
    match s {
        Shape::Disc { cx, cy, r } => disc_covers(cx as int, cy as int, r as int, x, y),
        Shape::Ring { cx, cy, r, width } => ring_covers(
            cx as int,
            cy as int,
            r as int,
            width as int,
            x,
            y,
        ),
        Shape::Segment { x0, y0, x1, y1, width } => segment_covers(
            x0 as int,
            y0 as int,
            x1 as int,
            y1 as int,
            width as int,
            x,
            y,
        ),
    }
}

/// The checkerboard color of pixel `(x, y)`.
pub open spec fn checker_color(cell: int, a: Color, b: Color, x: int, y: int) -> Color {
    if (x / cell + y / cell) % 2 == 0 {
        Color { a: 255, ..a }
    } else {
        Color { a: 255, ..b }
    }
}

/// The color wheel at pixel `(x, y)`, if the pixel lies inside it. The
/// offset from the center, in units of half a pixel, gives the hue by its
/// direction and the saturation by its length over the radius; the value is
/// full. Within one and a half pixels of the rim the alpha falls linearly to
/// zero at the rim.
pub open spec fn wheel_pixel(cx: int, cy: int, r: int, x: int, y: int) -> Option<Color> {
    let dx = 2 * (x - cx) + 1;
    let dy = 2 * (y - cy) + 1;
    let d2 = square(dx) + square(dy);
    let big_r = 2 * r;
    if r == 0 || d2 > square(big_r) {
        None
    } else {
        let len = floor_sqrt(d2);
        let c = hsv_spec(
            direction_hue(Vector2 { x: dx as i32, y: dy as i32 }),
            len * UNIT as int / big_r,
            UNIT as int,
        );
        let alpha = if len + 3 > big_r {
            255 * (big_r - len) / 3
        } else {
            255
        };
        Some(Color { a: alpha as u8, ..c })
    }
}

/// The new value of pixel `(x, y)`, which held `dst`, under a fill.
pub open spec fn fill_pixel(f: Fill, x: int, y: int, dst: Color) -> Color {
    match f {
        Fill::Flat(c) => c,
        Fill::Paint(s, c) => if shape_covers(s, x, y) {
            blend_spec(c, dst)
        } else {
            dst
        },
        Fill::Checker { cell, a, b } => checker_color(cell as int, a, b, x, y),
        Fill::Wheel { x: cx, y: cy, r } => match wheel_pixel(cx as int, cy as int, r as int, x, y) {
            Some(c) => blend_spec(c, dst),
            None => dst,
        },
    }
}

/// How a copied pixel meets the pixel it lands on.
#[derive(Clone, Copy, Debug, PartialEq, Eq, Structural)]
pub enum Composite {
    /// The copied pixel replaces the one below.
    Copy,
    /// The copied pixel is blended over the one below.
    SourceOver,
}

pub open spec fn composite_spec(mode: Composite, src: Color, dst: Color) -> Color {
    match mode {
        Composite::Copy => src,
        Composite::SourceOver => blend_spec(src, dst),
    }
}

/// Which source pixel lands on destination coordinate `d` when `src_len`
/// source pixels are stretched over `dst_len` destination pixels from `start`.
pub open spec fn scaled_source(d: int, start: int, dst_len: int, src_len: int) -> int {
    (d - start) * src_len / dst_len
}

pub open spec fn in_rect(rect: Rectangle, x: int, y: int) -> bool {
    rect.coord.x <= x < rect.coord.x + rect.size.x && rect.coord.y <= y < rect.coord.y
        + rect.size.y
}

impl SurfaceView {
    pub open spec fn wf(self) -> bool {
        &&& self.width <= u16::MAX
        &&& self.height <= u16::MAX
        &&& self.pixels.len() == self.width * self.height
    }

    /// The pixel in column `x` and row `y`.
    pub open spec fn at(self, x: int, y: int) -> Color {
        self.pixels[y * self.width + x]
    }

    /// The same size with every pixel set to `c`.
    pub open spec fn flat(self, c: Color) -> SurfaceView {
        SurfaceView { pixels: Seq::new(self.pixels.len(), |i: int| c), ..self }
    }

    /// This surface after a fill.
    pub open spec fn filled(self, f: Fill) -> SurfaceView {
        SurfaceView {
            pixels: Seq::new(
                self.pixels.len(),
                |i: int| fill_pixel(f, i % (self.width as int), i / (self.width as int), self.pixels[i]),
            ),
            ..self
        }
    }

    /// The pixel of `src` stretched over `rect` that lands on `(x, y)`, blended
    /// over `dst`; `dst` itself outside `rect` or when either is empty.
    pub open spec fn blit_pixel(
        src: SurfaceView,
        rect: Rectangle,
        mode: Composite,
        x: int,
        y: int,
        dst: Color,
    ) -> Color {
        if rect.size.x > 0 && rect.size.y > 0 && src.width > 0 && src.height > 0 && in_rect(
            rect,
            x,
            y,
        ) {
            composite_spec(
                mode,
                src.at(
                    scaled_source(x, rect.coord.x as int, rect.size.x as int, src.width as int),
                    scaled_source(y, rect.coord.y as int, rect.size.y as int, src.height as int),
                ),
                dst,
            )
        } else {
            dst
        }
    }

    /// This surface after `src` is stretched over `rect` and composited on it.
    pub open spec fn blitted(self, src: SurfaceView, rect: Rectangle, mode: Composite) -> SurfaceView {
        SurfaceView {
            pixels: Seq::new(
                self.pixels.len(),
                |i: int|
                    SurfaceView::blit_pixel(
                        src,
                        rect,
                        mode,
                        i % (self.width as int),
                        i / (self.width as int),
                        self.pixels[i],
                    ),
            ),
            ..self
        }
    }
}

/// The index `y * w + x` of a pixel splits back into its column and row.
pub proof fn lemma_index_coords(w: int, h: int, x: int, y: int)
    requires
        0 <= x < w,
        0 <= y < h,
    ensures
        0 <= y * w + x < w * h,
        (y * w + x) % w == x,
        (y * w + x) / w == y,
{
    lemma_fundamental_div_mod_converse_mod(y * w + x, w, y, x);
    lemma_fundamental_div_mod_converse_div(y * w + x, w, y, x);
    assert(0 <= y * w + x < w * h) by (nonlinear_arith)
        requires
            0 <= x < w,
            0 <= y < h,
    ;
}

/// An index below `w * h` has a column below `w` and a row below `h`.
pub proof fn lemma_coords_of_index(w: int, h: int, i: int)
    requires
        0 <= i < w * h,
        w > 0,
    ensures
        0 <= i % w < w,
        0 <= i / w < h,
        (i / w) * w + i % w == i,
{
    lemma_fundamental_div_mod(i, w);
    assert(i / w < h) by (nonlinear_arith)
        requires
            0 <= i < w * h,
            w > 0,
            i == w * (i / w) + i % w,
            0 <= i % w,
    ;
    assert(0 <= i / w) by (nonlinear_arith)
        requires
            0 <= i,
            w > 0,
            i == w * (i / w) + i % w,
            i % w < w,
    ;
    assert((i / w) * w == w * (i / w)) by (nonlinear_arith);
}

/// The source pixel of a stretched copy stays inside the source.
pub proof fn lemma_scaled_source_in_range(d: int, start: int, dst_len: int, src_len: int)
    requires
        start <= d < start + dst_len,
        src_len > 0,
        dst_len > 0,
    ensures
        0 <= scaled_source(d, start, dst_len, src_len) < src_len,
        (d - start) * src_len <= dst_len * src_len,
{
    assert(0 <= (d - start) * src_len / dst_len < src_len) by (nonlinear_arith)
        requires
            0 <= d - start < dst_len,
            src_len > 0,
            dst_len > 0,
    ;
    assert((d - start) * src_len <= dst_len * src_len) by (nonlinear_arith)
        requires
            0 <= d - start < dst_len,
            src_len > 0,
    ;
}

/// The rectangle that covers a whole surface.
pub open spec fn full_rect(v: SurfaceView) -> Rectangle {
    Rectangle {
        coord: Vector2 { x: 0, y: 0 },
        size: Vector2 { x: v.width as i32, y: v.height as i32 },
    }
}

/// Copying a surface over the whole of another of the same size leaves an
/// exact copy of the source.
pub proof fn lemma_full_copy(dst: SurfaceView, src: SurfaceView)
    requires
        dst.wf(),
        src.wf(),
        dst.width == src.width,
        dst.height == src.height,
    ensures
        dst.blitted(src, full_rect(src), Composite::Copy) == src,
{
    lemma_full_blit_pixels(dst, src, Composite::Copy);
    let r = dst.blitted(src, full_rect(src), Composite::Copy);
    assert(r.pixels =~= src.pixels);
}

/// Over the whole surface, each pixel meets the source pixel of the same
/// index.
proof fn lemma_full_blit_pixels(dst: SurfaceView, src: SurfaceView, mode: Composite)
    requires
        dst.wf(),
        src.wf(),
        dst.width == src.width,
        dst.height == src.height,
    ensures
        forall|i: int|
            0 <= i < dst.pixels.len() ==> #[trigger] dst.blitted(src, full_rect(src), mode).pixels[i]
                == composite_spec(mode, src.pixels[i], dst.pixels[i]),
{
    let w = src.width as int;
    let h = src.height as int;
    assert forall|i: int| 0 <= i < dst.pixels.len() implies #[trigger] dst.blitted(
        src,
        full_rect(src),
        mode,
    ).pixels[i] == composite_spec(mode, src.pixels[i], dst.pixels[i]) by {
        assert(w > 0) by (nonlinear_arith)
            requires
                0 <= i < w * h,
                h >= 0,
        ;
        assert(h > 0) by (nonlinear_arith)
            requires
                0 <= i < w * h,
                w >= 0,
        ;
        lemma_coords_of_index(w, h, i);
        let x = i % w;
        let y = i / w;
        assert(x * w / w == x) by (nonlinear_arith)
            requires
                w > 0,
        ;
        assert(y * h / h == y) by (nonlinear_arith)
            requires
                h > 0,
        ;
        assert(y * w + x == i) by (nonlinear_arith)
            requires
                (i / w) * w + i % w == i,
                x == i % w,
                y == i / w,
        ;
    }
}

/// A pixel surface of fixed size.
pub struct Surface {
    width: u16,
    height: u16,
    pixels: Vec<Color>,
}

impl View for Surface {
    type V = SurfaceView;

    closed spec fn view(&self) -> SurfaceView {
        SurfaceView { width: self.width as nat, height: self.height as nat, pixels: self.pixels@ }
    }
}

fn sq(v: i64) -> (r: i64)
    requires
        -1048576 <= v <= 1048576,
    ensures
        r == square(v as int),
        0 <= r <= 1099511627776,
{
    assert(0 <= v * v <= 1099511627776) by (nonlinear_arith)
        requires
            -1048576 <= v <= 1048576,
    ;
    v * v
}

fn mul_wide(a: i64, b: i64) -> (r: i128)
    requires
        -4398046511104 <= a <= 4398046511104,
        -4398046511104 <= b <= 4398046511104,
    ensures
        r == a * b,
        -19342813113834066795298816 <= r <= 19342813113834066795298816,
{
    assert(-19342813113834066795298816 <= a * b <= 19342813113834066795298816) by (nonlinear_arith)
        requires
            -4398046511104 <= a <= 4398046511104,
            -4398046511104 <= b <= 4398046511104,
    ;
    a as i128 * b as i128
}

/// Whether the shape covers pixel `(x, y)`.
pub fn covers(s: Shape, x: u16, y: u16) -> (r: bool)
    ensures
        r == shape_covers(s, x as int, y as int),
{
    let px: i64 = 2 * x as i64 + 1;
    let py: i64 = 2 * y as i64 + 1;
    match s {
        Shape::Disc { cx, cy, r } => {
            sq(px - 2 * cx as i64) + sq(py - 2 * cy as i64) <= sq(2 * r as i64)
        },
        Shape::Ring { cx, cy, r, width } => {
            let d2 = sq(px - 2 * cx as i64) + sq(py - 2 * cy as i64);
            let outer = 2 * r as i64 + width as i64;
            let inner = 2 * r as i64 - width as i64;
            d2 <= sq(outer) && (inner <= 0 || sq(inner) <= d2)
        },
        Shape::Segment { x0, y0, x1, y1, width } => {
            let dx: i64 = 2 * x1 as i64 - 2 * x0 as i64;
            let dy: i64 = 2 * y1 as i64 - 2 * y0 as i64;
            let qx: i64 = px - 2 * x0 as i64;
            let qy: i64 = py - 2 * y0 as i64;
            let dd: i64 = sq(dx) + sq(dy);
            let t: i128 = mul_wide(qx, dx) + mul_wide(qy, dy);
            let qq: i64 = sq(qx) + sq(qy);
            let w2: i64 = sq(width as i64);
            if dd == 0 || t <= 0 {
                qq <= w2
            } else if t >= dd as i128 {
                sq(px - 2 * x1 as i64) + sq(py - 2 * y1 as i64) <= w2
            } else {
                mul_wide(qq, dd) - mul_wide(t as i64, t as i64) <= mul_wide(w2, dd)
            }
        },
    }
}

/// The color wheel at pixel `(x, y)`, if the pixel lies inside it.
pub fn wheel_at(cx: i16, cy: i16, r: u16, x: u16, y: u16) -> (c: Option<Color>)
    ensures
        c == wheel_pixel(cx as int, cy as int, r as int, x as int, y as int),
{
    let dx: i64 = 2 * (x as i64 - cx as i64) + 1;
    let dy: i64 = 2 * (y as i64 - cy as i64) + 1;
    let d2: i64 = sq(dx) + sq(dy);
    let big_r: i64 = 2 * r as i64;
    if r == 0 || d2 > sq(big_r) {
        return None;
    }
    assert(d2 > 0) by (nonlinear_arith)
        requires
            d2 == dx * dx + dy * dy,
            dx % 2 == 1,
    ;
    let len: u64 = isqrt(d2 as u64);
    assert(len <= big_r) by (nonlinear_arith)
        requires
            len * len <= d2,
            d2 <= big_r * big_r,
            big_r > 0,
            len >= 0,
    ;
    let v = Vector2 { x: dx as i32, y: dy as i32 };
    assert(v.len_sq() == d2);
    let hue = hue_of_direction(v);
    assert(len as int * UNIT as int / big_r as int <= UNIT as int) by (nonlinear_arith)
        requires
            0 <= len <= big_r,
            big_r > 0,
    ;
    let sat: u64 = len * UNIT as u64 / big_r as u64;
    let c = Color::from_hsv(hue, sat as u32, UNIT);
    let len_i: i64 = len as i64;
    let alpha: i64 = if len_i + 3 > big_r {
        255 * (big_r - len_i) / 3
    } else {
        255
    };
    Some(Color { r: c.r, g: c.g, b: c.b, a: alpha as u8 })
}

/// The new value of pixel `(x, y)`, which holds `dst`, under a fill.
pub fn shade(f: Fill, x: u16, y: u16, dst: Color) -> (c: Color)
    requires
        f.valid(),
    ensures
        c == fill_pixel(f, x as int, y as int, dst),
{
    match f {
        Fill::Flat(c) => c,
        Fill::Paint(s, c) => {
            if covers(s, x, y) {
                blend(c, dst)
            } else {
                dst
            }
        },
        Fill::Checker { cell, a, b } => {
            if (x as u32 / cell as u32 + y as u32 / cell as u32) % 2 == 0 {
                a.opaque()
            } else {
                b.opaque()
            }
        },
        Fill::Wheel { x: cx, y: cy, r } => match wheel_at(cx, cy, r, x, y) {
            Some(c) => blend(c, dst),
            None => dst,
        },
    }
}

impl Surface {
    pub open spec fn wf(&self) -> bool {
        self@.wf()
    }

    /// A surface of the given size, every pixel transparent black.
    pub fn new(width: u16, height: u16) -> (s: Surface)
        ensures
            s.wf(),
            s@.width == width,
            s@.height == height,
            s@.pixels == Seq::new(width as nat * height as nat, |i: int| Color { r: 0, g: 0, b: 0, a: 0 }),
    {
        assert(width as nat * height as nat <= 65535 * 65535) by (nonlinear_arith)
            requires
                width <= 65535,
                height <= 65535,
        ;
        let n: usize = width as usize * height as usize;
        let mut pixels: Vec<Color> = Vec::with_capacity(n);
        let mut i: usize = 0;
        while i < n
            invariant
                i <= n,
                pixels@ == Seq::new(i as nat, |j: int| Color { r: 0, g: 0, b: 0, a: 0 }),
            decreases n - i,
        {
            pixels.push(Color::new(0, 0, 0, 0));
            i += 1;
        }
        Surface { width, height, pixels }
    }

    pub fn width(&self) -> (r: u16)
        ensures
            r == self@.width,
    {
        self.width
    }

    pub fn height(&self) -> (r: u16)
        ensures
            r == self@.height,
    {
        self.height
    }

    /// The pixel in column `x` and row `y`.
    pub fn get_pixel(&self, x: u16, y: u16) -> (c: Color)
        requires
            self.wf(),
            x < self@.width,
            y < self@.height,
        ensures
            c == self@.at(x as int, y as int),
    {
        proof {
            lemma_index_coords(self.width as int, self.height as int, x as int, y as int);
        }
        assert(y as int * self.width as int <= 65535 * 65535) by (nonlinear_arith)
            requires
                y <= 65535,
                self.width <= 65535,
        ;
        self.pixels[y as usize * self.width as usize + x as usize]
    }

    /// Stretches `src` over `rect` (nearest pixel) and composites it onto
    /// this surface; pixels outside `rect` keep their value.
    pub fn blit(&mut self, src: &Surface, rect: Rectangle, mode: Composite)
        requires
            old(self).wf(),
            src.wf(),
        ensures
            final(self).wf(),
            final(self)@ == old(self)@.blitted(src@, rect, mode),
    {
        let n: usize = self.pixels.len();
        let w: usize = self.width as usize;
        let ghost old_pixels = self.pixels@;
        let mut i: usize = 0;
        while i < n
            invariant
                self.wf(),
                src.wf(),
                n == self.pixels@.len(),
                w == self.width,
                self.pixels@.len() == old_pixels.len(),
                self@.width == old(self)@.width,
                self@.height == old(self)@.height,
                old_pixels == old(self)@.pixels,
                i <= n,
                forall|j: int|
                    0 <= j < i ==> self.pixels@[j] == SurfaceView::blit_pixel(
                        src@,
                        rect,
                        mode,
                        j % (w as int),
                        j / (w as int),
                        #[trigger] old_pixels[j],
                    ),
                forall|j: int| i <= j < n ==> self.pixels@[j] == old_pixels[j],
            decreases n - i,
        {
            proof {
                lemma_coords_of_index(w as int, self.height as int, i as int);
            }
            let x: i64 = (i % w) as i64;
            let y: i64 = (i / w) as i64;
            let rx: i64 = rect.coord.x as i64;
            let ry: i64 = rect.coord.y as i64;
            let rw: i64 = rect.size.x as i64;
            let rh: i64 = rect.size.y as i64;
            let sw: i64 = src.width as i64;
            let sh: i64 = src.height as i64;
            if rw > 0 && rh > 0 && sw > 0 && sh > 0 && rx <= x && x < rx + rw && ry <= y && y
                < ry + rh {
                proof {
                    lemma_scaled_source_in_range(x as int, rx as int, rw as int, sw as int);
                    lemma_scaled_source_in_range(y as int, ry as int, rh as int, sh as int);
                    assert((x - rx) * sw <= 2147483648 * 65535) by (nonlinear_arith)
                        requires
                            0 <= x - rx < rw <= 2147483648,
                            0 < sw <= 65535,
                    ;
                    assert((y - ry) * sh <= 2147483648 * 65535) by (nonlinear_arith)
                        requires
                            0 <= y - ry < rh <= 2147483648,
                            0 < sh <= 65535,
                    ;
                }
                let sx: i64 = (x - rx) * sw / rw;
                let sy: i64 = (y - ry) * sh / rh;
                let top = src.get_pixel(sx as u16, sy as u16);
                let c = match mode {
                    Composite::Copy => top,
                    Composite::SourceOver => blend(top, self.pixels[i]),
                };
                self.pixels.set(i, c);
            }
            i += 1;
        }
        assert(self@.pixels =~= old(self)@.blitted(src@, rect, mode).pixels);
    }

    /// Gives the surface a new size; every pixel becomes transparent black.
    pub fn resize(&mut self, width: u16, height: u16)
        ensures
            final(self).wf(),
            final(self)@ == Surface::new_view(width, height),
    {
        *self = Surface::new(width, height);
    }

    /// A surface of the given size, every pixel transparent black.
    pub open spec fn new_view(width: u16, height: u16) -> SurfaceView {
        SurfaceView {
            width: width as nat,
            height: height as nat,
            pixels: Seq::new(
                width as nat * height as nat,
                |i: int| Color { r: 0, g: 0, b: 0, a: 0 },
            ),
        }
    }

    /// Sets every pixel by the fill.
    pub fn fill(&mut self, f: Fill)
        requires
            old(self).wf(),
            f.valid(),
        ensures
            final(self).wf(),
            final(self)@ == old(self)@.filled(f),
    {
        let n: usize = self.pixels.len();
        let w: usize = self.width as usize;
        let ghost old_pixels = self.pixels@;
        let mut i: usize = 0;
        while i < n
            invariant
                self.wf(),
                f.valid(),
                n == self.pixels@.len(),
                w == self.width,
                self.pixels@.len() == old_pixels.len(),
                self@.width == old(self)@.width,
                self@.height == old(self)@.height,
                old_pixels == old(self)@.pixels,
                i <= n,
                forall|j: int|
                    0 <= j < i ==> self.pixels@[j] == fill_pixel(
                        f,
                        j % (w as int),
                        j / (w as int),
                        #[trigger] old_pixels[j],
                    ),
                forall|j: int| i <= j < n ==> self.pixels@[j] == old_pixels[j],
            decreases n - i,
        {
            proof {
                lemma_coords_of_index(w as int, self.height as int, i as int);
            }
            let x: u16 = (i % w) as u16;
            let y: u16 = (i / w) as u16;
            let c = shade(f, x, y, self.pixels[i]);
            self.pixels.set(i, c);
            i += 1;
        }
        assert(self@.pixels =~= old(self)@.filled(f).pixels) by {
            assert forall|j: int| 0 <= j < n implies self.pixels@[j] == old(self)@.filled(f).pixels[j] by {
                assert(self.pixels@[j] == fill_pixel(f, j % (w as int), j / (w as int), old_pixels[j]));
            }
        }
    }
}

} // verus!
