use vstd::prelude::*;

use crate::color::{hsv_spec, Color, FULL_TURN, SECTOR, UNIT};
use crate::geometry::{floor_sqrt, Vector2};

verus! {

/// Fixed-point coefficients of the arc cosine approximation
/// `acos(t) ~ sqrt(1 - t) * (c0 - c1 t + c2 t^2 - c3 t^3)` on `0 <= t <= 1`,
/// expressed in hue units (one `SECTOR` per 60 degrees).
pub const ACOS_C0: i128 = 98300;

pub const ACOS_C1: i128 = 13275;

pub const ACOS_C2: i128 = 4647;

pub const ACOS_C3: i128 = 1172;

/// The cube of `UNIT`.
pub const UNIT_CUBED: i128 = 281474976710656;

/// The polynomial factor of the approximation, scaled by `UNIT_CUBED`.
pub open spec fn acos_poly_scaled(t: int) -> int {
    ACOS_C0 * UNIT_CUBED - ACOS_C1 * t * (UNIT as int * UNIT as int) + ACOS_C2 * (t * t) * UNIT
        - ACOS_C3 * (t * t * t)
}

/// The approximate arc cosine of `t / UNIT` for `0 <= t <= UNIT`, in hue
/// units.
pub open spec fn acos_nonneg(t: int) -> int {
    floor_sqrt((UNIT - t) * UNIT as int) * (acos_poly_scaled(t) / UNIT_CUBED as int) / UNIT as int
}

/// The approximate arc cosine of `t / UNIT` for `-UNIT <= t <= UNIT`, in hue
/// units: from 0 at `t == UNIT` to half a turn at `t == -UNIT`.
pub open spec fn acos_spec(t: int) -> int {
    if t >= 0 {
        acos_nonneg(t)
    } else {
        3 * SECTOR - acos_nonneg(-t)
    }
}

/// The hue of a nonzero direction, counter-clockwise from the positive x
/// axis on a surface whose y axis points down: `acos(x)` where `y > 0`, else
/// one turn minus `acos(x)`, with `x` the first component of the
/// fixed-point unit vector `norm_spec`.
pub open spec fn direction_hue(v: Vector2) -> int {
    let a = acos_spec(v.norm_spec().x as int);
    if v.y > 0 {
        a
    } else {
        FULL_TURN - a
    }
}

proof fn lemma_poly_bounds(t: int)
    requires
        0 <= t <= UNIT,
    ensures
        0 <= acos_poly_scaled(t) <= (ACOS_C0 + ACOS_C2) * UNIT_CUBED,
{
    let u = UNIT as int;
    assert(0 <= t * t <= u * u) by (nonlinear_arith)
        requires
            0 <= t <= u,
    ;
    assert(0 <= t * t * t <= u * u * u) by (nonlinear_arith)
        requires
            0 <= t <= u,
    ;
    assert(ACOS_C1 * t * (u * u) <= ACOS_C1 * (u * u * u)) by (nonlinear_arith)
        requires
            0 <= t <= u,
    ;
    assert(ACOS_C2 * (t * t) * u <= ACOS_C2 * (u * u * u)) by (nonlinear_arith)
        requires
            0 <= t * t <= u * u,
            u > 0,
    ;
    assert(0 <= ACOS_C1 * t * (u * u)) by (nonlinear_arith)
        requires
            0 <= t,
    ;
    assert(0 <= ACOS_C2 * (t * t) * u) by (nonlinear_arith)
        requires
            0 <= t * t,
            u > 0,
    ;
    assert(u * u * u == UNIT_CUBED);
}

/// The approximate arc cosine for `0 <= t <= UNIT`.
fn acos_nonneg_exec(t: i64) -> (r: i64)
    requires
        0 <= t,
        t as int <= UNIT as int,
    ensures
        r == acos_nonneg(t as int),
        0 <= r,
        r as int <= ACOS_C0 + ACOS_C2,
{
    proof {
        lemma_poly_bounds(t as int);
    }
    let tw: i128 = t as i128;
    let u: i128 = UNIT as i128;
    assert(tw * tw <= u * u && tw * tw * tw <= u * u * u) by (nonlinear_arith)
        requires
            0 <= tw <= u,
            u == 65536,
    ;
    let num: i128 = ACOS_C0 * UNIT_CUBED - ACOS_C1 * tw * (u * u) + ACOS_C2 * (tw * tw) * u
        - ACOS_C3 * (tw * tw * tw);
    let poly: i128 = num / UNIT_CUBED;
    assert(poly <= ACOS_C0 + ACOS_C2) by (nonlinear_arith)
        requires
            poly == num / UNIT_CUBED,
            0 <= num <= (ACOS_C0 + ACOS_C2) * UNIT_CUBED,
    ;
    let root: u64 = crate::geometry::isqrt(((UNIT as i64 - t) * UNIT as i64) as u64);
    assert(root <= UNIT) by (nonlinear_arith)
        requires
            root * root <= (UNIT - t) * UNIT,
            0 <= t,
            0 <= root,
    ;
    assert(root as i128 * poly <= UNIT as i128 * (ACOS_C0 + ACOS_C2)) by (nonlinear_arith)
        requires
            0 <= root <= UNIT,
            0 <= poly <= ACOS_C0 + ACOS_C2,
    ;
    assert(0 <= root as i128 * poly) by (nonlinear_arith)
        requires
            0 <= root,
            0 <= poly,
    ;
    let prod: i128 = root as i128 * poly;
    let a: i128 = prod / u;
    assert(a <= ACOS_C0 + ACOS_C2) by (nonlinear_arith)
        requires
            a == prod / u,
            prod <= u * (ACOS_C0 + ACOS_C2),
            u == 65536,
    ;
    a as i64
}

/// The approximate arc cosine of `t / UNIT`, in hue units.
pub fn acos_fixed(t: i64) -> (r: i64)
    requires
        -(UNIT as int) <= t as int,
        t as int <= UNIT as int,
    ensures
        r == acos_spec(t as int),
        0 <= r,
        r as int <= 3 * SECTOR,
{
    if t >= 0 {
        acos_nonneg_exec(t)
    } else {
        3 * SECTOR - acos_nonneg_exec(-t)
    }
}

/// The hue of a nonzero direction.
pub fn hue_of_direction(v: Vector2) -> (h: i64)
    requires
        v.len_sq() > 0,
    ensures
        h == direction_hue(v),
        0 <= h,
        h <= FULL_TURN,
{
    let n = v.norm();
    let a = acos_fixed(n.x as i64);
    if v.y > 0 {
        a
    } else {
        FULL_TURN - a
    }
}

/// The color picked at a point of the wheel and the point the marker is
/// drawn at. The point counts `UNIT` per radius from the center. The center
/// has no direction and picks white; a point outside the disk is pulled
/// onto its border (its direction kept).
pub open spec fn point_color_spec(p: Vector2) -> (Color, Vector2) {
    if p.x == 0 && p.y == 0 {
        (Color { r: 255, g: 255, b: 255, a: 255 }, p)
    } else {
        let len = floor_sqrt(p.len_sq());
        let n = p.norm_spec();
        let dist = if len >= UNIT {
            UNIT as int
        } else {
            len
        };
        let marker = if len >= UNIT {
            n
        } else {
            p
        };
        (hsv_spec(direction_hue(p), dist, UNIT as int), marker)
    }
}

/// Maps a point of the color wheel to its color, and to where the marker
/// stands (see `point_color_spec`).
pub fn point_to_color(p: Vector2) -> (r: (Color, Vector2))
    ensures
        r == point_color_spec(p),
{
    if p.x == 0 && p.y == 0 {
        return (Color::white(), p);
    }
    assert(p.len_sq() > 0) by (nonlinear_arith)
        requires
            p.x != 0 || p.y != 0,
    ;
    let len = p.len();
    let n = p.norm();
    let mut dist: u64 = len;
    let mut marker = p;
    if len >= UNIT as u64 {
        dist = UNIT as u64;
        marker = n;
    }
    let hue = hue_of_direction(p);
    (Color::from_hsv(hue, dist as u32, UNIT), marker)
}

} // verus!
