use vstd::arithmetic::div_mod::lemma_fundamental_div_mod;
use vstd::prelude::*;

use crate::color::UNIT;

verus! {

/// `r` is the integer square root of `n`: the largest `r` with `r * r <= n`.
pub open spec fn is_floor_sqrt(n: int, r: int) -> bool {
    0 <= r && r * r <= n < (r + 1) * (r + 1)
}

/// The integer square root of `n`.
pub open spec fn floor_sqrt(n: int) -> int {
    choose|r: int| is_floor_sqrt(n, r)
}

proof fn lemma_square_monotone(a: int, b: int)
    requires
        0 <= a <= b,
    ensures
        a * a <= b * b,
{
    assert(a * a <= b * b) by (nonlinear_arith)
        requires
            0 <= a <= b,
    ;
}

/// The integer square root is unique, so any witness is `floor_sqrt`.
pub proof fn lemma_floor_sqrt_unique(n: int, r: int)
    requires
        is_floor_sqrt(n, r),
    ensures
        floor_sqrt(n) == r,
{
    let s = floor_sqrt(n);
    assert(is_floor_sqrt(n, s));
    if s < r {
        lemma_square_monotone(s + 1, r);
    } else if r < s {
        lemma_square_monotone(r + 1, s);
    }
}

/// The integer square root of a 64-bit value.
pub fn isqrt(n: u64) -> (r: u64)
    ensures
        r == floor_sqrt(n as int),
        is_floor_sqrt(n as int, r as int),
{
    let mut lo: u64 = 0;
    let mut hi: u64 = 4294967296;
    while hi - lo > 1
        invariant
            lo < hi <= 4294967296,
            lo * lo <= n,
            n < hi * hi,
        decreases hi - lo,
    {
        let mid: u64 = lo + (hi - lo) / 2;
        assert(mid * mid <= 4294967296 * 4294967296) by (nonlinear_arith)
            requires
                mid <= 4294967296,
        ;
        let sq: u128 = mid as u128 * mid as u128;
        if sq <= n as u128 {
            lo = mid;
        } else {
            hi = mid;
        }
    }
    assert(hi == lo + 1);
    proof {
        lemma_floor_sqrt_unique(n as int, lo as int);
    }
    lo
}

/// A two-dimensional integer vector. Positions count pixels; directions
/// returned by `norm` count `UNIT` per 1.0.
#[derive(Clone, Copy, Debug, PartialEq, Eq, Structural)]
pub struct Vector2 {
    pub x: i32,
    pub y: i32,
}

/// `a * UNIT * UNIT / len`, rounded toward zero.
pub open spec fn scale_toward_zero(a: int, len: int) -> int {
    if a >= 0 {
        a * (UNIT as int * UNIT as int) / len
    } else {
        -((-a) * (UNIT as int * UNIT as int) / len)
    }
}

impl Vector2 {
    pub fn new(x: i32, y: i32) -> (v: Vector2)
        ensures
            v == (Vector2 { x, y }),
    {
        Vector2 { x, y }
    }

    /// The squared length.
    pub open spec fn len_sq(self) -> int {
        self.x as int * self.x as int + self.y as int * self.y as int
    }

    /// The length, rounded down.
    pub fn len(self) -> (r: u64)
        ensures
            r == floor_sqrt(self.len_sq()),
            is_floor_sqrt(self.len_sq(), r as int),
    {
        let x: i64 = self.x as i64;
        let y: i64 = self.y as i64;
        assert(0 <= x * x <= 4611686018427387904 && 0 <= y * y <= 4611686018427387904)
            by (nonlinear_arith)
            requires
                -2147483648 <= x <= 2147483647,
                -2147483648 <= y <= 2147483647,
        ;
        let sq: u64 = (x * x) as u64 + (y * y) as u64;
        isqrt(sq)
    }

    /// The length at fixed-point scale, rounded down: `UNIT` per pixel.
    pub open spec fn fixed_len(self) -> int {
        floor_sqrt(self.len_sq() * (UNIT as int * UNIT as int))
    }

    /// Each component divided by the length, at fixed-point scale (`UNIT`
    /// per 1.0), rounded toward zero.
    pub open spec fn norm_spec(self) -> Vector2 {
        Vector2 {
            x: scale_toward_zero(self.x as int, self.fixed_len()) as i32,
            y: scale_toward_zero(self.y as int, self.fixed_len()) as i32,
        }
    }

    /// The direction of this vector as a fixed-point vector of length
    /// `UNIT`, within two units. The zero vector has no direction: callers
    /// must rule it out.
    pub fn norm(self) -> (r: Vector2)
        requires
            self.len_sq() > 0,
        ensures
            r == self.norm_spec(),
            r.x as int == scale_toward_zero(self.x as int, self.fixed_len()),
            r.y as int == scale_toward_zero(self.y as int, self.fixed_len()),
            -(UNIT as int) <= r.x as int,
            r.x as int <= UNIT as int,
            -(UNIT as int) <= r.y as int,
            r.y as int <= UNIT as int,
            (UNIT - 2) * (UNIT - 2) <= r.len_sq(),
            r.len_sq() <= (UNIT + 2) * (UNIT + 2),
    {
        let x: i64 = self.x as i64;
        let y: i64 = self.y as i64;
        let ax: u128 = if x >= 0 {
            x as u128
        } else {
            (-x) as u128
        };
        let ay: u128 = if y >= 0 {
            y as u128
        } else {
            (-y) as u128
        };
        assert(ax * ax <= 4611686018427387904 && ay * ay <= 4611686018427387904)
            by (nonlinear_arith)
            requires
                ax <= 2147483648,
                ay <= 2147483648,
        ;
        assert(ax * ax + ay * ay == self.len_sq()) by (nonlinear_arith)
            requires
                ax == x || ax == -x,
                ay == y || ay == -y,
                x == self.x,
                y == self.y,
        ;
        let n: u128 = ax * ax + ay * ay;
        let big: u128 = n * 4294967296;
        let l: u128 = isqrt_wide(big);
        proof {
            lemma_norm_length(ax as int, ay as int, l as int);
        }
        let qx: u128 = ax * 4294967296 / l;
        let qy: u128 = ay * 4294967296 / l;
        let rx: i32 = if x >= 0 {
            qx as i32
        } else {
            -(qx as i32)
        };
        let ry: i32 = if y >= 0 {
            qy as i32
        } else {
            -(qy as i32)
        };
        let r = Vector2 { x: rx, y: ry };
        assert(r.len_sq() == qx * qx + qy * qy) by (nonlinear_arith)
            requires
                rx == qx || rx == -qx,
                ry == qy || ry == -qy,
                r.x == rx,
                r.y == ry,
        ;
        r
    }
}

/// The integer square root of a value below `2^96`.
pub fn isqrt_wide(n: u128) -> (r: u128)
    requires
        n < 79228162514264337593543950336,
    ensures
        r == floor_sqrt(n as int),
        is_floor_sqrt(n as int, r as int),
{
    let mut lo: u128 = 0;
    let mut hi: u128 = 281474976710656;
    assert(n < hi * hi);
    while hi - lo > 1
        invariant
            lo < hi <= 281474976710656,
            lo * lo <= n,
            n < hi * hi,
        decreases hi - lo,
    {
        let mid: u128 = lo + (hi - lo) / 2;
        assert(mid * mid <= 281474976710656 * 281474976710656) by (nonlinear_arith)
            requires
                mid <= 281474976710656,
        ;
        if mid * mid <= n {
            lo = mid;
        } else {
            hi = mid;
        }
    }
    proof {
        lemma_floor_sqrt_unique(n as int, lo as int);
    }
    lo
}

proof fn lemma_square_strict(a: int, b: int)
    requires
        0 <= a < b,
    ensures
        a * a < b * b,
{
    assert(a * a < b * b) by (nonlinear_arith)
        requires
            0 <= a < b,
    ;
}

/// Dividing the components by the fixed-point length gives components within
/// `UNIT` and a squared length within two units of `UNIT` squared.
proof fn lemma_norm_length(ax: int, ay: int, l: int)
    requires
        ax >= 0,
        ay >= 0,
        ax * ax + ay * ay >= 1,
        is_floor_sqrt((ax * ax + ay * ay) * 4294967296, l),
    ensures
        l > 0,
        0 <= ax * 4294967296 / l <= UNIT,
        0 <= ay * 4294967296 / l <= UNIT,
        (UNIT - 2) * (UNIT - 2) <= (ax * 4294967296 / l) * (ax * 4294967296 / l) + (ay
            * 4294967296 / l) * (ay * 4294967296 / l) <= (UNIT + 2) * (UNIT + 2),
{
    let u = 65536int;
    let n = ax * ax + ay * ay;
    let big = n * 4294967296;
    assert(big >= u * u);
    if l < u {
        lemma_square_monotone(l + 1, u);
    }
    assert(l >= u);
    lemma_norm_component(ax, ay, l);
    lemma_norm_component(ay, ax, l);
    let qx = ax * 4294967296 / l;
    let qy = ay * 4294967296 / l;
    let bx = ax * 4294967296;
    let by = ay * 4294967296;
    // upper bound
    lemma_square_monotone(qx * l, bx);
    lemma_square_monotone(qy * l, by);
    assert(bx * bx + by * by == u * u * big) by (nonlinear_arith)
        requires
            bx == ax * 4294967296,
            by == ay * 4294967296,
            big == (ax * ax + ay * ay) * 4294967296,
            u == 65536,
    ;
    assert(u * u * big < u * u * ((l + 1) * (l + 1))) by (nonlinear_arith)
        requires
            big < (l + 1) * (l + 1),
            u == 65536,
    ;
    lemma_square_monotone(u * (l + 1), (u + 2) * l);
    let q = qx * qx + qy * qy;
    let l2 = l * l;
    assert((qx * l) * (qx * l) == (qx * qx) * l2) by (nonlinear_arith)
        requires
            l2 == l * l,
    ;
    assert((qy * l) * (qy * l) == (qy * qy) * l2) by (nonlinear_arith)
        requires
            l2 == l * l,
    ;
    assert((u * (l + 1)) * (u * (l + 1)) == u * u * ((l + 1) * (l + 1))) by (nonlinear_arith);
    assert(((u + 2) * l) * ((u + 2) * l) == (u + 2) * (u + 2) * l2) by (nonlinear_arith)
        requires
            l2 == l * l,
    ;
    assert(q * l2 == (qx * qx) * l2 + (qy * qy) * l2) by (nonlinear_arith)
        requires
            q == qx * qx + qy * qy,
    ;
    assert(q * l2 < (u + 2) * (u + 2) * l2);
    assert(q < (u + 2) * (u + 2)) by (nonlinear_arith)
        requires
            q * l2 < (u + 2) * (u + 2) * l2,
            l2 == l * l,
            l > 0,
    ;
    // lower bound
    lemma_square_strict(bx, (qx + 1) * l);
    lemma_square_strict(by, (qy + 1) * l);
    let s1 = (qx + 1) * (qx + 1) + (qy + 1) * (qy + 1);
    assert(u * u * (l * l) <= u * u * big) by (nonlinear_arith)
        requires
            l * l <= big,
    ;
    assert(s1 * (l * l) > u * u * (l * l)) by (nonlinear_arith)
        requires
            bx * bx < ((qx + 1) * l) * ((qx + 1) * l),
            by * by < ((qy + 1) * l) * ((qy + 1) * l),
            bx * bx + by * by == u * u * big,
            u * u * (l * l) <= u * u * big,
            s1 == (qx + 1) * (qx + 1) + (qy + 1) * (qy + 1),
    ;
    assert(s1 > u * u) by (nonlinear_arith)
        requires
            s1 * (l * l) > u * u * (l * l),
            l > 0,
    ;
    assert((qx + qy) * (qx + qy) <= 2 * q) by (nonlinear_arith)
        requires
            q == qx * qx + qy * qy,
    ;
    assert(2 * ((u + 2) * (u + 2)) < (2 * u - 3) * (2 * u - 3)) by (nonlinear_arith)
        requires
            u == 65536,
    ;
    if qx + qy >= 2 * u - 3 {
        lemma_square_monotone(2 * u - 3, qx + qy);
        assert(false);
    }
    assert(qx + qy < 2 * u - 3);
    assert(q == s1 - 2 * (qx + qy) - 2) by (nonlinear_arith)
        requires
            q == qx * qx + qy * qy,
            s1 == (qx + 1) * (qx + 1) + (qy + 1) * (qy + 1),
    ;
}

/// One component divided by the fixed-point length stays within `UNIT`,
/// with the division's bounds.
proof fn lemma_norm_component(a: int, b: int, l: int)
    requires
        a >= 0,
        b >= 0,
        l >= 65536,
        is_floor_sqrt((a * a + b * b) * 4294967296, l),
    ensures
        0 <= a * 4294967296 / l <= UNIT,
        (a * 4294967296 / l) * l <= a * 4294967296 < (a * 4294967296 / l + 1) * l,
{
    let m = a * 65536;
    assert(m * m <= (a * a + b * b) * 4294967296) by (nonlinear_arith)
        requires
            m == a * 65536,
            b >= 0,
    ;
    if m > l {
        lemma_square_monotone(l + 1, m);
    }
    assert(a * 4294967296 <= 65536 * l) by (nonlinear_arith)
        requires
            m == a * 65536,
            m <= l,
    ;
    let v = a * 4294967296;
    lemma_fundamental_div_mod(v, l);
    assert(0 <= v / l <= 65536) by (nonlinear_arith)
        requires
            0 <= v <= 65536 * l,
            l > 0,
    ;
    assert((v / l) * l <= v < (v / l + 1) * l) by (nonlinear_arith)
        requires
            v == l * (v / l) + v % l,
            0 <= v % l < l,
    ;
}

/// An axis-aligned rectangle: its top-left corner and its size, in pixels.
#[derive(Clone, Copy, Debug, PartialEq, Eq, Structural)]
pub struct Rectangle {
    pub coord: Vector2,
    pub size: Vector2,
}

impl Rectangle {
    pub fn new(x: i32, y: i32, w: i32, h: i32) -> (r: Rectangle)
        ensures
            r == (Rectangle { coord: Vector2 { x, y }, size: Vector2 { x: w, y: h } }),
    {
        Rectangle { coord: Vector2::new(x, y), size: Vector2::new(w, h) }
    }
}

} // verus!
