//! Rectangles, the display scale, and rounding.

use vstd::prelude::*;

verus! {

/// A rectangle of pixels: `w` columns from `x` on, `h` rows from `y` on.
#[derive(Debug, Clone, Copy, PartialEq, Eq, Structural)]
pub struct Rect {
    pub x: i32,
    pub y: i32,
    pub w: i32,
    pub h: i32,
}

/// A rectangle over the mathematical integers.
pub struct Area {
    pub x: int,
    pub y: int,
    pub w: int,
    pub h: int,
}

impl Area {
    /// The pixel at (`px`, `py`) lies in the rectangle.
    pub open spec fn covers(self, px: int, py: int) -> bool {
        self.x <= px < self.x + self.w && self.y <= py < self.y + self.h
    }

    /// The corner and the far edges are representable.
    pub open spec fn fits(self) -> bool {
        &&& i32::MIN <= self.x
        &&& i32::MIN <= self.y
        &&& 0 <= self.w
        &&& 0 <= self.h
        &&& self.x + self.w <= i32::MAX
        &&& self.y + self.h <= i32::MAX
        &&& self.w <= i32::MAX
        &&& self.h <= i32::MAX
    }

    /// The rectangle lies inside `outer`.
    pub open spec fn within(self, outer: Area) -> bool {
        &&& outer.x <= self.x
        &&& outer.y <= self.y
        &&& self.x + self.w <= outer.x + outer.w
        &&& self.y + self.h <= outer.y + outer.h
    }

    /// No pixel lies in both rectangles.
    pub open spec fn apart(self, other: Area) -> bool {
        forall|px: int, py: int| !(#[trigger] self.covers(px, py) && other.covers(px, py))
    }
}

impl View for Rect {
    type V = Area;

    open spec fn view(&self) -> Area {
        Area { x: self.x as int, y: self.y as int, w: self.w as int, h: self.h as int }
    }
}

impl Rect {
    /// Whether the pixel at (`px`, `py`) lies in the rectangle.
    pub fn contains(&self, px: i32, py: i32) -> (r: bool)
        ensures
            r == self@.covers(px as int, py as int),
    {
        px >= self.x && py >= self.y && (px as i64) < self.x as i64 + self.w as i64 && (py as i64)
            < self.y as i64 + self.h as i64
    }
}

pub open spec fn min(a: int, b: int) -> int {
    if a <= b {
        a
    } else {
        b
    }
}

pub open spec fn max(a: int, b: int) -> int {
    if a >= b {
        a
    } else {
        b
    }
}

/// `v`, or the nearer end of `lo..=hi` where `v` lies outside.
pub open spec fn clamp(v: int, lo: int, hi: int) -> int {
    if v < lo {
        lo
    } else if v > hi {
        hi
    } else {
        v
    }
}

pub fn clamp_i32(v: i32, lo: i32, hi: i32) -> (r: i32)
    requires
        lo <= hi,
    ensures
        r == clamp(v as int, lo as int, hi as int),
{
    if v < lo {
        lo
    } else if v > hi {
        hi
    } else {
        v
    }
}

/// Half of `v`, rounded toward zero.
pub open spec fn half(v: int) -> int {
    if v >= 0 {
        v / 2
    } else {
        -((-v) / 2)
    }
}

pub fn half_i32(v: i32) -> (r: i32)
    ensures
        r == half(v as int),
{
    v / 2
}

/// The smallest rectangle that holds both corners.
pub open spec fn spanned(a: (i32, i32), b: (i32, i32)) -> Area {
    Area {
        x: min(a.0 as int, b.0 as int),
        y: min(a.1 as int, b.1 as int),
        w: max(a.0 as int, b.0 as int) - min(a.0 as int, b.0 as int) + 1,
        h: max(a.1 as int, b.1 as int) - min(a.1 as int, b.1 as int) + 1,
    }
}

/// The width and height of the rectangle between two corners are representable.
pub open spec fn span_fits(a: (i32, i32), b: (i32, i32)) -> bool {
    spanned(a, b).w <= i32::MAX && spanned(a, b).h <= i32::MAX
}

/// The rectangle between two corners, both of which it holds.
pub fn rect_from_corner_points(a: (i32, i32), b: (i32, i32)) -> (r: Rect)
    requires
        span_fits(a, b),
    ensures
        r@ == spanned(a, b),
{
    let x1: i32 = if a.0 <= b.0 { a.0 } else { b.0 };
    let y1: i32 = if a.1 <= b.1 { a.1 } else { b.1 };
    let x2: i32 = if a.0 >= b.0 { a.0 } else { b.0 };
    let y2: i32 = if a.1 >= b.1 { a.1 } else { b.1 };
    // +1 because the corners are inclusive.
    Rect { x: x1, y: y1, w: x2 - x1 + 1, h: y2 - y1 + 1 }
}

/// The rectangle between two corners does not depend on their order, holds both of them, and
/// lies inside every rectangle that does.
pub proof fn law_span_is_smallest(a: (i32, i32), b: (i32, i32), outer: Area)
    ensures
        spanned(a, b) == spanned(b, a),
        spanned(a, b).covers(a.0 as int, a.1 as int),
        spanned(a, b).covers(b.0 as int, b.1 as int),
        outer.covers(a.0 as int, a.1 as int) && outer.covers(b.0 as int, b.1 as int) ==> spanned(
            a,
            b,
        ).within(outer),
{
}

/// How many device pixels a logical pixel takes: `num / den`.
#[derive(Debug, Clone, Copy, PartialEq, Eq, Structural)]
pub struct Scale {
    pub num: u32,
    pub den: u32,
}

impl Scale {
    /// The ratio has a denominator.
    pub open spec fn wf(self) -> bool {
        self.den > 0
    }

    /// A whole number of device pixels for each logical pixel.
    pub fn whole(n: u32) -> (r: Scale)
        ensures
            r.wf(),
            r == (Scale { num: n, den: 1 }),
    {
        Scale { num: n, den: 1 }
    }
}

/// The integer nearest to `n / d`; halfway cases go away from zero.
pub open spec fn nearest(n: int, d: int) -> int {
    if n >= 0 {
        (2 * n + d) / (2 * d)
    } else {
        -((2 * -n + d) / (2 * d))
    }
}

/// `v` logical pixels in whole device pixels, kept in the range of `i32`.
pub open spec fn scaled(scale: Scale, v: int) -> int {
    clamp(nearest(v * scale.num, scale.den as int), i32::MIN as int, i32::MAX as int)
}

/// No integer is nearer to `n / d` than the rounded value, which is off by half at most.
pub proof fn law_nearest(n: int, d: int)
    requires
        d > 0,
    ensures
        -d <= 2 * (nearest(n, d) * d - n) <= d,
{
    let p: int = if n >= 0 {
        2 * n + d
    } else {
        2 * -n + d
    };
    vstd::arithmetic::div_mod::lemma_fundamental_div_mod(p, 2 * d);
    let q: int = p / (2 * d);
    assert((2 * d) * q == 2 * (q * d)) by (nonlinear_arith);
    assert((-q) * d == -(q * d)) by (nonlinear_arith);
}

/// Halfway cases go away from zero, and the rounding of a negative number mirrors that of the
/// positive one.
pub proof fn law_halves_go_away_from_zero(n: int, d: int)
    requires
        d > 0,
    ensures
        n >= 0 ==> 2 * (nearest(n, d) * d - n) > -d,
        nearest(-n, d) == -nearest(n, d),
{
    if n >= 0 {
        let p: int = 2 * n + d;
        vstd::arithmetic::div_mod::lemma_fundamental_div_mod(p, 2 * d);
        let q: int = p / (2 * d);
        assert((2 * d) * q == 2 * (q * d)) by (nonlinear_arith);
    }
    if n == 0 {
        assert((2 * 0 + d) / (2 * d) == 0) by (nonlinear_arith)
            requires
                d > 0,
        ;
    }
}

/// A size in device pixels is the nearest to what the scale makes of it, or the largest number
/// where that is too much.
pub proof fn law_scaled_is_nearest(scale: Scale, v: int)
    requires
        scale.wf(),
        0 <= v,
    ensures
        ({
            let (r, n, d) = (scaled(scale, v), v * scale.num, scale.den as int);
            &&& 0 <= r <= i32::MAX
            &&& r < i32::MAX ==> -d < 2 * (r * d - n) <= d
            &&& r == i32::MAX ==> 2 * (r * d - n) <= d
        }),
{
    let (n, d): (int, int) = (v * scale.num, scale.den as int);
    assert(0 <= n) by (nonlinear_arith)
        requires
            n == v * scale.num,
            0 <= v,
    ;
    lemma_scaled_monotone(scale, v, v);
    law_nearest(n, d);
    law_halves_go_away_from_zero(n, d);
    let (q, r): (int, int) = (nearest(n, d), scaled(scale, v));
    assert(r * d <= q * d) by (nonlinear_arith)
        requires
            r <= q,
            d > 0,
    ;
}

/// At a whole scale nothing is rounded.
pub proof fn law_whole_scale_is_exact(n: u32, v: int)
    requires
        0 <= v * n <= i32::MAX,
    ensures
        scaled(Scale { num: n, den: 1 }, v) == v * n,
{
    let x: int = v * n;
    assert((2 * x + 1) / 2 == x);
}

/// Sizes do not shrink when the logical size grows.
pub proof fn lemma_scaled_monotone(scale: Scale, a: int, b: int)
    requires
        scale.wf(),
        0 <= a <= b,
    ensures
        0 <= scaled(scale, a) <= scaled(scale, b) <= i32::MAX,
{
    let d: int = scale.den as int;
    let n: int = scale.num as int;
    assert(0 <= a * n <= b * n) by (nonlinear_arith)
        requires
            0 <= a <= b,
            0 <= n,
    ;
    assert(0 <= nearest(a * n, d) <= nearest(b * n, d)) by {
        vstd::arithmetic::div_mod::lemma_div_is_ordered(2 * (a * n) + d, 2 * (b * n) + d, 2 * d);
        vstd::arithmetic::div_mod::lemma_div_pos_is_pos(2 * (a * n) + d, 2 * d);
    }
}

/// `v` logical pixels in device pixels, rounded to the nearest whole number; halfway cases go
/// away from zero, and what lies beyond `i32` is cut to its ends.
pub fn rnd(scale: Scale, v: i32) -> (r: i32)
    requires
        scale.wf(),
    ensures
        r == scaled(scale, v as int),
{
    let d: i128 = scale.den as i128;
    proof {
        let a: int = v as int;
        let b: int = scale.num as int;
        assert(-0x8000_0000 * 0xffff_ffff <= a * b <= 0x8000_0000 * 0xffff_ffff) by (nonlinear_arith)
            requires
                -0x8000_0000 <= a <= 0x7fff_ffff,
                0 <= b <= 0xffff_ffff,
        ;
    }
    let n: i128 = v as i128 * scale.num as i128;
    let q: i128 = if n >= 0 {
        (2 * n + d) / (2 * d)
    } else {
        let m: i128 = (2 * -n + d) / (2 * d);
        proof {
            vstd::arithmetic::div_mod::lemma_div_pos_is_pos(2 * -(n as int) + d, 2 * d as int);
            vstd::arithmetic::div_mod::lemma_div_is_ordered_by_denominator(
                2 * -(n as int) + d,
                1,
                2 * d as int,
            );
        }
        -m
    };
    if q < -0x8000_0000 {
        i32::MIN
    } else if q > 0x7fff_ffff {
        i32::MAX
    } else {
        q as i32
    }
}

} // verus!
