//! How thick annotations are drawn.

use crate::render::geometry;
use crate::render::ratio::Ratio;
use vstd::prelude::*;

verus! {

/// The thinnest and the thickest stroke, in device px.
pub const MIN_THICKNESS: i128 = 1;

pub const MAX_THICKNESS: i128 = 100;

/// From the thinnest stroke to the thickest.
pub const THICKNESS_RANGE: i128 = 99;

pub const DEFAULT_THICKNESS: i128 = 4;

pub const HIGHLIGHT_THICKNESS: i128 = 24;

pub const BLUR_THICKNESS: i128 = 24;

/// How much one key press or one notch of the wheel changes the thickness.
pub const THICKNESS_STEP: i128 = 2;

/// The value lies between the thinnest and the thickest stroke.
pub open spec fn in_range(t: Ratio) -> bool {
    0 < t.den <= i32::MAX && MIN_THICKNESS * t.den <= t.num <= MAX_THICKNESS * t.den
}

/// A whole thickness.
pub open spec fn whole(v: int) -> Ratio {
    Ratio { num: v as i128, den: 1 }
}

pub fn whole_thickness(v: i128) -> (r: Ratio)
    ensures
        r == whole(v as int),
        r.wf(),
        MIN_THICKNESS <= v <= MAX_THICKNESS ==> in_range(r),
{
    Ratio { num: v, den: 1 }
}

/// The thickness `delta` further up, or the end of the range where that lies beyond it.
pub open spec fn adjusted(t: Ratio, delta: int) -> Ratio {
    Ratio {
        num: geometry::clamp(
            t.num + delta * t.den,
            MIN_THICKNESS * t.den,
            MAX_THICKNESS * t.den,
        ) as i128,
        den: t.den,
    }
}

/// Changes a thickness by `delta` and keeps it in range.
pub fn adjust(t: Ratio, delta: i128) -> (r: Ratio)
    requires
        in_range(t),
    ensures
        r == adjusted(t, delta as int),
        in_range(r),
{
    // A change by more than the whole range ends where a change by the whole range does.
    let d: i128 = if delta < -MAX_THICKNESS {
        -MAX_THICKNESS
    } else if delta > MAX_THICKNESS {
        MAX_THICKNESS
    } else {
        delta
    };
    proof {
        let k: int = t.den as int;
        let (a, b): (int, int) = (d as int, delta as int);
        assert(-100 * 0x7fff_ffff <= a * k <= 100 * 0x7fff_ffff) by (nonlinear_arith)
            requires
                -100 <= a <= 100,
                0 < k <= 0x7fff_ffff,
        ;
        assert(b > 100 ==> b * k >= 100 * k) by (nonlinear_arith)
            requires
                0 < k,
        ;
        assert(b < -100 ==> b * k <= -100 * k) by (nonlinear_arith)
            requires
                0 < k,
        ;
    }
    let want: i128 = t.num + d * t.den;
    let least: i128 = MIN_THICKNESS * t.den;
    let most: i128 = MAX_THICKNESS * t.den;
    let num: i128 = if want < least {
        least
    } else if want > most {
        most
    } else {
        want
    };
    Ratio { num, den: t.den }
}

/// How long the slider's track counts as, which is never nothing.
pub open spec fn track_len(x0: int, x1: int) -> int {
    geometry::max(x1 - x0, 1)
}

/// The thickness at `x` on a track from `x0` to `x1`: the thinnest at its start, the thickest at
/// its end, and linear between.
pub open spec fn slider_value(x: int, x0: int, x1: int) -> Ratio {
    let n = track_len(x0, x1);
    Ratio {
        num: (MIN_THICKNESS * n + THICKNESS_RANGE * geometry::clamp(x - x0, 0, n))
            as i128,
        den: n as i128,
    }
}

/// The thickness that the slider stands for when its handle is at `x`.
pub fn thickness_from_slider_x(x: i32, track_x0: i32, track_x1: i32) -> (r: Ratio)
    requires
        i32::MIN <= x - track_x0 <= i32::MAX,
        i32::MIN <= track_x1 - track_x0 <= i32::MAX,
    ensures
        r == slider_value(x as int, track_x0 as int, track_x1 as int),
        in_range(r),
{
    let span: i32 = track_x1 - track_x0;
    let n: i32 = if span >= 1 {
        span
    } else {
        1
    };
    let off: i32 = geometry::clamp_i32(x - track_x0, 0, n);
    Ratio {
        num: MIN_THICKNESS * n as i128 + THICKNESS_RANGE * off as i128,
        den: n as i128,
    }
}

/// The thickness in whole px, as it is shown; halfway cases go away from zero, and what lies
/// beyond `i32` is cut to its ends.
pub open spec fn shown(t: Ratio) -> int {
    geometry::clamp(
        geometry::nearest(t.num as int, t.den as int),
        i32::MIN as int,
        i32::MAX as int,
    )
}

/// The thickness in whole px, as it is shown.
pub fn rounded(t: Ratio) -> (r: i32)
    requires
        t.moderate(),
    ensures
        r == shown(t),
{
    let (n, d): (i128, i128) = (t.num, t.den);
    let q: i128 = if n >= 0 {
        (2 * n + d) / (2 * d)
    } else {
        let m: i128 = (2 * -n + d) / (2 * d);
        proof {
            vstd::arithmetic::div_mod::lemma_div_pos_is_pos(2 * -(n as int) + d, 2 * d as int);
            vstd::arithmetic::div_mod::lemma_div_is_ordered_by_denominator(
                2 * -(n as int) + d,
                1,
                2 * d as int,
            );
        }
        -m
    };
    if q < -0x8000_0000 {
        i32::MIN
    } else if q > 0x7fff_ffff {
        i32::MAX
    } else {
        q as i32
    }
}

/// A thickness in range is shown as a number from the thinnest to the thickest.
pub proof fn law_shown_in_range(t: Ratio)
    requires
        in_range(t),
    ensures
        MIN_THICKNESS <= shown(t) <= MAX_THICKNESS,
{
    let n: int = t.num as int;
    let d: int = t.den as int;
    assert(1 <= (2 * n + d) / (2 * d) <= 100) by (nonlinear_arith)
        requires
            0 < d,
            d <= n <= 100 * d,
    ;
}

/// How far along the slider's range a thickness lies: `num / den` of it. Beyond the range it
/// counts as the nearer end.
pub open spec fn fraction(t: Ratio) -> Ratio {
    Ratio {
        num: geometry::clamp(t.num - MIN_THICKNESS * t.den, 0, THICKNESS_RANGE * t.den) as i128,
        den: (THICKNESS_RANGE * t.den) as i128,
    }
}

/// How far along the slider's range a thickness lies.
pub fn slider_fraction(t: Ratio) -> (r: Ratio)
    requires
        t.moderate(),
    ensures
        r == fraction(t),
        0 <= r.num <= r.den,
        0 < r.den <= THICKNESS_RANGE * i64::MAX,
{
    let over: i128 = t.num - MIN_THICKNESS * t.den;
    let most: i128 = THICKNESS_RANGE * t.den;
    let num: i128 = if over < 0 {
        0
    } else if over > most {
        most
    } else {
        over
    };
    Ratio { num, den: most }
}

/// The handle of the slider stands where the thickness was picked: for a track that is not
/// empty, the fraction of the picked thickness is the fraction of the track before `x`.
pub proof fn law_slider_round_trip(x: int, x0: int, x1: int)
    requires
        x0 <= x <= x1,
        x0 < x1,
        x1 - x0 <= i32::MAX,
    ensures
        fraction(slider_value(x, x0, x1)).num * (x1 - x0) == (x - x0) * fraction(
            slider_value(x, x0, x1),
        ).den,
{
    let n: int = x1 - x0;
    let o: int = x - x0;
    assert(fraction(slider_value(x, x0, x1)).num == 99 * o);
    assert(fraction(slider_value(x, x0, x1)).den == 99 * n);
    assert((99 * o) * n == o * (99 * n)) by (nonlinear_arith);
}

/// The start of the track gives the thinnest stroke, its end the thickest, places beyond either
/// end count as that end, and further to the right is never thinner.
pub proof fn law_slider_is_monotone(a: int, b: int, x0: int, x1: int)
    requires
        a <= b,
        x0 < x1,
        x1 - x0 <= i32::MAX,
    ensures
        slider_value(a, x0, x1).le(slider_value(b, x0, x1)),
        a <= x0 ==> slider_value(a, x0, x1).num == MIN_THICKNESS * slider_value(a, x0, x1).den,
        b >= x1 ==> slider_value(b, x0, x1).num == MAX_THICKNESS * slider_value(b, x0, x1).den,
{
    let p: Ratio = slider_value(a, x0, x1);
    let q: Ratio = slider_value(b, x0, x1);
    assert(p.num * q.den <= q.num * p.den) by (nonlinear_arith)
        requires
            p.den == q.den,
            p.den > 0,
            p.num <= q.num,
    ;
}

/// Up and down again gives the thickness back, unless the end of the range was in the way.
pub proof fn law_adjust_is_undone(t: Ratio, delta: int)
    requires
        in_range(t),
        MIN_THICKNESS * t.den <= t.num + delta * t.den <= MAX_THICKNESS * t.den,
    ensures
        adjusted(adjusted(t, delta), -delta) == t,
{
    assert((-delta) * t.den == -(delta * t.den)) by (nonlinear_arith);
}

/// Picking on the slider is linear: a pixel further along a track of `n` px is 99 `n`-ths thicker.
pub proof fn law_slider_is_linear(x: int, x0: int, x1: int)
    requires
        x0 <= x <= x1,
        x0 < x1,
        x1 - x0 <= i32::MAX,
    ensures
        ({
            let r = slider_value(x, x0, x1);
            &&& r.den == x1 - x0
            &&& r.num == r.den + 99 * (x - x0)
        }),
{
}

/// A change of the thickness is exact within the range from 1 to 100, and ends at the end of the
/// range that it would cross.
pub proof fn law_adjusted_stays_in_range(t: Ratio, delta: int)
    requires
        in_range(t),
    ensures
        ({
            let r = adjusted(t, delta);
            let want = t.num + delta * t.den;
            &&& r.den == t.den
            &&& r.den <= r.num <= 100 * r.den
            &&& t.den <= want <= 100 * t.den ==> r.num == want
            &&& want < t.den ==> r.num == t.den
            &&& want > 100 * t.den ==> r.num == 100 * t.den
        }),
{
}

} // verus!
