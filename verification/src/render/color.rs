//! Colors: mixtures, the points of the hue wheel, and the preset swatches.

use crate::render::ratio::Ratio;
use vstd::arithmetic::div_mod::lemma_fundamental_div_mod_converse;
use vstd::prelude::*;

verus! {

/// An opaque color.
#[derive(Debug, Clone, Copy, PartialEq, Eq, Structural)]
pub enum Color {
    /// Red, green and blue as parts of `full`.
    Mix { red: i128, green: i128, blue: i128, full: i128 },
    /// The color at (`dx`, `dy`) from the center of a hue wheel: the angle is the hue, the
    /// distance in terms of the radius is the saturation, and the value is full.
    Wheel { dx: i32, dy: i32, radius: i32 },
}

/// A mixture in hundredths.
pub open spec fn mix(red: int, green: int, blue: int) -> Color {
    Color::Mix { red: red as i128, green: green as i128, blue: blue as i128, full: 100 }
}

pub fn mix_color(red: i128, green: i128, blue: i128) -> (r: Color)
    ensures
        r == mix(red as int, green as int, blue as int),
{
    Color::Mix { red, green, blue, full: 100 }
}

/// The color that annotations are first drawn in.
pub open spec fn default_color() -> Color {
    mix(90, 10, 10)
}

/// The color that highlights are first drawn in.
pub open spec fn highlight_color() -> Color {
    mix(100, 85, 10)
}

/// How many swatches stand under the color wheel.
pub const PRESET_COUNT: usize = 8;

/// The swatches from left to right.
pub open spec fn presets() -> Seq<Color> {
    seq![
        mix(90, 10, 10),
        mix(95, 55, 10),
        mix(100, 85, 10),
        mix(20, 70, 20),
        mix(20, 50, 95),
        mix(60, 30, 85),
        mix(5, 5, 5),
        mix(95, 95, 95),
    ]
}

/// Quick-access color swatches shown under the color wheel.
pub fn preset_colors() -> (r: [Color; 8])
    ensures
        r@ == presets(),
{
    let r = [
        mix_color(90, 10, 10),
        mix_color(95, 55, 10),
        mix_color(100, 85, 10),
        mix_color(20, 70, 20),
        mix_color(20, 50, 95),
        mix_color(60, 30, 85),
        mix_color(5, 5, 5),
        mix_color(95, 95, 95),
    ];
    assert(r@ =~= presets());
    r
}

/// The color of the wheel at (`dx`, `dy`) from its center; there is none outside the wheel.
pub open spec fn wheel_pick(dx: int, dy: int, radius: int) -> Option<Color> {
    if 0 <= radius && dx * dx + dy * dy <= radius * radius {
        Some(Color::Wheel { dx: dx as i32, dy: dy as i32, radius: radius as i32 })
    } else {
        None
    }
}

/// The color of the wheel at a point.
pub fn wheel_color_at(point: (i32, i32), center: (i32, i32), radius: i32) -> (r: Option<Color>)
    requires
        i32::MIN <= point.0 - center.0 <= i32::MAX,
        i32::MIN <= point.1 - center.1 <= i32::MAX,
    ensures
        r == wheel_pick(point.0 - center.0, point.1 - center.1, radius as int),
{
    let dx: i32 = point.0 - center.0;
    let dy: i32 = point.1 - center.1;
    proof {
        lemma_square(dx as int);
        lemma_square(dy as int);
        lemma_square(radius as int);
    }
    let d: i128 = dx as i128 * dx as i128 + dy as i128 * dy as i128;
    if radius < 0 || d > radius as i128 * radius as i128 {
        return None;
    }
    Some(Color::Wheel { dx, dy, radius })
}

proof fn lemma_square(v: int)
    by (nonlinear_arith)
    requires
        -0x8000_0000 <= v <= 0x7fff_ffff,
    ensures
        0 <= v * v <= 0x4000_0000_0000_0000,
{
}

/// The four values that the channels of a color are made of.
#[derive(Debug, Clone, Copy, PartialEq, Eq, Structural)]
pub enum Channel {
    /// The value itself.
    Full,
    /// The value of the weakest channel.
    Low,
    /// Falling along the sector.
    Falling,
    /// Rising along the sector.
    Rising,
}

/// Red, green and blue in each of the six sectors of the hue circle.
pub open spec fn sector(i: int) -> (Channel, Channel, Channel) {
    if i == 0 {
        (Channel::Full, Channel::Rising, Channel::Low)
    } else if i == 1 {
        (Channel::Falling, Channel::Full, Channel::Low)
    } else if i == 2 {
        (Channel::Low, Channel::Full, Channel::Rising)
    } else if i == 3 {
        (Channel::Low, Channel::Falling, Channel::Full)
    } else if i == 4 {
        (Channel::Rising, Channel::Low, Channel::Full)
    } else {
        (Channel::Full, Channel::Low, Channel::Falling)
    }
}

/// What red, green and blue are in a sector of the hue circle.
pub fn sector_channels(i: i32) -> (r: (Channel, Channel, Channel))
    ensures
        r == sector(i as int),
{
    match i {
        0 => (Channel::Full, Channel::Rising, Channel::Low),
        1 => (Channel::Falling, Channel::Full, Channel::Low),
        2 => (Channel::Low, Channel::Full, Channel::Rising),
        3 => (Channel::Low, Channel::Falling, Channel::Full),
        4 => (Channel::Rising, Channel::Low, Channel::Full),
        _ => (Channel::Full, Channel::Low, Channel::Falling),
    }
}

/// Six times the hue's place on the circle, in parts of its denominator.
pub open spec fn hue_place(h: Ratio) -> int {
    (6 * h.num) % (6 * h.den)
}

/// The sector of a hue.
pub open spec fn hue_sector(h: Ratio) -> int {
    hue_place(h) / (h.den as int)
}

/// How far into its sector a hue lies, in parts of its denominator.
pub open spec fn hue_rest(h: Ratio) -> int {
    hue_place(h) % (h.den as int)
}

/// A channel, in parts of `hsv_full`.
pub open spec fn hsv_part(c: Channel, h: Ratio, s: Ratio, v: Ratio) -> int {
    let f = hue_rest(h);
    match c {
        Channel::Full => v.num * (s.den * h.den),
        Channel::Low => v.num * (s.den * h.den - s.num * h.den),
        Channel::Falling => v.num * (s.den * h.den - s.num * f),
        Channel::Rising => v.num * (s.den * h.den - s.num * (h.den - f)),
    }
}

pub open spec fn hsv_full(h: Ratio, s: Ratio, v: Ratio) -> int {
    v.den * (s.den * h.den)
}

/// The color of a hue, a saturation and a value.
pub open spec fn hsv(h: Ratio, s: Ratio, v: Ratio) -> Color {
    let (r, g, b) = sector(hue_sector(h));
    Color::Mix {
        red: hsv_part(r, h, s, v) as i128,
        green: hsv_part(g, h, s, v) as i128,
        blue: hsv_part(b, h, s, v) as i128,
        full: hsv_full(h, s, v) as i128,
    }
}

/// The size of a number.
pub open spec fn magnitude(v: int) -> int {
    if v >= 0 {
        v
    } else {
        -v
    }
}

/// The numbers that a color is computed by are representable.
pub open spec fn hsv_fits(h: Ratio, s: Ratio, v: Ratio) -> bool {
    &&& 6 * magnitude(h.num as int) <= i128::MAX
    &&& 6 * h.den <= i128::MAX
    &&& ((s.den + magnitude(s.num as int)) * h.den) * (v.den + magnitude(v.num as int)) <= i128::MAX
}

/// Bounds of the products in a channel: `k` parts of the hue's denominator are taken away.
proof fn lemma_channel(h: Ratio, s: Ratio, v: Ratio, k: int)
    requires
        h.wf(),
        s.wf(),
        v.wf(),
        hsv_fits(h, s, v),
        0 <= k <= h.den,
    ensures
        0 < s.den * h.den <= i128::MAX,
        -i128::MAX <= s.num * k <= i128::MAX,
        -i128::MAX <= s.den * h.den - s.num * k <= i128::MAX,
        -i128::MAX <= v.num * (s.den * h.den - s.num * k) <= i128::MAX,
        0 < v.den * (s.den * h.den) <= i128::MAX,
{
    let (hd, sn, sd, vn, vd) = (
        h.den as int,
        s.num as int,
        s.den as int,
        v.num as int,
        v.den as int,
    );
    let (sm, vm) = (magnitude(sn), magnitude(vn));
    let all: int = (sd + sm) * hd;
    let (p, q): (int, int) = (sd * hd, sn * k);
    assert(all == p + sm * hd && 0 < p && 0 <= sm * hd) by (nonlinear_arith)
        requires
            all == (sd + sm) * hd,
            p == sd * hd,
            0 < sd,
            0 < hd,
            0 <= sm,
    ;
    assert(-(sm * hd) <= q <= sm * hd) by (nonlinear_arith)
        requires
            q == sn * k,
            0 <= k <= hd,
            -sm <= sn <= sm,
            0 <= sm,
    ;
    assert(all <= all * (vd + vm)) by (nonlinear_arith)
        requires
            0 < all,
            1 <= vd,
            0 <= vm,
    ;
    let d: int = p - q;
    assert(-(all * (vd + vm)) <= vn * d <= all * (vd + vm)) by (nonlinear_arith)
        requires
            -all <= d <= all,
            0 < all,
            -vm <= vn <= vm,
            0 <= vm,
            1 <= vd,
    ;
    assert(0 < vd * p <= all * (vd + vm)) by (nonlinear_arith)
        requires
            0 < p <= all,
            1 <= vd,
            0 <= vm,
    ;
}

fn hsv_channel(c: Channel, h: Ratio, s: Ratio, v: Ratio, f: i128) -> (r: i128)
    requires
        h.wf(),
        s.wf(),
        v.wf(),
        hsv_fits(h, s, v),
        f == hue_rest(h),
        0 <= f < h.den,
    ensures
        r == hsv_part(c, h, s, v),
{
    let k: i128 = match c {
        Channel::Full => 0,
        Channel::Low => h.den,
        Channel::Falling => f,
        Channel::Rising => h.den - f,
    };
    proof {
        lemma_channel(h, s, v, k as int);
        assert(s.num * 0 == 0);
    }
    v.num * (s.den * h.den - s.num * k)
}

/// The color of a hue (in turns), a saturation and a value.
pub fn hsv_to_rgb(h: Ratio, s: Ratio, v: Ratio) -> (r: Color)
    requires
        h.wf(),
        s.wf(),
        v.wf(),
        hsv_fits(h, s, v),
    ensures
        r == hsv(h, s, v),
{
    let turn: i128 = 6 * h.den;
    let n: i128 = 6 * h.num;
    let m: i128 = n % turn;
    let place: i128 = if m < 0 {
        m + turn
    } else {
        m
    };
    proof {
        let q: int = n as int / turn as int;
        vstd::arithmetic::div_mod::lemma_mod_bound(n as int, turn as int);
        vstd::arithmetic::div_mod::lemma_fundamental_div_mod(n as int, turn as int);
        if n < 0 {
            vstd::arithmetic::div_mod::lemma_mod_bound(-n as int, turn as int);
            vstd::arithmetic::div_mod::lemma_fundamental_div_mod(-n as int, turn as int);
            let t: int = (-n as int) / turn as int;
            let e: int = (-n as int) % turn as int;
            assert(-(turn * t) == turn * (-t)) by (nonlinear_arith);
            assert(turn * (-t - 1) == turn * (-t) - turn) by (nonlinear_arith);
            if e == 0 {
                lemma_fundamental_div_mod_converse(n as int, turn as int, -t, 0);
            } else {
                lemma_fundamental_div_mod_converse(n as int, turn as int, -t - 1, turn - e);
            }
        }
        assert(place == hue_place(h));
        vstd::arithmetic::div_mod::lemma_mod_bound(place as int, h.den as int);
        assert(0 <= place / h.den < 6) by (nonlinear_arith)
            requires
                0 <= place < 6 * h.den,
                0 < h.den,
        ;
    }
    let i: i128 = place / h.den;
    let f: i128 = place % h.den;
    let (cr, cg, cb): (Channel, Channel, Channel) = sector_channels(i as i32);
    proof {
        lemma_channel(h, s, v, 0);
    }
    Color::Mix {
        red: hsv_channel(cr, h, s, v, f),
        green: hsv_channel(cg, h, s, v, f),
        blue: hsv_channel(cb, h, s, v, f),
        full: v.den * (s.den * h.den),
    }
}

/// For a saturation from 0 to 1 no channel is above the value nor below what the saturation
/// leaves of it, one channel reaches each of the two, and without saturation the color is gray.
/// The value is `Full`, and what the saturation leaves of it is `Low`, both in parts of the whole.
pub proof fn law_hsv_range(c: Channel, h: Ratio, s: Ratio, v: Ratio)
    requires
        h.wf(),
        s.wf(),
        v.wf(),
        0 <= s.num <= s.den,
        0 <= v.num,
    ensures
        hsv_part(Channel::Low, h, s, v) <= hsv_part(c, h, s, v) <= hsv_part(
            Channel::Full,
            h,
            s,
            v,
        ),
        0 <= hsv_part(Channel::Low, h, s, v),
        0 < hsv_full(h, s, v),
        hsv_part(Channel::Full, h, s, v) * v.den == v.num * hsv_full(h, s, v),
        hsv_part(Channel::Low, h, s, v) * (v.den * s.den) == (v.num * (s.den - s.num)) * hsv_full(
            h,
            s,
            v,
        ),
        ({
            let (r, g, b) = sector(hue_sector(h));
            (r == Channel::Full || g == Channel::Full || b == Channel::Full) && (r == Channel::Low
                || g == Channel::Low || b == Channel::Low)
        }),
        s.num == 0 ==> hsv_part(c, h, s, v) == hsv_part(Channel::Full, h, s, v),
{
    let f: int = hue_rest(h);
    vstd::arithmetic::div_mod::lemma_mod_bound(hue_place(h), h.den as int);
    let n: int = s.num as int;
    let d: int = h.den as int;
    let whole: int = s.den * h.den;
    assert(0 <= n * f <= n * d && 0 <= n * (d - f) <= n * d && n * d <= whole) by (nonlinear_arith)
        requires
            0 <= f <= d,
            0 <= n <= s.den,
            0 < d,
            whole == s.den * d,
    ;
    assert(n == 0 ==> n * d == 0 && n * f == 0 && n * (d - f) == 0) by (nonlinear_arith);
    let vn: int = v.num as int;
    assert forall|a: int, b: int| a <= b implies vn * a <= #[trigger] (vn * b) && (0 <= a ==> 0
        <= #[trigger] (vn * a)) by {
        lemma_scaled_order(vn, a, b);
    }
    assert(vn * (whole - n * d) <= vn * (whole - n * f));
    assert(vn * (whole - n * f) <= vn * whole);
    assert(vn * (whole - n * d) <= vn * (whole - n * (d - f)));
    assert(vn * (whole - n * (d - f)) <= vn * whole);
    assert(vn * (whole - n * d) <= vn * whole);
    let (sd, vd): (int, int) = (s.den as int, v.den as int);
    assert(0 < vd * (sd * d)) by (nonlinear_arith)
        requires
            0 < vd,
            0 < sd,
            0 < d,
    ;
    assert((vn * (sd * d)) * vd == vn * (vd * (sd * d))) by (nonlinear_arith);
    assert((vn * (sd * d - n * d)) * (vd * sd) == (vn * (sd - n)) * (vd * (sd * d)))
        by (nonlinear_arith);
}

proof fn lemma_scaled_order(k: int, a: int, b: int)
    by (nonlinear_arith)
    requires
        0 <= k,
        a <= b,
    ensures
        k * a <= k * b,
        0 <= a ==> 0 <= k * a,
{
}

/// A full turn of the hue changes nothing.
pub proof fn law_hue_is_periodic(h: Ratio, turned: Ratio, s: Ratio, v: Ratio)
    requires
        h.wf(),
        turned.den == h.den,
        turned.num == h.num + h.den,
    ensures
        hsv(turned, s, v) == hsv(h, s, v),
{
    vstd::arithmetic::div_mod::lemma_mod_add_multiples_vanish(6 * h.num, 6 * h.den);
    assert(6 * turned.num == 6 * h.den + 6 * h.num);
}

/// A color can be picked at exactly those points that are no further from the center than the
/// radius, the center and the rim among them.
pub proof fn law_wheel_is_a_disc(dx: int, dy: int, radius: int)
    requires
        0 <= radius,
    ensures
        wheel_pick(dx, dy, radius) is Some <==> dx * dx + dy * dy <= radius * radius,
        wheel_pick(0, 0, radius) is Some,
        wheel_pick(radius, 0, radius) is Some,
        wheel_pick(radius + 1, 0, radius) is None,
        wheel_pick(dx, dy, radius) is Some ==> -radius <= dx <= radius && -radius <= dy <= radius,
{
    assert(0 <= radius * radius) by (nonlinear_arith);
    assert((radius + 1) * (radius + 1) == radius * radius + 2 * radius + 1) by (nonlinear_arith);
    if dx * dx + dy * dy <= radius * radius {
        assert(-radius <= dx <= radius) by (nonlinear_arith)
            requires
                dx * dx + dy * dy <= radius * radius,
                0 <= radius,
        ;
        assert(-radius <= dy <= radius) by (nonlinear_arith)
            requires
                dx * dx + dy * dy <= radius * radius,
                0 <= radius,
        ;
    }
}

/// The six pure hues, red, yellow, green, cyan, blue and magenta, and red again: whether a channel
/// is full in them. Channel 0 is red, 1 green, 2 blue.
pub open spec fn pure(channel: int, i: int) -> int {
    if channel == 0 {
        if i <= 1 || i >= 5 {
            1
        } else {
            0
        }
    } else if channel == 1 {
        if 1 <= i <= 3 {
            1
        } else {
            0
        }
    } else {
        if 3 <= i <= 5 {
            1
        } else {
            0
        }
    }
}

/// The color changes continuously and linearly with the hue between the six pure hues. At the hue
/// `(i + f / d) / 6`, and any whole number of turns away from it, the fully saturated channel is
/// `(1 - f / d)` of its value at the pure hue `i` and `f / d` of that at the next one; a saturation
/// `s` takes it that part of the way from full to there; and the value multiplies it.
pub proof fn law_hue_is_linear(h: Ratio, s: Ratio, v: Ratio, turns: int, i: int, f: int)
    requires
        h.wf(),
        s.wf(),
        v.wf(),
        hsv_fits(h, s, v),
        0 <= i < 6,
        0 <= f < h.den,
        6 * h.num == (i + 6 * turns) * h.den + f,
    ensures
        hsv(h, s, v) matches Color::Mix { red, green, blue, full } && {
            let d = h.den as int;
            let at = |c: int| pure(c, i) * (d - f) + pure(c, i + 1) * f;
            &&& full == v.den * (s.den * d)
            &&& red == v.num * (s.den * d - s.num * (d - at(0)))
            &&& green == v.num * (s.den * d - s.num * (d - at(1)))
            &&& blue == v.num * (s.den * d - s.num * (d - at(2)))
        },
{
    let d: int = h.den as int;
    let place: int = i * d + f;
    assert(6 * h.num == turns * (6 * d) + place) by (nonlinear_arith)
        requires
            6 * h.num == (i + 6 * turns) * d + f,
            place == i * d + f,
    ;
    assert(0 <= place < 6 * d) by (nonlinear_arith)
        requires
            place == i * d + f,
            0 <= i < 6,
            0 <= f < d,
    ;
    lemma_fundamental_div_mod_converse(6 * h.num, 6 * d, turns, place);
    lemma_fundamental_div_mod_converse(place, d, i, f);
    assert(hue_sector(h) == i && hue_rest(h) == f);
    lemma_channel(h, s, v, 0);
    lemma_channel(h, s, v, d);
    lemma_channel(h, s, v, f);
    lemma_channel(h, s, v, d - f);
    assert(0 * (d - f) == 0 && 1 * (d - f) == d - f && 0 * f == 0 && 1 * f == f);
    assert(s.num * 0 == 0);
}

/// The swatches under the wheel, in hundredths of red, green and blue.
pub proof fn law_presets()
    ensures
        presets().len() == 8,
        presets()[0] == (Color::Mix { red: 90, green: 10, blue: 10, full: 100 }),
        presets()[1] == (Color::Mix { red: 95, green: 55, blue: 10, full: 100 }),
        presets()[2] == (Color::Mix { red: 100, green: 85, blue: 10, full: 100 }),
        presets()[3] == (Color::Mix { red: 20, green: 70, blue: 20, full: 100 }),
        presets()[4] == (Color::Mix { red: 20, green: 50, blue: 95, full: 100 }),
        presets()[5] == (Color::Mix { red: 60, green: 30, blue: 85, full: 100 }),
        presets()[6] == (Color::Mix { red: 5, green: 5, blue: 5, full: 100 }),
        presets()[7] == (Color::Mix { red: 95, green: 95, blue: 95, full: 100 }),
        default_color() == presets()[0],
        highlight_color() == presets()[2],
{
}

/// The color that is picked from the wheel tells exactly where it was picked.
pub proof fn law_wheel_pick_is_faithful(dx: i32, dy: i32, radius: i32)
    requires
        0 <= radius,
        dx * dx + dy * dy <= radius * radius,
    ensures
        wheel_pick(dx as int, dy as int, radius as int) == Some(Color::Wheel { dx, dy, radius }),
{
}

} // verus!
