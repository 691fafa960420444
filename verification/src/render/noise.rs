//! The pseudo-random noise that is laid over a blurred image.

use crate::render::geometry;
use crate::render::raster;
use vstd::prelude::*;

verus! {

/// Small non-cryptographic xorshift generator.
#[derive(Debug, Clone, Copy, PartialEq, Eq, Structural)]
pub struct Xorshift(pub u64);

/// The state that follows `x`, which is also the number drawn.
pub open spec fn step(x: u64) -> u64 {
    let a = x ^ (x << 13);
    let b = a ^ (a >> 7);
    b ^ (b << 17)
}

/// The state after `n` draws.
pub open spec fn steps(x: u64, n: nat) -> u64
    decreases n,
{
    if n == 0 {
        x
    } else {
        step(steps(x, (n - 1) as nat))
    }
}

/// The draw `x` as an integer in `-mag..=mag`.
pub open spec fn spread(x: u64, mag: int) -> int {
    x as int % (2 * mag + 1) - mag
}

/// The seed that is taken where the system gives neither random numbers nor the time.
pub const FALLBACK_SEED: u64 = 0x9e37_79b9_7f4a_7c15;

/// The seed: a random number of the system, or else the time, or else a fixed number.
pub open spec fn seed_of(random: Option<u64>, nanos: Option<u64>) -> u64 {
    match random {
        Some(s) => s,
        None => match nanos {
            Some(t) => t,
            None => FALLBACK_SEED,
        },
    }
}

impl Xorshift {
    /// A generator seeded from the system, so the noise differs every run and can't be subtracted
    /// back out: by a random number, or by the time in ns where there is none.
    pub fn from_entropy(random: Option<u64>, nanos: Option<u64>) -> (r: Xorshift)
        ensures
            r.0 == seed_of(random, nanos) | 1,
            r.0 != 0,
    {
        let seed: u64 = match random {
            Some(s) => s,
            None => match nanos {
                Some(t) => t,
                None => FALLBACK_SEED,
            },
        };
        Xorshift::from_seed(seed)
    }

    /// A generator for a seed. The lowest bit is set, so the state is never zero.
    pub fn from_seed(seed: u64) -> (r: Xorshift)
        ensures
            r.0 == seed | 1,
            r.0 != 0,
    {
        assert(seed | 1 != 0) by (bit_vector);
        Xorshift(seed | 1)
    }

    pub fn next_u64(&mut self) -> (r: u64)
        ensures
            r == step(old(self).0),
            final(self).0 == r,
    {
        let mut x: u64 = self.0;
        x = x ^ (x << 13);
        x = x ^ (x >> 7);
        x = x ^ (x << 17);
        self.0 = x;
        x
    }

    /// Integer in [-mag, mag], uniform as far as that many values can share the states evenly: see
    /// `law_range_is_even`.
    pub fn next_range(&mut self, mag: i32) -> (r: i32)
        requires
            0 <= 2 * mag + 1 <= i32::MAX,
        ensures
            r == spread(step(old(self).0), mag as int),
            -mag <= r <= mag,
            final(self).0 == step(old(self).0),
    {
        let span: u64 = (mag * 2 + 1) as u64;
        (self.next_u64() % span) as i32 - mag
    }
}

/// A generator that starts away from zero never reaches it, and so never gets stuck.
pub proof fn law_never_zero(x: u64, n: nat)
    requires
        x != 0,
    ensures
        steps(x, n) != 0,
    decreases n,
{
    if n > 0 {
        law_never_zero(x, (n - 1) as nat);
        let y = steps(x, (n - 1) as nat);
        assert(y != 0 ==> y ^ (y << 13) != 0) by (bit_vector);
        let a = y ^ (y << 13);
        assert(a != 0 ==> a ^ (a >> 7) != 0) by (bit_vector);
        let b = a ^ (a >> 7);
        assert(b != 0 ==> b ^ (b << 17) != 0) by (bit_vector);
    }
}

/// The state before `y`.
pub open spec fn unstep(y: u64) -> u64 {
    let b = y ^ (y << 17) ^ (y << 34) ^ (y << 51);
    let a = b ^ (b >> 7) ^ (b >> 14) ^ (b >> 21) ^ (b >> 28) ^ (b >> 35) ^ (b >> 42) ^ (b >> 49) ^ (
    b >> 56) ^ (b >> 63);
    a ^ (a << 13) ^ (a << 26) ^ (a << 39) ^ (a << 52)
}

/// Every state has exactly one state before it, and zero is the one before zero.
pub proof fn law_step_is_a_bijection(x: u64)
    ensures
        unstep(step(x)) == x,
        step(unstep(x)) == x,
        step(x) == 0 <==> x == 0,
        unstep(x) == 0 <==> x == 0,
{
    assert(unstep(step(x)) == x) by (bit_vector);
    assert(step(unstep(x)) == x) by (bit_vector);
    assert(step(0) == 0) by (bit_vector);
    assert(unstep(0) == 0) by (bit_vector);
}

/// The states, zero aside, from which the next draw in `-mag..=mag` is `v`.
pub open spec fn states_for(v: int, mag: int) -> Set<u64> {
    Set::new(|x: u64| x != 0 && spread(step(x), mag) == v)
}

proof fn lemma_states_finite(v: int, mag: int)
    ensures
        states_for(v, mag).finite(),
{
    broadcast use vstd::set_lib::full_set_properties;

    vstd::set_lib::lemma_set_subset_finite(Set::<u64>::full(), states_for(v, mag));
}

/// The draw `y` of the value `v`, moved by `w - v`, is no draw.
spec fn falls_out(y: u64, v: int, w: int) -> bool {
    !(0 < y + (w - v) <= u64::MAX)
}

/// A state for `v` whose draw falls out.
spec fn is_odd(x: u64, v: int, w: int, mag: int) -> bool {
    states_for(v, mag).contains(x) && falls_out(step(x), v, w)
}

/// One draw at most falls out.
proof fn lemma_one_falls_out(y: u64, z: u64, v: int, w: int, mag: int)
    requires
        0 <= mag,
        -mag <= v <= mag,
        -mag <= w <= mag,
        y != 0,
        z != 0,
        spread(y, mag) == v,
        spread(z, mag) == v,
        falls_out(y, v, w),
        falls_out(z, v, w),
    ensures
        y == z,
{
    let n: int = 2 * mag + 1;
    let (p, q): (int, int) = (y as int / n, z as int / n);
    vstd::arithmetic::div_mod::lemma_fundamental_div_mod(y as int, n);
    vstd::arithmetic::div_mod::lemma_fundamental_div_mod(z as int, n);
    assert(-n < n * p - n * q < n);
    assert(p == q) by (nonlinear_arith)
        requires
            -n < n * p - n * q < n,
            0 < n,
    ;
}

/// A draw of the value `v` that does not fall out becomes one of `w`.
proof fn lemma_moved_draw(y: u64, v: int, w: int, mag: int)
    requires
        0 <= mag,
        -mag <= v <= mag,
        -mag <= w <= mag,
        spread(y, mag) == v,
        !falls_out(y, v, w),
    ensures
        spread((y + (w - v)) as u64, mag) == w,
{
    let n: int = 2 * mag + 1;
    let p: int = y as int / n;
    vstd::arithmetic::div_mod::lemma_fundamental_div_mod(y as int, n);
    assert(n * p == p * n) by (nonlinear_arith);
    vstd::arithmetic::div_mod::lemma_fundamental_div_mod_converse(
        y + (w - v),
        n,
        p,
        w + mag,
    );
}

proof fn lemma_hardly_more(v: int, w: int, mag: int)
    requires
        0 <= mag,
        -mag <= v <= mag,
        -mag <= w <= mag,
    ensures
        states_for(v, mag).len() <= states_for(w, mag).len() + 1,
{
    let (from, to) = (states_for(v, mag), states_for(w, mag));
    lemma_states_finite(v, mag);
    lemma_states_finite(w, mag);
    let f = |x: u64| unstep((step(x) + (w - v)) as u64);
    let odd = choose|x: u64| is_odd(x, v, w, mag);
    let kept = if exists|x: u64| is_odd(x, v, w, mag) {
        from.remove(odd)
    } else {
        from
    };
    assert forall|x: u64| kept.contains(x) implies from.contains(x) && !falls_out(step(x), v, w) by {
        if falls_out(step(x), v, w) {
            assert(is_odd(x, v, w, mag));
            assert(is_odd(odd, v, w, mag));
            law_step_is_a_bijection(x);
            law_step_is_a_bijection(odd);
            lemma_one_falls_out(step(x), step(odd), v, w, mag);
        }
    }
    assert forall|x: u64| kept.contains(x) implies to.contains(#[trigger] f(x)) && step(f(x)) == step(
        x,
    ) + (w - v) by {
        let y = (step(x) + (w - v)) as u64;
        lemma_moved_draw(step(x), v, w, mag);
        law_step_is_a_bijection(y);
    }
    assert forall|x: u64, z: u64| kept.contains(x) && kept.contains(z) && #[trigger] f(x)
        == #[trigger] f(z) implies x == z by {
        law_step_is_a_bijection(x);
        law_step_is_a_bijection(z);
    }
    assert(vstd::relations::injective_on(f, kept));
    vstd::set_lib::lemma_map_size(kept, kept.map(f), f);
    assert(kept.map(f).subset_of(to));
    vstd::set_lib::lemma_len_subset(kept.map(f), to);
}

/// Over the states, zero aside, a draw in `-mag..=mag` is as even as it can be: every value comes
/// from some state, and no value from over one state more than another.
pub proof fn law_range_is_even(v: int, w: int, mag: int)
    requires
        0 <= mag,
        2 * mag + 1 <= i32::MAX,
        -mag <= v <= mag,
        -mag <= w <= mag,
    ensures
        states_for(v, mag).finite(),
        states_for(w, mag).finite(),
        exists|x: u64| x != 0 && spread(#[trigger] step(x), mag) == v,
        states_for(v, mag).len() > 0,
        states_for(v, mag).len() <= states_for(w, mag).len() + 1,
        states_for(w, mag).len() <= states_for(v, mag).len() + 1,
{
    lemma_states_finite(v, mag);
    lemma_states_finite(w, mag);
    lemma_hardly_more(v, w, mag);
    lemma_hardly_more(w, v, mag);
    let n: int = 2 * mag + 1;
    let y: u64 = (if v + mag > 0 {
        v + mag
    } else {
        n
    }) as u64;
    if v + mag > 0 {
        vstd::arithmetic::div_mod::lemma_fundamental_div_mod_converse(y as int, n, 0, v + mag);
    } else {
        vstd::arithmetic::div_mod::lemma_fundamental_div_mod_converse(y as int, n, 1, 0);
    }
    law_step_is_a_bijection(y);
    let x = unstep(y);
    assert(spread(step(x), mag) == v);
    assert(states_for(v, mag).contains(x));
    if states_for(v, mag).len() == 0 {
        vstd::set_lib::lemma_len_subset(set![x], states_for(v, mag));
        assert(set![x].len() == 1);
    }
}

/// Draws compose: one draw is one step, and `a + b` draws are `a` draws and then `b` draws.
pub proof fn law_draws_compose(x: u64, a: nat, b: nat)
    ensures
        steps(x, 0) == x,
        steps(x, 1) == step(x),
        steps(x, a + b) == steps(steps(x, a), b),
    decreases b,
{
    assert(steps(x, 1) == step(steps(x, 0)));
    if b > 0 {
        law_draws_compose(x, a, (b - 1) as nat);
        assert((a + b - 1) as nat == a + (b - 1) as nat);
    }
}

/// The step is linear over the bits: the step of an exclusive or is that of the steps.
pub proof fn law_step_is_linear(x: u64, y: u64)
    ensures
        step(x ^ y) == step(x) ^ step(y),
{
    assert(step(x ^ y) == step(x) ^ step(y)) by (bit_vector);
}

/// The `k`-th draw as noise.
pub open spec fn noise_at(seed: u64, k: int, mag: int) -> int {
    spread(steps(seed, (k + 1) as nat), mag)
}

/// Which draw goes to byte `p`: three for each pixel, row by row.
pub open spec fn draw_of(p: int, w: int, stride: int) -> int {
    (raster::row(p, stride) * w + raster::column(p, stride)) * 3 + raster::channel(p, stride)
}

/// The value `v` with noise, kept in the range of a byte.
pub open spec fn jittered(v: u8, noise: int) -> u8 {
    geometry::clamp(v + noise, 0, 255) as u8
}

/// The image with noise on its three color channels.
pub open spec fn noised(
    data: Seq<u8>,
    w: int,
    h: int,
    stride: int,
    seed: u64,
    mag: int,
) -> Seq<u8> {
    Seq::new(
        data.len(),
        |p: int|
            if raster::in_image(p, w, h, stride) && raster::channel(p, stride) < 3 {
                jittered(data[p], noise_at(seed, draw_of(p, w, stride), mag))
            } else {
                data[p]
            },
    )
}

/// Noise moves a byte by `mag` at most, and leaves alpha and the bytes between the rows alone.
pub proof fn law_noise_is_light(
    data: Seq<u8>,
    w: int,
    h: int,
    stride: int,
    seed: u64,
    mag: int,
    p: int,
)
    requires
        0 <= p < data.len(),
        0 <= mag,
    ensures
        data[p] - mag <= noised(data, w, h, stride, seed, mag)[p] <= data[p] + mag,
        !raster::in_image(p, w, h, stride) || raster::channel(p, stride) >= 3 ==> noised(
            data,
            w,
            h,
            stride,
            seed,
            mag,
        )[p] == data[p],
{
    let x = steps(seed, (draw_of(p, w, stride) + 1) as nat);
    vstd::arithmetic::div_mod::lemma_mod_bound(x as int, 2 * mag + 1);
}

/// The bytes that got their noise in the first `k` draws.
spec fn partly_noised(
    data: Seq<u8>,
    w: int,
    h: int,
    stride: int,
    seed: u64,
    mag: int,
    k: int,
) -> Seq<u8> {
    Seq::new(
        data.len(),
        |p: int|
            if raster::in_image(p, w, h, stride) && raster::channel(p, stride) < 3 && draw_of(
                p,
                w,
                stride,
            ) < k {
                jittered(data[p], noise_at(seed, draw_of(p, w, stride), mag))
            } else {
                data[p]
            },
    )
}

proof fn lemma_draw_is_unique(p: int, w: int, h: int, stride: int, y: int, x: int, c: int)
    requires
        0 <= y,
        0 <= x < w,
        0 <= c < 3,
        4 * w <= stride,
        raster::in_image(p, w, h, stride),
        raster::channel(p, stride) < 3,
        draw_of(p, w, stride) == (y * w + x) * 3 + c,
    ensures
        p == y * stride + x * 4 + c,
{
    raster::lemma_cell(p, stride);
    let row: int = raster::row(p, stride);
    let col: int = raster::column(p, stride);
    assert(row * w + col == y * w + x && raster::channel(p, stride) == c);
    vstd::arithmetic::div_mod::lemma_fundamental_div_mod_converse(row * w + col, w, row, col);
    vstd::arithmetic::div_mod::lemma_fundamental_div_mod_converse(y * w + x, w, y, x);
}

/// Adds noise of up to `mag` to every color value of the image. Little-endian ARGB32 is B, G, R,
/// A; regions are opaque, so alpha is left alone.
pub fn add_noise(data: &mut [u8], w: i32, h: i32, stride: usize, mag: i32, rng: &mut Xorshift)
    requires
        0 <= w,
        0 <= h,
        raster::image_fits(old(data)@.len(), w as int, h as int, stride as int),
        0 <= mag,
        2 * mag + 1 <= i32::MAX,
        255 + mag <= i32::MAX,
    ensures
        final(data)@ == noised(
            old(data)@,
            w as int,
            h as int,
            stride as int,
            old(rng).0,
            mag as int,
        ),
        final(rng).0 == steps(old(rng).0, (w * h * 3) as nat),
{
    let len: usize = data.len();
    let ghost (gw, gh, gs, gm) = (w as int, h as int, stride as int, mag as int);
    let ghost seed = rng.0;
    let mut y: i32 = 0;
    proof {
        assert forall|p: int| 0 <= p < data@.len() && raster::in_image(p, gw, gh, gs) implies draw_of(
            p,
            gw,
            gs,
        ) >= 0 by {
            lemma_draw_range(p, gw, gh, gs);
        }
        assert(data@ =~= partly_noised(old(data)@, gw, gh, gs, seed, gm, 0));
    }
    while y < h
        invariant
            0 <= w,
            0 <= y <= h,
            len == old(data)@.len(),
            gw == w,
            gh == h,
            gs == stride,
            gm == mag,
            seed == old(rng).0,
            raster::image_fits(len as nat, gw, gh, gs),
            0 <= mag,
            2 * mag + 1 <= i32::MAX,
            255 + mag <= i32::MAX,
            y * gw >= 0,
            rng.0 == steps(seed, (y * gw * 3) as nat),
            data@ == partly_noised(old(data)@, gw, gh, gs, seed, gm, y * gw * 3),
        decreases h - y,
    {
        proof {
            raster::lemma_row_inside(len as nat, gw, gh, gs, y as int);
        }
        let row: usize = y as usize * stride;
        let mut x: i32 = 0;
        while x < w
            invariant
                0 <= x <= w,
                0 <= y < h,
                len == old(data)@.len(),
                gw == w,
                gh == h,
                gs == stride,
                gm == mag,
                seed == old(rng).0,
                raster::image_fits(len as nat, gw, gh, gs),
                0 <= mag,
                2 * mag + 1 <= i32::MAX,
                255 + mag <= i32::MAX,
                y * gw >= 0,
                row == y * gs,
                row + 4 * gw <= len,
                rng.0 == steps(seed, ((y * gw + x) * 3) as nat),
                data@ == partly_noised(old(data)@, gw, gh, gs, seed, gm, (y * gw + x) * 3),
            decreases w - x,
        {
            let mut c: usize = 0;
            while c < 3
                invariant
                    0 <= c <= 3,
                    0 <= x < w,
                    0 <= y < h,
                    len == old(data)@.len(),
                    gw == w,
                    gh == h,
                    gs == stride,
                    gm == mag,
                    seed == old(rng).0,
                    raster::image_fits(len as nat, gw, gh, gs),
                    0 <= mag,
                    2 * mag + 1 <= i32::MAX,
                    255 + mag <= i32::MAX,
                    y * gw >= 0,
                    row == y * gs,
                    row + 4 * gw <= len,
                    rng.0 == steps(seed, ((y * gw + x) * 3 + c) as nat),
                    data@ == partly_noised(
                        old(data)@,
                        gw,
                        gh,
                        gs,
                        seed,
                        gm,
                        (y * gw + x) * 3 + c,
                    ),
                decreases 3 - c,
            {
                let at: usize = row + x as usize * 4 + c;
                let ghost before = data@;
                let ghost k: int = (y * gw + x) * 3 + c;
                let noise: i32 = rng.next_range(mag);
                let v: i32 = geometry::clamp_i32(data[at] as i32 + noise, 0, 255);
                proof {
                    raster::lemma_pixel(y as int, x as int, c as int, gs);
                    assert(draw_of(at as int, gw, gs) == k);
                    assert(before[at as int] == old(data)@[at as int]);
                    assert(steps(seed, (k + 1) as nat) == step(steps(seed, k as nat)));
                }
                data[at] = v as u8;
                proof {
                    let after = partly_noised(old(data)@, gw, gh, gs, seed, gm, k + 1);
                    assert forall|p: int| 0 <= p < data@.len() implies data@[p] == after[p] by {
                        if p != at && raster::in_image(p, gw, gh, gs) && raster::channel(p, gs) < 3
                            && draw_of(p, gw, gs) == k {
                            lemma_draw_is_unique(p, gw, gh, gs, y as int, x as int, c as int);
                        }
                        assert(p != at ==> data@[p] == before[p]);
                    }
                    assert(data@ =~= after);
                }
                c = c + 1;
            }
            x = x + 1;
        }
        proof {
            assert((y + 1) * gw == y * gw + gw) by (nonlinear_arith);
        }
        y = y + 1;
    }
    proof {
        assert forall|p: int| 0 <= p < data@.len() && raster::in_image(p, gw, gh, gs)
            && raster::channel(p, gs) < 3 implies draw_of(p, gw, gs) < gh * gw * 3 by {
            lemma_draw_range(p, gw, gh, gs);
        }
        assert(data@ =~= noised(old(data)@, gw, gh, gs, seed, gm));
        assert(gh * gw == gw * gh) by (nonlinear_arith);
    }
}

proof fn lemma_draw_range(p: int, w: int, h: int, stride: int)
    requires
        0 <= w,
        4 * w <= stride,
        raster::in_image(p, w, h, stride),
    ensures
        0 <= draw_of(p, w, stride),
        raster::channel(p, stride) < 3 ==> draw_of(p, w, stride) < h * w * 3,
{
    raster::lemma_cell(p, stride);
    let row: int = raster::row(p, stride);
    assert(0 <= row * w && row * w + w <= h * w) by (nonlinear_arith)
        requires
            0 <= row < h,
            0 <= w,
    ;
}

/// A color value is moved by its own draw, three for each pixel, row by row, and stays in the range
/// of a byte; the draws are spread evenly around zero.
pub proof fn law_every_color_value_has_its_draw(
    data: Seq<u8>,
    w: int,
    h: int,
    stride: int,
    seed: u64,
    mag: int,
    x: int,
    y: int,
    c: int,
)
    requires
        0 <= x < w,
        0 <= y < h,
        0 <= c < 3,
        0 <= mag,
        4 * w <= stride,
        (h - 1) * stride + 4 * w <= data.len(),
    ensures
        0 <= y * stride + 4 * x + c < data.len(),
        ({
            let p = y * stride + 4 * x + c;
            let draw = steps(seed, (3 * (y * w + x) + c + 1) as nat) as int;
            let moved = data[p] + draw % (2 * mag + 1) - mag;
            noised(data, w, h, stride, seed, mag)[p] == if moved < 0 {
                0
            } else if moved > 255 {
                255
            } else {
                moved
            }
        }),
{
    let p: int = y * stride + 4 * x + c;
    raster::lemma_row_inside(data.len(), w, h, stride, y);
    raster::lemma_pixel(y, x, c, stride);
    assert(p == y * stride + c + x * 4);
    assert(draw_of(p, w, stride) == 3 * (y * w + x) + c);
}

/// A random number of the system is taken before the time, and the time before a fixed number.
pub proof fn law_seed(random: u64, nanos: u64, time: Option<u64>)
    ensures
        seed_of(Some(random), time) == random,
        seed_of(None, Some(nanos)) == nanos,
        seed_of(None, None) == 0x9e37_79b9_7f4a_7c15,
{
}

} // verus!
