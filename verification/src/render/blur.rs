//! The frosted-glass blur: stacked box blurs over a BGRA buffer.

use crate::render::geometry;
use crate::render::noise;
use crate::render::raster;
use vstd::prelude::*;

verus! {

/// The sum of the values at the places `lo..hi` of a line of `n` bytes, which starts at `base`
/// and takes every `step`-th byte. Places before the line repeat its first byte, places behind
/// it its last.
pub open spec fn line_sum(src: Seq<u8>, base: int, step: int, n: int, lo: int, hi: int) -> int
    decreases hi - lo,
{
    if hi <= lo {
        0
    } else {
        line_sum(src, base, step, n, lo, hi - 1) + src[base + geometry::clamp(hi - 1, 0, n - 1)
            * step]
    }
}

/// The mean, rounded down, over the window that reaches `r` places to either side of place `i`.
pub open spec fn mean(src: Seq<u8>, base: int, step: int, n: int, i: int, r: int) -> int {
    line_sum(src, base, step, n, i - r, i + r + 1) / (2 * r + 1)
}

/// Sums of a window this wide, and one byte more, stay in 32 bits.
pub open spec fn window_fits(n: int, r: int) -> bool {
    &&& 0 <= r
    &&& n + r <= i32::MAX
    &&& 255 * (2 * r + 2) <= u32::MAX
}

proof fn lemma_line_bounds(src: Seq<u8>, base: int, step: int, n: int, lo: int, hi: int)
    requires
        lo <= hi,
    ensures
        0 <= line_sum(src, base, step, n, lo, hi) <= 255 * (hi - lo),
    decreases hi - lo,
{
    if lo < hi {
        lemma_line_bounds(src, base, step, n, lo, hi - 1);
    }
}

proof fn lemma_line_first(src: Seq<u8>, base: int, step: int, n: int, lo: int, hi: int)
    requires
        lo < hi,
    ensures
        line_sum(src, base, step, n, lo, hi) == src[base + geometry::clamp(lo, 0, n - 1) * step]
            + line_sum(src, base, step, n, lo + 1, hi),
    decreases hi - lo,
{
    if lo + 1 < hi {
        lemma_line_first(src, base, step, n, lo, hi - 1);
    } else {
        assert(line_sum(src, base, step, n, lo, hi - 1) == 0);
        assert(line_sum(src, base, step, n, lo + 1, hi) == 0);
    }
}

/// Blurs one channel of one row or column. A running sum slides along the line: once the first
/// window is summed, each place costs the same whatever the radius.
fn blur_line(src: &[u8], dst: &mut [u8], base: usize, step: usize, n: i32, r: i32)
    requires
        n >= 1,
        step >= 1,
        window_fits(n as int, r as int),
        base + (n - 1) * step < src@.len(),
        base + (n - 1) * step < old(dst)@.len(),
    ensures
        final(dst)@.len() == old(dst)@.len(),
        forall|i: int|
            0 <= i < n ==> #[trigger] final(dst)@[base + i * step] == mean(
                src@,
                base as int,
                step as int,
                n as int,
                i,
                r as int,
            ),
        forall|p: int|
            0 <= p < old(dst)@.len() && (forall|i: int|
                0 <= i < n ==> p != #[trigger] (base + i * step)) ==> #[trigger] final(dst)@[p]
                == old(dst)@[p],
{
    let len: usize = src.len();
    let win: u32 = (2 * r + 1) as u32;
    let mut sum: u32 = 0;
    let mut k: i32 = -r;
    while k <= r
        invariant
            n >= 1,
            window_fits(n as int, r as int),
            base + (n - 1) * step < len == src@.len(),
            -r <= k <= r + 1,
            sum == line_sum(src@, base as int, step as int, n as int, -r as int, k as int),
        decreases r + 1 - k,
    {
        let at: i32 = geometry::clamp_i32(k, 0, n - 1);
        proof {
            lemma_line_bounds(src@, base as int, step as int, n as int, -r as int, k as int);
            assert(0 <= at * step <= (n - 1) * step) by (nonlinear_arith)
                requires
                    0 <= at <= n - 1,
                    0 <= step,
            ;
        }
        sum = sum + src[base + at as usize * step] as u32;
        k = k + 1;
    }
    let mut x: i32 = 0;
    while x < n
        invariant
            n >= 1,
            step >= 1,
            window_fits(n as int, r as int),
            win == 2 * r + 1,
            base + (n - 1) * step < len == src@.len(),
            base + (n - 1) * step < old(dst)@.len(),
            dst@.len() == old(dst)@.len(),
            0 <= x <= n,
            sum == line_sum(src@, base as int, step as int, n as int, x - r, x + r + 1),
            forall|i: int|
                0 <= i < x ==> #[trigger] dst@[base + i * step] == mean(
                    src@,
                    base as int,
                    step as int,
                    n as int,
                    i,
                    r as int,
                ),
            forall|p: int|
                0 <= p < old(dst)@.len() && (forall|i: int|
                    0 <= i < x ==> p != #[trigger] (base + i * step)) ==> #[trigger] dst@[p] == old(
                    dst,
                )@[p],
        decreases n - x,
    {
        let x_out: i32 = geometry::clamp_i32(x - r, 0, n - 1);
        let x_in: i32 = geometry::clamp_i32(x + r + 1, 0, n - 1);
        let ghost before = dst@;
        proof {
            lemma_line_bounds(src@, base as int, step as int, n as int, x - r, x + r + 1);
            lemma_line_first(src@, base as int, step as int, n as int, x - r, x + r + 1);
            lemma_line_bounds(src@, base as int, step as int, n as int, x - r + 1, x + r + 1);
            assert(0 <= x * step <= (n - 1) * step) by (nonlinear_arith)
                requires
                    0 <= x <= n - 1,
                    0 <= step,
            ;
            assert(0 <= x_out * step <= (n - 1) * step) by (nonlinear_arith)
                requires
                    0 <= x_out <= n - 1,
                    0 <= step,
            ;
            assert(0 <= x_in * step <= (n - 1) * step) by (nonlinear_arith)
                requires
                    0 <= x_in <= n - 1,
                    0 <= step,
            ;
            let s: int = sum as int;
            let w: int = win as int;
            assert(0 <= s / w <= 255) by (nonlinear_arith)
                requires
                    0 <= s <= 255 * w,
                    w > 0,
            ;
        }
        dst[base + x as usize * step] = (sum / win) as u8;
        sum = sum + src[base + x_in as usize * step] as u32 - src[base + x_out as usize * step]
            as u32;
        proof {
            assert forall|i: int| 0 <= i < x + 1 implies #[trigger] dst@[base + i * step] == mean(
                src@,
                base as int,
                step as int,
                n as int,
                i,
                r as int,
            ) by {
                if i < x {
                    assert(0 <= i * step < x * step) by (nonlinear_arith)
                        requires
                            0 <= i < x,
                            1 <= step,
                    ;
                    assert(dst@[base + i * step] == before[base + i * step]);
                }
            }
            assert forall|p: int|
                0 <= p < old(dst)@.len() && (forall|i: int|
                    0 <= i < x + 1 ==> p != #[trigger] (base + i * step)) implies #[trigger] dst@[p]
                == old(dst)@[p] by {
                assert(p != base + x * step);
                assert(before[p] == old(dst)@[p]);
            }
        }
        x = x + 1;
    }
}

/// What the horizontal pass leaves at byte `p` of the image.
pub open spec fn row_mean(src: Seq<u8>, p: int, w: int, stride: int, r: int) -> u8 {
    let c = raster::channel(p, stride);
    if c == 3 {
        src[p]
    } else {
        mean(
            src,
            raster::row(p, stride) * stride + c,
            4,
            w,
            raster::column(p, stride),
            r,
        ) as u8
    }
}

/// What the vertical pass leaves at byte `p` of the image.
pub open spec fn column_mean(src: Seq<u8>, p: int, h: int, stride: int, r: int) -> u8 {
    let c = raster::channel(p, stride);
    if c == 3 {
        src[p]
    } else {
        mean(
            src,
            raster::column(p, stride) * 4 + c,
            stride,
            h,
            raster::row(p, stride),
            r,
        ) as u8
    }
}

/// The horizontal pass: every color channel becomes the mean along its row, alpha is copied, and
/// the bytes between the rows keep what `dst` had there.
pub open spec fn pass_h(
    src: Seq<u8>,
    dst: Seq<u8>,
    w: int,
    h: int,
    stride: int,
    r: int,
) -> Seq<u8> {
    Seq::new(
        dst.len(),
        |p: int|
            if raster::in_image(p, w, h, stride) {
                row_mean(src, p, w, stride, r)
            } else {
                dst[p]
            },
    )
}

/// The vertical pass, likewise along the columns.
pub open spec fn pass_v(
    src: Seq<u8>,
    dst: Seq<u8>,
    w: int,
    h: int,
    stride: int,
    r: int,
) -> Seq<u8> {
    Seq::new(
        dst.len(),
        |p: int|
            if raster::in_image(p, w, h, stride) {
                column_mean(src, p, h, stride, r)
            } else {
                dst[p]
            },
    )
}

/// Both buffers hold the image.
pub open spec fn both_fit(src: nat, dst: nat, w: int, h: int, stride: int) -> bool {
    &&& w >= 1
    &&& h >= 1
    &&& raster::image_fits(src, w, h, stride)
    &&& raster::image_fits(dst, w, h, stride)
}

/// One horizontal box blur of radius `r` over the BGRA buffer. Alpha is preserved; edges are
/// clamped.
pub fn box_blur_h(src: &[u8], dst: &mut [u8], w: i32, h: i32, stride: usize, r: i32)
    requires
        h == 0 || both_fit(src@.len(), old(dst)@.len(), w as int, h as int, stride as int),
        h == 0 || window_fits(w as int, r as int),
    ensures
        final(dst)@ == if h == 0 {
            old(dst)@
        } else {
            pass_h(src@, old(dst)@, w as int, h as int, stride as int, r as int)
        },
{
    if h == 0 {
        return ;
    }
    let len: usize = src.len();
    let ghost (gw, gh, gs, gr) = (w as int, h as int, stride as int, r as int);
    let mut y: i32 = 0;
    while y < h
        invariant
            w >= 1,
            0 <= y <= h,
            len == src@.len(),
            gw == w,
            gh == h,
            gs == stride,
            gr == r,
            both_fit(src@.len(), old(dst)@.len(), gw, gh, gs),
            window_fits(gw, gr),
            dst@.len() == old(dst)@.len(),
            forall|p: int|
                0 <= p < dst@.len() ==> #[trigger] dst@[p] == if raster::in_image(p, gw, gh, gs)
                    && raster::row(p, gs) < y {
                    row_mean(src@, p, gw, gs, gr)
                } else {
                    old(dst)@[p]
                },
        decreases h - y,
    {
        proof {
            raster::lemma_row_inside(src@.len(), gw, gh, gs, y as int);
            raster::lemma_row_inside(old(dst)@.len(), gw, gh, gs, y as int);
        }
        let row: usize = y as usize * stride;
        let mut c: usize = 0;
        while c < 3
            invariant
                w >= 1,
                0 <= y < h,
                0 <= c <= 3,
                row == y * gs,
                len == src@.len(),
                gw == w,
                gh == h,
                gs == stride,
                gr == r,
                row + 4 * gw <= src@.len(),
                row + 4 * gw <= old(dst)@.len(),
                both_fit(src@.len(), old(dst)@.len(), gw, gh, gs),
                window_fits(gw, gr),
                dst@.len() == old(dst)@.len(),
                forall|p: int|
                    0 <= p < dst@.len() ==> #[trigger] dst@[p] == if raster::in_image(
                        p,
                        gw,
                        gh,
                        gs,
                    ) && (raster::row(p, gs) < y || raster::row(p, gs) == y && raster::channel(p, gs)
                        < c) {
                        row_mean(src@, p, gw, gs, gr)
                    } else {
                        old(dst)@[p]
                    },
            decreases 3 - c,
        {
            let ghost before = dst@;
            blur_line(src, dst, row + c, 4, w, r);
            proof {
                assert forall|p: int| 0 <= p < dst@.len() implies #[trigger] dst@[p] == if raster::in_image(
                    p,
                    gw,
                    gh,
                    gs,
                ) && (raster::row(p, gs) < y || raster::row(p, gs) == y && raster::channel(p, gs)
                    < c + 1) {
                    row_mean(src@, p, gw, gs, gr)
                } else {
                    old(dst)@[p]
                } by {
                    raster::lemma_cell(p, gs);
                    if raster::in_image(p, gw, gh, gs) && raster::row(p, gs) == y
                        && raster::channel(p, gs) == c {
                        let i: int = raster::column(p, gs);
                        assert(p == row + c + i * 4);
                        assert(dst@[row + c + i * 4] == mean(
                            src@,
                            row + c,
                            4,
                            gw,
                            i,
                            gr,
                        ));
                    } else {
                        assert forall|i: int| 0 <= i < w implies p != #[trigger] (row + c + i * 4) by {
                            raster::lemma_pixel(y as int, i, c as int, gs);
                        }
                        assert(dst@[p] == before[p]);
                    }
                }
            }
            c = c + 1;
        }
        let mut x: usize = 0;
        while x < w as usize
            invariant
                w >= 1,
                0 <= y < h,
                0 <= x <= w,
                row == y * gs,
                len == src@.len(),
                gw == w,
                gh == h,
                gs == stride,
                gr == r,
                row + 4 * gw <= src@.len(),
                row + 4 * gw <= old(dst)@.len(),
                both_fit(src@.len(), old(dst)@.len(), gw, gh, gs),
                window_fits(gw, gr),
                dst@.len() == old(dst)@.len(),
                forall|p: int|
                    0 <= p < dst@.len() ==> #[trigger] dst@[p] == if raster::in_image(
                        p,
                        gw,
                        gh,
                        gs,
                    ) && (raster::row(p, gs) < y || raster::row(p, gs) == y && (raster::channel(
                        p,
                        gs,
                    ) < 3 || raster::column(p, gs) < x)) {
                        row_mean(src@, p, gw, gs, gr)
                    } else {
                        old(dst)@[p]
                    },
            decreases w - x,
        {
            let ghost before = dst@;
            dst[row + x * 4 + 3] = src[row + x * 4 + 3];
            proof {
                raster::lemma_pixel(y as int, x as int, 3, gs);
                assert forall|p: int| 0 <= p < dst@.len() implies #[trigger] dst@[p] == if raster::in_image(
                    p,
                    gw,
                    gh,
                    gs,
                ) && (raster::row(p, gs) < y || raster::row(p, gs) == y && (raster::channel(p, gs)
                    < 3 || raster::column(p, gs) < x + 1)) {
                    row_mean(src@, p, gw, gs, gr)
                } else {
                    old(dst)@[p]
                } by {
                    raster::lemma_cell(p, gs);
                    if p != row + x * 4 + 3 {
                        assert(dst@[p] == before[p]);
                    }
                }
            }
            x = x + 1;
        }
        proof {
            assert forall|p: int| 0 <= p < dst@.len() implies #[trigger] dst@[p] == if raster::in_image(
                p,
                gw,
                gh,
                gs,
            ) && raster::row(p, gs) < y + 1 {
                row_mean(src@, p, gw, gs, gr)
            } else {
                old(dst)@[p]
            } by {
                raster::lemma_cell(p, gs);
            }
        }
        y = y + 1;
    }
    assert(dst@ =~= pass_h(src@, old(dst)@, gw, gh, gs, gr));
}

/// One vertical box blur of radius `r` over the BGRA buffer. Alpha is preserved; edges are
/// clamped.
pub fn box_blur_v(src: &[u8], dst: &mut [u8], w: i32, h: i32, stride: usize, r: i32)
    requires
        w == 0 || both_fit(src@.len(), old(dst)@.len(), w as int, h as int, stride as int),
        w == 0 || window_fits(h as int, r as int),
    ensures
        final(dst)@ == if w == 0 {
            old(dst)@
        } else {
            pass_v(src@, old(dst)@, w as int, h as int, stride as int, r as int)
        },
{
    if w == 0 {
        return ;
    }
    let len: usize = src.len();
    let ghost (gw, gh, gs, gr) = (w as int, h as int, stride as int, r as int);
    let mut x: usize = 0;
    while x < w as usize
        invariant
            0 <= x <= w,
            len == src@.len(),
            gw == w,
            gh == h,
            gs == stride,
            gr == r,
            both_fit(src@.len(), old(dst)@.len(), gw, gh, gs),
            window_fits(gh, gr),
            dst@.len() == old(dst)@.len(),
            forall|p: int|
                0 <= p < dst@.len() ==> #[trigger] dst@[p] == if raster::in_image(p, gw, gh, gs)
                    && raster::column(p, gs) < x {
                    column_mean(src@, p, gh, gs, gr)
                } else {
                    old(dst)@[p]
                },
        decreases w - x,
    {
        proof {
            raster::lemma_row_inside(src@.len(), gw, gh, gs, gh - 1);
            raster::lemma_row_inside(old(dst)@.len(), gw, gh, gs, gh - 1);
        }
        let col: usize = x * 4;
        let mut c: usize = 0;
        while c < 3
            invariant
                0 <= x < w,
                0 <= c <= 3,
                col == x * 4,
                len == src@.len(),
                gw == w,
                gh == h,
                gs == stride,
                gr == r,
                (gh - 1) * gs + 4 * gw <= src@.len(),
                (gh - 1) * gs + 4 * gw <= old(dst)@.len(),
                both_fit(src@.len(), old(dst)@.len(), gw, gh, gs),
                window_fits(gh, gr),
                dst@.len() == old(dst)@.len(),
                forall|p: int|
                    0 <= p < dst@.len() ==> #[trigger] dst@[p] == if raster::in_image(
                        p,
                        gw,
                        gh,
                        gs,
                    ) && (raster::column(p, gs) < x || raster::column(p, gs) == x
                        && raster::channel(p, gs) < c) {
                        column_mean(src@, p, gh, gs, gr)
                    } else {
                        old(dst)@[p]
                    },
            decreases 3 - c,
        {
            let ghost before = dst@;
            blur_line(src, dst, col + c, stride, h, r);
            proof {
                assert forall|p: int| 0 <= p < dst@.len() implies #[trigger] dst@[p] == if raster::in_image(
                    p,
                    gw,
                    gh,
                    gs,
                ) && (raster::column(p, gs) < x || raster::column(p, gs) == x && raster::channel(
                    p,
                    gs,
                ) < c + 1) {
                    column_mean(src@, p, gh, gs, gr)
                } else {
                    old(dst)@[p]
                } by {
                    raster::lemma_cell(p, gs);
                    if raster::in_image(p, gw, gh, gs) && raster::column(p, gs) == x
                        && raster::channel(p, gs) == c {
                        let i: int = raster::row(p, gs);
                        assert(p == col + c + i * gs);
                        assert(dst@[col + c + i * stride] == mean(src@, col + c, gs, gh, i, gr));
                    } else {
                        assert forall|i: int| 0 <= i < h implies p != #[trigger] (col + c + i * stride) by {
                            raster::lemma_pixel(i, x as int, c as int, gs);
                            assert(col + c + i * stride == i * gs + c + x * 4);
                        }
                        assert(dst@[p] == before[p]);
                    }
                }
            }
            c = c + 1;
        }
        let mut y: usize = 0;
        while y < h as usize
            invariant
                0 <= x < w,
                0 <= y <= h,
                col == x * 4,
                len == src@.len(),
                gw == w,
                gh == h,
                gs == stride,
                gr == r,
                both_fit(src@.len(), old(dst)@.len(), gw, gh, gs),
                window_fits(gh, gr),
                dst@.len() == old(dst)@.len(),
                forall|p: int|
                    0 <= p < dst@.len() ==> #[trigger] dst@[p] == if raster::in_image(
                        p,
                        gw,
                        gh,
                        gs,
                    ) && (raster::column(p, gs) < x || raster::column(p, gs) == x && (
                    raster::channel(p, gs) < 3 || raster::row(p, gs) < y)) {
                        column_mean(src@, p, gh, gs, gr)
                    } else {
                        old(dst)@[p]
                    },
            decreases h - y,
        {
            let ghost before = dst@;
            proof {
                raster::lemma_row_inside(src@.len(), gw, gh, gs, y as int);
                raster::lemma_row_inside(old(dst)@.len(), gw, gh, gs, y as int);
                raster::lemma_pixel(y as int, x as int, 3, gs);
            }
            dst[y * stride + col + 3] = src[y * stride + col + 3];
            proof {
                assert forall|p: int| 0 <= p < dst@.len() implies #[trigger] dst@[p] == if raster::in_image(
                    p,
                    gw,
                    gh,
                    gs,
                ) && (raster::column(p, gs) < x || raster::column(p, gs) == x && (raster::channel(
                    p,
                    gs,
                ) < 3 || raster::row(p, gs) < y + 1)) {
                    column_mean(src@, p, gh, gs, gr)
                } else {
                    old(dst)@[p]
                } by {
                    raster::lemma_cell(p, gs);
                    if p != y * stride + col + 3 {
                        assert(dst@[p] == before[p]);
                    }
                }
            }
            y = y + 1;
        }
        proof {
            assert forall|p: int| 0 <= p < dst@.len() implies #[trigger] dst@[p] == if raster::in_image(
                p,
                gw,
                gh,
                gs,
            ) && raster::column(p, gs) < x + 1 {
                column_mean(src@, p, gh, gs, gr)
            } else {
                old(dst)@[p]
            } by {
                raster::lemma_cell(p, gs);
            }
        }
        x = x + 1;
    }
    proof {
        assert forall|p: int| 0 <= p < dst@.len() implies #[trigger] dst@[p] == pass_v(
            src@,
            old(dst)@,
            gw,
            gh,
            gs,
            gr,
        )[p] by {
            raster::lemma_cell(p, gs);
        }
        assert(dst@ =~= pass_v(src@, old(dst)@, gw, gh, gs, gr));
    }
}

/// One box blur in both directions.
pub open spec fn blur_once(data: Seq<u8>, w: int, h: int, stride: int, r: int) -> Seq<u8> {
    pass_v(pass_h(data, data, w, h, stride, r), data, w, h, stride, r)
}

/// `passes` box blurs, one on top of the other.
pub open spec fn blurred(
    data: Seq<u8>,
    w: int,
    h: int,
    stride: int,
    r: int,
    passes: nat,
) -> Seq<u8>
    decreases passes,
{
    if passes == 0 {
        data
    } else {
        blur_once(blurred(data, w, h, stride, r, (passes - 1) as nat), w, h, stride, r)
    }
}

/// Sums along a column only read bytes of the image.
proof fn lemma_line_same(
    a: Seq<u8>,
    b: Seq<u8>,
    base: int,
    step: int,
    n: int,
    lo: int,
    hi: int,
)
    requires
        n >= 1,
        forall|i: int| 0 <= i < n ==> #[trigger] a[base + i * step] == b[base + i * step],
    ensures
        line_sum(a, base, step, n, lo, hi) == line_sum(b, base, step, n, lo, hi),
    decreases hi - lo,
{
    if lo < hi {
        lemma_line_same(a, b, base, step, n, lo, hi - 1);
        let i: int = geometry::clamp(hi - 1, 0, n - 1);
        assert(a[base + i * step] == b[base + i * step]);
    }
}

/// The vertical pass does not see what stands between the rows of its source.
proof fn lemma_pass_v_same(
    a: Seq<u8>,
    b: Seq<u8>,
    dst: Seq<u8>,
    w: int,
    h: int,
    stride: int,
    r: int,
)
    requires
        both_fit(dst.len(), dst.len(), w, h, stride),
        forall|p: int|
            0 <= p < dst.len() && raster::in_image(p, w, h, stride) ==> #[trigger] a[p] == b[p],
    ensures
        pass_v(a, dst, w, h, stride, r) == pass_v(b, dst, w, h, stride, r),
{
    assert forall|p: int|
        0 <= p < dst.len() && raster::in_image(p, w, h, stride) implies column_mean(
        a,
        p,
        h,
        stride,
        r,
    ) == column_mean(b, p, h, stride, r) by {
        raster::lemma_cell(p, stride);
        let x: int = raster::column(p, stride);
        let c: int = raster::channel(p, stride);
        let i: int = raster::row(p, stride);
        assert forall|k: int| 0 <= k < h implies #[trigger] a[x * 4 + c + k * stride] == b[x * 4 + c
            + k * stride] by {
            raster::lemma_pixel(k, x, c, stride);
            raster::lemma_row_inside(dst.len(), w, h, stride, k);
            assert(x * 4 + c + k * stride == k * stride + c + x * 4);
        }
        lemma_line_same(a, b, x * 4 + c, stride, h, i - r, i + r + 1);
    }
    assert(pass_v(a, dst, w, h, stride, r) =~= pass_v(b, dst, w, h, stride, r));
}

/// Separable box blur (`passes` iterations approximate a Gaussian) over the BGRA buffer. Alpha is
/// preserved; edges are clamped. Uses a running-sum sliding window: once the first window of a line
/// is summed, each pixel costs the same whatever the radius.
pub fn box_blur(data: &mut [u8], w: i32, h: i32, stride: usize, radius: i32, passes: u32)
    requires
        radius < 1 || passes == 0 || w == 0 && h == 0 || both_fit(
            old(data)@.len(),
            old(data)@.len(),
            w as int,
            h as int,
            stride as int,
        ) && window_fits(w as int, radius as int) && window_fits(h as int, radius as int),
    ensures
        final(data)@ == if radius < 1 || w == 0 {
            old(data)@
        } else {
            blurred(
                old(data)@,
                w as int,
                h as int,
                stride as int,
                radius as int,
                passes as nat,
            )
        },
{
    if radius < 1 {
        return ;
    }
    let ghost (gw, gh, gs, gr) = (w as int, h as int, stride as int, radius as int);
    let mut tmp: Vec<u8> = vec![0u8; data.len()];
    let mut done: u32 = 0;
    while done < passes
        invariant
            0 <= done <= passes,
            gw == w,
            gh == h,
            gs == stride,
            gr == radius,
            w == 0 && h == 0 || passes == 0 || both_fit(
                old(data)@.len(),
                old(data)@.len(),
                gw,
                gh,
                gs,
            ) && window_fits(gw, gr) && window_fits(gh, gr),
            tmp@.len() == old(data)@.len(),
            data@.len() == old(data)@.len(),
            data@ == if w == 0 {
                old(data)@
            } else {
                blurred(old(data)@, gw, gh, gs, gr, done as nat)
            },
        decreases passes - done,
    {
        let ghost from = data@;
        let ghost scratch = tmp@;
        box_blur_h(data, tmp.as_mut_slice(), w, h, stride, radius);
        let ghost rows = tmp@;
        box_blur_v(tmp.as_slice(), data, w, h, stride, radius);
        proof {
            if w != 0 {
                assert(rows == pass_h(from, scratch, gw, gh, gs, gr));
                lemma_pass_v_same(rows, pass_h(from, from, gw, gh, gs, gr), from, gw, gh, gs, gr);
            }
        }
        done = done + 1;
    }
}

proof fn lemma_line_between(
    src: Seq<u8>,
    base: int,
    step: int,
    n: int,
    lo: int,
    hi: int,
    least: int,
    most: int,
)
    requires
        n >= 1,
        lo <= hi,
        forall|i: int| 0 <= i < n ==> least <= #[trigger] src[base + i * step] <= most,
    ensures
        least * (hi - lo) <= line_sum(src, base, step, n, lo, hi) <= most * (hi - lo),
    decreases hi - lo,
{
    if lo < hi {
        lemma_line_between(src, base, step, n, lo, hi - 1, least, most);
        let i: int = geometry::clamp(hi - 1, 0, n - 1);
        assert(least <= src[base + i * step] <= most);
        assert(least * (hi - lo) == least * (hi - 1 - lo) + least) by (nonlinear_arith);
        assert(most * (hi - lo) == most * (hi - 1 - lo) + most) by (nonlinear_arith);
    } else {
        assert(least * (hi - lo) == 0 && most * (hi - lo) == 0) by (nonlinear_arith)
            requires
                hi == lo,
        ;
    }
}

proof fn lemma_mean_between(
    src: Seq<u8>,
    base: int,
    step: int,
    n: int,
    i: int,
    r: int,
    least: int,
    most: int,
)
    requires
        n >= 1,
        0 <= r,
        forall|k: int| 0 <= k < n ==> least <= #[trigger] src[base + k * step] <= most,
    ensures
        least <= mean(src, base, step, n, i, r) <= most,
{
    lemma_line_between(src, base, step, n, i - r, i + r + 1, least, most);
    let w: int = 2 * r + 1;
    let s: int = line_sum(src, base, step, n, i - r, i + r + 1);
    assert(i + r + 1 - (i - r) == w);
    assert(least <= s / w <= most) by (nonlinear_arith)
        requires
            least * w <= s <= most * w,
            w > 0,
    ;
}

/// Every byte of channel `c` lies between `least` and `most`.
pub open spec fn channel_between(
    data: Seq<u8>,
    w: int,
    h: int,
    stride: int,
    c: int,
    least: int,
    most: int,
) -> bool {
    forall|p: int|
        0 <= p < data.len() && raster::in_image(p, w, h, stride) && raster::channel(p, stride) == c
            ==> least <= #[trigger] data[p] <= most
}

proof fn lemma_once_between(
    data: Seq<u8>,
    w: int,
    h: int,
    stride: int,
    r: int,
    c: int,
    least: int,
    most: int,
)
    requires
        both_fit(data.len(), data.len(), w, h, stride),
        0 <= r,
        0 <= least,
        most <= 255,
        channel_between(data, w, h, stride, c, least, most),
    ensures
        channel_between(blur_once(data, w, h, stride, r), w, h, stride, c, least, most),
{
    let rows = pass_h(data, data, w, h, stride, r);
    assert forall|p: int|
        0 <= p < rows.len() && raster::in_image(p, w, h, stride) && raster::channel(p, stride)
            == c implies least <= #[trigger] rows[p] <= most by {
        raster::lemma_cell(p, stride);
        assert(least <= data[p] <= most);
        let y: int = raster::row(p, stride);
        if c != 3 {
            assert forall|k: int| 0 <= k < w implies least <= #[trigger] data[y * stride + c + k * 4]
                <= most by {
                raster::lemma_pixel(y, k, c, stride);
                raster::lemma_row_inside(data.len(), w, h, stride, y);
            }
            lemma_mean_between(
                data,
                y * stride + c,
                4,
                w,
                raster::column(p, stride),
                r,
                least,
                most,
            );
        }
    }
    let cols = blur_once(data, w, h, stride, r);
    assert forall|p: int|
        0 <= p < cols.len() && raster::in_image(p, w, h, stride) && raster::channel(p, stride)
            == c implies least <= #[trigger] cols[p] <= most by {
        raster::lemma_cell(p, stride);
        assert(least <= rows[p] <= most);
        let x: int = raster::column(p, stride);
        if c != 3 {
            assert forall|k: int| 0 <= k < h implies least <= #[trigger] rows[x * 4 + c + k
                * stride] <= most by {
                raster::lemma_pixel(k, x, c, stride);
                raster::lemma_row_inside(data.len(), w, h, stride, k);
                assert(x * 4 + c + k * stride == k * stride + c + x * 4);
            }
            lemma_mean_between(
                rows,
                x * 4 + c,
                stride,
                h,
                raster::row(p, stride),
                r,
                least,
                most,
            );
        }
    }
}

/// A blur brings in no value that lies outside the range that the channel had: in particular, a
/// channel that is the same everywhere stays as it is.
pub proof fn law_blur_stays_in_range(
    data: Seq<u8>,
    w: int,
    h: int,
    stride: int,
    r: int,
    passes: nat,
    c: int,
    least: int,
    most: int,
)
    requires
        both_fit(data.len(), data.len(), w, h, stride),
        0 <= r,
        0 <= least,
        most <= 255,
        channel_between(data, w, h, stride, c, least, most),
    ensures
        channel_between(blurred(data, w, h, stride, r, passes), w, h, stride, c, least, most),
    decreases passes,
{
    lemma_blur_len(data, w, h, stride, r, passes);
    if passes > 0 {
        let less: nat = (passes - 1) as nat;
        lemma_blur_len(data, w, h, stride, r, less);
        law_blur_stays_in_range(data, w, h, stride, r, less, c, least, most);
        lemma_once_between(blurred(data, w, h, stride, r, less), w, h, stride, r, c, least, most);
    }
}

proof fn lemma_blur_len(data: Seq<u8>, w: int, h: int, stride: int, r: int, passes: nat)
    ensures
        blurred(data, w, h, stride, r, passes).len() == data.len(),
    decreases passes,
{
    if passes > 0 {
        lemma_blur_len(data, w, h, stride, r, (passes - 1) as nat);
    }
}

/// A blur leaves alpha and the bytes between the rows as they were.
pub proof fn law_blur_keeps_alpha(
    data: Seq<u8>,
    w: int,
    h: int,
    stride: int,
    r: int,
    passes: nat,
    p: int,
)
    requires
        0 <= p < data.len(),
        !raster::in_image(p, w, h, stride) || raster::channel(p, stride) == 3,
    ensures
        blurred(data, w, h, stride, r, passes)[p] == data[p],
    decreases passes,
{
    lemma_blur_len(data, w, h, stride, r, passes);
    if passes > 0 {
        let less: nat = (passes - 1) as nat;
        lemma_blur_len(data, w, h, stride, r, less);
        law_blur_keeps_alpha(data, w, h, stride, r, less, p);
    }
}

/// The blur is computed on a copy shrunk by this factor (cheaper to blur, pre-softens) that is
/// bilinearly upscaled back.
pub const BLUR_DOWNSAMPLE: i32 = 2;

/// Blur radius in logical px. Larger = more obscured.
pub const BLUR_RADIUS: i32 = 6;

/// Three stacked box blurs approximate a Gaussian closely enough to look like ground glass.
pub const BLUR_PASSES: u32 = 3;

/// Light per-pixel jitter, so that the blur cannot be cleanly reversed.
pub const BLUR_NOISE: i32 = 10;

/// The size of the shrunk copy of an image: half in each direction, and never empty.
pub open spec fn shrunk(v: int) -> int {
    geometry::max(geometry::half(v), 1)
}

/// The size of the surface to blur for an image of `w` by `h` pixels.
pub fn blur_size(w: i32, h: i32) -> (r: (i32, i32))
    ensures
        r.0 == shrunk(w as int),
        r.1 == shrunk(h as int),
{
    let sw: i32 = w / BLUR_DOWNSAMPLE;
    let sh: i32 = h / BLUR_DOWNSAMPLE;
    (if sw >= 1 { sw } else { 1 }, if sh >= 1 { sh } else { 1 })
}

/// The blur radius in pixels of the shrunk copy.
pub open spec fn radius_at(scale: geometry::Scale) -> int {
    geometry::max(geometry::scaled(scale, BLUR_RADIUS as int) / 2, 1)
}

/// The blur radius is measured in full-resolution px; this is it in the shrunk copy's
/// coordinates.
pub fn blur_radius(scale: geometry::Scale) -> (r: i32)
    requires
        scale.wf(),
    ensures
        r == radius_at(scale),
{
    proof {
        geometry::lemma_scaled_monotone(scale, 0, BLUR_RADIUS as int);
    }
    let r: i32 = geometry::rnd(scale, BLUR_RADIUS) / BLUR_DOWNSAMPLE;
    if r >= 1 {
        r
    } else {
        1
    }
}

/// What the frosted-glass surface holds, from the shrunk copy and the state of the generator.
pub open spec fn frosted(
    data: Seq<u8>,
    w: int,
    h: int,
    stride: int,
    scale: geometry::Scale,
    seed: u64,
) -> Seq<u8> {
    noise::noised(
        blurred(data, w, h, stride, radius_at(scale), BLUR_PASSES as nat),
        w,
        h,
        stride,
        seed,
        BLUR_NOISE as int,
    )
}

/// The shrunk copy of a screenshot of `w` by `h` pixels stands in the buffer, and the running
/// sums of its blur fit.
pub open spec fn surface_fits(
    len: nat,
    w: int,
    h: int,
    stride: int,
    scale: geometry::Scale,
) -> bool {
    &&& raster::image_fits(len, shrunk(w), shrunk(h), stride)
    &&& window_fits(shrunk(w), radius_at(scale))
    &&& window_fits(shrunk(h), radius_at(scale))
}

/// Turns the shrunk copy of a screenshot of `w` by `h` pixels into the frosted-glass surface used
/// by the blur tool: box-blurred several times (approximately Gaussian) for a smooth ground-glass
/// look, and jittered with a little noise so the blur can't be cleanly reversed. Returns the
/// factor by which the copy was shrunk, at which the caller scales it back over the redacted
/// region.
pub fn build_blur_surface(
    data: &mut [u8],
    w: i32,
    h: i32,
    stride: usize,
    scale: geometry::Scale,
    rng: &mut noise::Xorshift,
) -> (r: i32)
    requires
        scale.wf(),
        surface_fits(old(data)@.len(), w as int, h as int, stride as int, scale),
    ensures
        final(data)@ == frosted(
            old(data)@,
            shrunk(w as int),
            shrunk(h as int),
            stride as int,
            scale,
            old(rng).0,
        ),
        final(rng).0 == noise::steps(
            old(rng).0,
            (shrunk(w as int) * shrunk(h as int) * 3) as nat,
        ),
        r == BLUR_DOWNSAMPLE,
{
    let (sw, sh): (i32, i32) = blur_size(w, h);
    let radius: i32 = blur_radius(scale);
    box_blur(data, sw, sh, stride, radius, BLUR_PASSES);
    proof {
        lemma_blur_len(
            old(data)@,
            sw as int,
            sh as int,
            stride as int,
            radius as int,
            BLUR_PASSES as nat,
        );
    }
    noise::add_noise(data, sw, sh, stride, BLUR_NOISE, rng);
    BLUR_DOWNSAMPLE
}

/// Whether the buffer can be turned into the frosted-glass surface.
pub fn can_blur(len: usize, w: i32, h: i32, stride: usize, scale: geometry::Scale) -> (r: bool)
    requires
        scale.wf(),
    ensures
        r == surface_fits(len as nat, w as int, h as int, stride as int, scale),
{
    let (sw, sh): (i32, i32) = blur_size(w, h);
    let radius: i32 = blur_radius(scale);
    let r: i64 = radius as i64;
    proof {
        let a: int = sh - 1;
        let b: int = stride as int;
        assert(0 <= a * b <= 0x7fff_ffff * 0xffff_ffff_ffff_ffff) by (nonlinear_arith)
            requires
                0 <= a <= 0x7fff_ffff,
                0 <= b <= 0xffff_ffff_ffff_ffff,
        ;
    }
    let need: u128 = (sh as u128 - 1) * stride as u128 + 4 * sw as u128;
    4 * sw as u128 <= stride as u128 && need <= len as u128 && sw as i64 + r <= 0x7fff_ffff
        && sh as i64 + r <= 0x7fff_ffff && 255 * (2 * r + 2) <= 0xffff_ffff
}

/// The frosted glass never shows a color value further than the noise from the range that the
/// screenshot had, and its alpha is the screenshot's.
pub proof fn law_frosted_stays_near(
    data: Seq<u8>,
    w: int,
    h: int,
    stride: int,
    scale: geometry::Scale,
    seed: u64,
    c: int,
    least: int,
    most: int,
    p: int,
)
    requires
        scale.wf(),
        both_fit(data.len(), data.len(), w, h, stride),
        0 <= least,
        most <= 255,
        channel_between(data, w, h, stride, c, least, most),
        0 <= p < data.len(),
        raster::in_image(p, w, h, stride),
        raster::channel(p, stride) == c,
    ensures
        least - BLUR_NOISE <= frosted(data, w, h, stride, scale, seed)[p] <= most + BLUR_NOISE,
        c == 3 ==> frosted(data, w, h, stride, scale, seed)[p] == data[p],
{
    let r: int = radius_at(scale);
    lemma_blur_len(data, w, h, stride, r, BLUR_PASSES as nat);
    law_blur_stays_in_range(data, w, h, stride, r, BLUR_PASSES as nat, c, least, most);
    let b = blurred(data, w, h, stride, r, BLUR_PASSES as nat);
    assert(least <= b[p] <= most);
    if c == 3 {
        law_blur_keeps_alpha(data, w, h, stride, r, BLUR_PASSES as nat, p);
    }
    noise::law_noise_is_light(b, w, h, stride, seed, BLUR_NOISE as int, p);
}

// --- what a blur is ----------------------------------------------------------

/// `f(0) + f(1) + ... + f(n - 1)`.
pub open spec fn total(n: nat, f: spec_fn(int) -> int) -> int {
    Seq::new(n, f).fold_left(0, |a: int, b: int| a + b)
}

proof fn lemma_total_step(n: nat, f: spec_fn(int) -> int)
    requires
        n > 0,
    ensures
        total(n, f) == total((n - 1) as nat, f) + f(n - 1),
{
    let all = Seq::new(n, f);
    assert(all.drop_last() =~= Seq::new((n - 1) as nat, f));
    assert(all.last() == f(n - 1));
}

proof fn lemma_total_same(n: nat, f: spec_fn(int) -> int, g: spec_fn(int) -> int)
    requires
        forall|j: int| 0 <= j < n ==> #[trigger] f(j) == g(j),
    ensures
        total(n, f) == total(n, g),
{
    assert(Seq::new(n, f) =~= Seq::new(n, g));
}

proof fn lemma_line_total(
    src: Seq<u8>,
    base: int,
    step: int,
    n: int,
    lo: int,
    k: nat,
    f: spec_fn(int) -> int,
)
    requires
        forall|j: int|
            0 <= j < k ==> #[trigger] f(j) == src[base + geometry::clamp(lo + j, 0, n - 1) * step],
    ensures
        total(k, f) == line_sum(src, base, step, n, lo, lo + k),
    decreases k,
{
    if k > 0 {
        let less: nat = (k - 1) as nat;
        lemma_line_total(src, base, step, n, lo, less, f);
        lemma_total_step(k, f);
        assert(f(k - 1) == src[base + geometry::clamp(lo + (k - 1), 0, n - 1) * step]);
    } else {
        assert(Seq::new(k, f) =~= Seq::empty());
    }
}

/// The place `v` of a line of `n`, or the nearer end of the line.
pub open spec fn kept_in(v: int, n: int) -> int {
    if v < 0 {
        0
    } else if v >= n {
        n - 1
    } else {
        v
    }
}

/// The horizontal pass makes every color value the mean, rounded down, of the values of its
/// channel at the `2 * r + 1` places around it in its row; beyond the ends of the row its end
/// values count. Alpha is copied.
pub proof fn law_rows_are_averaged(
    src: Seq<u8>,
    dst: Seq<u8>,
    w: int,
    h: int,
    stride: int,
    r: int,
    x: int,
    y: int,
    c: int,
)
    requires
        0 <= x < w,
        0 <= y < h,
        0 <= c < 4,
        0 <= r,
        4 * w <= stride,
        (h - 1) * stride + 4 * w <= src.len(),
        (h - 1) * stride + 4 * w <= dst.len(),
    ensures
        0 <= y * stride + 4 * x + c < dst.len(),
        c < 3 ==> pass_h(src, dst, w, h, stride, r)[y * stride + 4 * x + c] == total(
            (2 * r + 1) as nat,
            |j: int| src[y * stride + 4 * kept_in(x - r + j, w) + c] as int,
        ) / (2 * r + 1),
        c == 3 ==> pass_h(src, dst, w, h, stride, r)[y * stride + 4 * x + c] == src[y * stride + 4
            * x + c],
{
    let p: int = y * stride + 4 * x + c;
    raster::lemma_row_inside(dst.len(), w, h, stride, y);
    raster::lemma_pixel(y, x, c, stride);
    assert(p == y * stride + c + x * 4);
    if c < 3 {
        let f = |j: int| src[y * stride + 4 * kept_in(x - r + j, w) + c] as int;
        let base: int = y * stride + c;
        lemma_line_total(src, base, 4, w, x - r, (2 * r + 1) as nat, f);
        lemma_line_bounds(src, base, 4, w, x - r, x + r + 1);
        let sum: int = line_sum(src, base, 4, w, x - r, x + r + 1);
        assert(0 <= sum / (2 * r + 1) <= 255) by (nonlinear_arith)
            requires
                0 <= sum <= 255 * (2 * r + 1),
                0 <= r,
        ;
    }
}

/// The vertical pass does the same along the columns.
pub proof fn law_columns_are_averaged(
    src: Seq<u8>,
    dst: Seq<u8>,
    w: int,
    h: int,
    stride: int,
    r: int,
    x: int,
    y: int,
    c: int,
)
    requires
        0 <= x < w,
        0 <= y < h,
        0 <= c < 4,
        0 <= r,
        4 * w <= stride,
        (h - 1) * stride + 4 * w <= src.len(),
        (h - 1) * stride + 4 * w <= dst.len(),
    ensures
        0 <= y * stride + 4 * x + c < dst.len(),
        c < 3 ==> pass_v(src, dst, w, h, stride, r)[y * stride + 4 * x + c] == total(
            (2 * r + 1) as nat,
            |j: int| src[kept_in(y - r + j, h) * stride + 4 * x + c] as int,
        ) / (2 * r + 1),
        c == 3 ==> pass_v(src, dst, w, h, stride, r)[y * stride + 4 * x + c] == src[y * stride + 4
            * x + c],
{
    let p: int = y * stride + 4 * x + c;
    raster::lemma_row_inside(dst.len(), w, h, stride, y);
    raster::lemma_pixel(y, x, c, stride);
    assert(p == y * stride + c + x * 4);
    if c < 3 {
        let f = |j: int| src[kept_in(y - r + j, h) * stride + 4 * x + c] as int;
        let base: int = x * 4 + c;
        lemma_line_total(src, base, stride, h, y - r, (2 * r + 1) as nat, f);
        lemma_line_bounds(src, base, stride, h, y - r, y + r + 1);
        let sum: int = line_sum(src, base, stride, h, y - r, y + r + 1);
        assert(0 <= sum / (2 * r + 1) <= 255) by (nonlinear_arith)
            requires
                0 <= sum <= 255 * (2 * r + 1),
                0 <= r,
        ;
    }
}

/// One pass replaces every color value by the mean over the window along its row, and then by the
/// mean of these along its column.
pub proof fn law_one_pass(
    data: Seq<u8>,
    w: int,
    h: int,
    stride: int,
    r: int,
    x: int,
    y: int,
    c: int,
)
    requires
        0 <= x < w,
        0 <= y < h,
        0 <= c < 3,
        0 <= r,
        4 * w <= stride,
        (h - 1) * stride + 4 * w <= data.len(),
    ensures
        0 <= y * stride + 4 * x + c < data.len(),
        blurred(data, w, h, stride, r, 1)[y * stride + 4 * x + c] == total(
            (2 * r + 1) as nat,
            |i: int|
                total(
                    (2 * r + 1) as nat,
                    |j: int|
                        data[kept_in(y - r + i, h) * stride + 4 * kept_in(x - r + j, w) + c] as int,
                ) / (2 * r + 1),
        ) / (2 * r + 1),
{
    let rows = pass_h(data, data, w, h, stride, r);
    law_columns_are_averaged(rows, data, w, h, stride, r, x, y, c);
    assert(blurred(data, w, h, stride, r, 0) == data);
    assert(blurred(data, w, h, stride, r, 1) == pass_v(rows, data, w, h, stride, r));
    let f = |i: int| rows[kept_in(y - r + i, h) * stride + 4 * x + c] as int;
    let g = |i: int|
        total(
            (2 * r + 1) as nat,
            |j: int| data[kept_in(y - r + i, h) * stride + 4 * kept_in(x - r + j, w) + c] as int,
        ) / (2 * r + 1);
    assert forall|i: int| 0 <= i < 2 * r + 1 implies #[trigger] f(i) == g(i) by {
        law_rows_are_averaged(data, data, w, h, stride, r, x, kept_in(y - r + i, h), c);
    }
    lemma_total_same((2 * r + 1) as nat, f, g);
}

/// No pass changes nothing, and passes compose: blurring with `a + b` passes is blurring with `a`
/// passes and then with `b` passes.
pub proof fn law_passes_compose(
    data: Seq<u8>,
    w: int,
    h: int,
    stride: int,
    r: int,
    a: nat,
    b: nat,
)
    ensures
        blurred(data, w, h, stride, r, 0) == data,
        blurred(data, w, h, stride, r, a + b) == blurred(
            blurred(data, w, h, stride, r, a),
            w,
            h,
            stride,
            r,
            b,
        ),
    decreases b,
{
    if b > 0 {
        law_passes_compose(data, w, h, stride, r, a, (b - 1) as nat);
        assert((a + b - 1) as nat == a + (b - 1) as nat);
    }
}

/// The size of the shrunk copy is half of the image's, and its blur reaches three pixels per unit
/// of a whole scale.
pub proof fn law_glass_measures(v: int, n: u32)
    requires
        2 <= v,
        1 <= n,
        6 * n <= i32::MAX,
    ensures
        v - 1 <= 2 * shrunk(v) <= v,
        shrunk(1) == 1,
        shrunk(0) == 1,
        radius_at(geometry::Scale { num: n, den: 1 }) == 3 * n,
{
    geometry::law_whole_scale_is_exact(n, 6);
}

/// The frosted glass is the copy after three passes, with every color value moved by 10 at most
/// and kept in a byte: by the draw of its place, three for each pixel, row by row. Its alpha is
/// the copy's.
pub proof fn law_glass_is_blurred_thrice(
    data: Seq<u8>,
    w: int,
    h: int,
    stride: int,
    scale: geometry::Scale,
    seed: u64,
    x: int,
    y: int,
    c: int,
)
    requires
        scale.wf(),
        0 <= x < w,
        0 <= y < h,
        0 <= c < 4,
        4 * w <= stride,
        (h - 1) * stride + 4 * w <= data.len(),
    ensures
        0 <= y * stride + 4 * x + c < data.len(),
        ({
            let p = y * stride + 4 * x + c;
            let r = radius_at(scale);
            let once = blurred(data, w, h, stride, r, 1);
            let thrice = blurred(blurred(once, w, h, stride, r, 1), w, h, stride, r, 1);
            let draw = noise::steps(seed, (3 * (y * w + x) + c + 1) as nat) as int % 21 - 10;
            let moved = thrice[p] + draw;
            frosted(data, w, h, stride, scale, seed)[p] == if c == 3 {
                data[p] as int
            } else if moved < 0 {
                0
            } else if moved > 255 {
                255
            } else {
                moved
            }
        }),
{
    let p: int = y * stride + 4 * x + c;
    let r: int = radius_at(scale);
    raster::lemma_row_inside(data.len(), w, h, stride, y);
    raster::lemma_pixel(y, x, c, stride);
    assert(p == y * stride + c + x * 4);
    lemma_blur_len(data, w, h, stride, r, 3);
    law_passes_compose(data, w, h, stride, r, 1, 2);
    let once = blurred(data, w, h, stride, r, 1);
    law_passes_compose(once, w, h, stride, r, 1, 1);
    if c == 3 {
        law_blur_keeps_alpha(data, w, h, stride, r, 3, p);
    } else {
        assert(noise::draw_of(p, w, stride) == 3 * (y * w + x) + c);
    }
}

/// At every scale the blur reaches half of six logical px, rounded down, and one pixel at least.
pub proof fn law_glass_radius(scale: geometry::Scale)
    requires
        scale.wf(),
    ensures
        ({
            let (r, size) = (radius_at(scale), geometry::scaled(scale, 6));
            &&& r >= 1
            &&& size >= 2 ==> size - 1 <= 2 * r <= size
            &&& size < 2 ==> r == 1
        }),
{
    geometry::lemma_scaled_monotone(scale, 6, 6);
}

/// Any ordinary screenshot can be blurred, where its shrunk copy stands in the buffer.
pub proof fn law_ordinary_images_can_be_blurred(
    len: nat,
    w: int,
    h: int,
    stride: int,
    scale: geometry::Scale,
)
    requires
        scale.wf(),
        scale.num <= 1000 * scale.den,
        0 <= w <= 0x10_0000,
        0 <= h <= 0x10_0000,
        4 * shrunk(w) <= stride,
        shrunk(h) * stride <= len,
    ensures
        surface_fits(len, w, h, stride, scale),
{
    geometry::law_scaled_is_nearest(scale, 6);
    let (r, d, n): (int, int, int) = (
        geometry::scaled(scale, 6),
        scale.den as int,
        scale.num as int,
    );
    assert(r <= 6000) by (nonlinear_arith)
        requires
            2 * (r * d - 6 * n) <= d,
            n <= 1000 * d,
            0 < d,
    ;
    let k: int = shrunk(h);
    assert((k - 1) * stride + stride == k * stride) by (nonlinear_arith);
}

} // verus!
