//! Where the pixels of an image stand in a buffer of bytes.
//!
//! A row takes `stride` bytes, of which the first `4 * w` hold pixels of four bytes each.

use vstd::arithmetic::div_mod::{lemma_fundamental_div_mod, lemma_fundamental_div_mod_converse};
use vstd::prelude::*;

verus! {

/// The row of byte `p`.
pub open spec fn row(p: int, stride: int) -> int {
    p / stride
}

/// The column of the pixel that byte `p` belongs to.
pub open spec fn column(p: int, stride: int) -> int {
    p % stride / 4
}

/// The place of byte `p` in its pixel.
pub open spec fn channel(p: int, stride: int) -> int {
    p % stride % 4
}

/// Byte `p` belongs to a pixel of the image.
pub open spec fn in_image(p: int, w: int, h: int, stride: int) -> bool {
    0 <= p && 0 < stride && row(p, stride) < h && p % stride < 4 * w
}

/// A buffer of `len` bytes holds `h` rows of `w` pixels.
pub open spec fn image_fits(len: nat, w: int, h: int, stride: int) -> bool {
    &&& 4 * w <= stride
    &&& h > 0 ==> (h - 1) * stride + 4 * w <= len
}

pub proof fn lemma_row_inside(len: nat, w: int, h: int, stride: int, y: int)
    requires
        image_fits(len, w, h, stride),
        0 <= w,
        0 <= y < h,
    ensures
        0 <= y * stride,
        y * stride + 4 * w <= len,
{
    assert(0 <= y * stride <= (h - 1) * stride) by (nonlinear_arith)
        requires
            0 <= y <= h - 1,
            0 <= stride,
    ;
}

/// A byte is found from its row, column and channel.
pub proof fn lemma_cell(p: int, stride: int)
    requires
        0 <= p,
        0 < stride,
    ensures
        p == row(p, stride) * stride + column(p, stride) * 4 + channel(p, stride),
        0 <= row(p, stride),
        0 <= column(p, stride),
        0 <= channel(p, stride) < 4,
        p % stride == column(p, stride) * 4 + channel(p, stride),
        0 <= p % stride < stride,
{
    lemma_fundamental_div_mod(p, stride);
    vstd::arithmetic::div_mod::lemma_mod_bound(p, stride);
    vstd::arithmetic::div_mod::lemma_div_pos_is_pos(p, stride);
    assert(stride * (p / stride) == (p / stride) * stride) by (nonlinear_arith);
}

/// The byte at channel `c` of the pixel at (`x`, `y`) has that row, column and channel.
pub proof fn lemma_pixel(y: int, x: int, c: int, stride: int)
    requires
        0 <= x,
        0 <= c < 4,
        4 * x + c < stride,
    ensures
        row(y * stride + c + x * 4, stride) == y,
        column(y * stride + c + x * 4, stride) == x,
        channel(y * stride + c + x * 4, stride) == c,
        (y * stride + c + x * 4) % stride == 4 * x + c,
{
    let p: int = y * stride + c + x * 4;
    assert(p == y * stride + (4 * x + c));
    lemma_fundamental_div_mod_converse(p, stride, y, 4 * x + c);
}

} // verus!
