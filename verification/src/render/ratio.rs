//! Exact ratios, and lengths in device pixels.

use crate::render::geometry::Scale;
use vstd::prelude::*;

verus! {

/// The number `num / den`.
#[derive(Debug, Clone, Copy, PartialEq, Eq, Structural)]
pub struct Ratio {
    pub num: i128,
    pub den: i128,
}

impl Ratio {
    pub open spec fn wf(self) -> bool {
        self.den > 0
    }

    /// Both numbers have 64 bits.
    pub open spec fn moderate(self) -> bool {
        i64::MIN <= self.num <= i64::MAX && 0 < self.den <= i64::MAX
    }

    /// The ratio is at most `other`.
    pub open spec fn le(self, other: Ratio) -> bool {
        self.num * other.den <= other.num * self.den
    }

    /// The greater of two ratios.
    pub open spec fn greater(self, other: Ratio) -> Ratio {
        if self.le(other) {
            other
        } else {
            self
        }
    }

    /// The greater of two ratios.
    pub fn at_least(self, other: Ratio) -> (r: Ratio)
        requires
            self.moderate(),
            other.moderate(),
        ensures
            r == self.greater(other),
            r.wf(),
    {
        proof {
            lemma_product(self.num as int, other.den as int);
            lemma_product(other.num as int, self.den as int);
        }
        if self.num * other.den <= other.num * self.den {
            other
        } else {
            self
        }
    }
}

proof fn lemma_product(a: int, b: int)
    by (nonlinear_arith)
    requires
        -0x8000_0000_0000_0000 <= a <= 0x7fff_ffff_ffff_ffff,
        0 < b <= 0x7fff_ffff_ffff_ffff,
    ensures
        -0x4000_0000_0000_0000_0000_0000_0000_0000 <= a * b
            <= 0x4000_0000_0000_0000_0000_0000_0000_0000,
{
}

/// `v` whole pixels.
pub open spec fn px(v: int) -> Ratio {
    Ratio { num: v as i128, den: 1 }
}

pub fn px_len(v: i32) -> (r: Ratio)
    ensures
        r == px(v as int),
        r.wf(),
{
    Ratio { num: v as i128, den: 1 }
}

/// How many parts of a pixel the icons are drawn to.
pub const PARTS: i128 = 10_000;

/// `v` ten-thousandths of a pixel.
pub open spec fn part(v: int) -> Ratio {
    Ratio { num: v as i128, den: PARTS }
}

pub fn part_len(v: i128) -> (r: Ratio)
    ensures
        r == part(v as int),
        r.wf(),
{
    Ratio { num: v, den: PARTS }
}

/// `v` logical pixels, not rounded.
pub open spec fn logical(scale: Scale, v: int) -> Ratio {
    Ratio { num: (v * scale.num) as i128, den: scale.den as i128 }
}

pub fn logical_len(scale: Scale, v: i32) -> (r: Ratio)
    requires
        scale.wf(),
    ensures
        r == logical(scale, v as int),
        r.wf(),
{
    proof {
        let a: int = v as int;
        let b: int = scale.num as int;
        assert(-0x8000_0000 * 0xffff_ffff <= a * b <= 0x7fff_ffff * 0xffff_ffff) by (nonlinear_arith)
            requires
                -0x8000_0000 <= a <= 0x7fff_ffff,
                0 <= b <= 0xffff_ffff,
        ;
    }
    Ratio { num: v as i128 * scale.num as i128, den: scale.den as i128 }
}

} // verus!
