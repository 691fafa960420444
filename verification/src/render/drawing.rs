//! What is to be painted, as lists of drawing steps.
//!
//! A step is one call on a vector graphics context. Coordinates are exact; `PARTS` says to which
//! part of a pixel the icons are drawn.

use crate::render::color;
use crate::render::color::Color;
use crate::render::geometry;
use crate::render::geometry::{Area, Rect};
use crate::render::ratio;
use crate::render::ratio::Ratio;
use vstd::prelude::*;

verus! {

/// How lines end.
#[derive(Debug, Clone, Copy, PartialEq, Eq, Structural)]
pub enum Cap {
    Round,
    Butt,
}

/// How lines meet.
#[derive(Debug, Clone, Copy, PartialEq, Eq, Structural)]
pub enum Join {
    Round,
    Miter,
}

/// One step of a drawing.
#[derive(Debug, Clone, Copy, PartialEq, Eq)]
pub enum DrawOp {
    /// Remember the state of the context.
    Save,
    /// Return to the state remembered last.
    Restore,
    /// Move the origin by whole pixels.
    Translate { dx: i64, dy: i64 },
    /// Cover everything with the screenshot.
    Screenshot,
    /// Paint with a color; `alpha` is in hundredths.
    Source { color: Color, alpha: i128 },
    LineWidth { width: Ratio },
    LineCap { cap: Cap },
    LineJoin { join: Join },
    /// Dashes and gaps of one length.
    Dash { len: Ratio },
    /// Lines without gaps.
    Solid,
    /// Start another part of the path.
    SubPath,
    MoveTo { x: Ratio, y: Ratio },
    LineTo { x: Ratio, y: Ratio },
    CurveTo { x1: Ratio, y1: Ratio, x2: Ratio, y2: Ratio, x: Ratio, y: Ratio },
    Rectangle { x: Ratio, y: Ratio, w: Ratio, h: Ratio },
    /// An arc around (`x`, `y`); the angles are in turns, and `extra` hundredths of a radian are
    /// added to the second.
    Arc { x: Ratio, y: Ratio, r: Ratio, start: Ratio, stop: Ratio, extra: i128 },
    ClosePath,
    Fill,
    FillPreserve,
    Stroke,
    /// Fill with white that fades out from (`x`, `y`) to the distance `r`.
    FillFade { x: Ratio, y: Ratio, r: Ratio },
    /// Fill with the frosted glass, which is enlarged by `block`.
    FillGlass { block: i32 },
    /// An arrow whose head has sides of the given length.
    Arrow { from: (i32, i32), to: (i32, i32), head: Ratio },
    /// A number of px, written out in the middle of a rectangle.
    LabelInBox { value: i32, font: Ratio, x: Ratio, y: Ratio, w: Ratio, h: Ratio },
    /// A number of px, written out in the middle from 0 to `w`, on the base line `y`.
    LabelOnLine { value: i32, font: Ratio, w: Ratio, y: Ratio },
}

/// One list of steps after another.
pub(crate) fn joined(first: Vec<DrawOp>, second: Vec<DrawOp>) -> (r: Vec<DrawOp>)
    ensures
        r@ == first@ + second@,
{
    let mut r: Vec<DrawOp> = first;
    let mut rest: Vec<DrawOp> = second;
    r.append(&mut rest);
    r
}

/// A source color from hundredths.
pub open spec fn source(red: int, green: int, blue: int, alpha: int) -> DrawOp {
    DrawOp::Source { color: color::mix(red, green, blue), alpha: alpha as i128 }
}

pub(crate) fn source_op(red: i128, green: i128, blue: i128, alpha: i128) -> (r: DrawOp)
    ensures
        r == source(red as int, green as int, blue as int, alpha as int),
{
    DrawOp::Source { color: color::mix_color(red, green, blue), alpha }
}

/// A point of the path in ten-thousandths of a pixel.
pub open spec fn move_to(x: int, y: int) -> DrawOp {
    DrawOp::MoveTo { x: ratio::part(x), y: ratio::part(y) }
}

pub(crate) fn move_op(x: i128, y: i128) -> (r: DrawOp)
    ensures
        r == move_to(x as int, y as int),
{
    DrawOp::MoveTo { x: ratio::part_len(x), y: ratio::part_len(y) }
}

pub open spec fn line_to(x: int, y: int) -> DrawOp {
    DrawOp::LineTo { x: ratio::part(x), y: ratio::part(y) }
}

pub(crate) fn line_op(x: i128, y: i128) -> (r: DrawOp)
    ensures
        r == line_to(x as int, y as int),
{
    DrawOp::LineTo { x: ratio::part_len(x), y: ratio::part_len(y) }
}

pub open spec fn curve_to(x1: int, y1: int, x2: int, y2: int, x: int, y: int) -> DrawOp {
    DrawOp::CurveTo {
        x1: ratio::part(x1),
        y1: ratio::part(y1),
        x2: ratio::part(x2),
        y2: ratio::part(y2),
        x: ratio::part(x),
        y: ratio::part(y),
    }
}

pub(crate) fn curve_op(x1: i128, y1: i128, x2: i128, y2: i128, x: i128, y: i128) -> (r: DrawOp)
    ensures
        r == curve_to(x1 as int, y1 as int, x2 as int, y2 as int, x as int, y as int),
{
    DrawOp::CurveTo {
        x1: ratio::part_len(x1),
        y1: ratio::part_len(y1),
        x2: ratio::part_len(x2),
        y2: ratio::part_len(y2),
        x: ratio::part_len(x),
        y: ratio::part_len(y),
    }
}

/// The path of a rectangle of whole pixels.
pub open spec fn rectangle(area: Area) -> DrawOp {
    DrawOp::Rectangle {
        x: ratio::px(area.x),
        y: ratio::px(area.y),
        w: ratio::px(area.w),
        h: ratio::px(area.h),
    }
}

pub(crate) fn rectangle_op(rect: Rect) -> (r: DrawOp)
    ensures
        r == rectangle(rect@),
{
    DrawOp::Rectangle {
        x: ratio::px_len(rect.x),
        y: ratio::px_len(rect.y),
        w: ratio::px_len(rect.w),
        h: ratio::px_len(rect.h),
    }
}

/// The path of a rectangle that may reach beyond what a `Rect` holds.
pub(crate) fn wide_rectangle_op(x: i128, y: i128, w: i128, h: i128) -> (r: DrawOp)
    ensures
        r == rectangle(Area { x: x as int, y: y as int, w: w as int, h: h as int }),
{
    DrawOp::Rectangle {
        x: Ratio { num: x, den: 1 },
        y: Ratio { num: y, den: 1 },
        w: Ratio { num: w, den: 1 },
        h: Ratio { num: h, den: 1 },
    }
}

/// A point of the path at a whole pixel.
pub open spec fn move_px(p: (i32, i32)) -> DrawOp {
    DrawOp::MoveTo { x: ratio::px(p.0 as int), y: ratio::px(p.1 as int) }
}

pub(crate) fn move_px_op(p: (i32, i32)) -> (r: DrawOp)
    ensures
        r == move_px(p),
{
    DrawOp::MoveTo { x: ratio::px_len(p.0), y: ratio::px_len(p.1) }
}

pub open spec fn line_px(p: (i32, i32)) -> DrawOp {
    DrawOp::LineTo { x: ratio::px(p.0 as int), y: ratio::px(p.1 as int) }
}

pub(crate) fn line_px_op(p: (i32, i32)) -> (r: DrawOp)
    ensures
        r == line_px(p),
{
    DrawOp::LineTo { x: ratio::px_len(p.0), y: ratio::px_len(p.1) }
}

/// A number of turns.
pub open spec fn turn(num: int, den: int) -> Ratio {
    Ratio { num: num as i128, den: den as i128 }
}

/// The path of a full circle.
pub open spec fn circle(x: Ratio, y: Ratio, r: Ratio) -> DrawOp {
    DrawOp::Arc { x, y, r, start: turn(0, 1), stop: turn(1, 1), extra: 0 }
}

pub(crate) fn circle_op(x: Ratio, y: Ratio, r: Ratio) -> (op: DrawOp)
    ensures
        op == circle(x, y, r),
{
    DrawOp::Arc { x, y, r, start: Ratio { num: 0, den: 1 }, stop: Ratio { num: 1, den: 1 }, extra: 0 }
}

/// A quarter of a circle, `q` quarters on from the positive x axis.
pub open spec fn quarter(x: int, y: int, r: int, den: int, q: int) -> DrawOp {
    DrawOp::Arc {
        x: Ratio { num: x as i128, den: den as i128 },
        y: Ratio { num: y as i128, den: den as i128 },
        r: Ratio { num: r as i128, den: den as i128 },
        start: turn(q, 4),
        stop: turn(q + 1, 4),
        extra: 0,
    }
}

pub(crate) fn quarter_op(x: i128, y: i128, r: i128, den: i128, q: i128) -> (op: DrawOp)
    requires
        q < 4,
    ensures
        op == quarter(x as int, y as int, r as int, den as int, q as int),
{
    DrawOp::Arc {
        x: Ratio { num: x, den },
        y: Ratio { num: y, den },
        r: Ratio { num: r, den },
        start: Ratio { num: q, den: 4 },
        stop: Ratio { num: q + 1, den: 4 },
        extra: 0,
    }
}

/// The path of a rectangle with round corners. All lengths are in parts of `1 / den`; the radius
/// is cut to half of the shorter side.
pub open spec fn rounded(x: int, y: int, w: int, h: int, r: int, den: int) -> Seq<DrawOp> {
    // The radius in parts of half the size.
    let c = geometry::min(geometry::min(2 * r, w), h);
    let right = 2 * x + 2 * w - c;
    let left = 2 * x + c;
    let top = 2 * y + c;
    let bottom = 2 * y + 2 * h - c;
    seq![
        DrawOp::SubPath,
        quarter(right, top, c, 2 * den, -1),
        quarter(right, bottom, c, 2 * den, 0),
        quarter(left, bottom, c, 2 * den, 1),
        quarter(left, top, c, 2 * den, 2),
        DrawOp::ClosePath,
    ]
}

/// A number small enough for a few more multiplications and additions.
pub open spec fn tame(v: int) -> bool {
    -0x1000_0000_0000_0000_0000_0000_0000 <= v <= 0x1000_0000_0000_0000_0000_0000_0000
}

pub(crate) fn rounded_rect(x: i128, y: i128, w: i128, h: i128, r: i128, den: i128) -> (ops: Vec<DrawOp>)
    requires
        tame(x as int),
        tame(y as int),
        tame(w as int),
        tame(h as int),
        tame(r as int),
        tame(den as int),
    ensures
        ops@ == rounded(x as int, y as int, w as int, h as int, r as int, den as int),
{
    let a: i128 = if 2 * r <= w {
        2 * r
    } else {
        w
    };
    let c: i128 = if a <= h {
        a
    } else {
        h
    };
    let right: i128 = 2 * x + 2 * w - c;
    let left: i128 = 2 * x + c;
    let top: i128 = 2 * y + c;
    let bottom: i128 = 2 * y + 2 * h - c;
    let ops: Vec<DrawOp> = vec![
        DrawOp::SubPath,
        quarter_op(right, top, c, 2 * den, -1),
        quarter_op(right, bottom, c, 2 * den, 0),
        quarter_op(left, bottom, c, 2 * den, 1),
        quarter_op(left, top, c, 2 * den, 2),
        DrawOp::ClosePath,
    ];
    assert(ops@ =~= rounded(x as int, y as int, w as int, h as int, r as int, den as int));
    ops
}

/// The step is a quarter of a circle, from `q` quarters on, around a center that lies the radius
/// away from the lines `x = vertical` and `y = horizontal`, on the side that `right` and `down` say.
/// The lengths are in parts of `1 / den`, and the radius is half of `c`.
pub open spec fn rounds(
    op: DrawOp,
    vertical: int,
    horizontal: int,
    right: bool,
    down: bool,
    c: int,
    den: int,
    q: int,
) -> bool {
    op matches DrawOp::Arc { x, y, r, start, stop, extra } && {
        &&& x.den == 2 * den && y.den == 2 * den && r.den == 2 * den && r.num == c
        &&& x.num == 2 * vertical + if right { c } else { -c }
        &&& y.num == 2 * horizontal + if down { c } else { -c }
        &&& start.num == q && start.den == 4 && stop.num == q + 1 && stop.den == 4 && extra == 0
    }
}

/// The path of a rectangle with round corners touches all four edges of the rectangle. It goes
/// round the corners from the upper right one on, and its radius is as asked for unless a side is
/// too short.
pub proof fn law_rounded_touches_its_edges(x: int, y: int, w: int, h: int, r: int, den: int)
    requires
        tame(x),
        tame(y),
        tame(w),
        tame(h),
        tame(r),
        tame(den),
    ensures
        ({
            let ops = rounded(x, y, w, h, r, den);
            let c = (ops[1]->Arc_r).num;
            &&& ops.len() == 6
            &&& ops[0] == DrawOp::SubPath && ops[5] == DrawOp::ClosePath
            &&& c <= 2 * r && c <= w && c <= h && (c == 2 * r || c == w || c == h)
            &&& rounds(ops[1], x + w, y, false, true, c as int, den, -1)
            &&& rounds(ops[2], x + w, y + h, false, false, c as int, den, 0)
            &&& rounds(ops[3], x, y + h, true, false, c as int, den, 1)
            &&& rounds(ops[4], x, y, true, true, c as int, den, 2)
        }),
{
}

} // verus!
