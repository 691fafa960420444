//! The icons of the toolbar's buttons.

use crate::render::color::Color;
use crate::render::drawing;
use crate::render::drawing::{Cap, DrawOp, Join};
use crate::render::geometry;
use crate::render::geometry::{Area, Rect, Scale};
use crate::render::layout;
use crate::render::ratio;
use crate::render::ratio::Ratio;
use crate::render::thickness;
use crate::render::tool::{Tool, ToolbarItem};
use vstd::prelude::*;

verus! {

/// The width of the lines of the chrome.
pub open spec fn chrome_line(scale: Scale) -> Ratio {
    ratio::logical(scale, 2).greater(Ratio { num: 3, den: 2 })
}

pub(crate) fn chrome_line_width(scale: Scale) -> (r: Ratio)
    requires
        scale.wf(),
    ensures
        r == chrome_line(scale),
        r.wf(),
{
    ratio::logical_len(scale, 2).at_least(Ratio { num: 3, den: 2 })
}

/// The left edge of an icon, in hundredths of a pixel: it keeps 28 hundredths of the button's
/// height from the button's edges.
pub open spec fn left(b: Area) -> int {
    100 * b.x + 28 * b.h
}

pub open spec fn top(b: Area) -> int {
    100 * b.y + 28 * b.h
}

pub open spec fn right(b: Area) -> int {
    100 * (b.x + b.w) - 28 * b.h
}

pub open spec fn bottom(b: Area) -> int {
    100 * (b.y + b.h) - 28 * b.h
}

pub open spec fn wide(b: Area) -> int {
    right(b) - left(b)
}

pub open spec fn tall(b: Area) -> int {
    bottom(b) - top(b)
}

/// The edges and the size of an icon, in hundredths of a pixel.
struct Inset {
    x0: i128,
    y0: i128,
    x1: i128,
    y1: i128,
    w: i128,
    h: i128,
}

impl Inset {
    spec fn of(self, b: Area) -> bool {
        &&& self.x0 == left(b)
        &&& self.y0 == top(b)
        &&& self.x1 == right(b)
        &&& self.y1 == bottom(b)
        &&& self.w == wide(b)
        &&& self.h == tall(b)
        &&& -0x100_0000_0000 <= self.x0 <= 0x100_0000_0000
        &&& -0x100_0000_0000 <= self.y0 <= 0x100_0000_0000
        &&& -0x100_0000_0000 <= self.x1 <= 0x100_0000_0000
        &&& -0x100_0000_0000 <= self.y1 <= 0x100_0000_0000
        &&& -0x100_0000_0000 <= self.w <= 0x100_0000_0000
        &&& -0x100_0000_0000 <= self.h <= 0x100_0000_0000
    }
}

fn inset(b: Rect) -> (r: Inset)
    ensures
        r.of(b@),
{
    let (x, y, w, h): (i128, i128, i128, i128) = (b.x as i128, b.y as i128, b.w as i128, b.h as i128);
    let x0: i128 = 100 * x + 28 * h;
    let y0: i128 = 100 * y + 28 * h;
    let x1: i128 = 100 * (x + w) - 28 * h;
    let y1: i128 = 100 * (y + h) - 28 * h;
    Inset { x0, y0, x1, y1, w: x1 - x0, h: y1 - y0 }
}

/// The outline of an icon.
pub open spec fn icon_frame(b: Area) -> DrawOp {
    DrawOp::Rectangle {
        x: ratio::part(100 * left(b)),
        y: ratio::part(100 * top(b)),
        w: ratio::part(100 * wide(b)),
        h: ratio::part(100 * tall(b)),
    }
}

fn icon_frame_op(b: Rect) -> (r: DrawOp)
    ensures
        r == icon_frame(b@),
{
    let i: Inset = inset(b);
    DrawOp::Rectangle {
        x: ratio::part_len(100 * i.x0),
        y: ratio::part_len(100 * i.y0),
        w: ratio::part_len(100 * i.w),
        h: ratio::part_len(100 * i.h),
    }
}

/// A dashed frame.
pub open spec fn crop_icon(b: Area, scale: Scale) -> Seq<DrawOp> {
    seq![
        DrawOp::LineCap { cap: Cap::Butt },
        DrawOp::LineJoin { join: Join::Miter },
        DrawOp::LineWidth { width: ratio::logical(scale, 1).greater(Ratio { num: 1, den: 1 }) },
        DrawOp::Dash { len: ratio::logical(scale, 2) },
        icon_frame(b),
        DrawOp::Stroke,
        DrawOp::Solid,
    ]
}

fn crop_icon_ops(b: Rect, scale: Scale) -> (r: Vec<DrawOp>)
    requires
        scale.wf(),
    ensures
        r@ == crop_icon(b@, scale),
{
    let width: Ratio = ratio::logical_len(scale, 1).at_least(Ratio { num: 1, den: 1 });
    let r: Vec<DrawOp> = vec![
        DrawOp::LineCap { cap: Cap::Butt },
        DrawOp::LineJoin { join: Join::Miter },
        DrawOp::LineWidth { width },
        DrawOp::Dash { len: ratio::logical_len(scale, 2) },
        icon_frame_op(b),
        DrawOp::Stroke,
        DrawOp::Solid,
    ];
    assert(r@ =~= crop_icon(b@, scale));
    r
}

/// A frame.
pub open spec fn rectangle_icon(b: Area) -> Seq<DrawOp> {
    seq![icon_frame(b), DrawOp::Stroke]
}

fn rectangle_icon_ops(b: Rect) -> (r: Vec<DrawOp>)
    ensures
        r@ == rectangle_icon(b@),
{
    let r: Vec<DrawOp> = vec![icon_frame_op(b), DrawOp::Stroke];
    assert(r@ =~= rectangle_icon(b@));
    r
}

/// A line from the bottom left to the top right.
pub open spec fn line_icon(b: Area) -> Seq<DrawOp> {
    seq![
        drawing::move_to(100 * left(b), 100 * bottom(b)),
        drawing::line_to(100 * right(b), 100 * top(b)),
        DrawOp::Stroke,
    ]
}

fn line_icon_ops(b: Rect) -> (r: Vec<DrawOp>)
    ensures
        r@ == line_icon(b@),
{
    let i: Inset = inset(b);
    let r: Vec<DrawOp> = vec![
        drawing::move_op(100 * i.x0, 100 * i.y1),
        drawing::line_op(100 * i.x1, 100 * i.y0),
        DrawOp::Stroke,
    ];
    assert(r@ =~= line_icon(b@));
    r
}

/// A line with a head of four tenths of its width.
pub open spec fn arrow_icon(b: Area) -> Seq<DrawOp> {
    seq![
        drawing::move_to(100 * left(b), 100 * bottom(b)),
        drawing::line_to(100 * right(b), 100 * top(b)),
        DrawOp::Stroke,
        drawing::move_to(100 * right(b) - 40 * wide(b), 100 * top(b)),
        drawing::line_to(100 * right(b), 100 * top(b)),
        drawing::line_to(100 * right(b), 100 * top(b) + 40 * wide(b)),
        DrawOp::Stroke,
    ]
}

fn arrow_icon_ops(b: Rect) -> (r: Vec<DrawOp>)
    ensures
        r@ == arrow_icon(b@),
{
    let i: Inset = inset(b);
    let r: Vec<DrawOp> = vec![
        drawing::move_op(100 * i.x0, 100 * i.y1),
        drawing::line_op(100 * i.x1, 100 * i.y0),
        DrawOp::Stroke,
        drawing::move_op(100 * i.x1 - 40 * i.w, 100 * i.y0),
        drawing::line_op(100 * i.x1, 100 * i.y0),
        drawing::line_op(100 * i.x1, 100 * i.y0 + 40 * i.w),
        DrawOp::Stroke,
    ];
    assert(r@ =~= arrow_icon(b@));
    r
}

/// A wave.
pub open spec fn freehand_icon(b: Area) -> Seq<DrawOp> {
    let (x, y, w, h) = (100 * left(b), 100 * top(b), wide(b), tall(b));
    seq![
        drawing::move_to(x, y + 70 * h),
        drawing::curve_to(x + 25 * w, y - 10 * h, x + 40 * w, y + 110 * h, x + 60 * w, y + 50 * h),
        drawing::curve_to(x + 75 * w, y + 10 * h, x + 90 * w, y + 20 * h, 100 * right(b), y + 30 * h),
        DrawOp::Stroke,
    ]
}

fn freehand_icon_ops(b: Rect) -> (r: Vec<DrawOp>)
    ensures
        r@ == freehand_icon(b@),
{
    let i: Inset = inset(b);
    let (x, y, w, h): (i128, i128, i128, i128) = (100 * i.x0, 100 * i.y0, i.w, i.h);
    let r: Vec<DrawOp> = vec![
        drawing::move_op(x, y + 70 * h),
        drawing::curve_op(x + 25 * w, y - 10 * h, x + 40 * w, y + 110 * h, x + 60 * w, y + 50 * h),
        drawing::curve_op(x + 75 * w, y + 10 * h, x + 90 * w, y + 20 * h, 100 * i.x1, y + 30 * h),
        DrawOp::Stroke,
    ];
    assert(r@ =~= freehand_icon(b@));
    r
}

/// A broad yellow line.
pub open spec fn highlight_icon(b: Area) -> Seq<DrawOp> {
    seq![
        drawing::source(100, 85, 10, 60),
        DrawOp::LineWidth { width: ratio::part(2800 * b.h) },
        drawing::move_to(100 * left(b), 100 * bottom(b)),
        drawing::line_to(100 * right(b), 100 * top(b)),
        DrawOp::Stroke,
    ]
}

fn highlight_icon_ops(b: Rect) -> (r: Vec<DrawOp>)
    ensures
        r@ == highlight_icon(b@),
{
    let i: Inset = inset(b);
    let r: Vec<DrawOp> = vec![
        drawing::source_op(100, 85, 10, 60),
        DrawOp::LineWidth { width: ratio::part_len(2800 * b.h as i128) },
        drawing::move_op(100 * i.x0, 100 * i.y1),
        drawing::line_op(100 * i.x1, 100 * i.y0),
        DrawOp::Stroke,
    ];
    assert(r@ =~= highlight_icon(b@));
    r
}

/// The radius of the dots of the blur icon.
pub open spec fn dot_radius(b: Area, scale: Scale) -> Ratio {
    ratio::part(10 * geometry::min(wide(b), tall(b))).greater(ratio::logical(scale, 1))
}

/// One dot of the blur icon.
pub open spec fn dot(b: Area, scale: Scale, ix: int, iy: int) -> DrawOp {
    drawing::circle(
        ratio::part(100 * left(b) + (20 + 30 * ix) * wide(b)),
        ratio::part(100 * top(b) + (20 + 30 * iy) * tall(b)),
        dot_radius(b, scale),
    )
}

/// Three by three dots.
pub open spec fn blur_icon(b: Area, scale: Scale) -> Seq<DrawOp> {
    seq![
        drawing::source(95, 95, 95, 100),
        dot(b, scale, 0, 0),
        DrawOp::Fill,
        dot(b, scale, 1, 0),
        DrawOp::Fill,
        dot(b, scale, 2, 0),
        DrawOp::Fill,
        dot(b, scale, 0, 1),
        DrawOp::Fill,
        dot(b, scale, 1, 1),
        DrawOp::Fill,
        dot(b, scale, 2, 1),
        DrawOp::Fill,
        dot(b, scale, 0, 2),
        DrawOp::Fill,
        dot(b, scale, 1, 2),
        DrawOp::Fill,
        dot(b, scale, 2, 2),
        DrawOp::Fill,
    ]
}

fn dot_op(b: Rect, scale: Scale, ix: i128, iy: i128) -> (r: DrawOp)
    requires
        scale.wf(),
        0 <= ix <= 2,
        0 <= iy <= 2,
    ensures
        r == dot(b@, scale, ix as int, iy as int),
{
    let i: Inset = inset(b);
    let least: i128 = if i.w <= i.h {
        i.w
    } else {
        i.h
    };
    let radius: Ratio = ratio::part_len(10 * least).at_least(ratio::logical_len(scale, 1));
    let (fx, fy): (i128, i128) = (20 + 30 * ix, 20 + 30 * iy);
    proof {
        lemma_bounded(fx as int, i.w as int);
        lemma_bounded(fy as int, i.h as int);
    }
    drawing::circle_op(
        ratio::part_len(100 * i.x0 + fx * i.w),
        ratio::part_len(100 * i.y0 + fy * i.h),
        radius,
    )
}

proof fn lemma_bounded(a: int, b: int)
    by (nonlinear_arith)
    requires
        0 <= a <= 0x1000,
        -0x100_0000_0000 <= b <= 0x100_0000_0000,
    ensures
        -0x10_0000_0000_0000 <= a * b <= 0x10_0000_0000_0000,
{
}

fn blur_icon_ops(b: Rect, scale: Scale) -> (r: Vec<DrawOp>)
    requires
        scale.wf(),
    ensures
        r@ == blur_icon(b@, scale),
{
    let r: Vec<DrawOp> = vec![
        drawing::source_op(95, 95, 95, 100),
        dot_op(b, scale, 0, 0),
        DrawOp::Fill,
        dot_op(b, scale, 1, 0),
        DrawOp::Fill,
        dot_op(b, scale, 2, 0),
        DrawOp::Fill,
        dot_op(b, scale, 0, 1),
        DrawOp::Fill,
        dot_op(b, scale, 1, 1),
        DrawOp::Fill,
        dot_op(b, scale, 2, 1),
        DrawOp::Fill,
        dot_op(b, scale, 0, 2),
        DrawOp::Fill,
        dot_op(b, scale, 1, 2),
        DrawOp::Fill,
        dot_op(b, scale, 2, 2),
        DrawOp::Fill,
    ];
    assert(r@ =~= blur_icon(b@, scale));
    r
}

/// A bin: its lid, the handle on the lid, the body, and three ribs.
pub open spec fn clear_icon(b: Area) -> Seq<DrawOp> {
    let (x0, y0, x1, y1) = (100 * left(b), 100 * top(b), 100 * right(b), 100 * bottom(b));
    let (w, h) = (wide(b), tall(b));
    let lid = y0 + 20 * h;
    let mid = 10_000 * b.x + 5_000 * b.w;
    seq![
        drawing::move_to(x0, lid),
        drawing::line_to(x1, lid),
        DrawOp::Stroke,
        drawing::move_to(mid - 16 * w, lid),
        drawing::line_to(mid - 16 * w, y0),
        drawing::line_to(mid + 16 * w, y0),
        drawing::line_to(mid + 16 * w, lid),
        DrawOp::Stroke,
        drawing::move_to(x0 + 12 * w, lid),
        drawing::line_to(x0 + 20 * w, y1),
        drawing::line_to(x1 - 20 * w, y1),
        drawing::line_to(x1 - 12 * w, lid),
        DrawOp::Stroke,
        drawing::move_to(x0 + 35 * w, lid + 12 * h),
        drawing::line_to(x0 + 35 * w, y1 - 10 * h),
        DrawOp::Stroke,
        drawing::move_to(x0 + 50 * w, lid + 12 * h),
        drawing::line_to(x0 + 50 * w, y1 - 10 * h),
        DrawOp::Stroke,
        drawing::move_to(x0 + 65 * w, lid + 12 * h),
        drawing::line_to(x0 + 65 * w, y1 - 10 * h),
        DrawOp::Stroke,
    ]
}

fn clear_icon_ops(b: Rect) -> (r: Vec<DrawOp>)
    ensures
        r@ == clear_icon(b@),
{
    let i: Inset = inset(b);
    let (x0, y0, x1, y1): (i128, i128, i128, i128) = (
        100 * i.x0,
        100 * i.y0,
        100 * i.x1,
        100 * i.y1,
    );
    let (w, h): (i128, i128) = (i.w, i.h);
    let lid: i128 = y0 + 20 * h;
    let mid: i128 = 10_000 * b.x as i128 + 5_000 * b.w as i128;
    let r: Vec<DrawOp> = vec![
        drawing::move_op(x0, lid),
        drawing::line_op(x1, lid),
        DrawOp::Stroke,
        drawing::move_op(mid - 16 * w, lid),
        drawing::line_op(mid - 16 * w, y0),
        drawing::line_op(mid + 16 * w, y0),
        drawing::line_op(mid + 16 * w, lid),
        DrawOp::Stroke,
        drawing::move_op(x0 + 12 * w, lid),
        drawing::line_op(x0 + 20 * w, y1),
        drawing::line_op(x1 - 20 * w, y1),
        drawing::line_op(x1 - 12 * w, lid),
        DrawOp::Stroke,
        drawing::move_op(x0 + 35 * w, lid + 12 * h),
        drawing::line_op(x0 + 35 * w, y1 - 10 * h),
        DrawOp::Stroke,
        drawing::move_op(x0 + 50 * w, lid + 12 * h),
        drawing::line_op(x0 + 50 * w, y1 - 10 * h),
        DrawOp::Stroke,
        drawing::move_op(x0 + 65 * w, lid + 12 * h),
        drawing::line_op(x0 + 65 * w, y1 - 10 * h),
        DrawOp::Stroke,
    ];
    assert(r@ =~= clear_icon(b@));
    r
}

/// A disc of the active color with a light rim.
pub open spec fn color_icon(b: Area, scale: Scale, active: Color) -> Seq<DrawOp> {
    seq![
        drawing::circle(
            ratio::part(10_000 * b.x + 5_000 * b.w),
            ratio::part(10_000 * b.y + 5_000 * b.h),
            ratio::part(2_200 * b.h),
        ),
        DrawOp::Source { color: active, alpha: 100 },
        DrawOp::FillPreserve,
        drawing::source(95, 95, 95, 100),
        DrawOp::LineWidth { width: chrome_line(scale) },
        DrawOp::Stroke,
    ]
}

fn color_icon_ops(b: Rect, scale: Scale, active: Color) -> (r: Vec<DrawOp>)
    requires
        scale.wf(),
    ensures
        r@ == color_icon(b@, scale, active),
{
    let r: Vec<DrawOp> = vec![
        drawing::circle_op(
            ratio::part_len(10_000 * b.x as i128 + 5_000 * b.w as i128),
            ratio::part_len(10_000 * b.y as i128 + 5_000 * b.h as i128),
            ratio::part_len(2_200 * b.h as i128),
        ),
        DrawOp::Source { color: active, alpha: 100 },
        DrawOp::FillPreserve,
        drawing::source_op(95, 95, 95, 100),
        DrawOp::LineWidth { width: chrome_line_width(scale) },
        DrawOp::Stroke,
    ];
    assert(r@ =~= color_icon(b@, scale, active));
    r
}

/// The active thickness, written out.
pub open spec fn thickness_icon(b: Area, scale: Scale, value: Ratio) -> Seq<DrawOp> {
    seq![
        drawing::source(95, 95, 95, 100),
        DrawOp::LabelInBox {
            value: thickness::shown(value) as i32,
            font: ratio::logical(scale, layout::TOOLBAR_FONT_PX as int),
            x: ratio::px(b.x),
            y: ratio::px(b.y),
            w: ratio::px(b.w),
            h: ratio::px(b.h),
        },
    ]
}

fn thickness_icon_ops(b: Rect, scale: Scale, value: Ratio) -> (r: Vec<DrawOp>)
    requires
        scale.wf(),
        value.moderate(),
    ensures
        r@ == thickness_icon(b@, scale, value),
{
    let r: Vec<DrawOp> = vec![
        drawing::source_op(95, 95, 95, 100),
        DrawOp::LabelInBox {
            value: thickness::rounded(value),
            font: ratio::logical_len(scale, layout::TOOLBAR_FONT_PX),
            x: ratio::px_len(b.x),
            y: ratio::px_len(b.y),
            w: ratio::px_len(b.w),
            h: ratio::px_len(b.h),
        },
    ];
    assert(r@ =~= thickness_icon(b@, scale, value));
    r
}

/// The icon of an item in its button.
pub open spec fn icon(
    item: ToolbarItem,
    b: Area,
    scale: Scale,
    active: Color,
    value: Ratio,
) -> Seq<DrawOp> {
    match item {
        ToolbarItem::Tool(Tool::Crop) => crop_icon(b, scale),
        ToolbarItem::Tool(Tool::Rectangle) => rectangle_icon(b),
        ToolbarItem::Tool(Tool::Line) => line_icon(b),
        ToolbarItem::Tool(Tool::Arrow) => arrow_icon(b),
        ToolbarItem::Tool(Tool::Freehand) => freehand_icon(b),
        ToolbarItem::Tool(Tool::Highlight) => highlight_icon(b),
        ToolbarItem::Tool(Tool::Blur) => blur_icon(b, scale),
        ToolbarItem::Clear => clear_icon(b),
        ToolbarItem::Color => color_icon(b, scale, active),
        ToolbarItem::Thickness => thickness_icon(b, scale, value),
    }
}

pub(crate) fn icon_ops(item: ToolbarItem, b: Rect, scale: Scale, active: Color, value: Ratio) -> (r: Vec<
    DrawOp,
>)
    requires
        scale.wf(),
        value.moderate(),
    ensures
        r@ == icon(item, b@, scale, active, value),
{
    match item {
        ToolbarItem::Tool(Tool::Crop) => crop_icon_ops(b, scale),
        ToolbarItem::Tool(Tool::Rectangle) => rectangle_icon_ops(b),
        ToolbarItem::Tool(Tool::Line) => line_icon_ops(b),
        ToolbarItem::Tool(Tool::Arrow) => arrow_icon_ops(b),
        ToolbarItem::Tool(Tool::Freehand) => freehand_icon_ops(b),
        ToolbarItem::Tool(Tool::Highlight) => highlight_icon_ops(b),
        ToolbarItem::Tool(Tool::Blur) => blur_icon_ops(b, scale),
        ToolbarItem::Clear => clear_icon_ops(b),
        ToolbarItem::Color => color_icon_ops(b, scale, active),
        ToolbarItem::Thickness => thickness_icon_ops(b, scale, value),
    }
}

// --- what the icons look like ----------------------------------------------

/// The ratio is where the fraction `part` (in ten-thousandths) of the way from `from` along `len`
/// lies.
pub open spec fn lies_at(r: Ratio, from: int, len: int, part: int) -> bool {
    r.den == 10_000 && r.num == 10_000 * from + part * len
}

/// The path goes to a point of a square button, given in ten-thousandths of its side, by a `MoveTo`
/// where `start` says so and else by a `LineTo`.
pub open spec fn goes(op: DrawOp, start: bool, b: Area, fx: int, fy: int) -> bool {
    if start {
        op matches DrawOp::MoveTo { x, y } && lies_at(x, b.x, b.h, fx) && lies_at(y, b.y, b.h, fy)
    } else {
        op matches DrawOp::LineTo { x, y } && lies_at(x, b.x, b.h, fx) && lies_at(y, b.y, b.h, fy)
    }
}

/// The path is the square from 28 to 72 hundredths of a square button.
pub open spec fn squares(op: DrawOp, b: Area) -> bool {
    op matches DrawOp::Rectangle { x, y, w, h } && {
        &&& lies_at(x, b.x, b.h, 2800) && lies_at(y, b.y, b.h, 2800)
        &&& lies_at(w, 0, b.h, 4400) && lies_at(h, 0, b.h, 4400)
    }
}

/// The ratio is the greater of `v` logical px and `num / den` px.
pub open spec fn is_greater(r: Ratio, scale: Scale, v: int, num: int, den: int) -> bool {
    &&& r.den > 0
    &&& r.num * scale.den >= v * scale.num * r.den
    &&& r.num * den >= num * r.den
    &&& r.num == v * scale.num && r.den == scale.den || r.num == num && r.den == den
}

/// The lines of the chrome are two logical px wide, and one and a half px at least.
pub proof fn law_lines_of_the_chrome(scale: Scale)
    requires
        scale.wf(),
    ensures
        is_greater(chrome_line(scale), scale, 2, 3, 2),
{
    let (n, d): (int, int) = (scale.num as int, scale.den as int);
    assert((2 * n) * d == 2 * n * d) by (nonlinear_arith);
}

/// A button whose size is representable.
pub open spec fn plain(b: Area) -> bool {
    &&& -0x8000_0000 <= b.x <= 0x7fff_ffff
    &&& -0x8000_0000 <= b.y <= 0x7fff_ffff
    &&& 0 <= b.w <= 0x7fff_ffff
    &&& 0 <= b.h <= 0x7fff_ffff
}

/// The icons of the tools that draw straight things, on a square button: a frame, dashed for the
/// crop tool; a line from the lower left to the upper right; the same with a head at its upper end;
/// and a broad one of 28 hundredths of the button for the highlighter.
pub proof fn law_straight_icons(b: Area, scale: Scale, active: Color, value: Ratio)
    requires
        scale.wf(),
        plain(b),
        b.w == b.h,
    ensures
        ({
            let of = |t: Tool| icon(ToolbarItem::Tool(t), b, scale, active, value);
            let (crop, rect, line) = (of(Tool::Crop), of(Tool::Rectangle), of(Tool::Line));
            let (arrow, light) = (of(Tool::Arrow), of(Tool::Highlight));
            &&& crop.len() == 7 && squares(crop[4], b) && crop[5] == DrawOp::Stroke
            &&& crop[0] == (DrawOp::LineCap { cap: Cap::Butt })
            &&& crop[1] == (DrawOp::LineJoin { join: Join::Miter })
            &&& crop[2] matches DrawOp::LineWidth { width } && is_greater(width, scale, 1, 1, 1)
            &&& crop[3] matches DrawOp::Dash { len } && len.num == 2 * scale.num && len.den
                == scale.den
            &&& crop[6] == DrawOp::Solid
            &&& rect.len() == 2 && squares(rect[0], b) && rect[1] == DrawOp::Stroke
            &&& line.len() == 3 && line[2] == DrawOp::Stroke
            &&& goes(line[0], true, b, 2800, 7200) && goes(line[1], false, b, 7200, 2800)
            &&& arrow.len() == 7 && arrow[2] == DrawOp::Stroke && arrow[6] == DrawOp::Stroke
            &&& goes(arrow[0], true, b, 2800, 7200) && goes(arrow[1], false, b, 7200, 2800)
            &&& goes(arrow[3], true, b, 5440, 2800) && goes(arrow[4], false, b, 7200, 2800)
            &&& goes(arrow[5], false, b, 7200, 4560)
            &&& light.len() == 5 && light[4] == DrawOp::Stroke
            &&& light[0] == (DrawOp::Source {
                color: Color::Mix { red: 100, green: 85, blue: 10, full: 100 },
                alpha: 60,
            })
            &&& light[1] matches DrawOp::LineWidth { width } && lies_at(width, 0, b.h, 2800)
            &&& goes(light[2], true, b, 2800, 7200) && goes(light[3], false, b, 7200, 2800)
        }),
{
}

/// The freehand icon, on a square button: a wave of two curves from its left to its right edge.
pub proof fn law_freehand_icon(b: Area, scale: Scale, active: Color, value: Ratio)
    requires
        plain(b),
        b.w == b.h,
    ensures
        ({
            let ops = icon(ToolbarItem::Tool(Tool::Freehand), b, scale, active, value);
            let at = |x: Ratio, y: Ratio, fx: int, fy: int|
                lies_at(x, b.x, b.h, fx) && lies_at(y, b.y, b.h, fy);
            &&& ops.len() == 4 && ops[3] == DrawOp::Stroke
            &&& goes(ops[0], true, b, 2800, 5880)
            &&& ops[1] matches DrawOp::CurveTo { x1, y1, x2, y2, x, y } && at(x1, y1, 3900, 2360)
                && at(x2, y2, 4560, 7640) && at(x, y, 5440, 5000)
            &&& ops[2] matches DrawOp::CurveTo { x1, y1, x2, y2, x, y } && at(x1, y1, 6100, 3240)
                && at(x2, y2, 6760, 3680) && at(x, y, 7200, 4120)
        }),
{
}

/// The step is the path of a circle around a point of a square button.
pub open spec fn circles(op: DrawOp, b: Area, fx: int, fy: int) -> bool {
    op matches DrawOp::Arc { x, y, start, stop, extra, .. } && {
        &&& lies_at(x, b.x, b.h, fx) && lies_at(y, b.y, b.h, fy)
        &&& start == (Ratio { num: 0, den: 1 }) && stop == (Ratio { num: 1, den: 1 }) && extra == 0
    }
}

/// The blur icon, on a square button: three rows of three dots of one size, which fills 44
/// thousandths of the button and no less than a logical px.
pub proof fn law_blur_icon(b: Area, scale: Scale, active: Color, value: Ratio, i: int, k: int)
    requires
        scale.wf(),
        plain(b),
        b.w == b.h,
        0 <= i < 3,
        0 <= k < 3,
    ensures
        ({
            let ops = icon(ToolbarItem::Tool(Tool::Blur), b, scale, active, value);
            let n = 1 + 2 * (3 * i + k);
            let r = ops[n]->Arc_r;
            &&& ops.len() == 19
            &&& ops[0] == (DrawOp::Source {
                color: Color::Mix { red: 95, green: 95, blue: 95, full: 100 },
                alpha: 100,
            })
            &&& circles(ops[n], b, 3680 + 1320 * k, 3680 + 1320 * i)
            &&& ops[n + 1] == DrawOp::Fill
            &&& r.den > 0
            &&& lies_at(r, 0, b.h, 440) || r.num == scale.num && r.den == scale.den
            &&& r.num * scale.den >= scale.num * r.den
            &&& r.num * 10_000 >= 440 * b.h * r.den
        }),
{
    let n = 1 + 2 * (3 * i + k);
    let ops = icon(ToolbarItem::Tool(Tool::Blur), b, scale, active, value);
    assert(ops[n] == dot(b, scale, k, i) && ops[n + 1] == DrawOp::Fill) by {
        assert(i == 0 || i == 1 || i == 2);
        assert(k == 0 || k == 1 || k == 2);
    }
    let w: int = wide(b);
    assert(w == 44 * b.h);
    assert((20 + 30 * k) * w == 20 * w + 30 * (k * w)) by (nonlinear_arith);
    assert((20 + 30 * i) * w == 20 * w + 30 * (i * w)) by (nonlinear_arith);
    assert(k * w == 44 * (k * b.h)) by (nonlinear_arith)
        requires
            w == 44 * b.h,
    ;
    assert(i * w == 44 * (i * b.h)) by (nonlinear_arith)
        requires
            w == 44 * b.h,
    ;
    assert((3680 + 1320 * k) * b.h == 3680 * b.h + 1320 * (k * b.h)) by (nonlinear_arith);
    assert((3680 + 1320 * i) * b.h == 3680 * b.h + 1320 * (i * b.h)) by (nonlinear_arith);
    assert(0 <= k * b.h <= 2 * b.h && 0 <= i * b.h <= 2 * b.h) by (nonlinear_arith)
        requires
            0 <= k <= 2,
            0 <= i <= 2,
            0 <= b.h,
    ;
    let a = ratio::part(10 * geometry::min(w, tall(b)));
    let l = ratio::logical(scale, 1);
    assert(a.num == 440 * b.h && a.den == 10_000);
    assert(l.num == scale.num && l.den == scale.den);
    assert((440 * b.h) * 10_000 == 440 * b.h * 10_000);
    assert(dot_radius(b, scale) == a || dot_radius(b, scale) == l);
    assert(a.num * l.den == 440 * b.h * l.den);
}

/// The icon of the button that takes all annotations back, on a square button: a lid, a handle on
/// it, a body that narrows to the bottom, and three ribs.
pub proof fn law_clear_icon(b: Area, scale: Scale, active: Color, value: Ratio, i: int)
    requires
        plain(b),
        b.w == b.h,
        0 <= i < 3,
    ensures
        ({
            let ops = icon(ToolbarItem::Clear, b, scale, active, value);
            &&& ops.len() == 22
            &&& goes(ops[0], true, b, 2800, 3680) && goes(ops[1], false, b, 7200, 3680)
            &&& goes(ops[3], true, b, 4296, 3680) && goes(ops[4], false, b, 4296, 2800)
            &&& goes(ops[5], false, b, 5704, 2800) && goes(ops[6], false, b, 5704, 3680)
            &&& goes(ops[8], true, b, 3328, 3680) && goes(ops[9], false, b, 3680, 7200)
            &&& goes(ops[10], false, b, 6320, 7200) && goes(ops[11], false, b, 6672, 3680)
            &&& goes(ops[13 + 3 * i], true, b, 4340 + 660 * i, 4208)
            &&& goes(ops[14 + 3 * i], false, b, 4340 + 660 * i, 6760)
            &&& ops[15 + 3 * i] == DrawOp::Stroke
            &&& ops[2] == DrawOp::Stroke && ops[7] == DrawOp::Stroke && ops[12] == DrawOp::Stroke
        }),
{
    assert(i == 0 || i == 1 || i == 2);
    assert((4340 + 660 * 0) * b.h == 4340 * b.h);
    assert((4340 + 660 * 1) * b.h == 5000 * b.h);
    assert((4340 + 660 * 2) * b.h == 5660 * b.h);
}

/// The color icon, on a square button: a disc of the active color in its middle, of 22 hundredths
/// of the button, with a light rim.
pub proof fn law_color_icon(b: Area, scale: Scale, active: Color, value: Ratio)
    requires
        plain(b),
        b.w == b.h,
    ensures
        ({
            let ops = icon(ToolbarItem::Color, b, scale, active, value);
            &&& ops.len() == 6
            &&& circles(ops[0], b, 5000, 5000) && lies_at(ops[0]->Arc_r, 0, b.h, 2200)
            &&& ops[1] == (DrawOp::Source { color: active, alpha: 100 })
            &&& ops[2] == DrawOp::FillPreserve
            &&& ops[3] == (DrawOp::Source {
                color: Color::Mix { red: 95, green: 95, blue: 95, full: 100 },
                alpha: 100,
            })
            &&& ops[4] == (DrawOp::LineWidth { width: chrome_line(scale) })
            &&& ops[5] == DrawOp::Stroke
        }),
{
}

/// The thickness icon: the whole number of px that is nearest to the active thickness, in the middle
/// of its button, in letters of 13 logical px.
pub proof fn law_thickness_icon(b: Area, scale: Scale, active: Color, value: Ratio)
    requires
        plain(b),
        thickness::in_range(value),
    ensures
        ({
            let ops = icon(ToolbarItem::Thickness, b, scale, active, value);
            &&& ops.len() == 2
            &&& ops[0] == (DrawOp::Source {
                color: Color::Mix { red: 95, green: 95, blue: 95, full: 100 },
                alpha: 100,
            })
            &&& ops[1] matches DrawOp::LabelInBox { value: shown, font, x, y, w, h } && {
                &&& -value.den < 2 * (shown * value.den - value.num) <= value.den
                &&& font.num == 13 * scale.num && font.den == scale.den
                &&& x == (Ratio { num: b.x as i128, den: 1 })
                &&& y == (Ratio { num: b.y as i128, den: 1 })
                &&& w == (Ratio { num: b.w as i128, den: 1 })
                &&& h == (Ratio { num: b.h as i128, den: 1 })
            }
        }),
{
    thickness::law_shown_in_range(value);
    geometry::law_nearest(value.num as int, value.den as int);
    geometry::law_halves_go_away_from_zero(value.num as int, value.den as int);
}

} // verus!
