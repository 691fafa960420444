//! The canvas: the dimmed part, the selection's border, and the annotations.

use crate::render::annotation;
use crate::render::annotation::{Annotation, Mark};
use crate::render::drawing;
use crate::render::drawing::{Cap, DrawOp, Join};
use crate::render::geometry;
use crate::render::geometry::{Area, Rect, Scale};
use crate::render::ratio;
use crate::render::ratio::Ratio;
use crate::render::tool::Tool;
use vstd::prelude::*;

verus! {

/// The border of the selection, in logical px.
pub const SELECTION_BORDER: i32 = 2;

/// How much the dimmed area is darkened, in hundredths. With no region selected the whole screen
/// is dimmed; once a region is selected only the area outside it stays dimmed.
pub const DIM: i128 = 40;

/// How opaque a highlight is, in hundredths.
pub const HIGHLIGHT_ALPHA: i128 = 40;

// --- the dimmed part -------------------------------------------------------

/// The whole canvas.
pub open spec fn canvas(w: int, h: int) -> Area {
    Area { x: 0, y: 0, w, h }
}

/// The part of the canvas above the selection.
pub open spec fn above(sel: Area, w: int) -> Area {
    Area { x: 0, y: 0, w, h: sel.y }
}

/// The part of the canvas below the selection.
pub open spec fn below(sel: Area, w: int, h: int) -> Area {
    Area { x: 0, y: sel.y + sel.h, w, h: h - (sel.y + sel.h) }
}

/// What lies to the left of the selection.
pub open spec fn left_of(sel: Area) -> Area {
    Area { x: 0, y: sel.y, w: sel.x, h: sel.h }
}

/// What lies to the right of the selection.
pub open spec fn right_of(sel: Area, w: int) -> Area {
    Area { x: sel.x + sel.w, y: sel.y, w: w - (sel.x + sel.w), h: sel.h }
}

pub open spec fn dim_full(w: int, h: int) -> Seq<DrawOp> {
    seq![drawing::source(0, 0, 0, DIM as int), drawing::rectangle(canvas(w, h)), DrawOp::Fill]
}

/// Dims the whole frozen screen (used when no region is selected yet).
pub fn draw_dim_full(screen_w: i32, screen_h: i32) -> (r: Vec<DrawOp>)
    ensures
        r@ == dim_full(screen_w as int, screen_h as int),
{
    let r: Vec<DrawOp> = vec![
        drawing::source_op(0, 0, 0, DIM),
        drawing::wide_rectangle_op(0, 0, screen_w as i128, screen_h as i128),
        DrawOp::Fill,
    ];
    assert(r@ =~= dim_full(screen_w as int, screen_h as int));
    r
}

pub open spec fn dim_outside(sel: Area, w: int, h: int) -> Seq<DrawOp> {
    seq![
        drawing::source(0, 0, 0, DIM as int),
        drawing::rectangle(above(sel, w)),
        drawing::rectangle(below(sel, w, h)),
        drawing::rectangle(left_of(sel)),
        drawing::rectangle(right_of(sel, w)),
        DrawOp::Fill,
    ]
}

/// Dims everything outside the selection, leaving the selected region at full brightness.
pub fn draw_dim_outside(sel: Rect, screen_w: i32, screen_h: i32) -> (r: Vec<DrawOp>)
    ensures
        r@ == dim_outside(sel@, screen_w as int, screen_h as int),
{
    let (sw, sh): (i128, i128) = (screen_w as i128, screen_h as i128);
    let (x, y, w, h): (i128, i128, i128, i128) = (
        sel.x as i128,
        sel.y as i128,
        sel.w as i128,
        sel.h as i128,
    );
    let (right, bottom): (i128, i128) = (x + w, y + h);
    let (rest_w, rest_h): (i128, i128) = (sw - right, sh - bottom);
    let r: Vec<DrawOp> = vec![
        drawing::source_op(0, 0, 0, DIM),
        drawing::wide_rectangle_op(0, 0, sw, y),
        drawing::wide_rectangle_op(0, bottom, sw, rest_h),
        drawing::wide_rectangle_op(0, y, x, h),
        drawing::wide_rectangle_op(right, y, rest_w, h),
        DrawOp::Fill,
    ];
    assert(r@ =~= dim_outside(sel@, screen_w as int, screen_h as int));
    r
}

/// For a selection on the canvas, the four dimmed rectangles lie on the canvas, no two of them
/// share a pixel, and together they hold exactly the pixels of the canvas outside the selection.
pub proof fn law_dim_is_the_outside(sel: Area, w: int, h: int)
    requires
        0 <= sel.w,
        0 <= sel.h,
        sel.within(canvas(w, h)),
    ensures
        above(sel, w).within(canvas(w, h)),
        below(sel, w, h).within(canvas(w, h)),
        left_of(sel).within(canvas(w, h)),
        right_of(sel, w).within(canvas(w, h)),
        above(sel, w).apart(below(sel, w, h)),
        above(sel, w).apart(left_of(sel)),
        above(sel, w).apart(right_of(sel, w)),
        below(sel, w, h).apart(left_of(sel)),
        below(sel, w, h).apart(right_of(sel, w)),
        left_of(sel).apart(right_of(sel, w)),
        forall|px: int, py: int|
            (canvas(w, h).covers(px, py) && !#[trigger] sel.covers(px, py)) <==> (above(
                sel,
                w,
            ).covers(px, py) || below(sel, w, h).covers(px, py) || left_of(sel).covers(px, py)
                || right_of(sel, w).covers(px, py)),
{
}

// --- the selection's border ------------------------------------------------

/// The border is never thinner than a pixel.
pub open spec fn border_width(scale: Scale) -> Ratio {
    ratio::logical(scale, SELECTION_BORDER as int).greater(Ratio { num: 1, den: 1 })
}

/// `v` moved inward by half the border.
pub open spec fn border_edge(v: int, border: Ratio) -> Ratio {
    Ratio { num: (2 * v * border.den + border.num) as i128, den: (2 * border.den) as i128 }
}

/// A length of `v` shortened by the border.
pub open spec fn border_len(v: int, border: Ratio) -> Ratio {
    Ratio { num: (v * border.den - border.num) as i128, den: border.den }
}

pub open spec fn selection_border(sel: Area, scale: Scale) -> Seq<DrawOp> {
    let border = border_width(scale);
    seq![
        drawing::source(100, 100, 100, 100),
        DrawOp::LineWidth { width: border },
        DrawOp::LineJoin { join: Join::Miter },
        DrawOp::Rectangle {
            x: border_edge(sel.x, border),
            y: border_edge(sel.y, border),
            w: border_len(sel.w, border),
            h: border_len(sel.h, border),
        },
        DrawOp::Stroke,
    ]
}

fn border_ratios(v: i32, border: Ratio) -> (r: (Ratio, Ratio))
    requires
        border.moderate(),
    ensures
        r.0 == border_edge(v as int, border),
        r.1 == border_len(v as int, border),
{
    proof {
        let a: int = v as int;
        let d: int = border.den as int;
        assert(-0x8000_0000 * 0x8000_0000_0000_0000 <= a * d <= 0x8000_0000 * 0x8000_0000_0000_0000)
            by (nonlinear_arith)
            requires
                -0x8000_0000 <= a <= 0x7fff_ffff,
                0 < d <= 0x8000_0000_0000_0000,
        ;
        assert(2 * a * d == 2 * (a * d)) by (nonlinear_arith);
    }
    let area: i128 = v as i128 * border.den;
    (
        Ratio { num: 2 * area + border.num, den: 2 * border.den },
        Ratio { num: area - border.num, den: border.den },
    )
}

/// Draws the border of the selection. The stroke is inset so that it sits entirely inside the
/// selection: an outset border would spill onto an adjacent monitor when the selection reaches a
/// screen edge.
pub fn draw_selection_border(sel: Rect, scale: Scale) -> (r: Vec<DrawOp>)
    requires
        scale.wf(),
    ensures
        r@ == selection_border(sel@, scale),
{
    let logical: Ratio = ratio::logical_len(scale, SELECTION_BORDER);
    let border: Ratio = logical.at_least(Ratio { num: 1, den: 1 });
    let (x, _): (Ratio, Ratio) = border_ratios(sel.x, border);
    let (y, _): (Ratio, Ratio) = border_ratios(sel.y, border);
    let (_, w): (Ratio, Ratio) = border_ratios(sel.w, border);
    let (_, h): (Ratio, Ratio) = border_ratios(sel.h, border);
    let r: Vec<DrawOp> = vec![
        drawing::source_op(100, 100, 100, 100),
        DrawOp::LineWidth { width: border },
        DrawOp::LineJoin { join: Join::Miter },
        DrawOp::Rectangle { x, y, w, h },
        DrawOp::Stroke,
    ];
    assert(r@ =~= selection_border(sel@, scale));
    r
}

/// The stroke of the border, half of which lies on either side of its path, ends exactly at the
/// edges of the selection: from `v` to `v + len` on either axis.
pub proof fn law_border_is_inside(v: i32, len: i32, scale: Scale)
    requires
        scale.wf(),
    ensures
        ({
            let border = border_width(scale);
            let edge = border_edge(v as int, border);
            let side = border_len(len as int, border);
            &&& edge.den == 2 * border.den
            &&& side.den == border.den
            &&& edge.num - border.num == v * edge.den
            &&& edge.num + 2 * side.num + border.num == (v + len) * edge.den
        }),
{
    let border = border_width(scale);
    let d: int = border.den as int;
    let n: int = border.num as int;
    assert(0 < d <= 0xffff_ffff && 0 <= n <= 2 * 0xffff_ffff) by {
        assert(2 * scale.num <= 2 * 0xffff_ffff);
    }
    let (a, b): (int, int) = (v as int, len as int);
    assert(-0x8000_0000 * 0xffff_ffff <= a * d <= 0x8000_0000 * 0xffff_ffff) by (nonlinear_arith)
        requires
            -0x8000_0000 <= a <= 0x7fff_ffff,
            0 < d <= 0xffff_ffff,
    ;
    assert(-0x8000_0000 * 0xffff_ffff <= b * d <= 0x8000_0000 * 0xffff_ffff) by (nonlinear_arith)
        requires
            -0x8000_0000 <= b <= 0x7fff_ffff,
            0 < d <= 0xffff_ffff,
    ;
    assert(2 * a * d == 2 * (a * d)) by (nonlinear_arith);
    assert(a * (2 * d) == 2 * (a * d)) by (nonlinear_arith);
    assert((a + b) * (2 * d) == 2 * (a * d) + 2 * (b * d)) by (nonlinear_arith);
}

// --- annotations -----------------------------------------------------------

/// Half of a length.
pub open spec fn half_of(r: Ratio) -> Ratio {
    Ratio { num: r.num, den: (2 * r.den) as i128 }
}

/// The sides of an arrow's head: three and a half line widths, and at least 12 px.
pub open spec fn head_len(t: Ratio) -> Ratio {
    Ratio { num: geometry::max(7 * t.num, 24 * t.den) as i128, den: (2 * t.den) as i128 }
}

fn head_width(t: Ratio) -> (r: Ratio)
    requires
        t.moderate(),
    ensures
        r == head_len(t),
{
    let by_line: i128 = 7 * t.num;
    let least: i128 = 24 * t.den;
    let num: i128 = if by_line >= least {
        by_line
    } else {
        least
    };
    Ratio { num, den: 2 * t.den }
}

/// The pen that every annotation starts with.
pub open spec fn pen(width: Ratio) -> Seq<DrawOp> {
    seq![
        DrawOp::LineCap { cap: Cap::Round },
        DrawOp::LineJoin { join: Join::Round },
        DrawOp::LineWidth { width },
    ]
}

fn pen_ops(width: Ratio) -> (r: Vec<DrawOp>)
    ensures
        r@ == pen(width),
{
    let r: Vec<DrawOp> = vec![
        DrawOp::LineCap { cap: Cap::Round },
        DrawOp::LineJoin { join: Join::Round },
        DrawOp::LineWidth { width },
    ];
    assert(r@ =~= pen(width));
    r
}

/// Where a freehand mark of fewer than two points is dotted.
pub open spec fn dot_at(m: Mark) -> (i32, i32) {
    if m.points.len() > 0 {
        m.points[0]
    } else {
        m.start
    }
}

/// The path through all points.
pub open spec fn through(points: Seq<(i32, i32)>) -> Seq<DrawOp> {
    Seq::new(
        points.len(),
        |i: int|
            if i == 0 {
                drawing::move_px(points[i])
            } else {
                drawing::line_px(points[i])
            },
    )
}

/// A freehand stroke: a dot while there are fewer than two points, and then a line through them.
pub open spec fn freehand(m: Mark, width: Ratio) -> Seq<DrawOp> {
    pen(width) + if m.points.len() < 2 {
        let p = dot_at(m);
        seq![
            drawing::circle(ratio::px(p.0 as int), ratio::px(p.1 as int), half_of(width)),
            DrawOp::Fill,
        ]
    } else {
        through(m.points).push(DrawOp::Stroke)
    }
}

/// The steps of a freehand stroke.
pub fn stroke_freehand(a: &Annotation, width: Ratio) -> (r: Vec<DrawOp>)
    requires
        width.wf(),
        drawing::tame(width.den as int),
    ensures
        r@ == freehand(a@, width),
{
    let mut r: Vec<DrawOp> = pen_ops(width);
    if a.points.len() < 2 {
        let p: (i32, i32) = if a.points.len() > 0 {
            a.points[0]
        } else {
            a.start
        };
        let half: Ratio = Ratio { num: width.num, den: 2 * width.den };
        r.push(drawing::circle_op(ratio::px_len(p.0), ratio::px_len(p.1), half));
        r.push(DrawOp::Fill);
        assert(r@ =~= freehand(a@, width));
        return r;
    }
    let mut i: usize = 0;
    while i < a.points.len()
        invariant
            0 <= i <= a.points@.len(),
            r@ == pen(width) + through(a.points@).take(i as int),
        decreases a.points@.len() - i,
    {
        let p: (i32, i32) = a.points[i];
        if i == 0 {
            r.push(drawing::move_px_op(p));
        } else {
            r.push(drawing::line_px_op(p));
        }
        assert(r@ =~= pen(width) + through(a.points@).take(i + 1));
        i = i + 1;
    }
    r.push(DrawOp::Stroke);
    assert(r@ =~= freehand(a@, width));
    r
}

/// What a tool adds to the pen. `glass` says by how much the frosted glass is enlarged, where it
/// has been made.
pub open spec fn shape(m: Mark, glass: Option<i32>) -> Seq<DrawOp> {
    let ink = DrawOp::Source { color: m.color, alpha: 100 };
    let frame = drawing::rectangle(geometry::spanned(m.start, m.end));
    match m.tool {
        Tool::Crop => seq![],
        Tool::Rectangle => seq![
            DrawOp::LineJoin { join: Join::Miter },
            frame,
            ink,
            DrawOp::Stroke,
        ],
        Tool::Line => seq![
            drawing::move_px(m.start),
            drawing::line_px(m.end),
            ink,
            DrawOp::Stroke,
        ],
        Tool::Arrow => if m.start == m.end {
            seq![ink]
        } else {
            seq![
                ink,
                DrawOp::Arrow { from: m.start, to: m.end, head: head_len(m.thickness) },
            ]
        },
        Tool::Freehand => seq![ink] + freehand(m, m.thickness),
        Tool::Highlight => seq![
            frame,
            DrawOp::Source { color: m.color, alpha: HIGHLIGHT_ALPHA },
            DrawOp::Fill,
        ],
        Tool::Blur => match glass {
            Some(block) => seq![frame, DrawOp::FillGlass { block }],
            None => seq![],
        },
    }
}

/// All steps of one annotation. Its coordinates and its thickness are raw device pixels, whatever
/// the scale.
pub open spec fn mark_ops(m: Mark, scale: Scale, glass: Option<i32>) -> Seq<DrawOp> {
    pen(m.thickness) + shape(m, glass)
}

fn frame_op(a: &Annotation) -> (r: DrawOp)
    requires
        geometry::span_fits(a.start, a.end),
    ensures
        r == drawing::rectangle(geometry::spanned(a.start, a.end)),
{
    drawing::rectangle_op(geometry::rect_from_corner_points(a.start, a.end))
}

fn shape_ops(a: &Annotation, glass: Option<i32>) -> (r: Vec<DrawOp>)
    requires
        a@.drawable(),
    ensures
        r@ == shape(a@, glass),
{
    let ink: DrawOp = DrawOp::Source { color: a.color, alpha: 100 };
    let r: Vec<DrawOp> = match a.tool {
        Tool::Crop => vec![],
        Tool::Rectangle => vec![
            DrawOp::LineJoin { join: Join::Miter },
            frame_op(a),
            ink,
            DrawOp::Stroke,
        ],
        Tool::Line => vec![
            drawing::move_px_op(a.start),
            drawing::line_px_op(a.end),
            ink,
            DrawOp::Stroke,
        ],
        Tool::Arrow => if a.start.0 == a.end.0 && a.start.1 == a.end.1 {
            vec![ink]
        } else {
            vec![
                ink,
                DrawOp::Arrow { from: a.start, to: a.end, head: head_width(a.thickness) },
            ]
        },
        Tool::Freehand => drawing::joined(vec![ink], stroke_freehand(a, a.thickness)),
        Tool::Highlight => vec![
            frame_op(a),
            DrawOp::Source { color: a.color, alpha: HIGHLIGHT_ALPHA },
            DrawOp::Fill,
        ],
        Tool::Blur => match glass {
            Some(block) => vec![frame_op(a), DrawOp::FillGlass { block }],
            None => vec![],
        },
    };
    assert(r@ =~= shape(a@, glass));
    r
}

/// The steps of one annotation, which the scale does not change. A blur is drawn only where the
/// frosted glass has been made.
pub fn draw_annotation(a: &Annotation, _scale: Scale, glass: Option<i32>) -> (r: Vec<DrawOp>)
    requires
        a@.drawable(),
    ensures
        r@ == mark_ops(a@, _scale, glass),
{
    drawing::joined(pen_ops(a.thickness), shape_ops(a, glass))
}

pub open spec fn blur_preview(m: Mark, scale: Scale) -> Seq<DrawOp> {
    let frame = drawing::rectangle(geometry::spanned(m.start, m.end));
    seq![
        frame,
        drawing::source(50, 50, 50, 25),
        DrawOp::Fill,
        frame,
        drawing::source(100, 100, 100, 80),
        DrawOp::LineWidth { width: ratio::logical(scale, 1) },
        DrawOp::Dash { len: ratio::logical(scale, 4) },
        DrawOp::Stroke,
        DrawOp::Solid,
    ]
}

/// Lightweight placeholder shown while a blur rectangle is being dragged: a dashed outline with a
/// faint fill, so the actual (costly) frosted-glass effect only needs to be drawn on mouse up.
pub fn draw_blur_preview(a: &Annotation, scale: Scale) -> (r: Vec<DrawOp>)
    requires
        scale.wf(),
        geometry::span_fits(a.start, a.end),
    ensures
        r@ == blur_preview(a@, scale),
{
    let r: Vec<DrawOp> = vec![
        frame_op(a),
        drawing::source_op(50, 50, 50, 25),
        DrawOp::Fill,
        frame_op(a),
        drawing::source_op(100, 100, 100, 80),
        DrawOp::LineWidth { width: ratio::logical_len(scale, 1) },
        DrawOp::Dash { len: ratio::logical_len(scale, 4) },
        DrawOp::Stroke,
        DrawOp::Solid,
    ];
    assert(r@ =~= blur_preview(a@, scale));
    r
}

/// The steps of all annotations, the oldest first.
pub open spec fn all_marks(marks: Seq<Mark>, scale: Scale, glass: Option<i32>) -> Seq<DrawOp>
    decreases marks.len(),
{
    if marks.len() == 0 {
        seq![]
    } else {
        all_marks(marks.drop_last(), scale, glass) + mark_ops(marks.last(), scale, glass)
    }
}

/// The steps of the mark that is being drawn: a blur is only outlined.
pub open spec fn current_mark(draw: Option<Mark>, scale: Scale, glass: Option<i32>) -> Seq<DrawOp> {
    match draw {
        Some(m) => if m.tool == Tool::Blur {
            blur_preview(m, scale)
        } else {
            mark_ops(m, scale, glass)
        },
        None => seq![],
    }
}

/// What an annotation holds, if there is one.
pub open spec fn mark_of(draw: Option<&Annotation>) -> Option<Mark> {
    match draw {
        Some(a) => Some(a@),
        None => None,
    }
}

/// Every mark can be drawn.
pub open spec fn all_drawable(marks: Seq<Mark>) -> bool {
    forall|i: int| 0 <= i < marks.len() ==> (#[trigger] marks[i]).drawable()
}

/// Draws the annotations, and on top the one that is being drawn. The frosted glass is costly to
/// paint on every pointer move, so a blur that is being drawn shows its outline; the real blur
/// comes once it is among the annotations.
pub fn draw_annotations(
    scale: Scale,
    annotations: &Vec<Annotation>,
    draw: Option<&Annotation>,
    glass: Option<i32>,
) -> (r: Vec<DrawOp>)
    requires
        scale.wf(),
        all_drawable(annotation::marks(annotations@)),
        mark_of(draw) matches Some(m) ==> m.drawable(),
    ensures
        r@ == all_marks(annotation::marks(annotations@), scale, glass) + current_mark(
            mark_of(draw),
            scale,
            glass,
        ),
{
    let ghost marks = annotation::marks(annotations@);
    let mut r: Vec<DrawOp> = Vec::new();
    let mut i: usize = 0;
    while i < annotations.len()
        invariant
            0 <= i <= annotations@.len(),
            scale.wf(),
            marks == annotation::marks(annotations@),
            all_drawable(marks),
            r@ == all_marks(marks.take(i as int), scale, glass),
        decreases annotations@.len() - i,
    {
        assert(marks[i as int] == annotations@[i as int]@);
        r = drawing::joined(r, draw_annotation(&annotations[i], scale, glass));
        proof {
            let more = marks.take(i + 1);
            assert(more.drop_last() =~= marks.take(i as int));
            assert(more.last() == marks[i as int]);
        }
        i = i + 1;
    }
    assert(marks.take(i as int) =~= marks);
    match draw {
        Some(d) => {
            let last: Vec<DrawOp> = if d.tool == Tool::Blur {
                draw_blur_preview(d, scale)
            } else {
                draw_annotation(d, scale, glass)
            };
            r = drawing::joined(r, last);
        },
        None => {},
    }
    assert(r@ =~= all_marks(marks, scale, glass) + current_mark(mark_of(draw), scale, glass));
    r
}

/// The scale only sizes the chrome: an annotation is drawn alike at every scale.
pub proof fn law_marks_ignore_scale(m: Mark, s1: Scale, s2: Scale, glass: Option<i32>)
    ensures
        mark_ops(m, s1, glass) == mark_ops(m, s2, glass),
{
}

/// All annotations are drawn alike at every scale.
pub proof fn law_all_marks_ignore_scale(
    marks: Seq<Mark>,
    s1: Scale,
    s2: Scale,
    glass: Option<i32>,
)
    ensures
        all_marks(marks, s1, glass) == all_marks(marks, s2, glass),
    decreases marks.len(),
{
    if marks.len() > 0 {
        law_all_marks_ignore_scale(marks.drop_last(), s1, s2, glass);
    }
}

/// A new mark is painted over all others, which are painted as before.
pub proof fn law_newest_on_top(marks: Seq<Mark>, m: Mark, scale: Scale, glass: Option<i32>)
    ensures
        all_marks(marks.push(m), scale, glass) == all_marks(marks, scale, glass) + mark_ops(
            m,
            scale,
            glass,
        ),
{
    assert(marks.push(m).drop_last() =~= marks);
    assert(marks.push(m).last() == m);
}

/// The frosted glass is never painted for the mark that is being drawn.
pub proof fn law_no_glass_while_drawing(draw: Option<Mark>, scale: Scale, glass: Option<i32>, i: int)
    requires
        0 <= i < current_mark(draw, scale, glass).len(),
    ensures
        !(current_mark(draw, scale, glass)[i] is FillGlass),
{
    match draw {
        Some(m) => {
            if m.tool == Tool::Freehand && m.points.len() >= 2 {
                assert(through(m.points).len() == m.points.len());
            }
        },
        None => {},
    }
}

} // verus!
