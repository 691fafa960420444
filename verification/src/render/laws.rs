//! What the lists of drawing steps paint.

use crate::render::annotation::Mark;
use crate::render::color::Color;
use crate::render::drawing::{Cap, DrawOp, Join};
use crate::render::geometry::{Area, Scale};
use crate::render::ratio::Ratio;
use crate::render::scene;
use crate::render::tool::Tool;
use vstd::prelude::*;

verus! {

/// The step sets a color, whose channels and opacity are given in hundredths.
pub open spec fn paints(op: DrawOp, red: int, green: int, blue: int, alpha: int) -> bool {
    op matches DrawOp::Source { color: Color::Mix { red: r, green: g, blue: b, full }, alpha: a }
        && r == red && g == green && b == blue && a == alpha && full == 100
}

// --- marks -----------------------------------------------------------------

/// Every annotation is drawn with a round pen as wide as it is thick.
pub proof fn law_marks_start_with_their_pen(m: Mark, scale: Scale, glass: Option<i32>)
    ensures
        ({
            let ops = scene::mark_ops(m, scale, glass);
            &&& ops.len() >= 3
            &&& ops[0] == (DrawOp::LineCap { cap: Cap::Round })
            &&& ops[1] == (DrawOp::LineJoin { join: Join::Round })
            &&& ops[2] == (DrawOp::LineWidth { width: m.thickness })
            &&& m.tool == Tool::Crop ==> ops.len() == 3
        }),
{
}

/// A line goes from its start to its end, whichever way that is: its path is one `MoveTo` at the
/// start and after it one `LineTo` at the end, which are stroked in its color.
pub proof fn law_line_goes_from_start_to_end(m: Mark, scale: Scale, glass: Option<i32>)
    requires
        m.tool == Tool::Line,
    ensures
        ({
            let ops = scene::mark_ops(m, scale, glass);
            &&& ops.len() == 7
            &&& ops[3] == (DrawOp::MoveTo {
                x: Ratio { num: m.start.0 as i128, den: 1 },
                y: Ratio { num: m.start.1 as i128, den: 1 },
            })
            &&& ops[4] == (DrawOp::LineTo {
                x: Ratio { num: m.end.0 as i128, den: 1 },
                y: Ratio { num: m.end.1 as i128, den: 1 },
            })
            &&& ops[5] == (DrawOp::Source { color: m.color, alpha: 100 })
            &&& ops[6] == DrawOp::Stroke
        }),
{
}

/// The step is the path of the rectangle whose opposite corner pixels are `a` and `b`.
pub open spec fn frames(op: DrawOp, a: (i32, i32), b: (i32, i32)) -> bool {
    op matches DrawOp::Rectangle { x, y, w, h } && {
        let (right, bottom) = (x.num + w.num - 1, y.num + h.num - 1);
        &&& x.den == 1 && y.den == 1 && w.den == 1 && h.den == 1
        &&& x.num <= right && y.num <= bottom
        &&& x.num == a.0 && right == b.0 || x.num == b.0 && right == a.0
        &&& y.num == a.1 && bottom == b.1 || y.num == b.1 && bottom == a.1
    }
}

/// A rectangle mark strokes the rectangle between its two ends, with sharp corners.
pub proof fn law_rectangle_frames_its_ends(m: Mark, scale: Scale, glass: Option<i32>)
    requires
        m.tool == Tool::Rectangle,
    ensures
        ({
            let ops = scene::mark_ops(m, scale, glass);
            &&& ops.len() == 7
            &&& ops[3] == (DrawOp::LineJoin { join: Join::Miter })
            &&& frames(ops[4], m.start, m.end)
            &&& ops[5] == (DrawOp::Source { color: m.color, alpha: 100 })
            &&& ops[6] == DrawOp::Stroke
        }),
{
}

/// A highlight fills the rectangle between its two ends, so that what is under it shows.
pub proof fn law_highlight_fills_its_ends(m: Mark, scale: Scale, glass: Option<i32>)
    requires
        m.tool == Tool::Highlight,
    ensures
        ({
            let ops = scene::mark_ops(m, scale, glass);
            &&& ops.len() == 6
            &&& frames(ops[3], m.start, m.end)
            &&& ops[4] == (DrawOp::Source { color: m.color, alpha: 40 })
            &&& ops[5] == DrawOp::Fill
        }),
{
}

/// A blur fills the rectangle between its two ends with the frosted glass, enlarged by as much as
/// it was shrunk, and paints nothing before there is a glass.
pub proof fn law_blur_covers_its_ends(m: Mark, scale: Scale, glass: Option<i32>)
    requires
        m.tool == Tool::Blur,
    ensures
        ({
            let ops = scene::mark_ops(m, scale, glass);
            &&& glass is None ==> ops.len() == 3
            &&& glass matches Some(block) ==> ops.len() == 5 && frames(ops[3], m.start, m.end)
                && ops[4] == (DrawOp::FillGlass { block })
        }),
{
}

/// An arrow points from its start to its end, unless they are the same. The sides of its head are
/// at least 12 px and at least three and a half times its thickness long, and no longer.
pub proof fn law_arrow_points_to_its_end(m: Mark, scale: Scale, glass: Option<i32>)
    requires
        m.tool == Tool::Arrow,
        m.thickness.moderate(),
    ensures
        ({
            let ops = scene::mark_ops(m, scale, glass);
            let t = m.thickness;
            &&& ops.len() == if m.start == m.end { 4int } else { 5int }
            &&& ops[3] == (DrawOp::Source { color: m.color, alpha: 100 })
            &&& m.start != m.end ==> (ops[4] matches DrawOp::Arrow { from, to, head } && {
                &&& from == m.start
                &&& to == m.end
                &&& head.den > 0
                &&& head.num >= 12 * head.den
                &&& 2 * (head.num * t.den) >= 7 * (t.num * head.den)
                &&& head.num == 12 * head.den || 2 * (head.num * t.den) == 7 * (t.num * head.den)
            })
        }),
{
    let t = m.thickness;
    let (n, d): (int, int) = (t.num as int, t.den as int);
    assert(2 * ((7 * n) * d) == 7 * (n * (2 * d))) by (nonlinear_arith);
    assert(7 * n <= 24 * d ==> 2 * ((24 * d) * d) >= 7 * (n * (2 * d))) by (nonlinear_arith)
        requires
            0 < d,
    ;
    let ops = scene::mark_ops(m, scale, glass);
    if m.start != m.end {
        assert(ops[4] == (DrawOp::Arrow {
            from: m.start,
            to: m.end,
            head: scene::head_len(m.thickness),
        }));
    }
}

/// A freehand mark of two points or more is one line through all of them, in their order.
pub proof fn law_freehand_goes_through_its_points(
    m: Mark,
    scale: Scale,
    glass: Option<i32>,
    i: int,
)
    requires
        m.tool == Tool::Freehand,
        m.points.len() >= 2,
        0 < i < m.points.len(),
    ensures
        ({
            let ops = scene::mark_ops(m, scale, glass);
            &&& ops.len() == 8 + m.points.len()
            &&& ops[3] == (DrawOp::Source { color: m.color, alpha: 100 })
            &&& ops[4] == (DrawOp::LineCap { cap: Cap::Round })
            &&& ops[5] == (DrawOp::LineJoin { join: Join::Round })
            &&& ops[6] == (DrawOp::LineWidth { width: m.thickness })
            &&& ops[7] == (DrawOp::MoveTo {
                x: Ratio { num: m.points[0].0 as i128, den: 1 },
                y: Ratio { num: m.points[0].1 as i128, den: 1 },
            })
            &&& ops[7 + i] == (DrawOp::LineTo {
                x: Ratio { num: m.points[i].0 as i128, den: 1 },
                y: Ratio { num: m.points[i].1 as i128, den: 1 },
            })
            &&& ops[ops.len() - 1] == DrawOp::Stroke
        }),
{
}

/// A freehand mark of one point is a dot as wide as the mark is thick.
pub proof fn law_freehand_point_is_a_dot(m: Mark, scale: Scale, glass: Option<i32>)
    requires
        m.tool == Tool::Freehand,
        m.points.len() <= 1,
        m.thickness.moderate(),
    ensures
        ({
            let ops = scene::mark_ops(m, scale, glass);
            let p = if m.points.len() == 1 { m.points[0] } else { m.start };
            &&& ops.len() == 9
            &&& ops[3] == (DrawOp::Source { color: m.color, alpha: 100 })
            &&& ops[7] == (DrawOp::Arc {
                x: Ratio { num: p.0 as i128, den: 1 },
                y: Ratio { num: p.1 as i128, den: 1 },
                r: Ratio { num: m.thickness.num, den: (2 * m.thickness.den) as i128 },
                start: Ratio { num: 0, den: 1 },
                stop: Ratio { num: 1, den: 1 },
                extra: 0,
            })
            &&& ops[8] == DrawOp::Fill
        }),
{
}

/// The outline of a blur that is being drawn: the rectangle between its ends, lightly filled and
/// dashed around.
pub proof fn law_preview_outlines_its_ends(m: Mark, scale: Scale)
    ensures
        ({
            let ops = scene::blur_preview(m, scale);
            &&& ops.len() == 9
            &&& frames(ops[0], m.start, m.end)
            &&& paints(ops[1], 50, 50, 50, 25)
            &&& ops[2] == DrawOp::Fill
            &&& frames(ops[3], m.start, m.end)
            &&& paints(ops[4], 100, 100, 100, 80)
            &&& ops[5] matches DrawOp::LineWidth { width } && width.num == scale.num && width.den
                == scale.den
            &&& ops[6] matches DrawOp::Dash { len } && len.num == 4 * scale.num && len.den
                == scale.den
            &&& ops[7] == DrawOp::Stroke
            &&& ops[8] == DrawOp::Solid
        }),
{
}

/// The marks are painted one after the other, the oldest first: without marks there is nothing, and
/// the steps of each follow those of all before it.
pub proof fn law_every_mark_is_painted(
    marks: Seq<Mark>,
    i: int,
    scale: Scale,
    glass: Option<i32>,
)
    requires
        0 <= i < marks.len(),
    ensures
        scene::all_marks(Seq::empty(), scale, glass).len() == 0,
        ({
            let before = scene::all_marks(marks.take(i), scale, glass);
            let own = scene::mark_ops(marks[i], scale, glass);
            let all = scene::all_marks(marks, scale, glass);
            &&& before.len() + own.len() <= all.len()
            &&& all.take(before.len() as int) == before
            &&& all.subrange(before.len() as int, (before.len() + own.len()) as int) == own
        }),
    decreases marks.len(),
{
    let rest = marks.drop_last();
    let all = scene::all_marks(marks, scale, glass);
    let most = scene::all_marks(rest, scale, glass);
    let own = scene::mark_ops(marks[i], scale, glass);
    let before = scene::all_marks(marks.take(i), scale, glass);
    if i == marks.len() - 1 {
        assert(marks.take(i) =~= rest);
    } else {
        law_every_mark_is_painted(rest, i, scale, glass);
        assert(rest.take(i) =~= marks.take(i));
        assert(all.take(before.len() as int) =~= most.take(before.len() as int));
        assert(all.subrange(before.len() as int, (before.len() + own.len()) as int)
            =~= most.subrange(before.len() as int, (before.len() + own.len()) as int));
    }
    assert(all.take(before.len() as int) =~= before);
    assert(all.subrange(before.len() as int, (before.len() + own.len()) as int) =~= own);
}

// --- the dimmed part and the border ----------------------------------------

/// The step is the path of a rectangle of whole pixels that holds the pixel at (`px`, `py`).
pub open spec fn outlines(op: DrawOp, px: int, py: int) -> bool {
    op matches DrawOp::Rectangle { x, y, w, h } && {
        &&& x.den == 1 && y.den == 1 && w.den == 1 && h.den == 1
        &&& x.num <= px < x.num + w.num
        &&& y.num <= py < y.num + h.num
    }
}

/// Without a selection exactly the pixels of the canvas are darkened.
pub proof fn law_dim_full_covers_the_canvas(w: i32, h: i32, px: int, py: int)
    ensures
        ({
            let ops = scene::dim_full(w as int, h as int);
            &&& ops.len() == 3
            &&& paints(ops[0], 0, 0, 0, 40)
            &&& outlines(ops[1], px, py) <==> 0 <= px < w && 0 <= py < h
            &&& ops[2] == DrawOp::Fill
        }),
{
}

/// With a selection on the canvas, a pixel is darkened by exactly one of the rectangles if it is on
/// the canvas and outside the selection, and by none otherwise.
pub proof fn law_dim_outside_spares_the_selection(sel: Area, w: i32, h: i32, px: int, py: int)
    requires
        0 <= sel.x,
        0 <= sel.y,
        0 <= sel.w,
        0 <= sel.h,
        sel.x + sel.w <= w,
        sel.y + sel.h <= h,
    ensures
        ({
            let ops = scene::dim_outside(sel, w as int, h as int);
            let hit = |i: int| if outlines(ops[i], px, py) { 1int } else { 0int };
            let inside = sel.x <= px < sel.x + sel.w && sel.y <= py < sel.y + sel.h;
            &&& ops.len() == 6
            &&& paints(ops[0], 0, 0, 0, 40)
            &&& hit(1) + hit(2) + hit(3) + hit(4) == if 0 <= px < w && 0 <= py < h && !inside {
                1int
            } else {
                0int
            }
            &&& ops[5] == DrawOp::Fill
        }),
{
}

/// The border is a white line of two logical px, or one px where that is more, whose outer edge is
/// the edge of the selection.
pub proof fn law_border_follows_the_selection(x: i32, y: i32, w: i32, h: i32, scale: Scale)
    requires
        scale.wf(),
    ensures
        ({
            let sel = Area { x: x as int, y: y as int, w: w as int, h: h as int };
            let ops = scene::selection_border(sel, scale);
            &&& ops.len() == 5
            &&& paints(ops[0], 100, 100, 100, 100)
            &&& ops[2] == (DrawOp::LineJoin { join: Join::Miter })
            &&& ops[4] == DrawOp::Stroke
            &&& ops[1] matches DrawOp::LineWidth { width } && {
                &&& width.den > 0
                &&& width.num >= width.den
                &&& width.num * scale.den >= 2 * scale.num * width.den
                &&& width.num == width.den || width.num * scale.den == 2 * scale.num * width.den
                &&& ops[3] matches DrawOp::Rectangle { x: rx, y: ry, w: rw, h: rh } && {
                    let d = 2 * width.den;
                    &&& rx.den == d && ry.den == d && 2 * rw.den == d && 2 * rh.den == d
                    &&& rx.num - width.num == x * d
                    &&& ry.num - width.num == y * d
                    &&& rx.num + 2 * rw.num + width.num == (x + w) * d
                    &&& ry.num + 2 * rh.num + width.num == (y + h) * d
                }
            }
        }),
{
    scene::law_border_is_inside(x, w, scale);
    scene::law_border_is_inside(y, h, scale);
    let width = scene::border_width(scale);
    let (n, d): (int, int) = (scale.num as int, scale.den as int);
    assert((2 * n) * d == 2 * n * d) by (nonlinear_arith);
    assert(2 * n * 1 == 2 * n) by (nonlinear_arith);
    assert(1 * d == d) by (nonlinear_arith);
    assert(0 < width.den && (width.num == 2 * n && width.den == d || width.num == 1 && width.den
        == 1));
}

} // verus!
