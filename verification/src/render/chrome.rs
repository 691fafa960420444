//! The toolbar and the popups.

use crate::render::color;
use crate::render::color::{Color, PRESET_COUNT};
use crate::render::drawing;
use crate::render::drawing::{Cap, DrawOp, Join};
use crate::render::geometry;
use crate::render::geometry::{Area, Rect, Scale};
use crate::render::icons;
use crate::render::layout;
use crate::render::ratio;
use crate::render::ratio::Ratio;
use crate::render::thickness;
use crate::render::tool;
use crate::render::tool::{Tool, ToolbarItem};
use vstd::prelude::*;

verus! {

/// The background of a piece of chrome, after which the origin is at its corner.
pub open spec fn panel(area: Area, r: int) -> Seq<DrawOp> {
    seq![DrawOp::Save, DrawOp::Translate { dx: area.x as i64, dy: area.y as i64 }]
        + drawing::rounded(0, 0, area.w, area.h, r, 1) + seq![
        drawing::source(10, 10, 10, 92),
        DrawOp::Fill,
    ]
}

fn panel_ops(rect: Rect, r: i32) -> (ops: Vec<DrawOp>)
    ensures
        ops@ == panel(rect@, r as int),
{
    let start: Vec<DrawOp> = vec![
        DrawOp::Save,
        DrawOp::Translate { dx: rect.x as i64, dy: rect.y as i64 },
    ];
    let edge: Vec<DrawOp> = drawing::rounded_rect(
        0,
        0,
        rect.w as i128,
        rect.h as i128,
        r as i128,
        1,
    );
    let fill: Vec<DrawOp> = vec![drawing::source_op(10, 10, 10, 92), DrawOp::Fill];
    let ops: Vec<DrawOp> = drawing::joined(drawing::joined(start, edge), fill);
    assert(ops@ =~= panel(rect@, r as int));
    ops
}

// --- toolbar ---------------------------------------------------------------

/// Button `i`, measured from the toolbar's corner.
pub open spec fn inner_button(scale: Scale, i: int) -> Area {
    Area {
        x: layout::size(scale, layout::TOOLBAR_PAD) + layout::button_offset(scale, i),
        y: layout::size(scale, layout::TOOLBAR_PAD),
        w: layout::button_width(scale, i),
        h: layout::size(scale, layout::TOOLBAR_BUTTON),
    }
}

/// The backdrop of the button whose tool is active.
pub open spec fn backdrop(b: Area, scale: Scale) -> Seq<DrawOp> {
    drawing::rounded(
        10 * b.x,
        10 * b.y,
        10 * b.w,
        10 * b.h,
        6 * layout::size(scale, layout::TOOLBAR_RADIUS),
        10,
    ) + seq![drawing::source(25, 45, 85, 100), DrawOp::Fill]
}

/// The pen that every icon starts with.
pub open spec fn icon_pen(scale: Scale) -> Seq<DrawOp> {
    seq![
        drawing::source(95, 95, 95, 100),
        DrawOp::LineWidth { width: icons::chrome_line(scale) },
        DrawOp::LineCap { cap: Cap::Round },
        DrawOp::LineJoin { join: Join::Round },
    ]
}

/// One button: the backdrop where its tool is active, and its icon.
pub open spec fn button(
    item: ToolbarItem,
    b: Area,
    scale: Scale,
    active: Tool,
    ink: Color,
    value: Ratio,
) -> Seq<DrawOp> {
    (if item == ToolbarItem::Tool(active) {
        backdrop(b, scale)
    } else {
        seq![]
    }) + icon_pen(scale) + icons::icon(item, b, scale, ink, value)
}

/// The first `n` buttons.
pub open spec fn buttons(n: int, scale: Scale, active: Tool, ink: Color, value: Ratio) -> Seq<DrawOp>
    decreases n,
{
    if n <= 0 {
        seq![]
    } else {
        buttons(n - 1, scale, active, ink, value) + button(
            tool::toolbar()[n - 1],
            inner_button(scale, n - 1),
            scale,
            active,
            ink,
            value,
        )
    }
}

pub open spec fn toolbar_ops(
    scale: Scale,
    view: Area,
    active: Tool,
    ink: Color,
    value: Ratio,
) -> Seq<DrawOp> {
    panel(layout::toolbar_area(view, scale), layout::size(scale, layout::TOOLBAR_RADIUS))
        + buttons(tool::TOOLBAR_LEN as int, scale, active, ink, value) + seq![DrawOp::Restore]
}

fn button_ops(
    item: ToolbarItem,
    b: Rect,
    scale: Scale,
    radius: i32,
    active: Tool,
    ink: Color,
    value: Ratio,
) -> (r: Vec<DrawOp>)
    requires
        scale.wf(),
        value.moderate(),
        radius == layout::size(scale, layout::TOOLBAR_RADIUS),
    ensures
        r@ == button(item, b@, scale, active, ink, value),
{
    let mut r: Vec<DrawOp> = Vec::new();
    if item == ToolbarItem::Tool(active) {
        let edge: Vec<DrawOp> = drawing::rounded_rect(
            10 * b.x as i128,
            10 * b.y as i128,
            10 * b.w as i128,
            10 * b.h as i128,
            6 * radius as i128,
            10,
        );
        let fill: Vec<DrawOp> = vec![drawing::source_op(25, 45, 85, 100), DrawOp::Fill];
        r = drawing::joined(edge, fill);
        assert(r@ =~= backdrop(b@, scale));
    }
    let pen: Vec<DrawOp> = vec![
        drawing::source_op(95, 95, 95, 100),
        DrawOp::LineWidth { width: icons::chrome_line_width(scale) },
        DrawOp::LineCap { cap: Cap::Round },
        DrawOp::LineJoin { join: Join::Round },
    ];
    assert(pen@ =~= icon_pen(scale));
    let icon: Vec<DrawOp> = icons::icon_ops(item, b, scale, ink, value);
    let r: Vec<DrawOp> = drawing::joined(drawing::joined(r, pen), icon);
    assert(r@ =~= button(item, b@, scale, active, ink, value));
    r
}

/// Draws the toolbar of an output, with the button of the active tool set off, the active color,
/// and the active thickness.
pub fn draw_toolbar(
    scale: Scale,
    view: Rect,
    active_tool: Tool,
    color: Color,
    active_thickness: Ratio,
) -> (r: Vec<DrawOp>)
    requires
        scale.wf(),
        layout::toolbar_fits(view@, scale),
        active_thickness.moderate(),
    ensures
        r@ == toolbar_ops(scale, view@, active_tool, color, active_thickness),
{
    let radius: i32 = geometry::rnd(scale, layout::TOOLBAR_RADIUS);
    let (bounds, _): (Rect, Vec<(ToolbarItem, Rect)>) = layout::toolbar_layout(view, scale);
    let (btn, pad, _, offsets): (i32, i32, i32, Vec<(ToolbarItem, i32, i32)>) =
        layout::toolbar_button_offsets(scale);
    let mut r: Vec<DrawOp> = panel_ops(bounds, radius);
    let ghost start = r@;
    let mut i: usize = 0;
    while i < offsets.len()
        invariant
            0 <= i <= offsets@.len(),
            offsets@.len() == tool::TOOLBAR_LEN,
            scale.wf(),
            layout::toolbar_fits(view@, scale),
            active_thickness.moderate(),
            radius == layout::size(scale, layout::TOOLBAR_RADIUS),
            btn == layout::size(scale, layout::TOOLBAR_BUTTON),
            pad == layout::size(scale, layout::TOOLBAR_PAD),
            forall|k: int|
                0 <= k < tool::TOOLBAR_LEN ==> (#[trigger] offsets@[k]).0 == tool::toolbar()[k]
                    && offsets@[k].1 == layout::button_offset(scale, k) && offsets@[k].2
                    == layout::button_width(scale, k),
            r@ == start + buttons(i as int, scale, active_tool, color, active_thickness),
        decreases offsets@.len() - i,
    {
        let (item, ox, bw): (ToolbarItem, i32, i32) = offsets[i];
        proof {
            layout::lemma_inner_buttons(view@, scale, i as int);
        }
        let b: Rect = Rect { x: pad + ox, y: pad, w: bw, h: btn };
        r = drawing::joined(
            r,
            button_ops(item, b, scale, radius, active_tool, color, active_thickness),
        );
        assert(r@ =~= start + buttons(i + 1, scale, active_tool, color, active_thickness));
        i = i + 1;
    }
    r.push(DrawOp::Restore);
    assert(r@ =~= toolbar_ops(scale, view@, active_tool, color, active_thickness));
    r
}

// --- color wheel -----------------------------------------------------------

/// How many wedges the wheel is made of.
pub const WEDGES: i128 = 360;

/// The center of the wheel, measured from the popup's corner.
pub open spec fn inner_center(scale: Scale) -> int {
    layout::size(scale, layout::WHEEL_PAD) + layout::size(scale, layout::WHEEL_RADIUS)
}

/// Wedge `i` of the wheel, which overlaps the next one a little so that no gap shows.
pub open spec fn wedge(scale: Scale, i: int) -> Seq<DrawOp> {
    let c = ratio::px(inner_center(scale));
    let r = ratio::px(layout::size(scale, layout::WHEEL_RADIUS));
    seq![
        DrawOp::MoveTo { x: c, y: c },
        DrawOp::Arc {
            x: c,
            y: c,
            r,
            start: drawing::turn(i, WEDGES as int),
            stop: drawing::turn(i + 1, WEDGES as int),
            extra: 1,
        },
        DrawOp::ClosePath,
        DrawOp::Source {
            color: color::hsv(
                drawing::turn(i, WEDGES as int),
                Ratio { num: 1, den: 1 },
                Ratio { num: 1, den: 1 },
            ),
            alpha: 100,
        },
        DrawOp::Fill,
    ]
}

/// The first `n` wedges.
pub open spec fn wedges(n: int, scale: Scale) -> Seq<DrawOp>
    decreases n,
{
    if n <= 0 {
        seq![]
    } else {
        wedges(n - 1, scale) + wedge(scale, n - 1)
    }
}

/// The middle of the wheel fades to white, and a rim closes it.
pub open spec fn wheel_finish(scale: Scale) -> Seq<DrawOp> {
    let c = ratio::px(inner_center(scale));
    let r = ratio::px(layout::size(scale, layout::WHEEL_RADIUS));
    seq![
        drawing::circle(c, c, r),
        DrawOp::FillFade { x: c, y: c, r },
        drawing::circle(c, c, r),
        drawing::source(95, 95, 95, 100),
        DrawOp::LineWidth { width: icons::chrome_line(scale) },
        DrawOp::Stroke,
    ]
}

/// A popup moved to the origin.
pub open spec fn at_origin(area: Area) -> Area {
    Area { x: 0, y: 0, w: area.w, h: area.h }
}

/// Swatch `i`.
pub open spec fn swatch(bounds: Area, scale: Scale, i: int) -> Seq<DrawOp> {
    let area = layout::swatch_area(at_origin(bounds), scale, i);
    drawing::rounded(4 * area.x, 4 * area.y, 4 * area.w, 4 * area.h, area.w, 4) + seq![
        DrawOp::Source { color: color::presets()[i], alpha: 100 },
        DrawOp::Fill,
    ]
}

/// The first `n` swatches.
pub open spec fn swatches(n: int, bounds: Area, scale: Scale) -> Seq<DrawOp>
    decreases n,
{
    if n <= 0 {
        seq![]
    } else {
        swatches(n - 1, bounds, scale) + swatch(bounds, scale, n - 1)
    }
}

pub open spec fn wheel_ops(scale: Scale, view: Area) -> Seq<DrawOp> {
    let bounds = layout::wheel_area(view, scale);
    panel(bounds, layout::size(scale, layout::WHEEL_PAD)) + wedges(WEDGES as int, scale)
        + wheel_finish(scale) + swatches(PRESET_COUNT as int, bounds, scale) + seq![DrawOp::Restore]
}

fn wedge_ops(scale: Scale, center: i32, radius: i32, i: i128) -> (ops: Vec<DrawOp>)
    requires
        center == inner_center(scale),
        radius == layout::size(scale, layout::WHEEL_RADIUS),
        0 <= i < WEDGES,
    ensures
        ops@ == wedge(scale, i as int),
{
    let c: Ratio = ratio::px_len(center);
    let start: Ratio = Ratio { num: i, den: WEDGES };
    let stop: Ratio = Ratio { num: i + 1, den: WEDGES };
    let full: Ratio = Ratio { num: 1, den: 1 };
    proof {
        let (a, b): (int, int) = (full.den + color::magnitude(full.num as int), start.den as int);
        assert((a * b) * a == 1440) by (nonlinear_arith)
            requires
                a == 2,
                b == 360,
        ;
    }
    let ops: Vec<DrawOp> = vec![
        DrawOp::MoveTo { x: c, y: c },
        DrawOp::Arc { x: c, y: c, r: ratio::px_len(radius), start, stop, extra: 1 },
        DrawOp::ClosePath,
        DrawOp::Source { color: color::hsv_to_rgb(start, full, full), alpha: 100 },
        DrawOp::Fill,
    ];
    assert(ops@ =~= wedge(scale, i as int));
    ops
}

fn wheel_finish_ops(scale: Scale, center: i32, radius: i32) -> (ops: Vec<DrawOp>)
    requires
        scale.wf(),
        center == inner_center(scale),
        radius == layout::size(scale, layout::WHEEL_RADIUS),
    ensures
        ops@ == wheel_finish(scale),
{
    let c: Ratio = ratio::px_len(center);
    let r: Ratio = ratio::px_len(radius);
    let ops: Vec<DrawOp> = vec![
        drawing::circle_op(c, c, r),
        DrawOp::FillFade { x: c, y: c, r },
        drawing::circle_op(c, c, r),
        drawing::source_op(95, 95, 95, 100),
        DrawOp::LineWidth { width: icons::chrome_line_width(scale) },
        DrawOp::Stroke,
    ];
    assert(ops@ =~= wheel_finish(scale));
    ops
}

fn swatches_ops(bounds: Rect, scale: Scale) -> (r: Vec<DrawOp>)
    requires
        scale.wf(),
        layout::swatches_fit(at_origin(bounds@), scale),
    ensures
        r@ == swatches(PRESET_COUNT as int, bounds@, scale),
{
    let rects: Vec<Rect> = layout::preset_swatch_rects(
        Rect { x: 0, y: 0, w: bounds.w, h: bounds.h },
        scale,
    );
    let presets: [Color; 8] = color::preset_colors();
    let mut r: Vec<DrawOp> = Vec::new();
    let mut i: usize = 0;
    while i < PRESET_COUNT
        invariant
            0 <= i <= PRESET_COUNT,
            rects@.len() == PRESET_COUNT,
            presets@ == color::presets(),
            forall|k: int|
                0 <= k < PRESET_COUNT ==> (#[trigger] rects@[k])@ == layout::swatch_area(
                    at_origin(bounds@),
                    scale,
                    k,
                ),
            r@ == swatches(i as int, bounds@, scale),
        decreases PRESET_COUNT - i,
    {
        let rect: Rect = rects[i];
        assert(rects@[i as int]@ == layout::swatch_area(at_origin(bounds@), scale, i as int));
        let edge: Vec<DrawOp> = drawing::rounded_rect(
            4 * rect.x as i128,
            4 * rect.y as i128,
            4 * rect.w as i128,
            4 * rect.h as i128,
            rect.w as i128,
            4,
        );
        let preset: Color = presets[i];
        let fill: Vec<DrawOp> = vec![DrawOp::Source { color: preset, alpha: 100 }, DrawOp::Fill];
        let one: Vec<DrawOp> = drawing::joined(edge, fill);
        assert(one@ =~= swatch(bounds@, scale, i as int));
        r = drawing::joined(r, one);
        i = i + 1;
    }
    r
}

/// Draws the color wheel popup of an output: the wheel, and the swatches under it.
pub fn draw_color_wheel(scale: Scale, view: Rect) -> (r: Vec<DrawOp>)
    requires
        scale.wf(),
        layout::wheel_fits(view@, scale),
        layout::swatch_row(scale) <= i32::MAX,
    ensures
        r@ == wheel_ops(scale, view@),
{
    proof {
        layout::lemma_inner_wheel(view@, scale);
    }
    let (bounds, _, _): (Rect, (i32, i32), i32) = layout::color_wheel_layout(view, scale);
    let radius: i32 = geometry::rnd(scale, layout::WHEEL_RADIUS);
    let pad: i32 = geometry::rnd(scale, layout::WHEEL_PAD);
    let center: i32 = pad + radius;
    let mut r: Vec<DrawOp> = panel_ops(bounds, pad);
    let ghost start = r@;
    let mut i: i128 = 0;
    while i < WEDGES
        invariant
            0 <= i <= WEDGES,
            center == inner_center(scale),
            radius == layout::size(scale, layout::WHEEL_RADIUS),
            r@ == start + wedges(i as int, scale),
        decreases WEDGES - i,
    {
        r = drawing::joined(r, wedge_ops(scale, center, radius, i));
        assert(r@ =~= start + wedges(i + 1, scale));
        i = i + 1;
    }
    r = drawing::joined(r, wheel_finish_ops(scale, center, radius));
    r = drawing::joined(r, swatches_ops(bounds, scale));
    r.push(DrawOp::Restore);
    assert(r@ =~= wheel_ops(scale, view@));
    r
}

// --- thickness slider ------------------------------------------------------

/// The path of a bar with round ends: from `x0` on, `len / den` px long, `th` px high, and with
/// its middle at the height `cy`.
pub open spec fn track(x0: int, len: int, cy: int, th: int, den: int) -> Seq<DrawOp> {
    drawing::rounded(2 * den * x0, den * (2 * cy - th), 2 * len, 2 * den * th, den * th, 2 * den)
}

/// The part of the track before the handle; there is none at the thinnest stroke.
pub open spec fn filled_track(x0: int, x1: int, cy: int, th: int, f: Ratio) -> Seq<DrawOp> {
    if f.num > 0 && x1 > x0 {
        track(x0, f.num * (x1 - x0), cy, th, f.den as int) + seq![
            drawing::source(25, 45, 85, 100),
            DrawOp::Fill,
        ]
    } else {
        seq![]
    }
}

/// Where the handle stands: the fraction `f` of the way from `x0` to `x1`.
pub open spec fn handle_x(x0: int, x1: int, f: Ratio) -> Ratio {
    Ratio { num: (f.den * x0 + f.num * (x1 - x0)) as i128, den: f.den }
}

pub open spec fn slider_ops(scale: Scale, view: Area, value: Ratio) -> Seq<DrawOp> {
    let bounds = layout::slider_area(view, scale);
    let pad = layout::size(scale, layout::SLIDER_PAD);
    let handle_r = layout::size(scale, layout::SLIDER_HANDLE_R);
    let th = layout::size(scale, layout::SLIDER_TRACK_H);
    let text_h = layout::size(scale, layout::SLIDER_TEXT_H);
    let x0 = pad + handle_r;
    let x1 = bounds.w - pad - handle_r;
    let cy = pad + handle_r;
    let f = thickness::fraction(value);
    panel(bounds, pad) + track(x0, x1 - x0, cy, th, 1) + seq![
        drawing::source(40, 40, 40, 100),
        DrawOp::Fill,
    ] + filled_track(x0, x1, cy, th, f) + seq![
        drawing::circle(handle_x(x0, x1, f), ratio::px(cy), ratio::px(handle_r)),
        drawing::source(95, 95, 95, 100),
        DrawOp::Fill,
        drawing::source(95, 95, 95, 100),
        DrawOp::LabelOnLine {
            value: thickness::shown(value) as i32,
            font: ratio::logical(scale, layout::SLIDER_FONT_PX as int),
            w: ratio::px(bounds.w),
            y: Ratio { num: (10 * (pad + 2 * handle_r) + 7 * text_h) as i128, den: 10 },
        },
        DrawOp::Restore,
    ]
}

proof fn lemma_times(a: int, b: int)
    by (nonlinear_arith)
    requires
        0 <= a <= 99 * 0x7fff_ffff_ffff_ffff,
        -0x3_0000_0000 <= b <= 0x3_0000_0000,
    ensures
        -99 * 0x1_8000_0000_0000_0000_0000_0000 <= a * b <= 99 * 0x1_8000_0000_0000_0000_0000_0000,
        0 <= b ==> 0 <= a * b,
{
}

fn track_ops(x0: i128, len: i128, cy: i128, th: i128, den: i128) -> (r: Vec<DrawOp>)
    requires
        0 <= x0 <= 0x1_0000_0000,
        -99 * 0x1_8000_0000_0000_0000_0000_0000 <= len <= 99 * 0x1_8000_0000_0000_0000_0000_0000,
        0 <= cy <= 0x1_0000_0000,
        0 <= th <= 0x8000_0000,
        0 < den <= 99 * 0x7fff_ffff_ffff_ffff,
    ensures
        r@ == track(x0 as int, len as int, cy as int, th as int, den as int),
{
    proof {
        lemma_times(den as int, x0 as int);
        lemma_times(den as int, 2 * cy - th);
        lemma_times(den as int, th as int);
        assert(2 * den * x0 == 2 * (den * x0)) by (nonlinear_arith);
        assert(2 * den * th == 2 * (den * th)) by (nonlinear_arith);
    }
    drawing::rounded_rect(
        2 * (den * x0),
        den * (2 * cy - th),
        2 * len,
        2 * (den * th),
        den * th,
        2 * den,
    )
}

fn filled_track_ops(x0: i32, x1: i32, cy: i32, th: i32, f: Ratio) -> (r: Vec<DrawOp>)
    requires
        0 <= x0,
        0 <= cy,
        0 <= th,
        0 <= f.num <= f.den,
        0 < f.den <= thickness::THICKNESS_RANGE * i64::MAX,
    ensures
        r@ == filled_track(x0 as int, x1 as int, cy as int, th as int, f),
{
    if f.num > 0 && x1 > x0 {
        let span: i128 = x1 as i128 - x0 as i128;
        proof {
            lemma_times(f.num as int, span as int);
        }
        let fill: Vec<DrawOp> = vec![drawing::source_op(25, 45, 85, 100), DrawOp::Fill];
        drawing::joined(track_ops(x0 as i128, f.num * span, cy as i128, th as i128, f.den), fill)
    } else {
        vec![]
    }
}

fn handle_at(x0: i32, x1: i32, f: Ratio) -> (r: Ratio)
    requires
        0 <= f.num <= f.den,
        0 < f.den <= thickness::THICKNESS_RANGE * i64::MAX,
    ensures
        r == handle_x(x0 as int, x1 as int, f),
{
    let span: i128 = x1 as i128 - x0 as i128;
    proof {
        lemma_times(f.den as int, x0 as int);
        lemma_times(f.num as int, span as int);
    }
    Ratio { num: f.den * x0 as i128 + f.num * span, den: f.den }
}

/// Draws the thickness slider popup of an output, with the handle at `value`.
pub fn draw_thickness_slider(scale: Scale, view: Rect, value: Ratio) -> (r: Vec<DrawOp>)
    requires
        scale.wf(),
        layout::slider_fits(view@, scale),
        value.moderate(),
    ensures
        r@ == slider_ops(scale, view@, value),
{
    proof {
        layout::lemma_inner_slider(view@, scale);
    }
    let (bounds, _, _, _): (Rect, i32, i32, i32) = layout::thickness_slider_layout(view, scale);
    let pad: i32 = geometry::rnd(scale, layout::SLIDER_PAD);
    let handle_r: i32 = geometry::rnd(scale, layout::SLIDER_HANDLE_R);
    let th: i32 = geometry::rnd(scale, layout::SLIDER_TRACK_H);
    let text_h: i32 = geometry::rnd(scale, layout::SLIDER_TEXT_H);
    let x0: i32 = pad + handle_r;
    let x1: i32 = bounds.w - pad - handle_r;
    let cy: i32 = pad + handle_r;
    let f: Ratio = thickness::slider_fraction(value);
    let start: Vec<DrawOp> = drawing::joined(
        panel_ops(bounds, pad),
        track_ops(x0 as i128, x1 as i128 - x0 as i128, cy as i128, th as i128, 1),
    );
    let gray: Vec<DrawOp> = vec![drawing::source_op(40, 40, 40, 100), DrawOp::Fill];
    let bar: Vec<DrawOp> = drawing::joined(
        drawing::joined(start, gray),
        filled_track_ops(x0, x1, cy, th, f),
    );
    let base: i128 = 10 * (pad as i128 + 2 * handle_r as i128) + 7 * text_h as i128;
    let end: Vec<DrawOp> = vec![
        drawing::circle_op(handle_at(x0, x1, f), ratio::px_len(cy), ratio::px_len(handle_r)),
        drawing::source_op(95, 95, 95, 100),
        DrawOp::Fill,
        drawing::source_op(95, 95, 95, 100),
        DrawOp::LabelOnLine {
            value: thickness::rounded(value),
            font: ratio::logical_len(scale, layout::SLIDER_FONT_PX),
            w: ratio::px_len(bounds.w),
            y: Ratio { num: base, den: 10 },
        },
        DrawOp::Restore,
    ];
    let r: Vec<DrawOp> = drawing::joined(bar, end);
    assert(r@ =~= slider_ops(scale, view@, value));
    r
}

// --- what is drawn and what is hit -----------------------------------------

/// An area measured from the corner of another.
pub open spec fn moved(area: Area, corner: Area) -> Area {
    Area { x: corner.x + area.x, y: corner.y + area.y, w: area.w, h: area.h }
}

/// Buttons, swatches and the wheel are drawn exactly where a press on them is looked for.
pub proof fn law_drawn_where_hit(view: Area, scale: Scale, i: int)
    requires
        scale.wf(),
    ensures
        moved(inner_button(scale, i), layout::toolbar_area(view, scale)) == layout::button_area(
            view,
            scale,
            i,
        ),
        moved(
            layout::swatch_area(at_origin(layout::wheel_area(view, scale)), scale, i),
            layout::wheel_area(view, scale),
        ) == layout::swatch_area(layout::wheel_area(view, scale), scale, i),
        layout::wheel_area(view, scale).x + inner_center(scale) == layout::wheel_center(
            view,
            scale,
        ).0,
        layout::wheel_area(view, scale).y + inner_center(scale) == layout::wheel_center(
            view,
            scale,
        ).1,
{
}

/// The handle of the slider is drawn under the pointer that picked the thickness, wherever on the
/// track that was.
pub proof fn law_handle_is_under_pointer(view: Area, scale: Scale, x: int)
    requires
        scale.wf(),
        layout::slider_fits(view, scale),
        layout::slider_track(view, scale).0 <= x <= layout::slider_track(view, scale).1,
        layout::slider_track(view, scale).0 < layout::slider_track(view, scale).1,
    ensures
        ({
            let (x0, x1, _) = layout::slider_track(view, scale);
            let bounds = layout::slider_area(view, scale);
            let f = thickness::fraction(thickness::slider_value(x, x0, x1));
            let handle = handle_x(x0 - bounds.x, x1 - bounds.x, f);
            &&& handle.wf()
            &&& handle.num + bounds.x * handle.den == x * handle.den
        }),
{
    layout::lemma_inner_slider(view, scale);
    let (x0, x1, _) = layout::slider_track(view, scale);
    let b: int = layout::slider_area(view, scale).x;
    let value = thickness::slider_value(x, x0, x1);
    let f = thickness::fraction(value);
    let n: int = x1 - x0;
    let o: int = x - x0;
    assert(f.num == 99 * o && f.den == 99 * n);
    let d: int = f.den as int;
    lemma_times(d, x0 - b);
    lemma_times(f.num as int, n);
    assert((99 * o) * n == o * (99 * n)) by (nonlinear_arith);
    assert(d * (x0 - b) + o * d + b * d == (x0 + o) * d) by (nonlinear_arith);
}

// --- what is on the toolbar and the popups ---------------------------------

/// One list of steps occurs in another.
pub open spec fn occurs(part: Seq<DrawOp>, all: Seq<DrawOp>) -> bool {
    exists|k: int| #[trigger] occurs_at(part, all, k)
}

/// One list of steps occurs in another, from step `k` on.
pub open spec fn occurs_at(part: Seq<DrawOp>, all: Seq<DrawOp>, k: int) -> bool {
    0 <= k && k + part.len() <= all.len() && all.subrange(k, k + part.len()) == part
}

/// What occurs in one of three lists occurs in all of them, one after the other.
proof fn lemma_occurs(part: Seq<DrawOp>, before: Seq<DrawOp>, mid: Seq<DrawOp>, behind: Seq<DrawOp>)
    requires
        occurs(part, mid),
    ensures
        occurs(part, before + mid + behind),
{
    let k = choose|k: int| occurs_at(part, mid, k);
    let all = before + mid + behind;
    let at = before.len() + k;
    assert(all.subrange(at, at + part.len()) =~= mid.subrange(k, k + part.len()));
    assert(occurs_at(part, all, at));
}

proof fn lemma_occurs_itself(part: Seq<DrawOp>)
    ensures
        occurs(part, part),
{
    assert(part.subrange(0, part.len() as int) =~= part);
    assert(occurs_at(part, part, 0));
}

/// The steps start with the background of a piece of chrome at `area`: the origin moves to its
/// corner, and nearly opaque black fills its round-cornered rectangle.
pub open spec fn backs(ops: Seq<DrawOp>, area: Area, r: int) -> bool {
    &&& ops.len() >= 11
    &&& ops[0] == DrawOp::Save
    &&& ops[1] == (DrawOp::Translate { dx: area.x as i64, dy: area.y as i64 })
    &&& ops.subrange(2, 8) == drawing::rounded(0, 0, area.w, area.h, r, 1)
    &&& ops[8] == (DrawOp::Source {
        color: Color::Mix { red: 10, green: 10, blue: 10, full: 100 },
        alpha: 92,
    })
    &&& ops[9] == DrawOp::Fill
    &&& ops.last() == DrawOp::Restore
}

proof fn lemma_backs(area: Area, r: int, rest: Seq<DrawOp>)
    ensures
        backs(panel(area, r) + rest + seq![DrawOp::Restore], area, r),
        panel(area, r).len() == 10,
{
    let ops = panel(area, r) + rest + seq![DrawOp::Restore];
    assert(ops.subrange(2, 8) =~= drawing::rounded(0, 0, area.w, area.h, r, 1));
}

proof fn lemma_buttons_hold(n: int, i: int, scale: Scale, active: Tool, ink: Color, value: Ratio)
    requires
        0 <= i < n,
    ensures
        occurs(
            button(tool::toolbar()[i], inner_button(scale, i), scale, active, ink, value),
            buttons(n, scale, active, ink, value),
        ),
    decreases n,
{
    let one = button(tool::toolbar()[i], inner_button(scale, i), scale, active, ink, value);
    let most = buttons(n - 1, scale, active, ink, value);
    let last = button(tool::toolbar()[n - 1], inner_button(scale, n - 1), scale, active, ink, value);
    let none = Seq::<DrawOp>::empty();
    let all = buttons(n, scale, active, ink, value);
    if i == n - 1 {
        lemma_occurs_itself(one);
        lemma_occurs(one, most, one, none);
        assert(most + one + none =~= all);
    } else {
        lemma_buttons_hold(n - 1, i, scale, active, ink, value);
        lemma_occurs(one, none, most, last);
        assert(none + most + last =~= all);
    }
}

/// How many steps the icon of button `i` takes.
spec fn icon_len(i: int) -> int {
    seq![7int, 22, 2, 3, 7, 4, 5, 19, 6, 2][i]
}

proof fn lemma_button_len(i: int, b: Area, scale: Scale, active: Tool, ink: Color, value: Ratio)
    requires
        0 <= i < 10,
    ensures
        button(tool::toolbar()[i], b, scale, active, ink, value).len() == 4 + icon_len(i)
            + if tool::toolbar()[i] == ToolbarItem::Tool(active) {
            8int
        } else {
            0int
        },
{
    let item = tool::toolbar()[i];
    assert(icons::icon(item, b, scale, ink, value).len() == icon_len(i));
    assert(backdrop(b, scale).len() == 8);
    assert(icon_pen(scale).len() == 4);
}

/// How many steps the first `n` buttons take: the backdrop of the active tool adds to those from
/// its button on.
proof fn lemma_buttons_len(n: int, scale: Scale, active: Tool, ink: Color, value: Ratio)
    requires
        0 <= n <= 10,
    ensures
        buttons(n, scale, active, ink, value).len() == seq![
            0int,
            11,
            37,
            43,
            50,
            61,
            69,
            78,
            101,
            111,
            117,
        ][n] + if n > tool::position(ToolbarItem::Tool(active)) {
            8int
        } else {
            0int
        },
    decreases n,
{
    if n > 0 {
        lemma_buttons_len(n - 1, scale, active, ink, value);
        lemma_button_len(n - 1, inner_button(scale, n - 1), scale, active, ink, value);
        tool::lemma_positions(ToolbarItem::Tool(active));
        let all = buttons(n, scale, active, ink, value);
        let most = buttons(n - 1, scale, active, ink, value);
        let item = tool::toolbar()[n - 1];
        let one = button(item, inner_button(scale, n - 1), scale, active, ink, value);
        assert(all == most + one);
        assert(all.len() == most.len() + one.len());
    }
}

/// What ends a part of a list occurs in the list.
proof fn lemma_tail_occurs(ops: Seq<DrawOp>, under: Seq<DrawOp>, glyph: Seq<DrawOp>)
    requires
        occurs(under + glyph, ops),
    ensures
        occurs(glyph, ops),
{
    let one = under + glyph;
    let k = choose|k: int| occurs_at(one, ops, k);
    let j = under.len();
    assert(one.subrange(j as int, (j + glyph.len()) as int) =~= glyph);
    assert(ops.subrange(k + j, k + j + glyph.len()) =~= ops.subrange(k, k + one.len()).subrange(
        j as int,
        (j + glyph.len()) as int,
    ));
    assert(occurs_at(glyph, ops, k + j));
}

proof fn lemma_regrouped(a: Seq<DrawOp>, b: Seq<DrawOp>, c: Seq<DrawOp>)
    ensures
        (a + b) + c == a + (b + c),
{
    assert((a + b) + c =~= a + (b + c));
}

/// The toolbar lies on its background and shows all ten buttons: each has its icon, drawn with a
/// light round pen at the place where a press on it is looked for. The button of the active tool,
/// and no other, has a blue backdrop under its icon.
#[verifier::rlimit(60)]
#[verifier::spinoff_prover]
pub proof fn law_toolbar_shows_every_button(
    scale: Scale,
    view: Area,
    active: Tool,
    ink: Color,
    value: Ratio,
    i: int,
)
    requires
        scale.wf(),
        0 <= i < 10,
    ensures
        ({
            let ops = toolbar_ops(scale, view, active, ink, value);
            let bar = layout::toolbar_area(view, scale);
            let at = layout::button_area(view, scale, i);
            let b = Area { x: at.x - bar.x, y: at.y - bar.y, w: at.w, h: at.h };
            let light = Color::Mix { red: 95, green: 95, blue: 95, full: 100 };
            let blue = Color::Mix { red: 25, green: 45, blue: 85, full: 100 };
            let round = 6 * geometry::scaled(scale, 8);
            let pen = seq![
                DrawOp::Source { color: light, alpha: 100 },
                DrawOp::LineWidth { width: icons::chrome_line(scale) },
                DrawOp::LineCap { cap: Cap::Round },
                DrawOp::LineJoin { join: Join::Round },
            ];
            let glyph = pen + icons::icon(tool::toolbar()[i], b, scale, ink, value);
            let under = drawing::rounded(10 * b.x, 10 * b.y, 10 * b.w, 10 * b.h, round, 10) + seq![
                DrawOp::Source { color: blue, alpha: 100 },
                DrawOp::Fill,
            ];
            &&& ops.len() == 136
            &&& backs(ops, bar, geometry::scaled(scale, 8))
            &&& occurs(glyph, ops)
            &&& tool::toolbar()[i] == ToolbarItem::Tool(active) ==> occurs(under + glyph, ops)
        }),
{
    let ops = toolbar_ops(scale, view, active, ink, value);
    let bar = layout::toolbar_area(view, scale);
    let r = layout::size(scale, layout::TOOLBAR_RADIUS);
    let all = buttons(10, scale, active, ink, value);
    let b = inner_button(scale, i);
    law_drawn_where_hit(view, scale, i);
    lemma_backs(bar, r, all);
    lemma_buttons_len(10, scale, active, ink, value);
    tool::lemma_positions(ToolbarItem::Tool(active));
    lemma_buttons_hold(10, i, scale, active, ink, value);
    let item = tool::toolbar()[i];
    let one = button(item, b, scale, active, ink, value);
    let end = seq![DrawOp::Restore];
    lemma_occurs(one, panel(bar, r), all, end);
    let icon = icons::icon(item, b, scale, ink, value);
    let under = if item == ToolbarItem::Tool(active) {
        backdrop(b, scale)
    } else {
        seq![]
    };
    lemma_regrouped(under, icon_pen(scale), icon);
    lemma_tail_occurs(ops, under, icon_pen(scale) + icon);
}

proof fn lemma_wedges(n: int, scale: Scale, i: int)
    requires
        0 <= n,
    ensures
        wedges(n, scale).len() == 5 * n,
        0 <= i < n ==> wedges(n, scale).subrange(5 * i, 5 * i + 5) == wedge(scale, i),
    decreases n,
{
    if n > 0 {
        lemma_wedges(n - 1, scale, i);
        let (all, most) = (wedges(n, scale), wedges(n - 1, scale));
        if i == n - 1 {
            assert(all.subrange(5 * i, 5 * i + 5) =~= wedge(scale, i));
        } else if 0 <= i < n {
            assert(all.subrange(5 * i, 5 * i + 5) =~= most.subrange(5 * i, 5 * i + 5));
        }
    }
}

proof fn lemma_swatches(n: int, bounds: Area, scale: Scale, i: int)
    requires
        0 <= n,
    ensures
        swatches(n, bounds, scale).len() == 8 * n,
        0 <= i < n ==> swatches(n, bounds, scale).subrange(8 * i, 8 * i + 8) == swatch(
            bounds,
            scale,
            i,
        ),
    decreases n,
{
    if n > 0 {
        lemma_swatches(n - 1, bounds, scale, i);
        let (all, most) = (swatches(n, bounds, scale), swatches(n - 1, bounds, scale));
        if i == n - 1 {
            assert(all.subrange(8 * i, 8 * i + 8) =~= swatch(bounds, scale, i));
        } else if 0 <= i < n {
            assert(all.subrange(8 * i, 8 * i + 8) =~= most.subrange(8 * i, 8 * i + 8));
        }
    }
}

/// The color wheel lies on its background. Wedge `i` spans the angle from `i` to `i + 1` degrees
/// around the center at which a press is looked for, reaches to the radius of the wheel, and has the
/// full color of the hue `i / 360`.
pub proof fn law_wheel_shows_every_hue(scale: Scale, view: Area, i: int)
    requires
        scale.wf(),
        layout::wheel_fits(view, scale),
        0 <= i < 360,
    ensures
        ({
            let ops = wheel_ops(scale, view);
            let popup = layout::wheel_area(view, scale);
            let center = layout::wheel_center(view, scale);
            let (x, y) = (
                Ratio { num: (center.0 - popup.x) as i128, den: 1 },
                Ratio { num: (center.1 - popup.y) as i128, den: 1 },
            );
            let r = Ratio { num: geometry::scaled(scale, 90) as i128, den: 1 };
            let hue = Ratio { num: i as i128, den: 360 };
            let next = Ratio { num: (i + 1) as i128, den: 360 };
            let one = Ratio { num: 1, den: 1 };
            let k = 10 + 5 * i;
            &&& ops.len() == 1881
            &&& backs(ops, popup, geometry::scaled(scale, 12))
            &&& ops[k] == (DrawOp::MoveTo { x, y })
            &&& ops[k + 1] == (DrawOp::Arc { x, y, r, start: hue, stop: next, extra: 1 })
            &&& ops[k + 2] == DrawOp::ClosePath
            &&& ops[k + 3] == (DrawOp::Source { color: color::hsv(hue, one, one), alpha: 100 })
            &&& ops[k + 4] == DrawOp::Fill
            &&& ops[1810] == (DrawOp::Arc {
                x,
                y,
                r,
                start: Ratio { num: 0, den: 1 },
                stop: one,
                extra: 0,
            })
            &&& ops[1811] == (DrawOp::FillFade { x, y, r })
            &&& ops[1812] == ops[1810]
            &&& ops[1813] == (DrawOp::Source {
                color: Color::Mix { red: 95, green: 95, blue: 95, full: 100 },
                alpha: 100,
            })
            &&& ops[1814] == (DrawOp::LineWidth { width: icons::chrome_line(scale) })
            &&& ops[1815] == DrawOp::Stroke
        }),
{
    let ops = wheel_ops(scale, view);
    let popup = layout::wheel_area(view, scale);
    let r = layout::size(scale, layout::WHEEL_PAD);
    law_drawn_where_hit(view, scale, 0);
    lemma_wedges(360, scale, i);
    lemma_swatches(8, popup, scale, 0);
    let rest = wedges(360, scale) + wheel_finish(scale) + swatches(8, popup, scale);
    lemma_backs(popup, r, rest);
    assert(ops =~= panel(popup, r) + rest + seq![DrawOp::Restore]);
    let k = 10 + 5 * i;
    assert(ops.subrange(k, k + 5) =~= wedges(360, scale).subrange(5 * i, 5 * i + 5));
    assert(ops[k] == wedge(scale, i)[0] && ops[k + 1] == wedge(scale, i)[1]) by {
        assert(ops.subrange(k, k + 5)[0] == ops[k]);
        assert(ops.subrange(k, k + 5)[1] == ops[k + 1]);
    }
    assert(ops[k + 2] == wedge(scale, i)[2] && ops[k + 3] == wedge(scale, i)[3]) by {
        assert(ops.subrange(k, k + 5)[2] == ops[k + 2]);
        assert(ops.subrange(k, k + 5)[3] == ops[k + 3]);
    }
    assert(ops[k + 4] == wedge(scale, i)[4]) by {
        assert(ops.subrange(k, k + 5)[4] == ops[k + 4]);
    }
    assert(ops.subrange(1810, 1816) =~= wheel_finish(scale));
    assert(forall|j: int|
        0 <= j < 6 ==> ops[1810 + j] == #[trigger] ops.subrange(1810, 1816)[j]);
}

/// Every swatch is filled with its color where a press on it is looked for; a quarter of its side is
/// the radius of its corners.
pub proof fn law_wheel_shows_every_swatch(scale: Scale, view: Area, i: int)
    requires
        scale.wf(),
        0 <= i < 8,
    ensures
        ({
            let ops = wheel_ops(scale, view);
            let popup = layout::wheel_area(view, scale);
            let at = layout::swatch_area(popup, scale, i);
            let (x, y) = (at.x - popup.x, at.y - popup.y);
            let k = 1816 + 8 * i;
            &&& ops.len() == 1881
            &&& ops.subrange(k, k + 6) == drawing::rounded(
                4 * x,
                4 * y,
                4 * at.w,
                4 * at.h,
                at.w,
                4,
            )
            &&& ops[k + 6] == (DrawOp::Source { color: color::presets()[i], alpha: 100 })
            &&& ops[k + 7] == DrawOp::Fill
        }),
{
    let ops = wheel_ops(scale, view);
    let popup = layout::wheel_area(view, scale);
    let r = layout::size(scale, layout::WHEEL_PAD);
    law_drawn_where_hit(view, scale, i);
    lemma_wedges(360, scale, 0);
    lemma_swatches(8, popup, scale, i);
    lemma_backs(popup, r, seq![]);
    let k = 1816 + 8 * i;
    assert(ops.subrange(k, k + 8) =~= swatches(8, popup, scale).subrange(8 * i, 8 * i + 8));
    assert(ops.subrange(k, k + 8) == swatch(popup, scale, i));
    assert(ops.subrange(k, k + 6) =~= swatch(popup, scale, i).subrange(0, 6)) by {
        assert(ops.subrange(k, k + 8).subrange(0, 6) =~= ops.subrange(k, k + 6));
    }
    let at = layout::swatch_area(at_origin(popup), scale, i);
    assert(swatch(popup, scale, i).subrange(0, 6) =~= drawing::rounded(
        4 * at.x,
        4 * at.y,
        4 * at.w,
        4 * at.h,
        at.w,
        4,
    ));
    assert(ops[k + 6] == swatch(popup, scale, i)[6]) by {
        assert(ops.subrange(k, k + 8)[6] == ops[k + 6]);
    }
    assert(ops[k + 7] == swatch(popup, scale, i)[7]) by {
        assert(ops.subrange(k, k + 8)[7] == ops[k + 7]);
    }
}

/// The slider lies on its background. Its track is a gray bar of 6 logical px between the ends that
/// a press is measured by, and its handle a light disc of 8 logical px, as far along the track as
/// the thickness is along the range from 1 to 100. The number below it is the whole number of px
/// that is nearest to the thickness.
pub proof fn law_slider_shows_the_thickness(scale: Scale, view: Area, value: Ratio)
    requires
        scale.wf(),
        layout::slider_fits(view, scale),
        thickness::in_range(value),
    ensures
        ({
            let ops = slider_ops(scale, view, value);
            let n = ops.len();
            let popup = layout::slider_area(view, scale);
            let (left, right, height) = layout::slider_track(view, scale);
            let (x0, x1, cy) = (left - popup.x, right - popup.x, height - popup.y);
            let th = geometry::scaled(scale, 6);
            let gray = Color::Mix { red: 40, green: 40, blue: 40, full: 100 };
            let light = Color::Mix { red: 95, green: 95, blue: 95, full: 100 };
            &&& backs(ops, popup, geometry::scaled(scale, 12))
            &&& ops.subrange(10, 16) == drawing::rounded(
                2 * x0,
                2 * cy - th,
                2 * (x1 - x0),
                2 * th,
                th,
                2,
            )
            &&& ops[16] == (DrawOp::Source { color: gray, alpha: 100 })
            &&& ops[17] == DrawOp::Fill
            &&& n == if value.num > value.den && x1 > x0 { 32int } else { 24int }
            &&& ops[n - 6] matches DrawOp::Arc { x, y, r, start, stop, extra } && {
                &&& x.den == 99 * value.den
                &&& x.num == x0 * x.den + (value.num - value.den) * (x1 - x0)
                &&& y == (Ratio { num: cy as i128, den: 1 })
                &&& r == (Ratio { num: geometry::scaled(scale, 8) as i128, den: 1 })
                &&& start == (Ratio { num: 0, den: 1 }) && stop == (Ratio { num: 1, den: 1 })
                &&& extra == 0
            }
            &&& ops[n - 5] == (DrawOp::Source { color: light, alpha: 100 })
            &&& ops[n - 4] == DrawOp::Fill
            &&& ops[n - 3] == (DrawOp::Source { color: light, alpha: 100 })
            &&& ops[n - 2] matches DrawOp::LabelOnLine { value: shown, font, w, y } && {
                &&& y.den == 10 && y.num == 10 * (geometry::scaled(scale, 12) + 2
                    * geometry::scaled(scale, 8)) + 7 * geometry::scaled(scale, 22)
                &&& -value.den < 2 * (shown * value.den - value.num) <= value.den
                &&& font.num == 13 * scale.num && font.den == scale.den
                &&& w == (Ratio { num: popup.w as i128, den: 1 })
            }
        }),
{
    let ops = slider_ops(scale, view, value);
    layout::lemma_inner_slider(view, scale);
    let popup = layout::slider_area(view, scale);
    let (left, right, height) = layout::slider_track(view, scale);
    let (x0, x1, cy) = (left - popup.x, right - popup.x, height - popup.y);
    let th = layout::size(scale, layout::SLIDER_TRACK_H);
    let pad = layout::size(scale, layout::SLIDER_PAD);
    let f = thickness::fraction(value);
    assert(f.num == value.num - value.den && f.den == 99 * value.den);
    let bar = track(x0, x1 - x0, cy, th, 1);
    lemma_backs(popup, pad, seq![]);
    assert(panel(popup, pad) =~= (panel(popup, pad) + Seq::<DrawOp>::empty() + seq![
        DrawOp::Restore,
    ]).take(10));
    let rest = ops.subrange(10, ops.len() - 1);
    assert(ops =~= panel(popup, pad) + rest + seq![DrawOp::Restore]);
    lemma_backs(popup, pad, rest);
    assert(1 * (2 * cy - th) == 2 * cy - th && 1 * th == th);
    assert(ops.subrange(10, 16) =~= bar);
    lemma_times(f.den as int, x0);
    lemma_times(f.num as int, x1 - x0);
    let d: int = f.den as int;
    assert(d * x0 == x0 * d) by (nonlinear_arith);
    thickness::law_shown_in_range(value);
    geometry::law_nearest(value.num as int, value.den as int);
    geometry::law_halves_go_away_from_zero(value.num as int, value.den as int);
}

/// Above the thinnest stroke, a blue bar of the track's height and place fills the track from its
/// start to the handle.
pub proof fn law_slider_is_filled_up_to_the_handle(scale: Scale, view: Area, value: Ratio)
    requires
        scale.wf(),
        layout::slider_fits(view, scale),
        thickness::in_range(value),
        value.num > value.den,
        layout::slider_track(view, scale).0 < layout::slider_track(view, scale).1,
    ensures
        ({
            let ops = slider_ops(scale, view, value);
            let popup = layout::slider_area(view, scale);
            let (left, right, height) = layout::slider_track(view, scale);
            let (x0, cy) = (left - popup.x, height - popup.y);
            let th = geometry::scaled(scale, 6);
            let d = 99 * value.den;
            let len = (value.num - value.den) * (right - left);
            &&& ops.subrange(18, 24) == drawing::rounded(
                2 * d * x0,
                d * (2 * cy - th),
                2 * len,
                2 * d * th,
                d * th,
                2 * d,
            )
            &&& ops[24] == (DrawOp::Source {
                color: Color::Mix { red: 25, green: 45, blue: 85, full: 100 },
                alpha: 100,
            })
            &&& ops[25] == DrawOp::Fill
        }),
{
    let ops = slider_ops(scale, view, value);
    let popup = layout::slider_area(view, scale);
    let (left, right, height) = layout::slider_track(view, scale);
    let (x0, x1, cy) = (left - popup.x, right - popup.x, height - popup.y);
    let th = layout::size(scale, layout::SLIDER_TRACK_H);
    let pad = layout::size(scale, layout::SLIDER_PAD);
    let f = thickness::fraction(value);
    assert(f.num == value.num - value.den && f.den == 99 * value.den);
    lemma_backs(popup, pad, seq![]);
    assert(ops.subrange(18, 24) =~= track(x0, f.num * (x1 - x0), cy, th, f.den as int));
}

} // verus!
