//! Where the toolbar, its buttons and the popups stand.

use crate::render::color::PRESET_COUNT;
use crate::render::geometry;
use crate::render::geometry::{Area, Rect, Scale};
use crate::render::tool;
use crate::render::tool::ToolbarItem;
use vstd::prelude::*;

verus! {

// Quick-access color swatches (logical px).
pub const PRESET_GAP: i32 = 4;

pub const PRESET_TOP_GAP: i32 = 10;

// Toolbar layout (logical px).
pub const TOOLBAR_BUTTON: i32 = 40;

pub const TOOLBAR_THICK_W: i32 = 54;

pub const TOOLBAR_GAP: i32 = 4;

pub const TOOLBAR_SEP: i32 = 18;

pub const TOOLBAR_PAD: i32 = 6;

pub const TOOLBAR_TOP: i32 = 8;

pub const TOOLBAR_RADIUS: i32 = 8;

pub const TOOLBAR_FONT_PX: i32 = 13;

// Color wheel popup (logical px).
pub const WHEEL_RADIUS: i32 = 90;

pub const WHEEL_PAD: i32 = 12;

// Thickness slider popup (logical px).
pub const SLIDER_WIDTH: i32 = 170;

pub const SLIDER_PAD: i32 = 12;

pub const SLIDER_TRACK_H: i32 = 6;

pub const SLIDER_HANDLE_R: i32 = 8;

pub const SLIDER_TEXT_H: i32 = 22;

pub const SLIDER_FONT_PX: i32 = 13;

pub const POPUP_GAP: i32 = 6;

/// A logical size in device pixels.
pub open spec fn size(scale: Scale, v: i32) -> int {
    geometry::scaled(scale, v as int)
}

/// How far button `i` starts from the first one: a button and a gap for each before it, and the
/// separator behind the first.
pub open spec fn button_offset(scale: Scale, i: int) -> int {
    i * (size(scale, TOOLBAR_BUTTON) + size(scale, TOOLBAR_GAP)) + if i >= 1 {
        size(scale, TOOLBAR_SEP)
    } else {
        0
    }
}

/// The last button, for the thickness, is wider than the others.
pub open spec fn button_width(scale: Scale, i: int) -> int {
    if i == 9 {
        size(scale, TOOLBAR_THICK_W)
    } else {
        size(scale, TOOLBAR_BUTTON)
    }
}

/// From the first button's left edge to the last one's right edge.
pub open spec fn inner_width(scale: Scale) -> int {
    button_offset(scale, 9) + button_width(scale, 9)
}

pub open spec fn toolbar_width(scale: Scale) -> int {
    inner_width(scale) + 2 * size(scale, TOOLBAR_PAD)
}

pub open spec fn toolbar_height(scale: Scale) -> int {
    size(scale, TOOLBAR_BUTTON) + 2 * size(scale, TOOLBAR_PAD)
}

/// The toolbar is centered at the top of the output; where it is wider than the output, it starts
/// at the output's left edge.
pub open spec fn toolbar_area(view: Area, scale: Scale) -> Area {
    Area {
        x: view.x + geometry::max(geometry::half(view.w - toolbar_width(scale)), 0),
        y: view.y + size(scale, TOOLBAR_TOP),
        w: toolbar_width(scale),
        h: toolbar_height(scale),
    }
}

/// Button `i` of the toolbar.
pub open spec fn button_area(view: Area, scale: Scale, i: int) -> Area {
    let bar = toolbar_area(view, scale);
    Area {
        x: bar.x + size(scale, TOOLBAR_PAD) + button_offset(scale, i),
        y: bar.y + size(scale, TOOLBAR_PAD),
        w: button_width(scale, i),
        h: size(scale, TOOLBAR_BUTTON),
    }
}

/// The toolbar is representable.
pub open spec fn toolbar_fits(view: Area, scale: Scale) -> bool {
    i32::MIN <= view.w - toolbar_width(scale) && toolbar_area(view, scale).fits()
}

proof fn lemma_sizes(scale: Scale)
    requires
        scale.wf(),
    ensures
        forall|v: i32| 0 <= v ==> 0 <= #[trigger] size(scale, v) <= i32::MAX,
{
    assert forall|v: i32| 0 <= v implies 0 <= #[trigger] size(scale, v) <= i32::MAX by {
        geometry::lemma_scaled_monotone(scale, 0, v as int);
    }
}

/// Per-button x offset (from the inner content origin) and width, plus button height, padding,
/// and total inner width. All physical px.
pub fn toolbar_button_offsets(scale: Scale) -> (r: (i32, i32, i32, Vec<(ToolbarItem, i32, i32)>))
    requires
        scale.wf(),
        inner_width(scale) <= i32::MAX,
    ensures
        r.0 == size(scale, TOOLBAR_BUTTON),
        r.1 == size(scale, TOOLBAR_PAD),
        r.2 == inner_width(scale),
        r.3@.len() == tool::TOOLBAR_LEN,
        forall|i: int|
            0 <= i < tool::TOOLBAR_LEN ==> (#[trigger] r.3@[i]).0 == tool::toolbar()[i] && r.3@[i].1
                == button_offset(scale, i) && r.3@[i].2 == button_width(scale, i),
{
    proof {
        lemma_sizes(scale);
    }
    let btn: i32 = geometry::rnd(scale, TOOLBAR_BUTTON);
    let thick_w: i32 = geometry::rnd(scale, TOOLBAR_THICK_W);
    let gap: i32 = geometry::rnd(scale, TOOLBAR_GAP);
    let sep: i32 = geometry::rnd(scale, TOOLBAR_SEP);
    let pad: i32 = geometry::rnd(scale, TOOLBAR_PAD);

    let items = tool::toolbar_items();
    let mut offsets: Vec<(ToolbarItem, i32, i32)> = Vec::new();
    let mut x: i32 = 0;
    let mut i: usize = 0;
    while i < tool::TOOLBAR_LEN
        invariant
            0 <= i <= tool::TOOLBAR_LEN,
            items@ == tool::toolbar(),
            items@.len() == tool::TOOLBAR_LEN,
            btn == size(scale, TOOLBAR_BUTTON),
            thick_w == size(scale, TOOLBAR_THICK_W),
            gap == size(scale, TOOLBAR_GAP),
            sep == size(scale, TOOLBAR_SEP),
            0 <= btn,
            0 <= thick_w,
            0 <= gap,
            0 <= sep,
            inner_width(scale) <= i32::MAX,
            x == if i == 0 {
                0
            } else {
                button_offset(scale, i - 1) + button_width(scale, i - 1)
            },
            offsets@.len() == i,
            forall|k: int|
                0 <= k < i ==> (#[trigger] offsets@[k]).0 == tool::toolbar()[k] && offsets@[k].1
                    == button_offset(scale, k) && offsets@[k].2 == button_width(scale, k),
        decreases tool::TOOLBAR_LEN - i,
    {
        proof {
            let g: int = btn + gap;
            assert(i >= 1 ==> i * g == (i - 1) * g + g) by (nonlinear_arith);
            assert(i * g + (9 - i) * g == 9 * g) by (nonlinear_arith);
            assert(0 <= i * g && 0 <= (9 - i) * g) by (nonlinear_arith)
                requires
                    0 <= i <= 9,
                    0 <= g,
            ;
            assert(0 * g == 0);
            assert(i < 9 ==> (9 - i) * g >= g) by (nonlinear_arith)
                requires
                    0 <= i <= 9,
                    0 <= g,
            ;
        }
        if i > 0 {
            x = x + gap;
        }
        if i == 1 {
            x = x + sep;
        }
        assert(x == button_offset(scale, i as int));
        let item: ToolbarItem = items[i];
        let w: i32 = if item == ToolbarItem::Thickness {
            thick_w
        } else {
            btn
        };
        assert(w == button_width(scale, i as int));
        offsets.push((item, x, w));
        x = x + w;
        i = i + 1;
    }
    (btn, pad, x, offsets)
}

/// Lays the toolbar out centered at the top of `view` (the active output, in canvas coords).
pub fn toolbar_layout(view: Rect, scale: Scale) -> (r: (Rect, Vec<(ToolbarItem, Rect)>))
    requires
        scale.wf(),
        toolbar_fits(view@, scale),
    ensures
        r.0@ == toolbar_area(view@, scale),
        r.1@.len() == tool::TOOLBAR_LEN,
        forall|i: int|
            0 <= i < tool::TOOLBAR_LEN ==> (#[trigger] r.1@[i]).0 == tool::toolbar()[i]
                && r.1@[i].1@ == button_area(view@, scale, i),
{
    proof {
        lemma_sizes(scale);
        lemma_offsets(scale);
    }
    let top: i32 = geometry::rnd(scale, TOOLBAR_TOP);
    let (btn, pad, inner_w, offsets): (i32, i32, i32, Vec<(ToolbarItem, i32, i32)>) =
        toolbar_button_offsets(scale);

    let w: i32 = inner_w + pad * 2;
    let h: i32 = btn + pad * 2;
    let spare: i32 = geometry::half_i32(view.w - w);
    let x: i32 = view.x + if spare >= 0 { spare } else { 0 };
    let y: i32 = view.y + top;

    let bounds: Rect = Rect { x, y, w, h };
    let by: i32 = y + pad;
    let mut buttons: Vec<(ToolbarItem, Rect)> = Vec::new();
    let mut i: usize = 0;
    while i < tool::TOOLBAR_LEN
        invariant
            0 <= i <= tool::TOOLBAR_LEN,
            offsets@.len() == tool::TOOLBAR_LEN,
            bounds@ == toolbar_area(view@, scale),
            toolbar_area(view@, scale).fits(),
            x == bounds.x,
            pad == size(scale, TOOLBAR_PAD),
            btn == size(scale, TOOLBAR_BUTTON),
            by == bounds.y + pad,
            0 <= pad,
            forall|k: int|
                0 <= k < tool::TOOLBAR_LEN ==> 0 <= #[trigger] button_offset(scale, k)
                    && button_offset(scale, k) + button_width(scale, k) <= inner_width(scale) && 0
                    <= button_width(scale, k),
            forall|k: int|
                0 <= k < tool::TOOLBAR_LEN ==> (#[trigger] offsets@[k]).0 == tool::toolbar()[k]
                    && offsets@[k].1 == button_offset(scale, k) && offsets@[k].2 == button_width(
                    scale,
                    k,
                ),
            buttons@.len() == i,
            forall|k: int|
                0 <= k < i ==> (#[trigger] buttons@[k]).0 == tool::toolbar()[k] && buttons@[k].1@
                    == button_area(view@, scale, k),
        decreases tool::TOOLBAR_LEN - i,
    {
        let (item, ox, bw): (ToolbarItem, i32, i32) = offsets[i];
        assert(button_offset(scale, i as int) >= 0);
        buttons.push((item, Rect { x: x + pad + ox, y: by, w: bw, h: btn }));
        i = i + 1;
    }
    (bounds, buttons)
}

/// Buttons follow each other without overlap, inside the inner width.
proof fn lemma_offsets(scale: Scale)
    requires
        scale.wf(),
    ensures
        forall|i: int|
            0 <= i < tool::TOOLBAR_LEN ==> 0 <= #[trigger] button_offset(scale, i) && button_offset(
                scale,
                i,
            ) + button_width(scale, i) <= inner_width(scale) && 0 <= button_width(scale, i),
        forall|i: int, k: int|
            0 <= i < k < tool::TOOLBAR_LEN ==> #[trigger] button_offset(scale, i) + button_width(
                scale,
                i,
            ) <= #[trigger] button_offset(scale, k),
{
    lemma_sizes(scale);
    let g: int = size(scale, TOOLBAR_BUTTON) + size(scale, TOOLBAR_GAP);
    assert forall|i: int, k: int| 0 <= i < k < tool::TOOLBAR_LEN implies #[trigger] button_offset(
        scale,
        i,
    ) + button_width(scale, i) <= #[trigger] button_offset(scale, k) by {
        assert(i * g + g <= k * g) by (nonlinear_arith)
            requires
                i + 1 <= k,
                0 <= g,
        ;
    }
    assert forall|i: int| 0 <= i < tool::TOOLBAR_LEN implies 0 <= #[trigger] button_offset(scale, i)
        && button_offset(scale, i) + button_width(scale, i) <= inner_width(scale) && 0
        <= button_width(scale, i) by {
        assert(0 <= i * g) by (nonlinear_arith)
            requires
                0 <= i,
                0 <= g,
        ;
        if i < 9 {
            assert(button_offset(scale, i) + button_width(scale, i) <= button_offset(scale, 9));
        }
    }
}

/// The button of an item.
pub open spec fn item_area(view: Area, scale: Scale, item: ToolbarItem) -> Area {
    button_area(view, scale, tool::position(item))
}

/// The button of an item of the toolbar.
pub fn toolbar_button_rect(view: Rect, scale: Scale, item: ToolbarItem) -> (r: Rect)
    requires
        scale.wf(),
        toolbar_fits(view@, scale),
    ensures
        r@ == item_area(view@, scale, item),
{
    proof {
        tool::lemma_positions(item);
    }
    let (_, buttons): (Rect, Vec<(ToolbarItem, Rect)>) = toolbar_layout(view, scale);
    let mut i: usize = 0;
    while i < buttons.len()
        invariant
            0 <= i <= buttons@.len(),
            buttons@.len() == tool::TOOLBAR_LEN,
            0 <= tool::position(item) < tool::TOOLBAR_LEN,
            tool::toolbar()[tool::position(item)] == item,
            i <= tool::position(item),
            forall|k: int|
                0 <= k < tool::TOOLBAR_LEN && #[trigger] tool::toolbar()[k] == item ==> k
                    == tool::position(item),
            forall|k: int|
                0 <= k < tool::TOOLBAR_LEN ==> (#[trigger] buttons@[k]).0 == tool::toolbar()[k]
                    && buttons@[k].1@ == button_area(view@, scale, k),
        decreases buttons@.len() - i,
    {
        let (it, rect): (ToolbarItem, Rect) = buttons[i];
        assert(buttons@[i as int].0 == tool::toolbar()[i as int]);
        if it == item {
            return rect;
        }
        i = i + 1;
    }
    Rect { x: 0, y: 0, w: 0, h: 0 }
}

/// A popup of width `w` is centered under its button, and shifted into the output where it would
/// stick out of it.
pub open spec fn popup_x(view: Area, button: Area, w: int) -> int {
    geometry::clamp(
        button.x + geometry::half(button.w) - geometry::half(w),
        view.x,
        view.x + geometry::max(view.w - w, 0),
    )
}

/// A popup starts a little below its button.
pub open spec fn popup_y(scale: Scale, button: Area) -> int {
    button.y + button.h + size(scale, POPUP_GAP)
}

/// A number of 32 bits.
pub open spec fn narrow(v: int) -> bool {
    i32::MIN <= v <= i32::MAX
}

/// The sums that the place of a popup is computed by are representable.
pub open spec fn popup_fits(view: Area, scale: Scale, button: Area, w: int) -> bool {
    &&& narrow(view.w - w)
    &&& narrow(view.x + geometry::max(view.w - w, 0))
    &&& narrow(button.x + geometry::half(button.w))
    &&& narrow(button.x + geometry::half(button.w) - geometry::half(w))
    &&& narrow(button.y + button.h)
    &&& narrow(popup_y(scale, button))
}

/// Positions a popup of width `w` centered under `button`, clamped within `view`.
fn popup_position(view: Rect, scale: Scale, button: Rect, w: i32) -> (r: (i32, i32))
    requires
        scale.wf(),
        popup_fits(view@, scale, button@, w as int),
    ensures
        r.0 == popup_x(view@, button@, w as int),
        r.1 == popup_y(scale, button@),
{
    proof {
        lemma_sizes(scale);
    }
    let gap: i32 = geometry::rnd(scale, POPUP_GAP);
    let room: i32 = view.w - w;
    let min_x: i32 = view.x;
    let max_x: i32 = view.x + if room >= 0 { room } else { 0 };
    let middle: i32 = button.x + geometry::half_i32(button.w);
    let x: i32 = geometry::clamp_i32(middle - geometry::half_i32(w), min_x, max_x);
    let y: i32 = button.y + button.h + gap;
    (x, y)
}

/// The side of a swatch: an eighth of the wheel's width after the gaps, and never nothing.
pub open spec fn swatch_size(scale: Scale) -> int {
    let spare = 2 * size(scale, WHEEL_RADIUS) - 7 * size(scale, PRESET_GAP);
    if spare >= 8 {
        spare / 8
    } else {
        1
    }
}

/// The gaps between the swatches are representable.
pub open spec fn swatch_fits(scale: Scale) -> bool {
    2 * size(scale, WHEEL_RADIUS) <= i32::MAX && 7 * size(scale, PRESET_GAP) <= i32::MAX
}

fn preset_swatch_metrics(scale: Scale, radius: i32) -> (r: (i32, i32))
    requires
        scale.wf(),
        radius == size(scale, WHEEL_RADIUS),
        swatch_fits(scale),
    ensures
        r.0 == swatch_size(scale),
        r.0 >= 1,
        r.1 == size(scale, PRESET_GAP),
{
    proof {
        lemma_sizes(scale);
    }
    let gap: i32 = geometry::rnd(scale, PRESET_GAP);
    let n: i32 = PRESET_COUNT as i32;
    let inner: i32 = radius * 2;
    assert(gap * (n - 1) == 7 * gap) by (nonlinear_arith)
        requires
            n == 8,
    ;
    let spare: i32 = inner - gap * (n - 1);
    let sw: i32 = if spare >= n {
        spare / n
    } else {
        1
    };
    (sw, gap)
}

/// The width of the row of swatches.
pub open spec fn swatch_row(scale: Scale) -> int {
    8 * swatch_size(scale) + 7 * size(scale, PRESET_GAP)
}

/// Swatch `i` of a color wheel popup: the row is centered under the wheel.
pub open spec fn swatch_area(bounds: Area, scale: Scale, i: int) -> Area {
    Area {
        x: bounds.x + geometry::half(bounds.w - swatch_row(scale)) + i * (swatch_size(scale)
            + size(scale, PRESET_GAP)),
        y: bounds.y + size(scale, WHEEL_PAD) + 2 * size(scale, WHEEL_RADIUS) + size(
            scale,
            PRESET_TOP_GAP,
        ),
        w: swatch_size(scale),
        h: swatch_size(scale),
    }
}

/// The row of swatches is representable.
pub open spec fn swatches_fit(bounds: Area, scale: Scale) -> bool {
    let x0 = bounds.x + geometry::half(bounds.w - swatch_row(scale));
    &&& swatch_fits(scale)
    &&& swatch_row(scale) <= i32::MAX
    &&& i32::MIN <= bounds.w - swatch_row(scale) <= i32::MAX
    &&& i32::MIN <= x0
    &&& x0 + swatch_row(scale) <= i32::MAX
    &&& swatch_area(bounds, scale, 0).y <= i32::MAX
}

/// The swatches of a color wheel popup, from left to right.
pub fn preset_swatch_rects(bounds: Rect, scale: Scale) -> (r: Vec<Rect>)
    requires
        scale.wf(),
        swatches_fit(bounds@, scale),
    ensures
        r@.len() == PRESET_COUNT,
        forall|i: int|
            0 <= i < PRESET_COUNT ==> (#[trigger] r@[i])@ == swatch_area(bounds@, scale, i),
{
    proof {
        lemma_sizes(scale);
    }
    let pad: i32 = geometry::rnd(scale, WHEEL_PAD);
    let radius: i32 = geometry::rnd(scale, WHEEL_RADIUS);
    let top_gap: i32 = geometry::rnd(scale, PRESET_TOP_GAP);
    let (sw, gap): (i32, i32) = preset_swatch_metrics(scale, radius);
    let n: i32 = PRESET_COUNT as i32;
    assert(sw * n == 8 * sw && gap * (n - 1) == 7 * gap) by (nonlinear_arith)
        requires
            n == 8,
    ;
    let row_w: i32 = sw * n + gap * (n - 1);
    let x0: i32 = bounds.x + geometry::half_i32(bounds.w - row_w);
    let y: i32 = bounds.y + pad + radius * 2 + top_gap;
    let mut rects: Vec<Rect> = Vec::new();
    let mut i: i32 = 0;
    while i < n
        invariant
            0 <= i <= n,
            n == PRESET_COUNT,
            1 <= sw,
            0 <= gap,
            sw == swatch_size(scale),
            gap == size(scale, PRESET_GAP),
            swatch_row(scale) <= i32::MAX,
            x0 == bounds.x + geometry::half(bounds.w - swatch_row(scale)),
            x0 + swatch_row(scale) <= i32::MAX,
            y == swatch_area(bounds@, scale, 0).y,
            rects@.len() == i,
            forall|k: int|
                0 <= k < i ==> (#[trigger] rects@[k])@ == swatch_area(bounds@, scale, k),
        decreases n - i,
    {
        proof {
            let g: int = sw + gap;
            assert(0 <= i * g <= 7 * g) by (nonlinear_arith)
                requires
                    0 <= i <= 7,
                    0 <= g,
            ;
        }
        rects.push(Rect { x: x0 + i * (sw + gap), y, w: sw, h: sw });
        i = i + 1;
    }
    rects
}

/// The color wheel popup, under the color button.
pub open spec fn wheel_area(view: Area, scale: Scale) -> Area {
    let button = item_area(view, scale, ToolbarItem::Color);
    let w = 2 * size(scale, WHEEL_RADIUS) + 2 * size(scale, WHEEL_PAD);
    Area {
        x: popup_x(view, button, w),
        y: popup_y(scale, button),
        w,
        h: 2 * size(scale, WHEEL_PAD) + 2 * size(scale, WHEEL_RADIUS) + size(scale, PRESET_TOP_GAP)
            + swatch_size(scale),
    }
}

/// The center of the wheel in its popup.
pub open spec fn wheel_center(view: Area, scale: Scale) -> (int, int) {
    let bounds = wheel_area(view, scale);
    let inset = size(scale, WHEEL_PAD) + size(scale, WHEEL_RADIUS);
    (bounds.x + inset, bounds.y + inset)
}

/// The color wheel popup is representable.
pub open spec fn wheel_fits(view: Area, scale: Scale) -> bool {
    let bounds = wheel_area(view, scale);
    &&& toolbar_fits(view, scale)
    &&& swatch_fits(scale)
    &&& popup_fits(view, scale, item_area(view, scale, ToolbarItem::Color), bounds.w)
    &&& bounds.fits()
}

/// Returns (bounds, center, radius).
pub fn color_wheel_layout(view: Rect, scale: Scale) -> (r: (Rect, (i32, i32), i32))
    requires
        scale.wf(),
        wheel_fits(view@, scale),
    ensures
        r.0@ == wheel_area(view@, scale),
        r.1.0 == wheel_center(view@, scale).0,
        r.1.1 == wheel_center(view@, scale).1,
        r.2 == size(scale, WHEEL_RADIUS),
{
    proof {
        lemma_sizes(scale);
        lemma_button_fits(view@, scale, tool::position(ToolbarItem::Color));
    }
    let radius: i32 = geometry::rnd(scale, WHEEL_RADIUS);
    let pad: i32 = geometry::rnd(scale, WHEEL_PAD);
    let top_gap: i32 = geometry::rnd(scale, PRESET_TOP_GAP);
    let (sw, _): (i32, i32) = preset_swatch_metrics(scale, radius);

    let w: i32 = radius * 2 + pad * 2;
    let h: i32 = pad + radius * 2 + top_gap + sw + pad;
    let button: Rect = toolbar_button_rect(view, scale, ToolbarItem::Color);
    let (x, y): (i32, i32) = popup_position(view, scale, button, w);

    let bounds: Rect = Rect { x, y, w, h };
    let center: (i32, i32) = (x + pad + radius, y + pad + radius);
    (bounds, center, radius)
}

/// The thickness slider popup, under the thickness button.
pub open spec fn slider_area(view: Area, scale: Scale) -> Area {
    let button = item_area(view, scale, ToolbarItem::Thickness);
    let w = size(scale, SLIDER_WIDTH) + 2 * size(scale, SLIDER_PAD);
    Area {
        x: popup_x(view, button, w),
        y: popup_y(scale, button),
        w,
        h: 2 * size(scale, SLIDER_PAD) + 2 * size(scale, SLIDER_HANDLE_R) + size(
            scale,
            SLIDER_TEXT_H,
        ),
    }
}

/// Where the slider's track starts, where it ends, and its height on the screen.
pub open spec fn slider_track(view: Area, scale: Scale) -> (int, int, int) {
    let bounds = slider_area(view, scale);
    let inset = size(scale, SLIDER_PAD) + size(scale, SLIDER_HANDLE_R);
    (bounds.x + inset, bounds.x + bounds.w - inset, bounds.y + inset)
}

/// The thickness slider popup is representable.
pub open spec fn slider_fits(view: Area, scale: Scale) -> bool {
    let bounds = slider_area(view, scale);
    &&& toolbar_fits(view, scale)
    &&& popup_fits(view, scale, item_area(view, scale, ToolbarItem::Thickness), bounds.w)
    &&& bounds.fits()
    &&& slider_track(view, scale).0 <= i32::MAX
    &&& i32::MIN <= slider_track(view, scale).1
    &&& i32::MIN <= slider_track(view, scale).1 - slider_track(view, scale).0
}

/// Returns (bounds, track_x0, track_x1, track_cy).
pub fn thickness_slider_layout(view: Rect, scale: Scale) -> (r: (Rect, i32, i32, i32))
    requires
        scale.wf(),
        slider_fits(view@, scale),
    ensures
        r.0@ == slider_area(view@, scale),
        r.1 == slider_track(view@, scale).0,
        r.2 == slider_track(view@, scale).1,
        r.3 == slider_track(view@, scale).2,
{
    proof {
        lemma_sizes(scale);
        lemma_button_fits(view@, scale, tool::position(ToolbarItem::Thickness));
    }
    let pad: i32 = geometry::rnd(scale, SLIDER_PAD);
    let handle_r: i32 = geometry::rnd(scale, SLIDER_HANDLE_R);
    let text_h: i32 = geometry::rnd(scale, SLIDER_TEXT_H);
    let inner_w: i32 = geometry::rnd(scale, SLIDER_WIDTH);

    let w: i32 = inner_w + pad * 2;
    let h: i32 = pad * 2 + handle_r * 2 + text_h;
    let button: Rect = toolbar_button_rect(view, scale, ToolbarItem::Thickness);
    let (x, y): (i32, i32) = popup_position(view, scale, button, w);

    let track_x0: i32 = x + pad + handle_r;
    let track_x1: i32 = x + w - pad - handle_r;
    let track_cy: i32 = y + pad + handle_r;
    (Rect { x, y, w, h }, track_x0, track_x1, track_cy)
}

/// Each button lies in the toolbar, and is representable with it.
proof fn lemma_button_fits(view: Area, scale: Scale, i: int)
    requires
        scale.wf(),
        0 <= i < tool::TOOLBAR_LEN,
    ensures
        button_area(view, scale, i).within(toolbar_area(view, scale)),
        toolbar_area(view, scale).fits() ==> button_area(view, scale, i).fits(),
{
    lemma_sizes(scale);
    lemma_offsets(scale);
    assert(button_offset(scale, i) >= 0);
}

/// The buttons are representable when measured from the corner of a representable toolbar, too.
pub proof fn lemma_inner_buttons(view: Area, scale: Scale, i: int)
    requires
        scale.wf(),
        toolbar_fits(view, scale),
        0 <= i < tool::TOOLBAR_LEN,
    ensures
        0 <= button_offset(scale, i),
        0 <= size(scale, TOOLBAR_PAD) + button_offset(scale, i) <= i32::MAX,
        0 <= size(scale, TOOLBAR_PAD) <= i32::MAX,
{
    lemma_sizes(scale);
    lemma_offsets(scale);
    assert(button_offset(scale, i) >= 0);
}

/// The parts of a representable wheel popup are representable when measured from its corner.
pub proof fn lemma_inner_wheel(view: Area, scale: Scale)
    requires
        scale.wf(),
        wheel_fits(view, scale),
        swatch_row(scale) <= i32::MAX,
    ensures
        0 <= size(scale, WHEEL_PAD),
        0 <= size(scale, WHEEL_RADIUS),
        size(scale, WHEEL_PAD) + size(scale, WHEEL_RADIUS) <= i32::MAX,
        swatches_fit(
            Area { x: 0, y: 0, w: wheel_area(view, scale).w, h: wheel_area(view, scale).h },
            scale,
        ),
{
    lemma_sizes(scale);
}

/// The ends of a representable slider's track are representable when measured from its popup's
/// corner.
pub proof fn lemma_inner_slider(view: Area, scale: Scale)
    requires
        scale.wf(),
        slider_fits(view, scale),
    ensures
        0 <= size(scale, SLIDER_PAD),
        0 <= size(scale, SLIDER_HANDLE_R),
        0 <= size(scale, SLIDER_TRACK_H) <= i32::MAX,
        0 <= size(scale, SLIDER_TEXT_H) <= i32::MAX,
        size(scale, SLIDER_PAD) + size(scale, SLIDER_HANDLE_R) <= i32::MAX,
        0 <= slider_area(view, scale).w - size(scale, SLIDER_PAD),
        i32::MIN <= slider_area(view, scale).w - size(scale, SLIDER_PAD) - size(
            scale,
            SLIDER_HANDLE_R,
        ),
{
    lemma_sizes(scale);
}

/// The toolbar and both popups are representable.
pub open spec fn chrome_fits(view: Area, scale: Scale) -> bool {
    &&& wheel_fits(view, scale)
    &&& slider_fits(view, scale)
    &&& swatches_fit(wheel_area(view, scale), scale)
}

/// A rectangle of 64-bit numbers.
struct Wide {
    x: i64,
    y: i64,
    w: i64,
    h: i64,
}

impl Wide {
    spec fn area(self) -> Area {
        Area { x: self.x as int, y: self.y as int, w: self.w as int, h: self.h as int }
    }

    spec fn moderate(self) -> bool {
        &&& -0x100_0000_0000 <= self.x <= 0x100_0000_0000
        &&& -0x100_0000_0000 <= self.y <= 0x100_0000_0000
        &&& -0x100_0000_0000 <= self.w <= 0x100_0000_0000
        &&& -0x100_0000_0000 <= self.h <= 0x100_0000_0000
    }

    fn fits(&self) -> (r: bool)
        requires
            self.moderate(),
        ensures
            r == self.area().fits(),
    {
        -0x8000_0000 <= self.x && -0x8000_0000 <= self.y && 0 <= self.w && 0 <= self.h && self.x
            + self.w <= 0x7fff_ffff && self.y + self.h <= 0x7fff_ffff && self.w <= 0x7fff_ffff
            && self.h <= 0x7fff_ffff
    }
}

/// A size in device pixels as a 64-bit number.
fn wide_size(scale: Scale, v: i32) -> (r: i64)
    requires
        scale.wf(),
        0 <= v,
    ensures
        r == size(scale, v),
        0 <= r <= 0x7fff_ffff,
{
    proof {
        geometry::lemma_scaled_monotone(scale, 0, v as int);
    }
    geometry::rnd(scale, v) as i64
}

fn is_narrow(v: i64) -> (r: bool)
    ensures
        r == narrow(v as int),
{
    -0x8000_0000 <= v && v <= 0x7fff_ffff
}

/// The popup of `w` by `h` under a button, and whether its place is representable.
fn wide_popup(view: Rect, button: Wide, gap: i64, w: i64, h: i64, Ghost(scale): Ghost<Scale>) -> (r:
    (Wide, bool))
    requires
        scale.wf(),
        button.moderate(),
        0 <= button.w,
        0 <= w <= 0x10_0000_0000,
        0 <= h <= 0x10_0000_0000,
        gap == size(scale, POPUP_GAP),
        0 <= gap <= 0x7fff_ffff,
    ensures
        r.0.area() == (Area {
            x: popup_x(view@, button.area(), w as int),
            y: popup_y(scale, button.area()),
            w: w as int,
            h: h as int,
        }),
        r.1 == popup_fits(view@, scale, button.area(), w as int),
        -0x8000_0000 <= r.0.x <= 0x1_0000_0000,
        -0x300_0000_0000 <= r.0.y <= 0x300_0000_0000,
{
    let room: i64 = view.w as i64 - w;
    let most: i64 = view.x as i64 + if room >= 0 { room } else { 0 };
    let want: i64 = button.x + button.w / 2 - w / 2;
    let x: i64 = if want < view.x as i64 {
        view.x as i64
    } else if want > most {
        most
    } else {
        want
    };
    let y: i64 = button.y + button.h + gap;
    let middle: i64 = button.x + button.w / 2;
    let under: i64 = button.y + button.h;
    let ok: bool = is_narrow(room) && is_narrow(most) && is_narrow(middle) && is_narrow(want)
        && is_narrow(under) && is_narrow(y);
    (Wide { x, y, w, h }, ok)
}

/// The color button, the thickness button, and whether the toolbar is representable.
fn wide_bar(view: Rect, scale: Scale) -> (r: (Wide, Wide, bool))
    requires
        scale.wf(),
    ensures
        r.0.area() == item_area(view@, scale, ToolbarItem::Color),
        r.1.area() == item_area(view@, scale, ToolbarItem::Thickness),
        r.2 == toolbar_fits(view@, scale),
        r.0.moderate(),
        r.1.moderate(),
        0 <= r.0.w,
        0 <= r.1.w,
{
    let btn: i64 = wide_size(scale, TOOLBAR_BUTTON);
    let thick_w: i64 = wide_size(scale, TOOLBAR_THICK_W);
    let pad: i64 = wide_size(scale, TOOLBAR_PAD);
    let pitch: i64 = btn + wide_size(scale, TOOLBAR_GAP);
    let sep: i64 = wide_size(scale, TOOLBAR_SEP);

    let w: i64 = 9 * pitch + sep + thick_w + 2 * pad;
    let h: i64 = btn + 2 * pad;
    let spare: i64 = view.w as i64 - w;
    let shift: i64 = if spare >= 0 {
        spare / 2
    } else {
        0
    };
    let x: i64 = view.x as i64 + shift;
    let y: i64 = view.y as i64 + wide_size(scale, TOOLBAR_TOP);
    let bar: Wide = Wide { x, y, w, h };
    assert(bar.area() == toolbar_area(view@, scale));
    let ok: bool = -0x8000_0000 <= spare && bar.fits();
    let color: Wide = Wide { x: x + pad + (8 * pitch + sep), y: y + pad, w: btn, h: btn };
    let thick: Wide = Wide { x: x + pad + (9 * pitch + sep), y: y + pad, w: thick_w, h: btn };
    (color, thick, ok)
}

/// Whether the color wheel popup under a button is representable with its swatches.
fn wheel_is_fine(view: Rect, scale: Scale, button: Wide) -> (r: bool)
    requires
        scale.wf(),
        button.moderate(),
        0 <= button.w,
        button.area() == item_area(view@, scale, ToolbarItem::Color),
        toolbar_fits(view@, scale),
    ensures
        r == (wheel_fits(view@, scale) && swatches_fit(wheel_area(view@, scale), scale)),
{
    let gap: i64 = wide_size(scale, POPUP_GAP);
    let radius: i64 = wide_size(scale, WHEEL_RADIUS);
    let pad: i64 = wide_size(scale, WHEEL_PAD);
    let top_gap: i64 = wide_size(scale, PRESET_TOP_GAP);
    let swatch_gap: i64 = wide_size(scale, PRESET_GAP);
    let rest: i64 = 2 * radius - 7 * swatch_gap;
    let sw: i64 = if rest >= 8 {
        rest / 8
    } else {
        1
    };
    assert(sw == swatch_size(scale));
    let swatch_ok: bool = 2 * radius <= 0x7fff_ffff && 7 * swatch_gap <= 0x7fff_ffff;
    let (wheel, wheel_ok): (Wide, bool) = wide_popup(
        view,
        button,
        gap,
        2 * radius + 2 * pad,
        2 * pad + 2 * radius + top_gap + sw,
        Ghost(scale),
    );
    assert(wheel.area() == wheel_area(view@, scale));
    let row_w: i64 = 8 * sw + 7 * swatch_gap;
    assert(row_w == swatch_row(scale));
    let room: i64 = wheel.w - row_w;
    let x0: i64 = wheel.x + if room >= 0 { room / 2 } else { -((-room) / 2) };
    let row_y: i64 = wheel.y + pad + 2 * radius + top_gap;
    assert(row_y == swatch_area(wheel.area(), scale, 0).y);
    let row_ok: bool = row_w <= 0x7fff_ffff && -0x8000_0000 <= room && room <= 0x7fff_ffff
        && -0x8000_0000 <= x0 && x0 + row_w <= 0x7fff_ffff && row_y <= 0x7fff_ffff;
    swatch_ok && wheel_ok && wheel.fits() && row_ok
}

/// Whether the thickness slider popup under a button is representable.
fn slider_is_fine(view: Rect, scale: Scale, button: Wide) -> (r: bool)
    requires
        scale.wf(),
        button.moderate(),
        0 <= button.w,
        button.area() == item_area(view@, scale, ToolbarItem::Thickness),
        toolbar_fits(view@, scale),
    ensures
        r == slider_fits(view@, scale),
{
    let gap: i64 = wide_size(scale, POPUP_GAP);
    let pad: i64 = wide_size(scale, SLIDER_PAD);
    let handle_r: i64 = wide_size(scale, SLIDER_HANDLE_R);
    let inner_w: i64 = wide_size(scale, SLIDER_WIDTH);
    let text_h: i64 = wide_size(scale, SLIDER_TEXT_H);
    let (slider, slider_ok): (Wide, bool) = wide_popup(
        view,
        button,
        gap,
        inner_w + 2 * pad,
        2 * pad + 2 * handle_r + text_h,
        Ghost(scale),
    );
    assert(slider.area() == slider_area(view@, scale));
    let track_x0: i64 = slider.x + pad + handle_r;
    let track_x1: i64 = slider.x + slider.w - pad - handle_r;
    let track_ok: bool = track_x0 <= 0x7fff_ffff && -0x8000_0000 <= track_x1 && -0x8000_0000
        <= track_x1 - track_x0;
    slider_ok && slider.fits() && track_ok
}

/// Whether the toolbar and both popups are representable on an output.
pub fn can_lay_out(view: Rect, scale: Scale) -> (r: bool)
    requires
        scale.wf(),
    ensures
        r == chrome_fits(view@, scale),
{
    let (color, thick, ok): (Wide, Wide, bool) = wide_bar(view, scale);
    ok && wheel_is_fine(view, scale, color) && slider_is_fine(view, scale, thick)
}

/// The buttons lie in the toolbar and do not overlap.
pub proof fn law_buttons_are_apart(view: Area, scale: Scale, i: int, k: int)
    requires
        scale.wf(),
        0 <= i < k < tool::TOOLBAR_LEN,
    ensures
        button_area(view, scale, i).within(toolbar_area(view, scale)),
        button_area(view, scale, k).within(toolbar_area(view, scale)),
        button_area(view, scale, i).apart(button_area(view, scale, k)),
{
    lemma_button_fits(view, scale, i);
    lemma_button_fits(view, scale, k);
    lemma_offsets(scale);
    assert(button_offset(scale, i) + button_width(scale, i) <= button_offset(scale, k));
}

/// A toolbar that fits into the output is centered in it: the space to its left and the space to
/// its right differ by one pixel at most.
pub proof fn law_toolbar_is_centered(view: Area, scale: Scale)
    requires
        scale.wf(),
        toolbar_width(scale) <= view.w,
    ensures
        view.x <= toolbar_area(view, scale).x,
        toolbar_area(view, scale).x + toolbar_width(scale) <= view.x + view.w,
        ({
            let left = toolbar_area(view, scale).x - view.x;
            let right = view.x + view.w - (toolbar_area(view, scale).x + toolbar_width(scale));
            left <= right <= left + 1
        }),
{
}

/// A popup that is no wider than the output does not stick out of it to either side. It starts
/// right under the toolbar, which it does not cover.
pub proof fn law_popups_stay_on_output(view: Area, scale: Scale)
    requires
        scale.wf(),
    ensures
        wheel_area(view, scale).w <= view.w ==> view.x <= wheel_area(view, scale).x && wheel_area(
            view,
            scale,
        ).x + wheel_area(view, scale).w <= view.x + view.w,
        slider_area(view, scale).w <= view.w ==> view.x <= slider_area(view, scale).x
            && slider_area(view, scale).x + slider_area(view, scale).w <= view.x + view.w,
        wheel_area(view, scale).y == toolbar_area(view, scale).y + toolbar_height(scale),
        slider_area(view, scale).y == toolbar_area(view, scale).y + toolbar_height(scale),
        wheel_area(view, scale).apart(toolbar_area(view, scale)),
        slider_area(view, scale).apart(toolbar_area(view, scale)),
{
    lemma_sizes(scale);
    assert(POPUP_GAP == TOOLBAR_PAD);
}

/// The swatches of a color wheel popup do not overlap. Unless the wheel is too small to hold
/// them, they lie inside the popup and below the wheel.
pub proof fn law_swatches_are_apart(view: Area, scale: Scale, i: int, k: int)
    requires
        scale.wf(),
        0 <= i < k < PRESET_COUNT,
    ensures
        swatch_area(wheel_area(view, scale), scale, i).apart(
            swatch_area(wheel_area(view, scale), scale, k),
        ),
        8 + 7 * size(scale, PRESET_GAP) <= 2 * size(scale, WHEEL_RADIUS) ==> swatch_area(
            wheel_area(view, scale),
            scale,
            i,
        ).within(wheel_area(view, scale)) && swatch_area(
            wheel_area(view, scale),
            scale,
            k,
        ).within(wheel_area(view, scale)),
        swatch_area(wheel_area(view, scale), scale, i).y >= wheel_center(view, scale).1 + size(
            scale,
            WHEEL_RADIUS,
        ),
{
    lemma_sizes(scale);
    let sw: int = swatch_size(scale);
    let g: int = sw + size(scale, PRESET_GAP);
    assert(i * g + g <= k * g && 0 <= i * g && k * g <= 7 * g) by (nonlinear_arith)
        requires
            0 <= i,
            i + 1 <= k <= 7,
            0 <= g,
    ;
}

// --- measures --------------------------------------------------------------

/// The toolbar measured in logical px: buttons of 40 with gaps of 4 between them, a further 18
/// behind the first, a last button of 54, and 6 on all sides; it stands 8 below the output's top
/// edge, and starts at the output's left edge where it is too wide to be centered.
pub proof fn law_toolbar_measures(view: Area, scale: Scale)
    requires
        scale.wf(),
    ensures
        ({
            let px = |v: int| geometry::scaled(scale, v);
            let bar = toolbar_area(view, scale);
            let at = |i: int| button_area(view, scale, i);
            &&& bar.y == view.y + px(8)
            &&& bar.h == px(40) + 2 * px(6)
            &&& bar.w == 2 * px(6) + 9 * px(40) + 9 * px(4) + px(18) + px(54)
            &&& bar.w > view.w ==> bar.x == view.x
            &&& at(0).x == bar.x + px(6)
            &&& at(1).x == at(0).x + px(40) + px(4) + px(18)
            &&& forall|i: int|
                1 <= i < 9 ==> #[trigger] button_area(view, scale, i + 1).x == at(i).x + px(40)
                    + px(4)
            &&& forall|i: int|
                0 <= i < 10 ==> (#[trigger] button_area(view, scale, i)).y == bar.y + px(6)
                    && at(i).h == px(40) && at(i).w == px(
                    if i < 9 {
                        40
                    } else {
                        54
                    },
                )
        }),
{
    let g: int = size(scale, TOOLBAR_BUTTON) + size(scale, TOOLBAR_GAP);
    assert forall|i: int| 1 <= i < 9 implies #[trigger] button_area(view, scale, i + 1).x
        == button_area(view, scale, i).x + geometry::scaled(scale, 40) + geometry::scaled(
        scale,
        4,
    ) by {
        assert((i + 1) * g == i * g + g) by (nonlinear_arith);
    }
}

/// A popup is centered under its button, up to a pixel, unless an edge of the output is in the way.
pub proof fn law_popup_is_under_its_button(view: Area, button: Area, w: int)
    requires
        0 <= button.w,
        0 <= w,
    ensures
        ({
            let x = popup_x(view, button, w);
            let off = (2 * x + w) - (2 * button.x + button.w);
            let last = if w <= view.w {
                view.x + view.w - w
            } else {
                view.x
            };
            &&& view.x <= x <= last
            &&& x > view.x ==> off <= 1
            &&& x < last ==> off >= -1
        }),
{
}

/// The color wheel popup measured in logical px: a disc of radius 90 with 12 around it, and 10
/// below it the swatches. It hangs 6 below the ninth button.
pub proof fn law_wheel_measures(view: Area, scale: Scale)
    requires
        scale.wf(),
    ensures
        ({
            let px = |v: int| geometry::scaled(scale, v);
            let popup = wheel_area(view, scale);
            let button = button_area(view, scale, 8);
            let c = wheel_center(view, scale);
            let side = swatch_area(popup, scale, 0).w;
            &&& popup.w == 2 * px(90) + 2 * px(12)
            &&& popup.h == 2 * px(90) + 2 * px(12) + px(10) + side
            &&& popup.x == popup_x(view, button, popup.w)
            &&& popup.y == button.y + button.h + px(6)
            &&& c.0 == popup.x + px(12) + px(90)
            &&& c.1 == popup.y + px(12) + px(90)
        }),
{
}

/// The swatches are equal squares, 4 logical px apart, in a row that is centered in its popup up to
/// a pixel and as wide as the disc up to seven pixels, unless the disc has no room for them.
pub proof fn law_swatch_measures(popup: Area, scale: Scale, i: int)
    requires
        scale.wf(),
        0 <= i < 7,
    ensures
        ({
            let px = |v: int| geometry::scaled(scale, v);
            let (a, b) = (swatch_area(popup, scale, 0), swatch_area(popup, scale, 7));
            let (s, t) = (swatch_area(popup, scale, i), swatch_area(popup, scale, i + 1));
            let row = b.x + b.w - a.x;
            let (before, behind) = (a.x - popup.x, popup.x + popup.w - (b.x + b.w));
            &&& s.w == s.h && t.w == s.w && t.h == s.h && 1 <= s.w
            &&& t.x == s.x + s.w + px(4)
            &&& t.y == s.y && s.y == popup.y + px(12) + 2 * px(90) + px(10)
            &&& -1 <= behind - before <= 1
            &&& 8 + 7 * px(4) <= 2 * px(90) ==> 0 <= 2 * px(90) - row <= 7
            &&& 8 + 7 * px(4) > 2 * px(90) ==> s.w == 1
        }),
{
    let g: int = swatch_size(scale) + size(scale, PRESET_GAP);
    assert((i + 1) * g == i * g + g) by (nonlinear_arith);
    assert(0 * g == 0 && 7 * g == g + g + g + g + g + g + g) by (nonlinear_arith);
}

/// The slider popup measured in logical px: a track that is 170 wide less the handle's radius of 8
/// at either end, with 12 around it and 22 for the number below it. It hangs 6 below the last
/// button.
pub proof fn law_slider_measures(view: Area, scale: Scale)
    requires
        scale.wf(),
    ensures
        ({
            let px = |v: int| geometry::scaled(scale, v);
            let popup = slider_area(view, scale);
            let button = button_area(view, scale, 9);
            let (x0, x1, cy) = slider_track(view, scale);
            &&& popup.w == px(170) + 2 * px(12)
            &&& popup.h == 2 * px(12) + 2 * px(8) + px(22)
            &&& popup.x == popup_x(view, button, popup.w)
            &&& popup.y == button.y + button.h + px(6)
            &&& x0 == popup.x + px(12) + px(8)
            &&& x1 - x0 == px(170) - 2 * px(8)
            &&& cy == popup.y + px(12) + px(8)
        }),
{
}

proof fn lemma_size_bound(scale: Scale, v: i32)
    requires
        scale.wf(),
        scale.num <= 1000 * scale.den,
        0 <= v,
    ensures
        0 <= size(scale, v) <= 1000 * v,
{
    geometry::law_scaled_is_nearest(scale, v as int);
    let (r, d, n): (int, int, int) = (size(scale, v), scale.den as int, scale.num as int);
    assert(v * n <= 1000 * v * d) by (nonlinear_arith)
        requires
            n <= 1000 * d,
            0 <= v,
    ;
    assert(r <= 1000 * v) by (nonlinear_arith)
        requires
            2 * (r * d - v * n) <= d,
            v * n <= 1000 * v * d,
            0 < d,
    ;
}

/// There is room for the chrome on every output that is not absurdly large, far away or finely
/// scaled.
pub proof fn law_there_is_room_on_ordinary_outputs(view: Area, scale: Scale)
    requires
        scale.wf(),
        scale.num <= 1000 * scale.den,
        -0x1000_0000 <= view.x <= 0x1000_0000,
        -0x1000_0000 <= view.y <= 0x1000_0000,
        0 <= view.w <= 0x1000_0000,
        0 <= view.h <= 0x1000_0000,
    ensures
        chrome_fits(view, scale),
{
    lemma_size_bound(scale, TOOLBAR_BUTTON);
    lemma_size_bound(scale, TOOLBAR_THICK_W);
    lemma_size_bound(scale, TOOLBAR_GAP);
    lemma_size_bound(scale, TOOLBAR_SEP);
    lemma_size_bound(scale, TOOLBAR_PAD);
    lemma_size_bound(scale, TOOLBAR_TOP);
    lemma_size_bound(scale, WHEEL_RADIUS);
    lemma_size_bound(scale, WHEEL_PAD);
    lemma_size_bound(scale, PRESET_GAP);
    lemma_size_bound(scale, PRESET_TOP_GAP);
    lemma_size_bound(scale, SLIDER_WIDTH);
    lemma_size_bound(scale, SLIDER_PAD);
    lemma_size_bound(scale, SLIDER_HANDLE_R);
    lemma_size_bound(scale, SLIDER_TEXT_H);
    lemma_size_bound(scale, POPUP_GAP);
    assert(0 <= toolbar_width(scale) <= 600_000);
    assert(toolbar_fits(view, scale));
    assert(wheel_fits(view, scale));
    assert(slider_fits(view, scale));
}

} // verus!
