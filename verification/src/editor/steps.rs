//! What each press, motion, release and key does to the editor.

use crate::editor::laws;
use crate::editor::state;
use crate::editor::state::{Action, Drag, EditorState, Target};
use crate::render::annotation::Mark;
use crate::render::color;
use crate::render::color::Color;
use crate::render::geometry::{Area, Rect, Scale};
use crate::render::layout;
use crate::render::ratio::Ratio;
use crate::render::tool::Tool;
use vstd::prelude::*;

verus! {

/// A point of the output stays where it is, and any other goes to the nearest edge on either axis.
pub proof fn law_confined_to_the_nearest_pixel(area: Area, x: int, y: int)
    requires
        state::usable(area),
    ensures
        ({
            let (cx, cy) = state::confined(area, x, y);
            &&& area.x <= cx < area.x + area.w
            &&& area.y <= cy < area.y + area.h
            &&& area.x <= x < area.x + area.w ==> cx == x
            &&& area.y <= y < area.y + area.h ==> cy == y
            &&& x < area.x ==> cx == area.x
            &&& y < area.y ==> cy == area.y
            &&& x >= area.x + area.w ==> cx == area.x + area.w - 1
            &&& y >= area.y + area.h ==> cy == area.y + area.h - 1
        }),
{
}

/// The selected rectangle holds the two corners, and either corner lies on two of its edges.
pub proof fn law_selection_lies_between_its_corners(s: EditorState)
    ensures
        ({
            let (a, b) = s.selection;
            let r = s.selected();
            &&& r.w >= 1 && r.h >= 1
            &&& r.x == a.0 && r.x + r.w - 1 == b.0 || r.x == b.0 && r.x + r.w - 1 == a.0
            &&& r.y == a.1 && r.y + r.h - 1 == b.1 || r.y == b.1 && r.y + r.h - 1 == a.1
        }),
{
}

/// A fresh editor shows and selects all of the canvas, draws red lines of 4 px and yellow
/// highlights, and has the crop tool.
pub proof fn law_fresh_editor(width: i32, height: i32, scale: Scale)
    requires
        1 <= width,
        1 <= height,
    ensures
        ({
            let s = EditorState::fresh(width, height, scale);
            let whole = Rect { x: 0, y: 0, w: width, h: height };
            &&& s.width == width && s.height == height && s.scale == scale
            &&& s.view == whole && s.draw_bounds == whole
            &&& s.tool == Tool::Crop && s.drag == Drag::Idle
            &&& s.draw_color == (Color::Mix { red: 90, green: 10, blue: 10, full: 100 })
            &&& s.highlight_color == (Color::Mix { red: 100, green: 85, blue: 10, full: 100 })
            &&& s.thickness == (Ratio { num: 4, den: 1 })
            &&& s.highlight_thickness == (Ratio { num: 24, den: 1 })
            &&& s.blur_thickness == (Ratio { num: 24, den: 1 })
            &&& s.annotations.len() == 0 && s.draw is None && s.glass is None
            &&& !s.has_selection && !s.had_selection_backup
            &&& s.selection.0 == (0i32, 0i32) && s.selection.1.0 == width - 1 && s.selection.1.1
                == height - 1
            &&& !s.show_color_wheel && !s.show_thickness_slider
        }),
{
}

// --- press -----------------------------------------------------------------

/// The color of the active tool changed: highlights have one of their own.
pub open spec fn recolored(s: EditorState, t: EditorState, c: Color) -> bool {
    &&& s.tool == Tool::Highlight ==> t.highlight_color == c && t.draw_color == s.draw_color
    &&& s.tool != Tool::Highlight ==> t.draw_color == c && t.highlight_color == s.highlight_color
}

/// The thickness of the active tool changed: highlights and blurs have one of their own.
pub open spec fn resized(s: EditorState, t: EditorState, r: Ratio) -> bool {
    &&& t.highlight_thickness == if s.tool == Tool::Highlight {
        r
    } else {
        s.highlight_thickness
    }
    &&& t.blur_thickness == if s.tool == Tool::Blur {
        r
    } else {
        s.blur_thickness
    }
    &&& t.thickness == if s.tool != Tool::Highlight && s.tool != Tool::Blur {
        r
    } else {
        s.thickness
    }
}

/// A press beside the chrome with a drawing tool starts a mark there, in the color and thickness of
/// the tool, and changes nothing else.
pub proof fn law_press_starts_a_mark(s: EditorState, x: int, y: int)
    requires
        laws::on_bare_canvas(s, x, y),
        s.tool != Tool::Crop,
    ensures
        ({
            let p = state::confined(s.view@, x, y);
            let mark = Mark {
                tool: s.tool,
                start: p,
                end: p,
                points: if s.tool == Tool::Freehand {
                    seq![p]
                } else {
                    seq![]
                },
                color: if s.tool == Tool::Highlight {
                    s.highlight_color
                } else {
                    s.draw_color
                },
                thickness: if s.tool == Tool::Highlight {
                    s.highlight_thickness
                } else if s.tool == Tool::Blur {
                    s.blur_thickness
                } else {
                    s.thickness
                },
            };
            s.pressed(x, y) == (EditorState {
                draw: Some(mark),
                drag: Drag::Draw,
                draw_bounds: s.view,
                ..s
            })
        }),
{
}

/// A press beside the chrome with the crop tool starts a selection there, remembers the one before,
/// and changes nothing else.
pub proof fn law_press_starts_a_selection(s: EditorState, x: int, y: int)
    requires
        laws::on_bare_canvas(s, x, y),
        s.tool == Tool::Crop,
    ensures
        ({
            let p = state::confined(s.view@, x, y);
            s.pressed(x, y) == (EditorState {
                selection: (p, p),
                has_selection: true,
                selection_backup: s.selection,
                had_selection_backup: s.has_selection,
                drag: Drag::NewSelection,
                draw_bounds: s.view,
                ..s
            })
        }),
{
}

/// The tool that button `i` chooses.
pub open spec fn chooses(i: int, t: Tool) -> bool {
    ||| i == 0 && t == Tool::Crop
    ||| i == 2 && t == Tool::Rectangle
    ||| i == 3 && t == Tool::Line
    ||| i == 4 && t == Tool::Arrow
    ||| i == 5 && t == Tool::Freehand
    ||| i == 6 && t == Tool::Highlight
    ||| i == 7 && t == Tool::Blur
}

proof fn lemma_button_target(s: EditorState, p: (i32, i32), i: int)
    requires
        s.scale.wf(),
        state::button_hit(s.view@, s.scale, p, i),
    ensures
        s.target(p) == Target::Button(i),
{
    let k = if i == 0 {
        1int
    } else {
        0int
    };
    if i < k {
        layout::law_buttons_are_apart(s.view@, s.scale, i, k);
    } else {
        layout::law_buttons_are_apart(s.view@, s.scale, k, i);
    }
    layout::law_popups_stay_on_output(s.view@, s.scale);
    let bar = layout::toolbar_area(s.view@, s.scale);
    assert(layout::button_area(s.view@, s.scale, i).covers(p.0 as int, p.1 as int));
    assert(bar.covers(p.0 as int, p.1 as int));
    assert(!s.wheel().covers(p.0 as int, p.1 as int));
    assert(!s.slider().covers(p.0 as int, p.1 as int));
    let j = choose|j: int| state::button_hit(s.view@, s.scale, p, j);
    laws::lemma_one_button(s.view@, s.scale, p, i, j);
}

/// A press on a button chooses its tool and closes the popups, takes all annotations back, or opens
/// or closes its popup; nothing else changes. What is open does not matter, as no popup covers the
/// toolbar.
pub proof fn law_press_on_a_button(s: EditorState, x: int, y: int, i: int, t: Tool)
    requires
        s.scale.wf(),
        state::button_hit(s.view@, s.scale, state::confined(s.view@, x, y), i),
    ensures
        chooses(i, t) ==> s.pressed(x, y) == (EditorState {
            tool: t,
            show_color_wheel: false,
            show_thickness_slider: false,
            draw_bounds: s.view,
            ..s
        }),
        i == 1 ==> s.pressed(x, y) == (EditorState {
            annotations: seq![],
            show_color_wheel: false,
            show_thickness_slider: false,
            draw_bounds: s.view,
            ..s
        }),
        i == 8 ==> s.pressed(x, y) == (EditorState {
            show_color_wheel: !s.show_color_wheel,
            show_thickness_slider: false,
            draw_bounds: s.view,
            ..s
        }),
        i == 9 ==> s.pressed(x, y) == (EditorState {
            show_color_wheel: false,
            show_thickness_slider: !s.show_thickness_slider,
            draw_bounds: s.view,
            ..s
        }),
{
    let p = state::confined(s.view@, x, y);
    let u = EditorState { draw_bounds: s.view, ..s };
    lemma_button_target(u, p, i);
}

/// A press on a swatch of the open color wheel takes its color for the active tool and closes the
/// wheel.
pub proof fn law_press_on_a_swatch(s: EditorState, x: int, y: int, i: int)
    requires
        s.scale.wf(),
        s.show_color_wheel,
        state::holds(layout::wheel_area(s.view@, s.scale), state::confined(s.view@, x, y)),
        state::swatch_hit(
            layout::wheel_area(s.view@, s.scale),
            s.scale,
            state::confined(s.view@, x, y),
            i,
        ),
    ensures
        ({
            let r = s.pressed(x, y);
            &&& recolored(s, r, color::presets()[i])
            &&& r == (EditorState {
                draw_color: r.draw_color,
                highlight_color: r.highlight_color,
                show_color_wheel: false,
                draw_bounds: s.view,
                ..s
            })
        }),
{
    let p = state::confined(s.view@, x, y);
    let u = EditorState { draw_bounds: s.view, ..s };
    let j = choose|j: int| state::swatch_hit(u.wheel(), u.scale, p, j);
    laws::lemma_one_swatch(s.view@, s.scale, p, i, j);
    assert(u.target(p) == Target::Swatch(i));
}

/// A press on the open color wheel beside the swatches takes the color under the pointer for the
/// active tool and starts dragging on the wheel; beside the disc it does nothing.
pub proof fn law_press_on_the_wheel(s: EditorState, x: int, y: int)
    requires
        s.show_color_wheel,
        state::holds(layout::wheel_area(s.view@, s.scale), state::confined(s.view@, x, y)),
        forall|i: int|
            !#[trigger] state::swatch_hit(
                layout::wheel_area(s.view@, s.scale),
                s.scale,
                state::confined(s.view@, x, y),
                i,
            ),
    ensures
        ({
            let r = s.pressed(x, y);
            let p = state::confined(s.view@, x, y);
            let c = layout::wheel_center(s.view@, s.scale);
            let (dx, dy) = (p.0 - c.0, p.1 - c.1);
            let radius = layout::size(s.scale, 90);
            if 0 <= radius && dx * dx + dy * dy <= radius * radius {
                &&& recolored(
                    s,
                    r,
                    Color::Wheel { dx: dx as i32, dy: dy as i32, radius: radius as i32 },
                )
                &&& r == (EditorState {
                    draw_color: r.draw_color,
                    highlight_color: r.highlight_color,
                    drag: Drag::ColorWheel,
                    draw_bounds: s.view,
                    ..s
                })
            } else {
                r == (EditorState { draw_bounds: s.view, ..s })
            }
        }),
{
}

/// A press on the open slider takes the thickness under the pointer for the active tool and starts
/// dragging on the slider.
pub proof fn law_press_on_the_slider(s: EditorState, x: int, y: int)
    requires
        !s.show_color_wheel,
        s.show_thickness_slider,
        state::holds(layout::slider_area(s.view@, s.scale), state::confined(s.view@, x, y)),
    ensures
        ({
            let r = s.pressed(x, y);
            let p = state::confined(s.view@, x, y);
            &&& resized(s, r, s.thickness_at(p))
            &&& r == (EditorState {
                thickness: r.thickness,
                highlight_thickness: r.highlight_thickness,
                blur_thickness: r.blur_thickness,
                drag: Drag::Slider,
                draw_bounds: s.view,
                ..s
            })
        }),
{
}

/// A press on the toolbar between the buttons does nothing, whatever is open.
pub proof fn law_press_between_the_buttons(s: EditorState, x: int, y: int)
    requires
        s.scale.wf(),
        state::holds(layout::toolbar_area(s.view@, s.scale), state::confined(s.view@, x, y)),
        forall|i: int|
            !#[trigger] state::button_hit(s.view@, s.scale, state::confined(s.view@, x, y), i),
    ensures
        s.pressed(x, y) == (EditorState { draw_bounds: s.view, ..s }),
{
    let p = state::confined(s.view@, x, y);
    layout::law_popups_stay_on_output(s.view@, s.scale);
    assert(layout::toolbar_area(s.view@, s.scale).covers(p.0 as int, p.1 as int));
    assert(!s.wheel().covers(p.0 as int, p.1 as int));
    assert(!s.slider().covers(p.0 as int, p.1 as int));
}

/// A press beside the toolbar and the open popup closes the popup and does nothing else.
pub proof fn law_press_beside_an_open_popup(s: EditorState, x: int, y: int)
    requires
        s.show_color_wheel || s.show_thickness_slider,
        !state::holds(layout::toolbar_area(s.view@, s.scale), state::confined(s.view@, x, y)),
        s.show_color_wheel ==> !state::holds(
            layout::wheel_area(s.view@, s.scale),
            state::confined(s.view@, x, y),
        ),
        s.show_thickness_slider ==> !state::holds(
            layout::slider_area(s.view@, s.scale),
            state::confined(s.view@, x, y),
        ),
    ensures
        s.pressed(x, y) == (EditorState {
            show_color_wheel: false,
            show_thickness_slider: false,
            draw_bounds: s.view,
            ..s
        }),
{
}

/// The thickness at a point of the slider grows by 99 px along the track, from 1 px at its start.
/// Beside the track the nearer end counts.
pub proof fn law_thickness_along_the_slider(s: EditorState, p: (i32, i32))
    requires
        layout::slider_fits(s.view@, s.scale),
    ensures
        ({
            let (x0, x1, _) = layout::slider_track(s.view@, s.scale);
            let t = s.thickness_at(p);
            x0 < x1 ==> {
                &&& t.den == x1 - x0
                &&& x0 <= p.0 <= x1 ==> t.num == t.den + 99 * (p.0 - x0)
                &&& p.0 < x0 ==> t.num == t.den
                &&& p.0 > x1 ==> t.num == 100 * t.den
            }
        }),
{
}

/// A key counts by its text only where that is a single character.
pub proof fn law_letter_of_a_key(text: &str)
    ensures
        state::letter(None) is None,
        text@.len() == 1 ==> state::letter(Some(text)) == Some(text@[0]),
        text@.len() != 1 ==> state::letter(Some(text)) is None,
{
}

// --- motion and release ----------------------------------------------------

/// A motion moves the end of what is being drawn or selected to the nearest point of the output
/// that the drag began on, and the start stays; a freehand mark keeps all its points and gains that
/// one. Without a drag nothing changes.
pub proof fn law_motion_moves_the_end(s: EditorState, x: int, y: int)
    ensures
        ({
            let r = s.moved(x, y);
            let p = state::confined(s.draw_bounds@, x, y);
            &&& s.drag == Drag::Idle ==> r == s
            &&& s.drag == Drag::NewSelection ==> r == (EditorState {
                selection: (s.selection.0, p),
                ..s
            })
            &&& s.drag == Drag::Draw ==> (s.draw matches Some(m) ==> r == (EditorState {
                draw: Some(
                    Mark {
                        tool: m.tool,
                        start: m.start,
                        end: p,
                        points: if m.tool == Tool::Freehand {
                            m.points.push(p)
                        } else {
                            m.points
                        },
                        color: m.color,
                        thickness: m.thickness,
                    },
                ),
                ..s
            }))
            &&& s.drag == Drag::Slider ==> resized(s, r, s.thickness_at(p)) && r == (EditorState {
                thickness: r.thickness,
                highlight_thickness: r.highlight_thickness,
                blur_thickness: r.blur_thickness,
                ..s
            })
            &&& s.drag == Drag::ColorWheel ==> {
                let c = layout::wheel_center(s.view@, s.scale);
                let (dx, dy) = (p.0 - c.0, p.1 - c.1);
                let radius = layout::size(s.scale, 90);
                if 0 <= radius && dx * dx + dy * dy <= radius * radius {
                    &&& recolored(
                        s,
                        r,
                        Color::Wheel { dx: dx as i32, dy: dy as i32, radius: radius as i32 },
                    )
                    &&& r == (EditorState {
                        draw_color: r.draw_color,
                        highlight_color: r.highlight_color,
                        ..s
                    })
                } else {
                    r == s
                }
            }
        }),
{
}

/// A release ends the drag. It adds the drawn mark behind all others if it is freehand or has two
/// different ends; it takes a selection of less than 8 px in either direction back; and it closes
/// the color wheel after a color was dragged.
pub proof fn law_release_ends_the_drag(s: EditorState)
    ensures
        ({
            let r = s.released();
            let (a, b) = s.selection;
            let wide = a.0 - b.0 >= 7 || b.0 - a.0 >= 7;
            let tall = a.1 - b.1 >= 7 || b.1 - a.1 >= 7;
            &&& s.drag == Drag::Idle || s.drag == Drag::Slider ==> r == (EditorState {
                drag: Drag::Idle,
                ..s
            })
            &&& s.drag == Drag::ColorWheel ==> r == (EditorState {
                drag: Drag::Idle,
                show_color_wheel: false,
                ..s
            })
            &&& s.drag == Drag::NewSelection && wide && tall ==> r == (EditorState {
                drag: Drag::Idle,
                ..s
            })
            &&& s.drag == Drag::NewSelection && !(wide && tall) ==> r == (EditorState {
                drag: Drag::Idle,
                selection: s.selection_backup,
                has_selection: s.had_selection_backup,
                ..s
            })
            &&& s.drag == Drag::Draw ==> (s.draw matches Some(m) ==> {
                let keep = if m.tool == Tool::Freehand {
                    m.points.len() > 0
                } else {
                    m.start != m.end
                };
                r == (EditorState {
                    drag: Drag::Idle,
                    draw: None,
                    annotations: if keep {
                        s.annotations.push(m)
                    } else {
                        s.annotations
                    },
                    ..s
                })
            })
        }),
{
}

// --- keys and wheel --------------------------------------------------------

/// The thickness `t` is `by` more than `r` was, or the end of the range from 1 to 100 that is in the
/// way.
pub open spec fn stepped(r: Ratio, t: Ratio, by: int) -> bool {
    let want = r.num + by * r.den;
    &&& t.den == r.den
    &&& r.den <= t.num <= 100 * r.den
    &&& t.num == want || t.num == r.den && want < r.den || t.num == 100 * r.den && want > 100
        * r.den
}

/// A turn of the wheel changes the thickness of the active tool by 2 px, and nothing else.
pub proof fn law_scroll_changes_the_thickness(s: EditorState, up: bool)
    requires
        s.wf(),
    ensures
        ({
            let r = s.scrolled(up);
            let before = if s.tool == Tool::Highlight {
                s.highlight_thickness
            } else if s.tool == Tool::Blur {
                s.blur_thickness
            } else {
                s.thickness
            };
            &&& stepped(before, r.active_thickness(), if up { 2 } else { -2 })
            &&& resized(s, r, r.active_thickness())
            &&& r == (EditorState {
                thickness: r.thickness,
                highlight_thickness: r.highlight_thickness,
                blur_thickness: r.blur_thickness,
                ..s
            })
        }),
{
    let before = s.active_thickness();
    let d: int = before.den as int;
    assert(2 * d == d + d && (-2) * d == -(d + d));
}

/// The tool that a letter chooses.
pub open spec fn letter_of(t: Tool) -> char {
    match t {
        Tool::Crop => 'c',
        Tool::Rectangle => 'r',
        Tool::Line => 'l',
        Tool::Arrow => 'a',
        Tool::Freehand => 'f',
        Tool::Highlight => 'h',
        Tool::Blur => 'b',
    }
}

/// What each key does: the letter of a tool chooses it, `e` takes all annotations back, plus and
/// minus do what the wheel does, and no other letter does anything. Escape cancels; with control,
/// `z` takes one annotation back and `c` copies; enter and space save.
pub proof fn law_what_keys_do(s: EditorState, ch: Option<char>, t: Tool, flag: bool)
    ensures
        s.typed(Some(letter_of(t)), false, false, false) == (
            EditorState { tool: t, show_color_wheel: false, show_thickness_slider: false, ..s },
            Action::Nothing,
        ),
        s.typed(Some('e'), false, false, false) == (
            EditorState { annotations: seq![], ..s },
            Action::Nothing,
        ),
        s.typed(Some('+'), false, false, false) == (s.scrolled(true), Action::Nothing),
        s.typed(Some('='), false, false, false) == (s.scrolled(true), Action::Nothing),
        s.typed(Some('-'), false, false, false) == (s.scrolled(false), Action::Nothing),
        s.typed(Some('_'), false, false, false) == (s.scrolled(false), Action::Nothing),
        ch is None ==> s.typed(ch, false, false, false) == (s, Action::Nothing),
        (forall|u: Tool| ch != Some(#[trigger] letter_of(u))) && ch != Some('e') && ch != Some('+')
            && ch != Some('=') && ch != Some('-') && ch != Some('_') ==> s.typed(
            ch,
            false,
            false,
            false,
        ) == (s, Action::Nothing),
        s.typed(ch, flag, true, flag) == (s, Action::Cancel),
        s.typed(ch, false, false, true) == (s, Action::SaveDisk),
        s.typed(Some('c'), true, false, flag) == (s, Action::SaveClipboard),
        s.typed(Some('z'), true, false, flag) == (
            EditorState {
                annotations: if s.annotations.len() > 0 {
                    s.annotations.drop_last()
                } else {
                    seq![]
                },
                ..s
            },
            Action::Nothing,
        ),
        ch != Some('z') && ch != Some('c') ==> s.typed(ch, true, false, flag) == (
            s,
            Action::Nothing,
        ),
{
    assert(s.annotations.len() == 0 ==> s.annotations =~= Seq::<Mark>::empty());
    assert(letter_of(Tool::Crop) == 'c');
    assert(letter_of(Tool::Rectangle) == 'r');
    assert(letter_of(Tool::Line) == 'l');
    assert(letter_of(Tool::Arrow) == 'a');
    assert(letter_of(Tool::Freehand) == 'f');
    assert(letter_of(Tool::Highlight) == 'h');
    assert(letter_of(Tool::Blur) == 'b');
}

} // verus!
