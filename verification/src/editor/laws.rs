//! What holds of every editor, whatever the input.

use crate::editor::state;
use crate::editor::state::{Action, Drag, EditorState, Input, Target};
use crate::render::annotation::Mark;
use crate::render::color::Color;
use crate::render::geometry;
use crate::render::geometry::{Area, Rect, Scale};
use crate::render::layout;
use crate::render::scene;
use crate::render::thickness;
use crate::render::tool::{Tool, ToolbarItem};
use vstd::prelude::*;

verus! {

/// A point lies in one swatch at most.
pub proof fn lemma_one_swatch(view: Area, scale: Scale, p: (i32, i32), i: int, k: int)
    requires
        scale.wf(),
        state::swatch_hit(layout::wheel_area(view, scale), scale, p, i),
        state::swatch_hit(layout::wheel_area(view, scale), scale, p, k),
    ensures
        i == k,
{
    if i < k {
        layout::law_swatches_are_apart(view, scale, i, k);
    } else if k < i {
        layout::law_swatches_are_apart(view, scale, k, i);
    }
    let bounds = layout::wheel_area(view, scale);
    assert(layout::swatch_area(bounds, scale, i).covers(p.0 as int, p.1 as int));
    assert(layout::swatch_area(bounds, scale, k).covers(p.0 as int, p.1 as int));
}

/// A point lies in one button at most.
pub proof fn lemma_one_button(view: Area, scale: Scale, p: (i32, i32), i: int, k: int)
    requires
        scale.wf(),
        state::button_hit(view, scale, p, i),
        state::button_hit(view, scale, p, k),
    ensures
        i == k,
{
    if i < k {
        layout::law_buttons_are_apart(view, scale, i, k);
    } else if k < i {
        layout::law_buttons_are_apart(view, scale, k, i);
    }
    assert(layout::button_area(view, scale, i).covers(p.0 as int, p.1 as int));
    assert(layout::button_area(view, scale, k).covers(p.0 as int, p.1 as int));
}

/// The thickness of a representable slider is in range.
pub proof fn lemma_slider_in_range(s: EditorState, p: (i32, i32))
    requires
        s.wf(),
        layout::slider_fits(s.view@, s.scale),
    ensures
        thickness::in_range(s.thickness_at(p)),
{
    let (x0, x1, _) = layout::slider_track(s.view@, s.scale);
    layout::lemma_inner_slider(s.view@, s.scale);
    assert(x1 - x0 <= i32::MAX);
}

/// A press keeps the editor well formed.
pub proof fn lemma_pressed_wf(s: EditorState, x: int, y: int)
    requires
        s.wf(),
        s.can_press(),
    ensures
        s.pressed(x, y).wf(),
{
    let p = state::confined(s.view@, x, y);
    let t = EditorState { draw_bounds: s.view, ..s };
    if t.target(p) is Slider {
        lemma_slider_in_range(t, p);
    }
}

/// A motion keeps the editor well formed.
pub proof fn lemma_moved_wf(s: EditorState, x: int, y: int)
    requires
        s.wf(),
        s.can_move(x, y),
    ensures
        s.moved(x, y).wf(),
{
    let p = state::confined(s.draw_bounds@, x, y);
    if s.drag == Drag::Slider {
        lemma_slider_in_range(s, p);
    }
}

/// The finished marks of an editor that can save can be drawn.
pub proof fn lemma_finished_drawable(s: EditorState)
    requires
        s.wf(),
        s.can_save(),
    ensures
        scene::all_drawable(s.annotations),
{
    assert forall|i: int| 0 <= i < s.annotations.len() implies (
    #[trigger] s.annotations[i]).drawable() by {
        assert(state::well_drawn(s.annotations[i]));
    }
}

/// All marks of an editor that can paint can be drawn.
pub proof fn lemma_drawable(s: EditorState)
    requires
        s.wf(),
        s.can_paint(),
    ensures
        scene::all_drawable(s.annotations),
        s.draw matches Some(m) ==> m.drawable(),
{
    lemma_finished_drawable(s);
}

// --- every input is handled ------------------------------------------------

proof fn lemma_placed(area: Area, x: int, y: int)
    requires
        state::usable(area),
    ensures
        state::holds(area, state::confined(area, x, y)),
        forall|outer: Area|
            area.within(outer) ==> #[trigger] state::holds(outer, state::confined(area, x, y)),
{
}

proof fn lemma_popups_on_screen(view: Area, scale: Scale)
    requires
        scale.wf(),
        0 <= view.x,
        0 <= view.y,
        layout::chrome_fits(view, scale),
    ensures
        0 <= layout::slider_track(view, scale).0 <= i32::MAX,
        0 <= layout::wheel_center(view, scale).0 <= i32::MAX,
        0 <= layout::wheel_center(view, scale).1 <= i32::MAX,
{
    layout::lemma_inner_slider(view, scale);
    layout::lemma_inner_wheel(view, scale);
    layout::law_popups_stay_on_output(view, scale);
    layout::law_buttons_are_apart(view, scale, 8, 9);
}

proof fn lemma_ready_accepts(s: EditorState, input: Input)
    requires
        s.ready(),
    ensures
        s.accepts(input),
        s.chrome_fits(),
{
    reveal(EditorState::ready);
    lemma_popups_on_screen(s.view@, s.scale);
    match input {
        Input::Motion(x, y) => lemma_placed(s.draw_bounds@, x as int, y as int),
        _ => {},
    }
}

proof fn lemma_placed_can_paint(s: EditorState)
    requires
        s.on_canvas(),
    ensures
        s.can_paint(),
{
}

/// A press leaves alone what it is not about.
proof fn lemma_hit_frame(s: EditorState, p: (i32, i32))
    ensures
        ({
            let t = s.hit(p);
            &&& t.view == s.view
            &&& t.scale == s.scale
            &&& t.draw_bounds == s.draw_bounds
            &&& t.glass == s.glass
            &&& t.width == s.width
            &&& t.height == s.height
            &&& t.annotations == s.annotations || t.annotations == Seq::<Mark>::empty()
            &&& t.draw == s.draw || t.draw == Some(s.new_mark(p))
            &&& t.selection == s.selection && t.selection_backup == s.selection_backup
                || t.selection == (p, p) && t.selection_backup == s.selection
        }),
{
}

/// A press does not change which output is active.
pub proof fn lemma_press_keeps_view(s: EditorState, x: int, y: int)
    ensures
        s.pressed(x, y).view == s.view,
{
    lemma_hit_frame(
        EditorState { draw_bounds: s.view, ..s },
        state::confined(s.view@, x, y),
    );
}

proof fn lemma_press_on_canvas(s: EditorState, x: int, y: int)
    requires
        s.on_canvas(),
    ensures
        s.pressed(x, y).on_canvas(),
        s.pressed(x, y).view == s.view,
        s.pressed(x, y).same_setting(s),
{
    let p = state::confined(s.view@, x, y);
    lemma_placed(s.view@, x, y);
    let t = EditorState { draw_bounds: s.view, ..s };
    lemma_hit_frame(t, p);
}

proof fn lemma_motion_on_canvas(s: EditorState, x: int, y: int)
    requires
        s.on_canvas(),
    ensures
        s.moved(x, y).on_canvas(),
        s.moved(x, y).view == s.view,
        s.moved(x, y).same_setting(s),
{
    lemma_placed(s.draw_bounds@, x, y);
    let t = s.moved(x, y);
    assert(t.annotations == s.annotations);
}

proof fn lemma_release_ready(s: EditorState)
    requires
        s.wf(),
        s.on_canvas(),
    ensures
        s.released().wf(),
        s.released().on_canvas(),
        s.released().view == s.view,
        s.released().same_setting(s),
{
}

proof fn lemma_adjusted_ready(s: EditorState, delta: int)
    requires
        s.wf(),
        s.on_canvas(),
    ensures
        s.adjusted(delta).wf(),
        s.adjusted(delta).on_canvas(),
        s.adjusted(delta).view == s.view,
        s.adjusted(delta).same_setting(s),
{
    let t = s.adjusted(delta);
    assert(t.annotations == s.annotations && t.draw == s.draw);
}

proof fn lemma_key_ready(
    s: EditorState,
    letter: Option<char>,
    ctrl: bool,
    escape: bool,
    enter: bool,
)
    requires
        s.wf(),
        s.on_canvas(),
    ensures
        s.typed(letter, ctrl, escape, enter).0.wf(),
        s.typed(letter, ctrl, escape, enter).0.on_canvas(),
        s.typed(letter, ctrl, escape, enter).0.view == s.view,
        s.typed(letter, ctrl, escape, enter).0.same_setting(s),
{
    lemma_adjusted_ready(s, 2);
    lemma_adjusted_ready(s, -2);
}

/// An editor that is ready accepts every input, and is ready for the next one after it. It can be
/// painted, and its image can be saved.
pub proof fn law_always_ready(s: EditorState, input: Input)
    requires
        s.ready(),
        state::proper(input, s.canvas(), s.scale),
    ensures
        s.accepts(input),
        s.after(input).ready(),
        s.after(input).same_setting(s),
        s.wf(),
        s.can_paint(),
        s.chrome_fits(),
{
    reveal(EditorState::after);
    reveal(EditorState::ready);
    lemma_ready_accepts(s, input);
    lemma_placed_can_paint(s);
    match input {
        Input::Enter(view) => {
            assert(s.after(input).wf());
        },
        Input::Press(x, y) => {
            lemma_pressed_wf(s, x as int, y as int);
            lemma_press_on_canvas(s, x as int, y as int);
        },
        Input::Motion(x, y) => {
            lemma_moved_wf(s, x as int, y as int);
            lemma_motion_on_canvas(s, x as int, y as int);
        },
        Input::Release => lemma_release_ready(s),
        Input::Scroll(up) => {
            lemma_adjusted_ready(s, 2);
            lemma_adjusted_ready(s, -2);
        },
        Input::Key(letter, ctrl, escape, enter) => lemma_key_ready(s, letter, ctrl, escape, enter),
        Input::Glass(block) => {
            assert(s.after(input).wf());
        },
    }
}

/// The editor of a fresh screenshot is ready, wherever the chrome has room.
pub proof fn law_fresh_is_ready(width: i32, height: i32, scale: Scale)
    requires
        scale.wf(),
        1 <= width,
        1 <= height,
        layout::chrome_fits(Area { x: 0, y: 0, w: width as int, h: height as int }, scale),
    ensures
        EditorState::fresh(width, height, scale).ready(),
{
    reveal(EditorState::ready);
    let s = EditorState::fresh(width, height, scale);
    assert(s.view@ == Area { x: 0, y: 0, w: width as int, h: height as int });
    assert(s.wf());
    assert(s.on_canvas());
}

/// Whatever is done to an editor that is ready, it accepts the next input.
pub proof fn law_never_stuck(s: EditorState, inputs: Seq<Input>, next: Input)
    requires
        s.ready(),
        forall|i: int|
            0 <= i < inputs.len() ==> state::proper(#[trigger] inputs[i], s.canvas(), s.scale),
        state::proper(next, s.canvas(), s.scale),
    ensures
        s.after_all(inputs).ready(),
        s.after_all(inputs).same_setting(s),
        s.after_all(inputs).accepts(next),
    decreases inputs.len(),
{
    if inputs.len() > 0 {
        let rest = inputs.drop_last();
        let last = inputs[inputs.len() - 1];
        assert(state::proper(last, s.canvas(), s.scale));
        assert forall|i: int| 0 <= i < rest.len() implies state::proper(
            #[trigger] rest[i],
            s.canvas(),
            s.scale,
        ) by {
            assert(rest[i] == inputs[i]);
        }
        law_never_stuck(s, rest, last);
        law_always_ready(s.after_all(rest), last);
        assert(inputs.last() == last);
    }
    law_always_ready(s.after_all(inputs), next);
}

/// The image that is saved lies on the canvas and is not empty, and so does every mark: nothing
/// outside the screenshot is ever selected or drawn on.
pub proof fn law_nothing_leaves_the_canvas(s: EditorState, i: int)
    requires
        s.ready(),
    ensures
        s.selected().within(s.canvas()),
        1 <= s.selected().w,
        1 <= s.selected().h,
        0 <= i < s.annotations.len() ==> state::mark_within(s.annotations[i], s.canvas()),
        s.draw matches Some(m) ==> state::mark_within(m, s.canvas()),
{
    reveal(EditorState::ready);
    geometry::law_span_is_smallest(s.selection.0, s.selection.1, s.canvas());
}

/// Where no region is selected, the selection stands for the whole canvas.
spec fn whole_or_selected(s: EditorState, whole: ((i32, i32), (i32, i32))) -> bool {
    &&& !s.has_selection ==> s.selection == whole
    &&& !s.had_selection_backup ==> s.selection_backup == whole
    &&& s.drag == Drag::NewSelection ==> s.has_selection
}

/// The selection, its backup and the canvas are those of `s`, and no selection has been started.
spec fn same_selection(s: EditorState, t: EditorState) -> bool {
    &&& t.selection == s.selection
    &&& t.has_selection == s.has_selection
    &&& t.selection_backup == s.selection_backup
    &&& t.had_selection_backup == s.had_selection_backup
    &&& t.drag == s.drag || t.drag != Drag::NewSelection
    &&& t.canvas() == s.canvas()
}

proof fn lemma_hit_selection(s: EditorState, p: (i32, i32))
    ensures
        ({
            let t = s.hit(p);
            ||| same_selection(s, t)
            ||| {
                &&& t.selection_backup == s.selection
                &&& t.had_selection_backup == s.has_selection
                &&& t.has_selection
                &&& t.canvas() == s.canvas()
            }
        }),
{
}

proof fn lemma_press_whole(s: EditorState, whole: ((i32, i32), (i32, i32)), x: int, y: int)
    requires
        whole_or_selected(s, whole),
    ensures
        whole_or_selected(s.pressed(x, y), whole),
        s.pressed(x, y).canvas() == s.canvas(),
{
    let t = EditorState { draw_bounds: s.view, ..s };
    assert(t.canvas() == s.canvas());
    lemma_hit_selection(t, state::confined(s.view@, x, y));
}

proof fn lemma_motion_whole(s: EditorState, whole: ((i32, i32), (i32, i32)), x: int, y: int)
    requires
        whole_or_selected(s, whole),
    ensures
        whole_or_selected(s.moved(x, y), whole),
        s.moved(x, y).canvas() == s.canvas(),
{
    let t = s.moved(x, y);
    if s.drag == Drag::NewSelection {
        assert(t.has_selection);
    } else {
        assert(same_selection(s, t));
    }
}

proof fn lemma_release_whole(s: EditorState, whole: ((i32, i32), (i32, i32)))
    requires
        whole_or_selected(s, whole),
    ensures
        whole_or_selected(s.released(), whole),
        s.released().canvas() == s.canvas(),
{
}

proof fn lemma_key_selection(
    s: EditorState,
    letter: Option<char>,
    ctrl: bool,
    escape: bool,
    enter: bool,
)
    ensures
        same_selection(s, s.typed(letter, ctrl, escape, enter).0),
{
}

proof fn lemma_step_whole(s: EditorState, whole: ((i32, i32), (i32, i32)), input: Input)
    requires
        whole_or_selected(s, whole),
    ensures
        whole_or_selected(s.after(input), whole),
        s.after(input).canvas() == s.canvas(),
{
    reveal(EditorState::after);
    match input {
        Input::Press(x, y) => lemma_press_whole(s, whole, x as int, y as int),
        Input::Motion(x, y) => lemma_motion_whole(s, whole, x as int, y as int),
        Input::Release => lemma_release_whole(s, whole),
        Input::Key(letter, ctrl, escape, enter) => {
            lemma_key_selection(s, letter, ctrl, escape, enter)
        },
        Input::Enter(_) => assert(same_selection(s, s.after(input))),
        Input::Scroll(_) => assert(same_selection(s, s.after(input))),
        Input::Glass(_) => assert(same_selection(s, s.after(input))),
    }
}

proof fn lemma_whole(s: EditorState, whole: ((i32, i32), (i32, i32)), inputs: Seq<Input>)
    requires
        whole_or_selected(s, whole),
    ensures
        whole_or_selected(s.after_all(inputs), whole),
        s.after_all(inputs).canvas() == s.canvas(),
    decreases inputs.len(),
{
    if inputs.len() > 0 {
        lemma_whole(s, whole, inputs.drop_last());
        lemma_step_whole(s.after_all(inputs.drop_last()), whole, inputs.last());
    }
}

/// Whatever is done to the editor of a fresh screenshot: while no region is selected, the image
/// that is saved is the whole canvas.
pub proof fn law_without_selection_all_is_saved(
    width: i32,
    height: i32,
    scale: Scale,
    inputs: Seq<Input>,
)
    requires
        1 <= width,
        1 <= height,
    ensures
        ({
            let s = EditorState::fresh(width, height, scale).after_all(inputs);
            &&& s.canvas() == scene::canvas(width as int, height as int)
            &&& !s.has_selection ==> s.selected() == s.canvas()
        }),
{
    let fresh = EditorState::fresh(width, height, scale);
    lemma_whole(fresh, fresh.selection, inputs);
}

/// The scale only sizes the chrome: the image that is saved does not depend on it.
pub proof fn law_saved_image_ignores_scale(s: EditorState, scale: Scale)
    ensures
        (EditorState { scale, ..s }).saved() == s.saved(),
        (EditorState { scale, ..s }).selected() == s.selected(),
{
    scene::law_all_marks_ignore_scale(s.annotations, scale, s.scale, s.glass);
}

// --- from press to release -------------------------------------------------

/// The pointer only moves, perhaps onto other outputs.
pub open spec fn wandering(steps: Seq<Input>) -> bool {
    forall|i: int| 0 <= i < steps.len() ==> (#[trigger] steps[i] is Motion || steps[i] is Enter)
}

/// What holds between a press on an idle editor `s` at the point `p` and the release.
spec fn underway(s: EditorState, p: (i32, i32), t: EditorState) -> bool {
    &&& t.draw_bounds == s.view
    &&& t.annotations == s.annotations || t.drag == Drag::Idle
    &&& if t.drag == Drag::NewSelection {
        &&& t.selection_backup == s.selection
        &&& t.had_selection_backup == s.has_selection
        &&& t.has_selection
        &&& t.selection.0 == p
        &&& state::holds(s.view@, t.selection.0)
        &&& state::holds(s.view@, t.selection.1)
    } else {
        t.selection == s.selection && t.has_selection == s.has_selection
    }
    &&& t.drag == Drag::Draw ==> {
        &&& t.draw is Some
        &&& state::mark_within(t.draw->0, s.view@)
        &&& same_pen(t.draw->0, s.new_mark(p))
        &&& t.draw->0.tool == Tool::Freehand ==> t.draw->0.points.len() > 0
    }
}

/// Two marks that differ in where they go from their start only.
pub open spec fn same_pen(m: Mark, n: Mark) -> bool {
    m.tool == n.tool && m.start == n.start && m.color == n.color && m.thickness == n.thickness
}

proof fn lemma_press_underway(s: EditorState, x: int, y: int)
    requires
        s.drag == Drag::Idle,
        state::usable(s.view@),
    ensures
        underway(s, state::confined(s.view@, x, y), s.pressed(x, y)),
{
    lemma_placed(s.view@, x, y);
    let p = state::confined(s.view@, x, y);
    let t = EditorState { draw_bounds: s.view, ..s };
    let r = t.hit(p);
    assert(r == s.pressed(x, y));
    match t.target(p) {
        Target::Canvas => {},
        Target::Button(i) => {
            assert(r.drag == Drag::Idle);
        },
        _ => {},
    }
}

proof fn lemma_step_underway(s: EditorState, p: (i32, i32), t: EditorState, step: Input)
    requires
        state::usable(s.view@),
        underway(s, p, t),
        step is Motion || step is Enter,
    ensures
        underway(s, p, t.after(step)),
        t.after(step).annotations == t.annotations,
        t.after(step).drag == t.drag,
{
    reveal(EditorState::after);
    match step {
        Input::Motion(x, y) => {
            lemma_placed(s.view@, x as int, y as int);
            let q = state::confined(s.view@, x as int, y as int);
            if t.drag == Drag::Draw {
                let m = EditorState::extended(t.draw->0, q);
                assert forall|i: int| 0 <= i < m.points.len() implies state::holds(
                    s.view@,
                    #[trigger] m.points[i],
                ) by {
                    if i < t.draw->0.points.len() {
                        assert(m.points[i] == t.draw->0.points[i]);
                    }
                }
            }
        },
        _ => {},
    }
}

proof fn lemma_underway(s: EditorState, x: int, y: int, steps: Seq<Input>)
    requires
        s.drag == Drag::Idle,
        state::usable(s.view@),
        wandering(steps),
    ensures
        underway(s, state::confined(s.view@, x, y), s.pressed(x, y).after_all(steps)),
        s.pressed(x, y).after_all(steps).annotations == s.pressed(x, y).annotations,
        s.pressed(x, y).after_all(steps).drag == s.pressed(x, y).drag,
    decreases steps.len(),
{
    if steps.len() == 0 {
        lemma_press_underway(s, x, y);
    } else {
        let rest = steps.drop_last();
        assert forall|i: int| 0 <= i < rest.len() implies (#[trigger] rest[i] is Motion
            || rest[i] is Enter) by {
            assert(rest[i] == steps[i]);
        }
        lemma_underway(s, x, y, rest);
        assert(steps[steps.len() - 1] == steps.last());
        lemma_step_underway(
            s,
            state::confined(s.view@, x, y),
            s.pressed(x, y).after_all(rest),
            steps.last(),
        );
    }
}

/// A drag is confined to the output that it began on, even if the pointer wanders onto others: a
/// mark that comes of it has all its points there, and a selection both its corners.
pub proof fn law_drag_is_confined(s: EditorState, x: int, y: int, steps: Seq<Input>)
    requires
        s.drag == Drag::Idle,
        state::usable(s.view@),
        wandering(steps),
    ensures
        ({
            let t = s.pressed(x, y).after_all(steps);
            let r = t.released();
            &&& r.drag == Drag::Idle
            &&& r.annotations != t.annotations ==> r.annotations.len() == t.annotations.len() + 1
                && state::mark_within(r.annotations.last(), s.view@)
            &&& r.selection != s.selection ==> state::holds(s.view@, r.selection.0)
                && state::holds(s.view@, r.selection.1)
        }),
{
    lemma_underway(s, x, y, steps);
}

/// A selection that is tiny when the button is released counts as an accidental click: the
/// selection is as it was before, and so is whether there is one.
pub proof fn law_tiny_selection_is_undone(s: EditorState, x: int, y: int, steps: Seq<Input>)
    requires
        s.drag == Drag::Idle,
        state::usable(s.view@),
        wandering(steps),
    ensures
        ({
            let t = s.pressed(x, y).after_all(steps);
            let r = t.released();
            let tiny = t.selected().w < state::MIN_SELECTION || t.selected().h
                < state::MIN_SELECTION;
            &&& t.drag == Drag::NewSelection && tiny ==> r.selection == s.selection
                && r.has_selection == s.has_selection
            &&& t.drag == Drag::NewSelection && !tiny ==> r.selection == t.selection
                && r.has_selection
            &&& t.drag != Drag::NewSelection ==> r.selection == s.selection && r.has_selection
                == s.has_selection
        }),
{
    lemma_underway(s, x, y, steps);
}

/// What was drawn from a press to the release is taken back by one undo; a mark that was not
/// worth keeping has left nothing to take back.
pub proof fn law_undo_takes_back_a_stroke(s: EditorState, x: int, y: int, steps: Seq<Input>)
    requires
        s.drag == Drag::Idle,
        state::usable(s.view@),
        wandering(steps),
        s.pressed(x, y).drag == Drag::Draw,
    ensures
        ({
            let r = s.pressed(x, y).after_all(steps).released();
            ||| r.annotations == s.annotations
            ||| r.annotations.len() == s.annotations.len() + 1 && r.typed(
                Some('z'),
                true,
                false,
                false,
            ).0.annotations == s.annotations
        }),
{
    lemma_underway(s, x, y, steps);
    let t = s.pressed(x, y).after_all(steps);
    assert(s.annotations.push(t.draw->0).drop_last() =~= s.annotations);
}

/// A press beside the chrome, with no popup open, starts something.
pub open spec fn on_bare_canvas(s: EditorState, x: int, y: int) -> bool {
    &&& !s.show_color_wheel
    &&& !s.show_thickness_slider
    &&& !state::holds(
        layout::toolbar_area(s.view@, s.scale),
        state::confined(s.view@, x, y),
    )
}

proof fn lemma_bare_press(s: EditorState, x: int, y: int)
    requires
        on_bare_canvas(s, x, y),
    ensures
        s.pressed(x, y).drag == if s.tool == Tool::Crop {
            Drag::NewSelection
        } else {
            Drag::Draw
        },
{
}

proof fn lemma_last_step(s: EditorState, steps: Seq<Input>, last: Input)
    ensures
        s.after_all(steps.push(last)) == s.after_all(steps).after(last),
{
    assert(steps.push(last).drop_last() =~= steps);
}

proof fn lemma_motion_draws(t: EditorState, x: i32, y: i32)
    requires
        t.drag == Drag::Draw,
        t.draw is Some,
    ensures
        t.after(Input::Motion(x, y)).draw == Some(
            EditorState::extended(
                t.draw->0,
                state::confined(t.draw_bounds@, x as int, y as int),
            ),
        ),
{
    reveal(EditorState::after);
}

/// A release while `m` is being drawn.
proof fn lemma_release_draws(u: EditorState, m: Mark)
    requires
        u.drag == Drag::Draw,
        u.draw == Some(m),
    ensures
        u.released().annotations == if state::worth_keeping(m) {
            u.annotations.push(m)
        } else {
            u.annotations
        },
{
}

/// A drawing tool that is pressed on the canvas, moved and released leaves exactly one mark: from
/// the point of the press to that of the last motion, in the color and the thickness that were
/// active at the press. Only a mark without extent that is not freehand is dropped.
pub proof fn law_stroke_leaves_a_mark(
    s: EditorState,
    x: int,
    y: int,
    steps: Seq<Input>,
    last: (i32, i32),
)
    requires
        s.drag == Drag::Idle,
        state::usable(s.view@),
        s.tool != Tool::Crop,
        on_bare_canvas(s, x, y),
        wandering(steps),
    ensures
        ({
            let p = state::confined(s.view@, x, y);
            let q = state::confined(s.view@, last.0 as int, last.1 as int);
            let r = s.pressed(x, y).after_all(steps.push(Input::Motion(last.0, last.1))).released();
            if p == q && s.tool != Tool::Freehand {
                r.annotations == s.annotations
            } else {
                &&& r.annotations.len() == s.annotations.len() + 1
                &&& r.annotations.drop_last() == s.annotations
                &&& same_pen(r.annotations.last(), s.new_mark(p))
                &&& r.annotations.last().end == q
            }
        }),
{
    let p = state::confined(s.view@, x, y);
    let q = state::confined(s.view@, last.0 as int, last.1 as int);
    let motion = Input::Motion(last.0, last.1);
    let start = s.pressed(x, y);
    lemma_bare_press(s, x, y);
    lemma_underway(s, x, y, steps);
    lemma_last_step(start, steps, motion);
    let t = start.after_all(steps);
    lemma_step_underway(s, p, t, motion);
    lemma_motion_draws(t, last.0, last.1);
    let u = t.after(motion);
    let m = EditorState::extended(t.draw->0, q);
    assert(u.draw == Some(m));
    lemma_release_draws(u, m);
    assert(u.annotations == s.annotations);
    assert(s.annotations.push(m).drop_last() =~= s.annotations);
}

/// The points of the output that the motions go through.
pub open spec fn trail(area: Area, steps: Seq<Input>) -> Seq<(i32, i32)>
    decreases steps.len(),
{
    if steps.len() == 0 {
        seq![]
    } else {
        let before = trail(area, steps.drop_last());
        match steps.last() {
            Input::Motion(x, y) => before.push(state::confined(area, x as int, y as int)),
            _ => before,
        }
    }
}

/// A freehand mark goes through the point of the press and then through every point that the
/// pointer was moved to.
pub proof fn law_freehand_follows_pointer(s: EditorState, x: int, y: int, steps: Seq<Input>)
    requires
        s.drag == Drag::Idle,
        state::usable(s.view@),
        s.tool == Tool::Freehand,
        on_bare_canvas(s, x, y),
        wandering(steps),
    ensures
        ({
            let r = s.pressed(x, y).after_all(steps).released();
            &&& r.annotations.len() == s.annotations.len() + 1
            &&& r.annotations.last().points == seq![state::confined(s.view@, x, y)] + trail(
                s.view@,
                steps,
            )
        }),
{
    lemma_bare_press(s, x, y);
    lemma_underway(s, x, y, steps);
    lemma_trail(s, x, y, steps);
    let u = s.pressed(x, y).after_all(steps);
    lemma_release_draws(u, u.draw->0);
}

proof fn lemma_bare_freehand(s: EditorState, x: int, y: int)
    requires
        s.tool == Tool::Freehand,
        on_bare_canvas(s, x, y),
    ensures
        s.pressed(x, y).draw == Some(s.new_mark(state::confined(s.view@, x, y))),
{
}

proof fn lemma_enter_keeps_mark(t: EditorState, view: Rect)
    ensures
        t.after(Input::Enter(view)).draw == t.draw,
{
    reveal(EditorState::after);
}

proof fn lemma_trail(s: EditorState, x: int, y: int, steps: Seq<Input>)
    requires
        s.drag == Drag::Idle,
        state::usable(s.view@),
        s.tool == Tool::Freehand,
        on_bare_canvas(s, x, y),
        wandering(steps),
    ensures
        s.pressed(x, y).after_all(steps).draw is Some,
        s.pressed(x, y).after_all(steps).draw->0.points == seq![
            state::confined(s.view@, x, y),
        ] + trail(s.view@, steps),
    decreases steps.len(),
{
    let p = state::confined(s.view@, x, y);
    let start = s.pressed(x, y);
    lemma_bare_press(s, x, y);
    lemma_bare_freehand(s, x, y);
    if steps.len() == 0 {
        assert(seq![p] + trail(s.view@, steps) =~= seq![p]);
    } else {
        let rest = steps.drop_last();
        let last = steps[steps.len() - 1];
        assert(last is Motion || last is Enter);
        assert forall|i: int| 0 <= i < rest.len() implies (#[trigger] rest[i] is Motion
            || rest[i] is Enter) by {
            assert(rest[i] == steps[i]);
        }
        lemma_trail(s, x, y, rest);
        lemma_underway(s, x, y, rest);
        lemma_last_step(start, rest, last);
        assert(rest.push(last) =~= steps);
        let t = start.after_all(rest);
        match last {
            Input::Motion(mx, my) => {
                lemma_motion_draws(t, mx, my);
                let q = state::confined(s.view@, mx as int, my as int);
                assert(seq![p] + trail(s.view@, steps) =~= (seq![p] + trail(s.view@, rest)).push(q));
            },
            Input::Enter(view) => {
                lemma_enter_keeps_mark(t, view);
            },
            _ => {},
        }
    }
}

/// The crop tool that is pressed on the canvas, moved and released selects the rectangle between
/// the point of the press and that of the last motion, unless it is tiny.
pub proof fn law_crop_selects(
    s: EditorState,
    x: int,
    y: int,
    steps: Seq<Input>,
    last: (i32, i32),
)
    requires
        s.drag == Drag::Idle,
        state::usable(s.view@),
        s.tool == Tool::Crop,
        on_bare_canvas(s, x, y),
        wandering(steps),
    ensures
        ({
            let p = state::confined(s.view@, x, y);
            let q = state::confined(s.view@, last.0 as int, last.1 as int);
            let r = s.pressed(x, y).after_all(steps.push(Input::Motion(last.0, last.1))).released();
            let sel = geometry::spanned(p, q);
            if sel.w < state::MIN_SELECTION || sel.h < state::MIN_SELECTION {
                r.selection == s.selection && r.has_selection == s.has_selection
            } else {
                r.selection == (p, q) && r.has_selection
            }
        }),
{
    let p = state::confined(s.view@, x, y);
    let q = state::confined(s.view@, last.0 as int, last.1 as int);
    let motion = Input::Motion(last.0, last.1);
    let start = s.pressed(x, y);
    lemma_bare_press(s, x, y);
    lemma_underway(s, x, y, steps);
    lemma_last_step(start, steps, motion);
    let t = start.after_all(steps);
    lemma_step_underway(s, p, t, motion);
    lemma_motion_selects(t, last.0, last.1);
    let u = t.after(motion);
    assert(u.selection == (p, q));
    lemma_release_selects(u);
}

proof fn lemma_motion_selects(t: EditorState, x: i32, y: i32)
    requires
        t.drag == Drag::NewSelection,
    ensures
        t.after(Input::Motion(x, y)).selection == (
            t.selection.0,
            state::confined(t.draw_bounds@, x as int, y as int),
        ),
{
    reveal(EditorState::after);
}

proof fn lemma_release_selects(u: EditorState)
    requires
        u.drag == Drag::NewSelection,
    ensures
        ({
            let tiny = u.selected().w < state::MIN_SELECTION || u.selected().h
                < state::MIN_SELECTION;
            let r = u.released();
            &&& tiny ==> r.selection == u.selection_backup && r.has_selection
                == u.had_selection_backup
            &&& !tiny ==> r.selection == u.selection && r.has_selection == u.has_selection
        }),
{
}

// --- chrome ----------------------------------------------------------------

/// A press on the toolbar or on an open popup neither draws nor selects, and takes back marks
/// only where it is on the button for that.
pub proof fn law_chrome_does_not_draw(s: EditorState, x: int, y: int)
    requires
        s.target_at(x, y) !is Canvas,
    ensures
        s.pressed(x, y).draw == s.draw,
        s.pressed(x, y).selection == s.selection,
        s.pressed(x, y).has_selection == s.has_selection,
        s.pressed(x, y).annotations == s.annotations || s.pressed(x, y).annotations.len() == 0,
{
    lemma_hit_frame(
        EditorState { draw_bounds: s.view, ..s },
        state::confined(s.view@, x, y),
    );
}

/// A press beside the chrome while a popup is open closes it and does nothing else.
pub proof fn law_press_closes_popup(s: EditorState, x: int, y: int)
    requires
        s.show_color_wheel || s.show_thickness_slider,
        s.target_at(x, y) is Canvas,
    ensures
        s.pressed(x, y) == (EditorState { draw_bounds: s.view, ..s.closed() }),
{
}

/// The button of a popup opens it, closes the other, and closes it again.
pub proof fn law_popup_buttons_toggle(s: EditorState)
    requires
        s.wf(),
    ensures
        ({
            let wheel = s.with_button(ToolbarItem::Color);
            let slider = s.with_button(ToolbarItem::Thickness);
            &&& wheel.show_color_wheel != s.show_color_wheel && !wheel.show_thickness_slider
            &&& slider.show_thickness_slider != s.show_thickness_slider && !slider.show_color_wheel
            &&& !s.show_thickness_slider ==> wheel.with_button(ToolbarItem::Color) == s
            &&& !s.show_color_wheel ==> slider.with_button(ToolbarItem::Thickness) == s
        }),
{
}

// --- keys ------------------------------------------------------------------

/// Escape always cancels. A key that saves or cancels changes nothing, and with control held no
/// key changes anything but the annotations, of which it takes one back at most.
pub proof fn law_keys(
    s: EditorState,
    letter: Option<char>,
    ctrl: bool,
    escape: bool,
    enter_or_space: bool,
)
    ensures
        ({
            let (t, action) = s.typed(letter, ctrl, escape, enter_or_space);
            &&& escape ==> action == Action::Cancel
            &&& action != Action::Nothing ==> t == s
            &&& ctrl ==> t == (EditorState { annotations: t.annotations, ..s })
            &&& ctrl ==> t.annotations == s.annotations || t.annotations
                == s.annotations.drop_last()
        }),
{
}

/// Turning the thickness up and down again gives it back, unless the end of the range was in the
/// way.
pub proof fn law_scroll_is_undone(s: EditorState)
    requires
        s.wf(),
        s.active_thickness().num + thickness::THICKNESS_STEP * s.active_thickness().den
            <= thickness::MAX_THICKNESS * s.active_thickness().den,
    ensures
        s.scrolled(true).scrolled(false) == s,
{
    thickness::law_adjust_is_undone(s.active_thickness(), 2);
    let t = s.scrolled(true);
    assert(t.active_thickness() == thickness::adjusted(s.active_thickness(), 2));
    assert(t.scrolled(false) =~= s);
}

// --- the frosted glass -----------------------------------------------------

proof fn lemma_glass_step(s: EditorState, input: Input)
    requires
        !(input is Glass),
    ensures
        s.after(input).glass == s.glass,
{
    reveal(EditorState::after);
    match input {
        Input::Press(x, y) => lemma_hit_frame(
            EditorState { draw_bounds: s.view, ..s },
            state::confined(s.view@, x as int, y as int),
        ),
        _ => {},
    }
}

/// The frosted glass is made once: no other input takes it away.
pub proof fn law_glass_is_kept(s: EditorState, inputs: Seq<Input>)
    requires
        forall|i: int| 0 <= i < inputs.len() ==> !(#[trigger] inputs[i] is Glass),
    ensures
        s.after_all(inputs).glass == s.glass,
    decreases inputs.len(),
{
    if inputs.len() > 0 {
        let rest = inputs.drop_last();
        let last = inputs[inputs.len() - 1];
        assert(!(last is Glass));
        assert forall|i: int| 0 <= i < rest.len() implies !(#[trigger] rest[i] is Glass) by {
            assert(rest[i] == inputs[i]);
        }
        law_glass_is_kept(s, rest);
        lemma_glass_step(s.after_all(rest), last);
        lemma_last_step(s, rest, last);
        assert(rest.push(last) =~= inputs);
    }
}

} // verus!
