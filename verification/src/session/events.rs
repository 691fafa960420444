//! What each event does to the running program.

use crate::canvas;
use crate::canvas::Captured;
use crate::editor::state::{Action, EditorState};
use crate::keys;
use crate::render::drawing::DrawOp;
use crate::render::geometry::{Rect, Scale};
use crate::render::layout;
use crate::session::model;
use crate::session::model::{PointerInput, PointerKind, SessionState};
use crate::session::overlay;
use crate::session::overlay::Overlay;
use vstd::prelude::*;

verus! {

// --- the pointer -----------------------------------------------------------

/// A position on an overlay in 256ths of a logical px is that many 256ths of the scale's device px
/// away from the overlay's corner, cut to whole px toward the corner.
pub proof fn law_positions_are_scaled(n: i32, scale: i32)
    requires
        1 <= scale,
        n * scale < 256 * i32::MAX,
        n * scale > 256 * i32::MIN,
    ensures
        ({
            let d = overlay::device(n as int, scale as int);
            &&& n >= 0 ==> 256 * d <= n * scale < 256 * (d + 1)
            &&& n < 0 ==> 256 * (d - 1) < n * scale <= 256 * d
        }),
{
    let v: int = n * scale;
    assert(n >= 0 ==> v >= 0) by (nonlinear_arith)
        requires
            v == n * scale,
            1 <= scale,
    ;
    assert(n < 0 ==> v < 0) by (nonlinear_arith)
        requires
            v == n * scale,
            1 <= scale,
    ;
}

/// A position on an overlay is measured from the overlay's place on the canvas, each axis by itself.
pub proof fn law_positions_start_at_the_overlay(o: Overlay, at: (i32, i32))
    ensures
        o.point(at).0 - o.origin.0 == overlay::device(at.0 as int, o.scale as int),
        o.point(at).1 - o.origin.1 == overlay::device(at.1 as int, o.scale as int),
        o.point((0i32, 0i32)).0 == o.origin.0,
        o.point((0i32, 0i32)).1 == o.origin.1,
{
    assert(0 * o.scale == 0);
}

/// The editor hears of a pointer event in the canvas's px. Only the left button counts; motion
/// counts only while it is held; the wheel turns the thickness up where it is turned up; and an
/// entered or pressed overlay becomes the editor's output.
pub proof fn law_what_the_pointer_does(o: Overlay, down: bool, e: EditorState, event: PointerInput)
    ensures
        ({
            let r = model::edited_on(o, down, e, event);
            let (x, y) = o.point(event.at);
            let here = Rect { x: o.origin.0, y: o.origin.1, w: o.size.0, h: o.size.1 };
            match event.kind {
                PointerKind::Enter => r == (EditorState { view: here, ..e }),
                PointerKind::Motion => (down ==> r == e.moved(x, y)) && (!down ==> r == e),
                PointerKind::Press { button } => {
                    &&& button == 0x110 ==> r == (EditorState { view: here, ..e }).pressed(x, y)
                    &&& button != 0x110 ==> r == e
                },
                PointerKind::Release { button } => {
                    &&& button == 0x110 ==> r == e.released()
                    &&& button != 0x110 ==> r == e
                },
                PointerKind::Axis { vertical } => {
                    &&& vertical < 0 ==> r == e.scrolled(true)
                    &&& vertical > 0 ==> r == e.scrolled(false)
                    &&& vertical == 0 ==> r == e
                },
                PointerKind::Other => r == e,
            }
        }),
{
}

/// A pointer event on no overlay does nothing. Any other goes to the editor; it changes which
/// overlay is active only by coming to one or pressing on it, and the button counts as held from its
/// press to its release.
pub proof fn law_what_an_event_notes(s: SessionState, event: PointerInput)
    ensures
        ({
            let r = s.noted(event);
            let pressed = event.kind matches PointerKind::Press { button } && button == 0x110;
            let released = event.kind matches PointerKind::Release { button } && button == 0x110;
            &&& event.overlay is None ==> r == s
            &&& event.overlay matches Some(i) ==> {
                &&& r.editor == match s.editor {
                    Some(e) => Some(model::edited_on(s.overlays[i as int], s.down, e, event)),
                    None => None,
                }
                &&& pressed || event.kind is Enter ==> r.active == Some(i)
                &&& !pressed && !(event.kind is Enter) ==> r.active == s.active
                &&& pressed ==> r.down
                &&& released ==> !r.down
                &&& !pressed && !released ==> r.down == s.down
            }
            &&& r.overlays == s.overlays && r.ctrl == s.ctrl && r.exit == s.exit
        }),
{
}

/// A row of events is noted one after the other, and calls for a redraw as soon as one of them does.
pub proof fn law_events_are_noted_in_order(
    s: SessionState,
    events: Seq<PointerInput>,
    last: PointerInput,
)
    ensures
        s.noted_all(Seq::empty()) == (s, false, false),
        ({
            let (t, all, active) = s.noted_all(events);
            s.noted_all(events.push(last)) == (
                t.noted(last),
                all || t.redraws_all(last),
                active || t.redraws_active(last),
            )
        }),
{
    assert(events.push(last).drop_last() =~= events);
    assert(events.push(last).last() == last);
}

/// Which events call for a redraw: coming to an overlay, the left button and a turn of the wheel
/// for one of all overlays; motion while the button is held for one of the active overlay.
pub proof fn law_which_events_redraw(s: SessionState, event: PointerInput)
    ensures
        s.redraws_all(event) <==> event.overlay is Some && (event.kind is Enter || (event.kind
            matches PointerKind::Press { button } && button == 0x110) || (event.kind
            matches PointerKind::Release { button } && button == 0x110) || (event.kind
            matches PointerKind::Axis { vertical } && vertical != 0)),
        s.redraws_active(event) <==> event.overlay is Some && event.kind is Motion && s.down,
{
}

// --- redraws ---------------------------------------------------------------

/// A redraw of one overlay: it is painted now, or marked for its frame callback if one is pending.
/// Nothing else changes, and an overlay that there is not is not painted.
pub proof fn law_redraw_of_one(s: SessionState, index: int, k: int)
    requires
        0 <= k < s.overlays.len(),
    ensures
        ({
            let (r, now) = s.requested(index);
            let o = s.overlays[k];
            &&& now <==> 0 <= index < s.overlays.len() && !s.overlays[index].frame_pending
            &&& r.overlays.len() == s.overlays.len()
            &&& k != index ==> r.overlays[k] == o
            &&& k == index ==> r.overlays[k] == (Overlay {
                needs_redraw: o.needs_redraw || o.frame_pending,
                ..o
            })
            &&& r == (SessionState { overlays: r.overlays, ..s })
        }),
{
}

/// A redraw of all overlays marks exactly those whose frame callback is pending, and changes nothing
/// else.
pub proof fn law_redraw_of_all(s: SessionState, k: int)
    requires
        0 <= k < s.overlays.len(),
    ensures
        ({
            let r = s.requested_all();
            let o = s.overlays[k];
            &&& r.overlays.len() == s.overlays.len()
            &&& r.overlays[k] == (Overlay {
                needs_redraw: o.needs_redraw || o.frame_pending,
                ..o
            })
            &&& r == (SessionState { overlays: r.overlays, ..s })
        }),
{
}

proof fn lemma_due_in_order(s: SessionState, n: int, a: int, b: int)
    requires
        0 <= n <= s.overlays.len() <= usize::MAX,
        0 <= a < b < s.due(n).len(),
    ensures
        s.due(n)[a] < s.due(n)[b] < n,
    decreases n,
{
    if n > 0 {
        let before = s.due(n - 1);
        if b < before.len() {
            lemma_due_in_order(s, n - 1, a, b);
        } else {
            lemma_due_below(s, n - 1, a);
        }
    }
}

proof fn lemma_due_below(s: SessionState, n: int, a: int)
    requires
        0 <= n <= s.overlays.len() <= usize::MAX,
        0 <= a < s.due(n).len(),
    ensures
        s.due(n)[a] < n,
    decreases n,
{
    if n > 0 {
        if a < s.due(n - 1).len() {
            lemma_due_below(s, n - 1, a);
        }
    }
}

/// The overlays that a redraw of all paints now come in their order, each once.
pub proof fn law_painted_in_order(s: SessionState, a: int, b: int)
    requires
        s.overlays.len() <= usize::MAX,
        0 <= a < b < s.due(s.overlays.len() as int).len(),
    ensures
        s.due(s.overlays.len() as int)[a] < s.due(s.overlays.len() as int)[b],
        s.due(s.overlays.len() as int)[b] < s.overlays.len(),
{
    lemma_due_in_order(s, s.overlays.len() as int, a, b);
}

/// What is painted after a row of events: all overlays that can be, if one event called for that;
/// else the active one alone, if one event called for that and there is one; else none.
pub proof fn law_what_is_redrawn(s: SessionState, active: bool)
    ensures
        s.redrawn(true, active) == (s.requested_all(), s.due(s.overlays.len() as int)),
        s.redrawn(false, false) == (s, Seq::<usize>::empty()),
        s.active is None ==> s.redrawn(false, active) == (s, Seq::<usize>::empty()),
        s.active matches Some(i) ==> {
            let (r, paint) = s.redrawn(false, true);
            &&& r == s.requested(i as int).0
            &&& i < s.overlays.len() && !s.overlays[i as int].frame_pending ==> paint == seq![i]
            &&& i >= s.overlays.len() || s.overlays[i as int].frame_pending ==> paint.len() == 0
        },
{
}

/// Painting an overlay sets its frame callback pending and takes the mark for a redraw off; the
/// callback ends that, and says whether the overlay was marked meanwhile.
pub proof fn law_painting_waits_for_the_frame(o: Overlay)
    ensures
        o.shown() == (Overlay { frame_pending: true, needs_redraw: false, ..o }),
        o.ticked().0 == (Overlay { frame_pending: false, ..o }),
        o.ticked().1 == o.needs_redraw,
        o.shown().ticked().0 == (Overlay { frame_pending: false, needs_redraw: false, ..o }),
        !o.shown().ticked().1,
{
}

// --- what is painted -------------------------------------------------------

/// Every overlay shows the editor's canvas from its own corner on, and only the active one shows the
/// chrome.
pub proof fn law_overlays_show_the_canvas(s: SessionState, index: int)
    requires
        s.paintable(index),
        index <= usize::MAX,
    ensures
        ({
            let ops = s.painting(index);
            let o = s.overlays[index];
            &&& ops.len() == 1 + s.editor->0.scene().len()
            &&& ops[0] matches DrawOp::Translate { dx, dy } && dx == -o.origin.0 && dy
                == -o.origin.1
            &&& ops.skip(1) == s.editor->0.scene()
            &&& s.active == Some(index as usize) ==> s.chrome_on(index) == s.editor->0.chrome()
            &&& s.active != Some(index as usize) ==> s.chrome_on(index).len() == 0
        }),
{
    assert(s.painting(index).skip(1) =~= s.editor->0.scene());
}

/// An overlay can be painted once it is configured and there is an editor.
pub proof fn law_when_overlays_are_painted(s: SessionState, index: int)
    ensures
        s.paintable(index) <==> 0 <= index < s.overlays.len() && s.overlays[index].configured
            && s.editor is Some,
{
}

// --- keys and actions ------------------------------------------------------

/// To cancel ends the program and saves nothing; to save ends it and saves what was asked for; and
/// nothing comes of no action, or without an editor.
pub proof fn law_what_actions_do(s: SessionState, action: Action)
    ensures
        s.editor is None ==> s.acted(action) == (s, Action::Nothing),
        s.acted(Action::Nothing) == (s, Action::Nothing),
        s.editor is Some ==> s.acted(Action::Cancel) == (
            SessionState { exit: true, ..s },
            Action::Nothing,
        ),
        s.editor is Some ==> s.acted(Action::SaveDisk) == (
            SessionState { exit: true, ..s },
            Action::SaveDisk,
        ),
        s.editor is Some ==> s.acted(Action::SaveClipboard) == (
            SessionState { exit: true, ..s },
            Action::SaveClipboard,
        ),
{
}

/// A key goes to the editor as its letter, with the state of control; what the editor asks for is
/// done. Without an editor nothing happens.
pub proof fn law_what_a_key_does(s: SessionState, k: u32)
    ensures
        s.editor is None ==> s.typed(k) == (s, Action::Nothing),
        s.editor matches Some(e) ==> {
            let (f, action) = e.typed(
                keys::key_char(k),
                s.ctrl,
                k == 0xff1b,
                k == 0xff0d || k == 0xff8d || k == 0x20,
            );
            let t = SessionState { editor: Some(f), ..s };
            &&& action == Action::Nothing ==> s.typed(k) == (t, Action::Nothing)
            &&& action == Action::Cancel ==> s.typed(k) == (
                SessionState { exit: true, ..t },
                Action::Nothing,
            )
            &&& action == Action::SaveDisk || action == Action::SaveClipboard ==> s.typed(k) == (
                SessionState { exit: true, ..t },
                action,
            )
        },
{
}

// --- start -----------------------------------------------------------------

/// The program starts with a fresh editor over the whole canvas, at the scale of the first output,
/// and an overlay over every output, at its place, in its size and scale, and not yet configured.
pub proof fn law_what_is_started(s: SessionState, outputs: Seq<Captured>, i: int)
    requires
        model::placeable(outputs),
        0 <= i < outputs.len(),
    ensures
        ({
            let r = s.started(outputs);
            let o = r.overlays[i];
            let all = canvas::whole(outputs);
            &&& r.editor == Some(
                EditorState::fresh(
                    all.w as i32,
                    all.h as i32,
                    Scale { num: outputs[0].scale as u32, den: 1 },
                ),
            )
            &&& r.overlays.len() == outputs.len()
            &&& o.origin.0 == canvas::area_of(outputs, i).x
            &&& o.origin.1 == canvas::area_of(outputs, i).y
            &&& o.size == (outputs[i].w, outputs[i].h)
            &&& o.scale == outputs[i].scale
            &&& !o.configured && !o.frame_pending && !o.needs_redraw
            &&& r == (SessionState { editor: r.editor, overlays: r.overlays, ..s })
        }),
{
}

/// The pointer has come to an overlay as soon as one event of a row says so.
pub proof fn law_when_the_pointer_has_entered(events: Seq<PointerInput>, last: PointerInput)
    ensures
        !model::entered(Seq::empty()),
        model::entered(events.push(last)) == (model::entered(events) || last.overlay is Some
            && last.kind is Enter),
{
    let all = events.push(last);
    assert(all[events.len() as int] == last);
    if model::entered(events) {
        let i = choose|i: int|
            0 <= i < events.len() && (#[trigger] events[i]).overlay is Some && events[i].kind
                == PointerKind::Enter;
        assert(all[i] == events[i]);
    }
    if model::entered(all) && !(last.overlay is Some && last.kind is Enter) {
        let i = choose|i: int|
            0 <= i < all.len() && (#[trigger] all[i]).overlay is Some && all[i].kind
                == PointerKind::Enter;
        assert(events[i] == all[i]);
    }
}

/// Every position on an ordinary overlay has a pixel.
pub proof fn law_positions_have_pixels(o: Overlay, at: (i32, i32))
    requires
        0 <= o.origin.0 <= 0x1000_0000,
        0 <= o.origin.1 <= 0x1000_0000,
        1 <= o.scale <= 64,
        -0x1000_0000 <= at.0 <= 0x1000_0000,
        -0x1000_0000 <= at.1 <= 0x1000_0000,
    ensures
        o.reaches(at),
{
    let s: int = o.scale as int;
    let (a, b): (int, int) = (at.0 as int, at.1 as int);
    assert(-64 * 0x1000_0000 <= a * s <= 64 * 0x1000_0000) by (nonlinear_arith)
        requires
            -0x1000_0000 <= a <= 0x1000_0000,
            1 <= s <= 64,
    ;
    assert(-64 * 0x1000_0000 <= b * s <= 64 * 0x1000_0000) by (nonlinear_arith)
        requires
            -0x1000_0000 <= b <= 0x1000_0000,
            1 <= s <= 64,
    ;
}

/// An editor can be opened over any ordinary outputs.
#[verifier::rlimit(60)]
#[verifier::spinoff_prover]
pub proof fn law_ordinary_outputs_can_be_edited(outputs: Seq<Captured>)
    requires
        outputs.len() > 0,
        1 <= outputs[0].scale <= 64,
        forall|i: int|
            0 <= i < outputs.len() ==> {
                let o = #[trigger] outputs[i];
                &&& 1 <= o.w <= 0x10_0000 && 1 <= o.h <= 0x10_0000
                &&& -0x8_0000 <= o.logical.0 <= 0x8_0000 && -0x8_0000 <= o.logical.1 <= 0x8_0000
            },
    ensures
        model::startable(outputs),
{
    let s: int = outputs[0].scale as int;
    assert forall|i: int| 0 <= i < outputs.len() implies {
        let a = #[trigger] canvas::area_of(outputs, i);
        0 <= a.x <= 0x400_0000 && 0 <= a.y <= 0x400_0000
    } by {
        canvas::law_canvas_is_tight(outputs, i);
        let k = choose|k: int|
            0 <= k < outputs.len() && (#[trigger] canvas::area_of(outputs, k)).x == 0;
        let j = choose|j: int|
            0 <= j < outputs.len() && (#[trigger] canvas::area_of(outputs, j)).y == 0;
        canvas::law_layout_is_kept(outputs, k, i);
        canvas::law_layout_is_kept(outputs, j, i);
        let dx: int = outputs[i].logical.0 - outputs[k].logical.0;
        let dy: int = outputs[i].logical.1 - outputs[j].logical.1;
        assert(dx * s <= 0x400_0000 && dy * s <= 0x400_0000) by (nonlinear_arith)
            requires
                dx <= 0x10_0000,
                dy <= 0x10_0000,
                1 <= s <= 64,
        ;
    }
    assert forall|i: int| #![trigger outputs[i]] 0 <= i < outputs.len() implies {
        &&& outputs[i].logical.0 - canvas::least(canvas::logical_x(outputs)) <= i32::MAX
        &&& outputs[i].logical.1 - canvas::least(canvas::logical_y(outputs)) <= i32::MAX
    } by {
        let a = canvas::area_of(outputs, i);
        let lx: int = outputs[i].logical.0 - canvas::least(canvas::logical_x(outputs));
        let ly: int = outputs[i].logical.1 - canvas::least(canvas::logical_y(outputs));
        assert(lx <= 0x400_0000 && ly <= 0x400_0000) by (nonlinear_arith)
            requires
                lx * s <= 0x400_0000,
                ly * s <= 0x400_0000,
                1 <= s,
        ;
    }
    let scale = model::canvas_scale(outputs);
    canvas::law_canvas_is_tight(outputs, 0);
    let all = canvas::whole(outputs);
    let k = choose|k: int|
        0 <= k < outputs.len() && (#[trigger] canvas::area_of(outputs, k)).x + canvas::area_of(
            outputs,
            k,
        ).w == all.w;
    let j = choose|j: int|
        0 <= j < outputs.len() && (#[trigger] canvas::area_of(outputs, j)).y + canvas::area_of(
            outputs,
            j,
        ).h == all.h;
    assert(outputs[k].w <= 0x10_0000 && outputs[j].h <= 0x10_0000);
    layout::law_there_is_room_on_ordinary_outputs(all, scale);
    assert forall|i: int| 0 <= i < outputs.len() implies layout::chrome_fits(
        #[trigger] canvas::area_of(outputs, i),
        scale,
    ) by {
        let o = outputs[i];
        layout::law_there_is_room_on_ordinary_outputs(canvas::area_of(outputs, i), scale);
    }
}

} // verus!
