//! What the running program holds, and what each event makes of it.

use crate::canvas;
use crate::canvas::Captured;
use crate::editor::laws;
use crate::editor::state;
use crate::editor::state::{Action, EditorState};
use crate::keys;
use crate::render::drawing::DrawOp;
use crate::render::geometry::Scale;
use crate::render::layout;
use crate::session::overlay::Overlay;
use vstd::prelude::*;

verus! {

/// The left button of a pointer.
pub const BTN_LEFT: u32 = 0x110;

// --- events ----------------------------------------------------------------

/// What the pointer does.
#[derive(Debug, Clone, Copy, PartialEq, Eq, Structural)]
pub enum PointerKind {
    Enter,
    Motion,
    Press { button: u32 },
    Release { button: u32 },
    /// The wheel turned; `vertical` is negative where it is turned up.
    Axis { vertical: i32 },
    Other,
}

/// A pointer event.
#[derive(Debug, Clone, Copy)]
pub struct PointerInput {
    /// The overlay that it is on, if it is on one.
    pub overlay: Option<usize>,
    /// Where on the overlay, in parts of a logical px.
    pub at: (i32, i32),
    pub kind: PointerKind,
}

/// The editor that an event on an overlay makes of `e`. Only the left button counts, motion only
/// while it is held, and the toolbar follows the pointer.
pub open spec fn edited_on(o: Overlay, down: bool, e: EditorState, event: PointerInput) -> EditorState {
    let (x, y) = o.point(event.at);
    match event.kind {
        PointerKind::Enter => EditorState { view: o.rect(), ..e },
        PointerKind::Motion => if down {
            e.moved(x, y)
        } else {
            e
        },
        PointerKind::Press { button } => if button == BTN_LEFT {
            (EditorState { view: o.rect(), ..e }).pressed(x, y)
        } else {
            e
        },
        PointerKind::Release { button } => if button == BTN_LEFT {
            e.released()
        } else {
            e
        },
        PointerKind::Axis { vertical } => if vertical != 0 {
            e.scrolled(vertical < 0)
        } else {
            e
        },
        PointerKind::Other => e,
    }
}

/// What the program holds.
#[verifier::ext_equal]
pub struct SessionState {
    pub editor: Option<EditorState>,
    pub overlays: Seq<Overlay>,
    pub active: Option<usize>,
    pub down: bool,
    pub ctrl: bool,
    pub exit: bool,
}

impl SessionState {
    /// The editor is ready, and so it would be on every output.
    pub open spec fn wf(self) -> bool {
        self.editor matches Some(e) ==> {
            &&& e.ready()
            &&& forall|i: int|
                0 <= i < self.overlays.len() ==> state::on_screen(
                    (#[trigger] self.overlays[i]).area(),
                    e.canvas(),
                ) && layout::chrome_fits(self.overlays[i].area(), e.scale)
        }
    }

    /// The overlay of an event.
    pub open spec fn overlay_of(self, event: PointerInput) -> Overlay {
        self.overlays[event.overlay->0 as int]
    }

    /// The event is on no overlay, or on one of these at a place that has a pixel.
    pub open spec fn takes(self, event: PointerInput) -> bool {
        event.overlay matches Some(i) ==> i < self.overlays.len() && self.overlays[i as int].reaches(
            event.at,
        )
    }

    /// The editor that an event makes of `e`.
    pub open spec fn edited(self, e: EditorState, event: PointerInput) -> EditorState {
        edited_on(self.overlay_of(event), self.down, e, event)
    }

    /// The program after a pointer event.
    pub open spec fn noted(self, event: PointerInput) -> SessionState {
        if event.overlay is None {
            self
        } else {
            let pressed = event.kind == PointerKind::Press { button: BTN_LEFT };
            let released = event.kind == PointerKind::Release { button: BTN_LEFT };
            SessionState {
                editor: match self.editor {
                    Some(e) => Some(self.edited(e, event)),
                    None => None,
                },
                active: if pressed || event.kind == PointerKind::Enter {
                    event.overlay
                } else {
                    self.active
                },
                down: pressed || self.down && !released,
                ..self
            }
        }
    }

    /// The event calls for a redraw of all overlays.
    pub open spec fn redraws_all(self, event: PointerInput) -> bool {
        event.overlay is Some && match event.kind {
            PointerKind::Enter => true,
            PointerKind::Press { button } => button == BTN_LEFT,
            PointerKind::Release { button } => button == BTN_LEFT,
            PointerKind::Axis { vertical } => vertical != 0,
            _ => false,
        }
    }

    /// The event calls for a redraw of the active overlay.
    pub open spec fn redraws_active(self, event: PointerInput) -> bool {
        event.overlay is Some && event.kind == PointerKind::Motion && self.down
    }

    /// The program after a row of pointer events, and whether one of them called for a redraw of
    /// all overlays or of the active one.
    pub open spec fn noted_all(self, events: Seq<PointerInput>) -> (SessionState, bool, bool)
        decreases events.len(),
    {
        if events.len() == 0 {
            (self, false, false)
        } else {
            let (s, all, active) = self.noted_all(events.drop_last());
            (
                s.noted(events.last()),
                all || s.redraws_all(events.last()),
                active || s.redraws_active(events.last()),
            )
        }
    }

    /// A redraw of one overlay requested: the program, and whether to paint it now.
    pub open spec fn requested(self, index: int) -> (SessionState, bool) {
        if 0 <= index < self.overlays.len() {
            let (o, now) = self.overlays[index].requested();
            (SessionState { overlays: self.overlays.update(index, o), ..self }, now)
        } else {
            (self, false)
        }
    }

    /// A redraw of all overlays requested.
    pub open spec fn requested_all(self) -> SessionState {
        SessionState {
            overlays: Seq::new(self.overlays.len(), |i: int| self.overlays[i].requested().0),
            ..self
        }
    }

    /// Those of the first `n` overlays that a redraw of all overlays paints now.
    pub open spec fn due(self, n: int) -> Seq<usize>
        decreases n,
    {
        if n <= 0 {
            seq![]
        } else if self.overlays[n - 1].requested().1 {
            self.due(n - 1).push((n - 1) as usize)
        } else {
            self.due(n - 1)
        }
    }

    /// The program after the redraws that pointer events call for, and the overlays to paint now.
    pub open spec fn redrawn(self, all: bool, active: bool) -> (SessionState, Seq<usize>) {
        if all {
            (self.requested_all(), self.due(self.overlays.len() as int))
        } else if active && self.active is Some {
            let (s, now) = self.requested(self.active->0 as int);
            (
                s,
                if now {
                    seq![self.active->0]
                } else {
                    seq![]
                },
            )
        } else {
            (self, seq![])
        }
    }

    /// What an action does to the program, and what is to be saved: nothing without an editor; to
    /// cancel or to save ends the program.
    pub open spec fn acted(self, action: Action) -> (SessionState, Action) {
        if self.editor is None || action == Action::Nothing {
            (self, Action::Nothing)
        } else if action == Action::Cancel {
            (SessionState { exit: true, ..self }, Action::Nothing)
        } else {
            (SessionState { exit: true, ..self }, action)
        }
    }

    /// A key pressed: the program before the redraw of all overlays, and what is to be saved.
    pub open spec fn typed(self, k: u32) -> (SessionState, Action) {
        match self.editor {
            Some(e) => {
                let (after, action) = e.typed(
                    keys::key_char(k),
                    self.ctrl,
                    k == keys::KEY_ESCAPE,
                    keys::saves(k),
                );
                (SessionState { editor: Some(after), ..self }).acted(action)
            },
            None => (self, Action::Nothing),
        }
    }

    /// The slice of the canvas that is painted on an overlay.
    pub open spec fn painting(self, index: int) -> Seq<DrawOp> {
        let o = self.overlays[index];
        seq![
            DrawOp::Translate { dx: (-o.origin.0) as i64, dy: (-o.origin.1) as i64 },
        ] + self.editor->0.scene()
    }

    /// What is painted over it: the chrome, if the pointer is on the overlay.
    pub open spec fn chrome_on(self, index: int) -> Seq<DrawOp> {
        if self.active == Some(index as usize) {
            self.editor->0.chrome()
        } else {
            seq![]
        }
    }

    /// There is something to paint on the overlay.
    pub open spec fn paintable(self, index: int) -> bool {
        0 <= index < self.overlays.len() && self.overlays[index].configured && self.editor is Some
    }
}

/// The pointer came to an overlay.
pub open spec fn entered(events: Seq<PointerInput>) -> bool {
    exists|i: int|
        0 <= i < events.len() && (#[trigger] events[i]).overlay is Some && events[i].kind
            == PointerKind::Enter
}

// --- start -----------------------------------------------------------------

/// The scale of the canvas.
pub open spec fn canvas_scale(outputs: Seq<Captured>) -> Scale {
    Scale { num: outputs[0].scale as u32, den: 1 }
}

/// The outputs have a place on a canvas.
pub open spec fn placeable(outputs: Seq<Captured>) -> bool {
    &&& outputs.len() > 0
    &&& 1 <= outputs[0].scale
    &&& canvas::assembly_fits(outputs)
    &&& forall|i: int|
        0 <= i < outputs.len() ==> 1 <= (#[trigger] outputs[i]).w && 1 <= outputs[i].h
}

/// There is room for the chrome on every output and on the canvas.
pub open spec fn roomy(outputs: Seq<Captured>) -> bool {
    &&& layout::chrome_fits(canvas::whole(outputs), canvas_scale(outputs))
    &&& forall|i: int|
        0 <= i < outputs.len() ==> layout::chrome_fits(
            #[trigger] canvas::area_of(outputs, i),
            canvas_scale(outputs),
        )
}

/// An editor can be opened over the outputs.
pub open spec fn startable(outputs: Seq<Captured>) -> bool {
    placeable(outputs) && roomy(outputs)
}

/// The overlay of output `i` before the compositor has configured it.
pub open spec fn overlay_over(outputs: Seq<Captured>, i: int) -> Overlay {
    Overlay {
        origin: (canvas::area_of(outputs, i).x as i32, canvas::area_of(outputs, i).y as i32),
        size: (outputs[i].w, outputs[i].h),
        scale: outputs[i].scale,
        configured: false,
        frame_pending: false,
        needs_redraw: false,
    }
}

impl SessionState {
    /// An editor opened over the outputs, and an overlay for each.
    pub open spec fn started(self, outputs: Seq<Captured>) -> SessionState {
        SessionState {
            editor: Some(
                EditorState::fresh(
                    canvas::whole(outputs).w as i32,
                    canvas::whole(outputs).h as i32,
                    canvas_scale(outputs),
                ),
            ),
            overlays: Seq::new(outputs.len(), |i: int| overlay_over(outputs, i)),
            ..self
        }
    }
}

// --- what is shown ---------------------------------------------------------

/// Whatever a pointer event changes in the editor is shown: a redraw is called for.
pub proof fn law_changes_are_shown(s: SessionState, event: PointerInput)
    requires
        s.noted(event).editor != s.editor,
    ensures
        s.redraws_all(event) || s.redraws_active(event),
{
}

/// A redraw of all overlays leaves none out: each is painted now or once its frame callback fires.
pub proof fn law_all_are_redrawn(s: SessionState, i: int)
    requires
        0 <= i < s.overlays.len() <= usize::MAX,
    ensures
        s.due(s.overlays.len() as int).contains(i as usize) || s.requested_all().overlays[i].ticked().1,
        s.due(s.overlays.len() as int).contains(i as usize) ==> !s.overlays[i].frame_pending,
{
    lemma_due(s, s.overlays.len() as int, i);
}

proof fn lemma_due(s: SessionState, n: int, i: int)
    requires
        0 <= i < s.overlays.len() <= usize::MAX,
        0 <= n <= s.overlays.len(),
    ensures
        s.due(n).contains(i as usize) <==> i < n && !s.overlays[i].frame_pending,
    decreases n,
{
    if n > 0 {
        lemma_due(s, n - 1, i);
        let (a, b) = (s.due(n - 1), s.due(n));
        if s.overlays[n - 1].requested().1 {
            assert(b == a.push((n - 1) as usize));
            assert(b[a.len() as int] == (n - 1) as usize);
            if a.contains(i as usize) {
                let k = choose|k: int| 0 <= k < a.len() && a[k] == i as usize;
                assert(b[k] == i as usize);
            }
            if b.contains(i as usize) && i != n - 1 {
                let k = choose|k: int| 0 <= k < b.len() && b[k] == i as usize;
                assert(a[k] == i as usize);
            }
        }
    }
}

/// The toolbar follows the pointer: the overlay that it comes to, or that is pressed, is the active
/// one, and the editor's chrome lies there.
pub proof fn law_toolbar_follows_pointer(s: SessionState, event: PointerInput)
    requires
        s.takes(event),
        event.overlay is Some,
        event.kind == PointerKind::Enter || event.kind == (PointerKind::Press { button: BTN_LEFT }),
    ensures
        s.noted(event).active == event.overlay,
        s.noted(event).editor matches Some(e) ==> e.view == s.overlay_of(event).rect(),
{
    if s.editor is Some && event.kind != PointerKind::Enter {
        let o = s.overlay_of(event);
        let (x, y) = o.point(event.at);
        laws::lemma_press_keeps_view(EditorState { view: o.rect(), ..s.editor->0 }, x, y);
    }
}

} // verus!
