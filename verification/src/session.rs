//! The running program: the outputs' overlays, the editor over them, and what each event makes
//! of both.

pub mod events;
pub mod model;
pub mod overlay;

pub use model::{PointerInput, PointerKind, BTN_LEFT};
pub use overlay::Overlay;

use crate::canvas;
use crate::canvas::{Canvas, Captured};
use crate::editor::laws;
use crate::editor::state;
use crate::editor::state::{Action, EditorState, Input};
use crate::editor::Editor;
use crate::keys;
use crate::render::drawing;
use crate::render::drawing::DrawOp;
use crate::render::geometry::{Rect, Scale};
use crate::render::layout;
use crate::session::model::SessionState;
use vstd::prelude::*;

verus! {

/// The running program.
pub struct Session {
    /// The single editor over the whole multi-monitor canvas.
    pub editor: Option<Editor>,
    pub overlays: Vec<Overlay>,
    /// The output the pointer is currently on (the toolbar follows it).
    pub active: Option<usize>,
    pub down: bool,
    pub ctrl: bool,
    pub exit: bool,
}

/// What the editor holds, if there is one.
pub open spec fn editing(editor: Option<Editor>) -> Option<EditorState> {
    match editor {
        Some(e) => Some(e@),
        None => None,
    }
}

impl View for Session {
    type V = SessionState;

    open spec fn view(&self) -> SessionState {
        SessionState {
            editor: editing(self.editor),
            overlays: self.overlays@,
            active: self.active,
            down: self.down,
            ctrl: self.ctrl,
            exit: self.exit,
        }
    }
}

/// What pointer events ask for.
#[derive(Debug)]
pub struct PointerOutcome {
    /// The cursor is to be a crosshair.
    pub crosshair: bool,
    /// The overlays to paint now.
    pub paint: Vec<usize>,
}

proof fn lemma_enter(e: EditorState, o: Overlay)
    requires
        e.ready(),
        state::on_screen(o.area(), e.canvas()),
        layout::chrome_fits(o.area(), e.scale),
    ensures
        (EditorState { view: o.rect(), ..e }).ready(),
{
    assert(o.rect()@ == o.area());
    laws::law_always_ready(e, Input::Enter(o.rect()));
    reveal(EditorState::after);
}

proof fn lemma_input(e: EditorState, input: Input)
    requires
        e.ready(),
        !(input is Enter),
    ensures
        e.wf(),
        e.accepts(input),
        e.after(input).ready(),
        e.after(input).same_setting(e),
        input matches Input::Press(x, y) ==> e.after(input) == e.pressed(x as int, y as int),
        input matches Input::Motion(x, y) ==> e.after(input) == e.moved(x as int, y as int),
        input is Release ==> e.after(input) == e.released(),
        input matches Input::Scroll(up) ==> e.after(input) == e.scrolled(up),
        input matches Input::Key(letter, ctrl, escape, enter) ==> e.after(input) == e.typed(
            letter,
            ctrl,
            escape,
            enter,
        ).0,
{
    laws::law_always_ready(e, input);
    reveal(EditorState::after);
}

/// A press, on an editor that is ready.
fn press(ed: &mut Editor, x: i32, y: i32)
    requires
        old(ed)@.ready(),
    ensures
        final(ed)@ == old(ed)@.pressed(x as int, y as int),
        final(ed)@.ready(),
        final(ed)@.same_setting(old(ed)@),
{
    proof {
        lemma_input(ed@, Input::Press(x, y));
    }
    ed.pointer_down(x, y);
}

/// A motion, on an editor that is ready.
fn drag(ed: &mut Editor, x: i32, y: i32)
    requires
        old(ed)@.ready(),
    ensures
        final(ed)@ == old(ed)@.moved(x as int, y as int),
        final(ed)@.ready(),
        final(ed)@.same_setting(old(ed)@),
{
    proof {
        lemma_input(ed@, Input::Motion(x, y));
    }
    ed.pointer_motion(x, y);
}

/// A release, on an editor that is ready.
fn release(ed: &mut Editor)
    requires
        old(ed)@.ready(),
    ensures
        final(ed)@ == old(ed)@.released(),
        final(ed)@.ready(),
        final(ed)@.same_setting(old(ed)@),
{
    proof {
        lemma_input(ed@, Input::Release);
    }
    ed.pointer_up();
}

/// A turn of the wheel, on an editor that is ready.
fn turn(ed: &mut Editor, up: bool)
    requires
        old(ed)@.ready(),
    ensures
        final(ed)@ == old(ed)@.scrolled(up),
        final(ed)@.ready(),
        final(ed)@.same_setting(old(ed)@),
{
    proof {
        lemma_input(ed@, Input::Scroll(up));
    }
    ed.scroll(up);
}

/// The pointer comes to an overlay.
fn enter(ed: &mut Editor, o: Overlay)
    requires
        old(ed)@.ready(),
        state::on_screen(o.area(), old(ed)@.canvas()),
        layout::chrome_fits(o.area(), old(ed)@.scale),
    ensures
        final(ed)@ == (EditorState { view: o.rect(), ..old(ed)@ }),
        final(ed)@.ready(),
{
    proof {
        lemma_enter(ed@, o);
    }
    ed.set_view(o.view());
}

/// Hands an event on an overlay to the editor.
fn edit(ed: &mut Editor, o: Overlay, down: bool, event: PointerInput)
    requires
        old(ed)@.ready(),
        state::on_screen(o.area(), old(ed)@.canvas()),
        layout::chrome_fits(o.area(), old(ed)@.scale),
        o.reaches(event.at),
    ensures
        final(ed)@ == model::edited_on(o, down, old(ed)@, event),
        final(ed)@.ready(),
        final(ed)@.same_setting(old(ed)@),
{
    let (x, y): (i32, i32) = o.place(event.at);
    match event.kind {
        PointerKind::Enter => enter(ed, o),
        PointerKind::Motion => {
            if down {
                drag(ed, x, y);
            }
        },
        PointerKind::Press { button } => {
            if button == BTN_LEFT {
                enter(ed, o);
                press(ed, x, y);
            }
        },
        PointerKind::Release { button } => {
            if button == BTN_LEFT {
                release(ed);
            }
        },
        PointerKind::Axis { vertical } => {
            if vertical != 0 {
                turn(ed, vertical < 0);
            }
        },
        PointerKind::Other => {},
    }
}

impl Session {
    /// Takes note of a pointer event.
    fn note(&mut self, event: PointerInput)
        requires
            old(self)@.wf(),
            old(self)@.takes(event),
        ensures
            final(self)@ == old(self)@.noted(event),
            final(self)@.wf(),
            final(self)@.overlays == old(self)@.overlays,
    {
        let index: usize = match event.overlay {
            Some(i) => i,
            None => {
                return;
            },
        };
        let o: Overlay = self.overlays[index];
        match self.editor.take() {
            Some(editor) => {
                let mut ed: Editor = editor;
                assert(old(self)@.overlays[index as int] == o);
                edit(&mut ed, o, self.down, event);
                self.editor = Some(ed);
            },
            None => {},
        }
        match event.kind {
            PointerKind::Enter => {
                self.active = Some(index);
            },
            PointerKind::Press { button } => {
                if button == BTN_LEFT {
                    self.active = Some(index);
                    self.down = true;
                }
            },
            PointerKind::Release { button } => {
                if button == BTN_LEFT {
                    self.down = false;
                }
            },
            _ => {},
        }
    }

    /// Either the overlay is to be painted now (if no frame callback is in flight), or it is
    /// marked dirty so it will be painted when the callback fires. This stops a fast-moving
    /// pointer from queuing up commits faster than the compositor can display them.
    pub fn request_redraw(&mut self, index: usize) -> (r: bool)
        ensures
            (final(self)@, r) == old(self)@.requested(index as int),
            old(self)@.wf() ==> final(self)@.wf(),
    {
        if index >= self.overlays.len() {
            return false;
        }
        let mut o: Overlay = self.overlays[index];
        let ghost before = self@;
        if o.frame_pending {
            o.needs_redraw = true;
            self.overlays.set(index, o);
            proof {
                lemma_same_places(before, self@);
            }
            false
        } else {
            assert(self.overlays@.update(index as int, o) =~= self.overlays@);
            true
        }
    }

    /// Coalesces redraws across all overlays into at most one paint per output per frame. Returns
    /// the overlays to paint now.
    pub fn request_redraw_all(&mut self) -> (r: Vec<usize>)
        ensures
            final(self)@ == old(self)@.requested_all(),
            r@ == old(self)@.due(old(self)@.overlays.len() as int),
            old(self)@.wf() ==> final(self)@.wf(),
    {
        let ghost before = self@;
        let mut due: Vec<usize> = Vec::new();
        let mut i: usize = 0;
        while i < self.overlays.len()
            invariant
                0 <= i <= self.overlays@.len(),
                self@ == (SessionState { overlays: self.overlays@, ..before }),
                self.overlays@.len() == before.overlays.len(),
                forall|k: int|
                    0 <= k < i ==> #[trigger] self.overlays@[k] == before.overlays[k].requested().0,
                forall|k: int|
                    i <= k < before.overlays.len() ==> #[trigger] self.overlays@[k]
                        == before.overlays[k],
                due@ == before.due(i as int),
            decreases self.overlays@.len() - i,
        {
            let mut o: Overlay = self.overlays[i];
            if o.frame_pending {
                o.needs_redraw = true;
                self.overlays.set(i, o);
            } else {
                due.push(i);
            }
            i = i + 1;
        }
        proof {
            assert(self@.overlays =~= before.requested_all().overlays);
            lemma_same_places(before, self@);
        }
        due
    }

    /// The overlay has been painted and a frame callback has been requested.
    pub fn painted(&mut self, index: usize)
        requires
            index < old(self)@.overlays.len(),
        ensures
            final(self)@ == (SessionState {
                overlays: old(self)@.overlays.update(
                    index as int,
                    old(self)@.overlays[index as int].shown(),
                ),
                ..old(self)@
            }),
            old(self)@.wf() ==> final(self)@.wf(),
    {
        let ghost before = self@;
        let mut o: Overlay = self.overlays[index];
        o.frame_pending = true;
        o.needs_redraw = false;
        self.overlays.set(index, o);
        proof {
            lemma_same_places(before, self@);
        }
    }

    /// The frame callback of an overlay fired. Returns whether it is to be painted now.
    pub fn frame(&mut self, index: usize) -> (r: bool)
        requires
            index < old(self)@.overlays.len(),
        ensures
            final(self)@ == (SessionState {
                overlays: old(self)@.overlays.update(
                    index as int,
                    old(self)@.overlays[index as int].ticked().0,
                ),
                ..old(self)@
            }),
            r == old(self)@.overlays[index as int].ticked().1,
            old(self)@.wf() ==> final(self)@.wf(),
    {
        let ghost before = self@;
        let mut o: Overlay = self.overlays[index];
        o.frame_pending = false;
        self.overlays.set(index, o);
        proof {
            lemma_same_places(before, self@);
        }
        o.needs_redraw
    }

    /// The compositor has configured an overlay. Returns whether it is to be painted now.
    pub fn configure(&mut self, index: usize) -> (r: bool)
        requires
            index < old(self)@.overlays.len(),
        ensures
            ({
                let o = Overlay { configured: true, ..old(self)@.overlays[index as int] };
                (final(self)@, r) == (SessionState {
                    overlays: old(self)@.overlays.update(index as int, o),
                    ..old(self)@
                }).requested(index as int)
            }),
            old(self)@.wf() ==> final(self)@.wf(),
    {
        let ghost before = self@;
        let mut o: Overlay = self.overlays[index];
        o.configured = true;
        self.overlays.set(index, o);
        proof {
            lemma_same_places(before, self@);
        }
        self.request_redraw(index)
    }

    /// The compositor has closed an overlay, which ends the program.
    pub fn closed(&mut self)
        ensures
            final(self)@ == (SessionState { exit: true, ..old(self)@ }),
            old(self)@.wf() ==> final(self)@.wf(),
    {
        self.exit = true;
    }

    /// The modifiers have changed.
    pub fn update_modifiers(&mut self, ctrl: bool)
        ensures
            final(self)@ == (SessionState { ctrl, ..old(self)@ }),
            old(self)@.wf() ==> final(self)@.wf(),
    {
        self.ctrl = ctrl;
    }
}

/// A key, on an editor that is ready.
fn strike(ed: &mut Editor, k: u32, ctrl: bool) -> (r: Action)
    requires
        old(ed)@.ready(),
    ensures
        (final(ed)@, r) == old(ed)@.typed(
            keys::key_char(k),
            ctrl,
            k == keys::KEY_ESCAPE,
            keys::saves(k),
        ),
        final(ed)@.ready(),
        final(ed)@.same_setting(old(ed)@),
{
    proof {
        lemma_input(
            ed@,
            Input::Key(keys::key_char(k), ctrl, k == keys::KEY_ESCAPE, keys::saves(k)),
        );
    }
    let ch: Option<&str> = keys::keysym_to_ch(k);
    ed.key(ch, ctrl, keys::is_escape(k), keys::is_enter_or_space(k))
}

impl Session {
    /// Ends the program where the action asks for it. Returns what is to be saved.
    pub fn handle_action(&mut self, action: Action) -> (r: Action)
        ensures
            (final(self)@, r) == old(self)@.acted(action),
            old(self)@.wf() ==> final(self)@.wf(),
    {
        if self.editor.is_none() {
            return Action::Nothing;
        }
        match action {
            Action::Nothing => Action::Nothing,
            Action::Cancel => {
                self.exit = true;
                Action::Nothing
            },
            Action::SaveDisk => {
                self.exit = true;
                action
            },
            Action::SaveClipboard => {
                self.exit = true;
                action
            },
        }
    }

    /// A key is pressed. Returns what is to be saved, and the overlays to paint after that.
    pub fn press_key(&mut self, k: u32) -> (r: (Action, Vec<usize>))
        requires
            old(self)@.wf(),
        ensures
            final(self)@ == old(self)@.typed(k).0.requested_all(),
            r.0 == old(self)@.typed(k).1,
            r.1@ == old(self)@.typed(k).0.due(old(self)@.overlays.len() as int),
            final(self)@.wf(),
    {
        let action: Action = match self.editor.take() {
            Some(editor) => {
                let mut ed: Editor = editor;
                let action: Action = strike(&mut ed, k, self.ctrl);
                self.editor = Some(ed);
                action
            },
            None => Action::Nothing,
        };
        let save: Action = self.handle_action(action);
        assert((self@, save) == old(self)@.typed(k));
        let paint: Vec<usize> = self.request_redraw_all();
        (save, paint)
    }

    /// Pointer events that came together. All of them are noted before anything is redrawn.
    pub fn pointer_frame(&mut self, events: &Vec<PointerInput>) -> (r: PointerOutcome)
        requires
            old(self)@.wf(),
            forall|i: int| 0 <= i < events@.len() ==> old(self)@.takes(#[trigger] events@[i]),
        ensures
            ({
                let (s, all, active) = old(self)@.noted_all(events@);
                (final(self)@, r.paint@) == s.redrawn(all, active)
            }),
            r.crosshair == model::entered(events@),
            final(self)@.wf(),
    {
        let ghost before = self@;
        let mut redraw_all: bool = false;
        let mut redraw_active: bool = false;
        let mut crosshair: bool = false;
        let mut i: usize = 0;
        while i < events.len()
            invariant
                0 <= i <= events@.len(),
                before.wf(),
                self@.wf(),
                self@.overlays == before.overlays,
                forall|k: int| 0 <= k < events@.len() ==> before.takes(#[trigger] events@[k]),
                (self@, redraw_all, redraw_active) == before.noted_all(events@.take(i as int)),
                crosshair == model::entered(events@.take(i as int)),
            decreases events@.len() - i,
        {
            let event: PointerInput = events[i];
            proof {
                assert(before.takes(events@[i as int]));
                assert(events@.take(i + 1).drop_last() =~= events@.take(i as int));
                assert(events@.take(i + 1).last() == event);
                lemma_entered(events@, i as int);
            }
            if event.overlay.is_some() {
                match event.kind {
                    PointerKind::Enter => {
                        crosshair = true;
                        redraw_all = true;
                    },
                    PointerKind::Motion => {
                        if self.down {
                            redraw_active = true;
                        }
                    },
                    PointerKind::Press { button } => {
                        if button == BTN_LEFT {
                            redraw_all = true;
                        }
                    },
                    PointerKind::Release { button } => {
                        if button == BTN_LEFT {
                            redraw_all = true;
                        }
                    },
                    PointerKind::Axis { vertical } => {
                        if vertical != 0 {
                            redraw_all = true;
                        }
                    },
                    PointerKind::Other => {},
                }
            }
            self.note(event);
            i = i + 1;
        }
        assert(events@.take(i as int) =~= events@);
        let mut paint: Vec<usize> = Vec::new();
        if redraw_all {
            paint = self.request_redraw_all();
        } else if redraw_active {
            match self.active {
                Some(index) => {
                    if self.request_redraw(index) {
                        paint.push(index);
                    }
                },
                None => {},
            }
        }
        PointerOutcome { crosshair, paint }
    }
}

proof fn lemma_entered(events: Seq<PointerInput>, i: int)
    requires
        0 <= i < events.len(),
    ensures
        model::entered(events.take(i + 1)) == (model::entered(events.take(i)) || (events[i].overlay is Some
            && events[i].kind == PointerKind::Enter)),
{
    let (a, b) = (events.take(i), events.take(i + 1));
    assert(b[i] == events[i]);
    if model::entered(a) {
        let k = choose|k: int|
            0 <= k < a.len() && (#[trigger] a[k]).overlay is Some && a[k].kind
                == PointerKind::Enter;
        assert(b[k] == a[k]);
    }
    if model::entered(b) {
        let k = choose|k: int|
            0 <= k < b.len() && (#[trigger] b[k]).overlay is Some && b[k].kind
                == PointerKind::Enter;
        if k < i {
            assert(a[k] == b[k]);
        }
    }
}

/// The overlays lie where they did, and the editor is the same.
proof fn lemma_same_places(s: SessionState, t: SessionState)
    requires
        t.editor == s.editor,
        t.overlays.len() == s.overlays.len(),
        forall|i: int|
            0 <= i < s.overlays.len() ==> (#[trigger] t.overlays[i]).origin == s.overlays[i].origin
                && t.overlays[i].size == s.overlays[i].size,
    ensures
        s.wf() ==> t.wf(),
{
    if s.wf() && t.editor is Some {
        let e = t.editor->0;
        assert forall|i: int| 0 <= i < t.overlays.len() implies state::on_screen(
            (#[trigger] t.overlays[i]).area(),
            e.canvas(),
        ) && layout::chrome_fits(t.overlays[i].area(), e.scale) by {
            assert(t.overlays[i].area() == s.overlays[i].area());
        }
    }
}

// --- start -----------------------------------------------------------------

/// A frame to paint: its size in px, and the steps that paint the canvas and then the chrome.
#[derive(Debug)]
pub struct Frame {
    pub w: i32,
    pub h: i32,
    pub scene: Vec<DrawOp>,
    pub chrome: Vec<DrawOp>,
}

proof fn lemma_placeable(outputs: Seq<Captured>, i: int)
    requires
        model::placeable(outputs),
        0 <= i < outputs.len(),
    ensures
        0 <= canvas::area_of(outputs, i).x <= i32::MAX,
        0 <= canvas::area_of(outputs, i).y <= i32::MAX,
        state::on_screen(canvas::area_of(outputs, i), canvas::whole(outputs)),
        1 <= canvas::whole(outputs).w <= i32::MAX,
        1 <= canvas::whole(outputs).h <= i32::MAX,
{
    canvas::law_canvas_is_tight(outputs, i);
    assert(outputs[i].w >= 1);
}

impl Session {
    /// The program before anything has been captured.
    pub fn new() -> (r: Session)
        ensures
            r@ == (SessionState {
                editor: None,
                overlays: seq![],
                active: None,
                down: false,
                ctrl: false,
                exit: false,
            }),
            r@.wf(),
    {
        let r: Session = Session {
            editor: None,
            overlays: Vec::new(),
            active: None,
            down: false,
            ctrl: false,
            exit: false,
        };
        assert(r@.overlays =~= Seq::empty());
        r
    }

    /// Opens the editor over the outputs, and makes an overlay for each, in their order.
    pub fn start(&mut self, outputs: &Vec<Captured>)
        requires
            model::startable(outputs@),
        ensures
            final(self)@ == old(self)@.started(outputs@),
            final(self)@.wf(),
    {
        let ghost before = self@;
        let ghost cs = outputs@;
        let canvas: Canvas = canvas::assemble(outputs);
        let scale: Scale = Scale::whole(canvas.scale as u32);
        proof {
            lemma_placeable(cs, 0);
            laws::law_fresh_is_ready(canvas.width, canvas.height, scale);
        }
        let mut overlays: Vec<Overlay> = Vec::new();
        let mut i: usize = 0;
        while i < outputs.len()
            invariant
                0 <= i <= outputs@.len(),
                cs == outputs@,
                model::startable(cs),
                canvas.origins@.len() == cs.len(),
                forall|k: int|
                    0 <= k < cs.len() ==> (#[trigger] canvas.origins@[k]).0 == canvas::area_of(
                        cs,
                        k,
                    ).x && canvas.origins@[k].1 == canvas::area_of(cs, k).y,
                overlays@.len() == i,
                forall|k: int| 0 <= k < i ==> #[trigger] overlays@[k] == model::overlay_over(cs, k),
            decreases outputs@.len() - i,
        {
            let c: Captured = outputs[i];
            let origin: (i32, i32) = canvas.origins[i];
            proof {
                lemma_placeable(cs, i as int);
            }
            overlays.push(
                Overlay {
                    origin,
                    size: (c.w, c.h),
                    scale: c.scale,
                    configured: false,
                    frame_pending: false,
                    needs_redraw: false,
                },
            );
            assert(overlays@[i as int] == model::overlay_over(cs, i as int));
            i = i + 1;
        }
        self.editor = Some(Editor::new(canvas.width, canvas.height, scale));
        self.overlays = overlays;
        proof {
            assert(self@.overlays =~= before.started(cs).overlays);
            assert forall|k: int| 0 <= k < self@.overlays.len() implies state::on_screen(
                (#[trigger] self@.overlays[k]).area(),
                canvas::whole(cs),
            ) && layout::chrome_fits(self@.overlays[k].area(), scale) by {
                lemma_placeable(cs, k);
                assert(self@.overlays[k].area() == canvas::area_of(cs, k));
                assert(cs[k].w >= 1);
            }
        }
    }
}

/// Whether every output has a size and its place is on a canvas that an editor can be opened on.
fn can_place_all(outputs: &Vec<Captured>) -> (r: bool)
    ensures
        r == model::placeable(outputs@),
{
    if outputs.len() == 0 || outputs[0].scale < 1 || !canvas::can_assemble(outputs) {
        return false;
    }
    let mut i: usize = 0;
    while i < outputs.len()
        invariant
            0 <= i <= outputs@.len(),
            outputs@.len() > 0,
            1 <= outputs@[0].scale,
            canvas::assembly_fits(outputs@),
            forall|k: int|
                0 <= k < i ==> 1 <= (#[trigger] outputs@[k]).w && 1 <= outputs@[k].h,
        decreases outputs@.len() - i,
    {
        if outputs[i].w < 1 || outputs[i].h < 1 {
            return false;
        }
        i = i + 1;
    }
    true
}

/// Whether an editor can be opened over the outputs.
pub fn can_start(outputs: &Vec<Captured>) -> (r: bool)
    ensures
        r == model::startable(outputs@),
{
    let ghost cs = outputs@;
    if !can_place_all(outputs) {
        return false;
    }
    let canvas: Canvas = canvas::assemble(outputs);
    let scale: Scale = Scale::whole(canvas.scale as u32);
    let whole: Rect = Rect { x: 0, y: 0, w: canvas.width, h: canvas.height };
    assert(whole@ == canvas::whole(cs));
    if !layout::can_lay_out(whole, scale) {
        return false;
    }
    let mut i: usize = 0;
    while i < outputs.len()
        invariant
            0 <= i <= outputs@.len(),
            cs == outputs@,
            model::placeable(cs),
            scale == model::canvas_scale(cs),
            scale.wf(),
            layout::chrome_fits(canvas::whole(cs), scale),
            canvas.origins@.len() == cs.len(),
            forall|k: int|
                0 <= k < cs.len() ==> (#[trigger] canvas.origins@[k]).0 == canvas::area_of(cs, k).x
                    && canvas.origins@[k].1 == canvas::area_of(cs, k).y,
            forall|k: int|
                0 <= k < i ==> layout::chrome_fits(#[trigger] canvas::area_of(cs, k), scale),
        decreases outputs@.len() - i,
    {
        let (x, y): (i32, i32) = canvas.origins[i];
        let area: Rect = Rect { x, y, w: outputs[i].w, h: outputs[i].h };
        assert(area@ == canvas::area_of(cs, i as int));
        if !layout::can_lay_out(area, scale) {
            return false;
        }
        i = i + 1;
    }
    true
}

impl Session {
    /// What to paint on an overlay: its slice of the global canvas, and on the active one the
    /// chrome. There is nothing to paint before the overlay is configured.
    pub fn draw(&self, index: usize) -> (r: Option<Frame>)
        requires
            self@.wf(),
        ensures
            r is Some <==> self@.paintable(index as int),
            r matches Some(f) ==> {
                &&& f.w == self@.overlays[index as int].size.0
                &&& f.h == self@.overlays[index as int].size.1
                &&& f.scene@ == self@.painting(index as int)
                &&& f.chrome@ == self@.chrome_on(index as int)
            },
    {
        if index >= self.overlays.len() {
            return None;
        }
        let o: Overlay = self.overlays[index];
        if !o.configured {
            return None;
        }
        let active: bool = match self.active {
            Some(i) => i == index,
            None => false,
        };
        match &self.editor {
            Some(editor) => {
                proof {
                    laws::law_always_ready(editor@, Input::Release);
                }
                let (dx, dy): (i64, i64) = (-(o.origin.0 as i64), -(o.origin.1 as i64));
                let start: Vec<DrawOp> = vec![DrawOp::Translate { dx, dy }];
                let scene: Vec<DrawOp> = drawing::joined(start, editor.render_scene());
                let chrome: Vec<DrawOp> = if active {
                    editor.render_chrome()
                } else {
                    vec![]
                };
                assert(scene@ =~= self@.painting(index as int));
                assert(chrome@ =~= self@.chrome_on(index as int));
                Some(Frame { w: o.size.0, h: o.size.1, scene, chrome })
            },
            None => None,
        }
    }

    /// The image to save: its place on the canvas, and the steps that paint it.
    pub fn render_save(&self) -> (r: Option<(Rect, Vec<DrawOp>)>)
        requires
            self@.wf(),
        ensures
            r is Some <==> self@.editor is Some,
            r matches Some((sel, ops)) ==> sel@ == self@.editor->0.selected() && ops@
                == self@.editor->0.saved(),
    {
        match &self.editor {
            Some(editor) => {
                proof {
                    laws::law_always_ready(editor@, Input::Release);
                }
                Some(editor.render_save())
            },
            None => None,
        }
    }
}

} // verus!
