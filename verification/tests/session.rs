use sharew::canvas::Captured;
use sharew::editor::{Action, Drag};
use sharew::keys;
use sharew::render::{DrawOp, Rect, Tool, Xorshift};
use sharew::session::{
    can_start, Overlay, PointerInput, PointerKind, Session, BTN_LEFT,
};

const RIGHT_BUTTON: u32 = 0x111;

fn outputs() -> Vec<Captured> {
    vec![
        Captured { w: 1920, h: 1080, scale: 1, logical: (0, 0) },
        Captured { w: 1280, h: 1024, scale: 1, logical: (1920, 0) },
    ]
}

fn session() -> Session {
    let outputs = outputs();
    assert!(can_start(&outputs));
    let mut s = Session::new();
    s.start(&outputs);
    s
}

fn shown() -> Session {
    let mut s = session();
    for i in 0..2 {
        assert!(s.configure(i));
        s.painted(i);
    }
    s
}

fn event(overlay: usize, x: i32, y: i32, kind: PointerKind) -> PointerInput {
    PointerInput { overlay: Some(overlay), at: (x * 256, y * 256), kind }
}

fn press() -> PointerKind {
    PointerKind::Press { button: BTN_LEFT }
}

fn release() -> PointerKind {
    PointerKind::Release { button: BTN_LEFT }
}

#[test]
fn a_program_without_an_editor_does_nothing() {
    let mut s = Session::new();
    assert_eq!(s.press_key(keys::KEY_ESCAPE), (Action::Nothing, vec![]));
    assert!(!s.exit);
    assert!(s.draw(0).is_none());
    assert!(s.render_save().is_none());
    assert!(!s.request_redraw(0));
    assert_eq!(s.handle_action(Action::Cancel), Action::Nothing);
    assert!(!s.exit);
}

#[test]
fn every_output_gets_an_overlay() {
    let s = session();
    let ed = s.editor.as_ref().unwrap();
    assert_eq!((ed.width, ed.height), (3200, 1080));
    assert_eq!(s.overlays.len(), 2);
    assert_eq!(s.overlays[1].view(), Rect { x: 1920, y: 0, w: 1280, h: 1024 });
    assert!(!s.overlays[0].configured && !s.overlays[0].frame_pending);
    assert_eq!(s.active, None);
}

#[test]
fn outputs_that_no_editor_fits_on_are_recognised() {
    assert!(!can_start(&vec![]));
    let mut empty = outputs();
    empty[1].w = 0;
    assert!(!can_start(&empty));
    let mut far = outputs();
    far[1].logical = (i32::MAX, 0);
    assert!(!can_start(&far));
    let mut unscaled = outputs();
    unscaled[0].scale = 0;
    assert!(!can_start(&unscaled));
}

#[test]
fn positions_are_scaled_and_cut() {
    let o = Overlay {
        origin: (100, 50),
        size: (800, 600),
        scale: 2,
        configured: true,
        frame_pending: false,
        needs_redraw: false,
    };
    assert_eq!(o.place((256 * 10, 256 * 20)), (120, 90));
    assert_eq!(o.place((256 * 10 + 127, 128)), (120, 51));
    assert_eq!(o.place((-1, -300)), (100, 48));
    assert!(o.can_place((0, 0)));
    let far = Overlay { origin: (i32::MAX, 0), ..o };
    assert!(!far.can_place((256, 0)));
}

#[test]
fn nothing_is_painted_before_the_overlay_is_configured() {
    let mut s = session();
    assert!(s.draw(0).is_none());
    assert!(s.draw(7).is_none());
    assert!(s.configure(0));
    let frame = s.draw(0).unwrap();
    assert_eq!((frame.w, frame.h), (1920, 1080));
    assert_eq!(frame.scene[0], DrawOp::Translate { dx: 0, dy: 0 });
    assert_eq!(frame.scene[1], DrawOp::Screenshot);
    assert!(s.draw(1).is_none());
    assert!(s.configure(1));
    assert_eq!(s.draw(1).unwrap().scene[0], DrawOp::Translate { dx: -1920, dy: 0 });
}

#[test]
fn an_output_is_painted_once_per_frame() {
    let mut s = shown();
    for _ in 0..5 {
        assert!(!s.request_redraw(0));
    }
    assert!(s.overlays[0].needs_redraw);
    assert!(s.frame(0));
    s.painted(0);
    assert!(!s.frame(0));
    assert!(s.request_redraw(0));
}

#[test]
fn a_redraw_of_all_leaves_none_out() {
    let mut s = shown();
    assert!(!s.frame(1));
    assert_eq!(s.request_redraw_all(), [1]);
    assert!(s.overlays[0].needs_redraw);
    assert!(!s.overlays[1].needs_redraw);
}

#[test]
fn the_toolbar_follows_the_pointer() {
    let mut s = shown();
    s.frame(0);
    s.frame(1);
    let out = s.pointer_frame(&vec![event(1, 5, 5, PointerKind::Enter)]);
    assert!(out.crosshair);
    assert_eq!(out.paint, [0, 1]);
    assert_eq!(s.active, Some(1));
    assert_eq!(s.editor.as_ref().unwrap().view, s.overlays[1].view());
    assert!(!s.draw(1).unwrap().chrome.is_empty());
    assert!(s.draw(0).unwrap().chrome.is_empty());
}

#[test]
fn events_elsewhere_are_ignored() {
    let mut s = shown();
    let off = PointerInput { overlay: None, at: (0, 0), kind: PointerKind::Enter };
    let out = s.pointer_frame(&vec![off]);
    assert!(!out.crosshair && out.paint.is_empty());
    assert_eq!(s.active, None);
}

#[test]
fn a_selection_is_dragged_on_one_output() {
    let mut s = shown();
    s.frame(0);
    s.frame(1);
    let out = s.pointer_frame(&vec![
        event(1, 100, 200, PointerKind::Enter),
        event(1, 100, 200, press()),
    ]);
    assert_eq!(out.paint, [0, 1]);
    assert!(s.down);
    s.painted(0);
    s.painted(1);
    s.frame(1);
    let out = s.pointer_frame(&vec![event(1, 300, 400, PointerKind::Motion)]);
    assert_eq!(out.paint, [1]);
    s.pointer_frame(&vec![event(1, 350, 450, PointerKind::Motion)]);
    s.pointer_frame(&vec![event(1, 350, 450, release())]);
    assert!(!s.down);
    let ed = s.editor.as_ref().unwrap();
    assert!(ed.has_selection);
    assert_eq!(ed.selection, ((2020, 200), (2270, 450)));
    assert_eq!(ed.drag, Drag::Idle);
    let (rect, _) = s.render_save().unwrap();
    assert_eq!(rect, Rect { x: 2020, y: 200, w: 251, h: 251 });
}

#[test]
fn motion_counts_only_while_the_button_is_held() {
    let mut s = shown();
    s.frame(0);
    let out = s.pointer_frame(&vec![event(0, 300, 400, PointerKind::Motion)]);
    assert!(out.paint.is_empty());
}

#[test]
fn other_buttons_are_ignored() {
    let mut s = shown();
    s.frame(0);
    let out = s.pointer_frame(&vec![
        event(0, 300, 400, PointerKind::Press { button: RIGHT_BUTTON }),
        event(0, 300, 400, PointerKind::Release { button: RIGHT_BUTTON }),
        event(0, 300, 400, PointerKind::Other),
        event(0, 300, 400, PointerKind::Axis { vertical: 0 }),
    ]);
    assert!(out.paint.is_empty() && !out.crosshair);
    assert!(!s.down);
    assert_eq!(s.active, None);
}

#[test]
fn the_wheel_changes_the_thickness() {
    let mut s = shown();
    s.frame(0);
    let out = s.pointer_frame(&vec![event(0, 1, 1, PointerKind::Axis { vertical: -2560 })]);
    assert_eq!(out.paint, [0]);
    assert_eq!(s.editor.as_ref().unwrap().thickness.num, 6);
    s.pointer_frame(&vec![event(0, 1, 1, PointerKind::Axis { vertical: 2560 })]);
    assert_eq!(s.editor.as_ref().unwrap().thickness.num, 4);
}

#[test]
fn keys_reach_the_editor() {
    let mut s = shown();
    s.frame(1);
    assert_eq!(s.press_key(0x52), (Action::Nothing, vec![1]));
    assert_eq!(s.editor.as_ref().unwrap().tool, Tool::Rectangle);
    s.update_modifiers(true);
    assert_eq!(s.press_key(0x62).0, Action::Nothing);
    assert_eq!(s.editor.as_ref().unwrap().tool, Tool::Rectangle);
    assert!(!s.exit);
    assert_eq!(s.press_key(0x63).0, Action::SaveClipboard);
    assert!(s.exit);
}

#[test]
fn saving_and_cancelling_end_the_program() {
    let mut s = shown();
    assert_eq!(s.press_key(keys::KEY_RETURN).0, Action::SaveDisk);
    assert!(s.exit);
    let mut s = shown();
    assert_eq!(s.press_key(keys::KEY_ESCAPE).0, Action::Nothing);
    assert!(s.exit);
    let mut s = shown();
    s.closed();
    assert!(s.exit);
}

type Glimpse = (Tool, (i128, i128), usize, ((i32, i32), (i32, i32)), bool, bool, Drag);

fn glimpse(s: &Session) -> Glimpse {
    let ed = s.editor.as_ref().unwrap();
    let t = ed.active_thickness();
    (
        ed.tool,
        (t.num, t.den),
        ed.annotations.len(),
        ed.selection,
        ed.show_color_wheel,
        ed.show_thickness_slider,
        ed.drag,
    )
}

#[test]
fn any_row_of_events_is_handled() {
    let letters = [0x63, 0x72, 0x6c, 0x61, 0x66, 0x68, 0x62, 0x2d, 0x2b, 0x7a];
    let canvas = Rect { x: 0, y: 0, w: 3200, h: 1080 };
    let mut rng = Xorshift::from_seed(2024);
    let mut s = shown();
    for round in 0..4000 {
        let before = glimpse(&s);
        let overlay = rng.next_range(1).unsigned_abs() as usize;
        let (x, y) = (960 + rng.next_range(1100), 130 + rng.next_range(200));
        let kind = match rng.next_range(4) {
            -4 => PointerKind::Enter,
            -3 | -2 => press(),
            -1 => release(),
            0 => PointerKind::Axis { vertical: rng.next_range(2) },
            _ => PointerKind::Motion,
        };
        let paint = if round % 7 == 0 {
            let k = letters[(rng.next_u64() % 10) as usize];
            s.update_modifiers(k == 0x7a);
            s.press_key(k).1
        } else {
            s.pointer_frame(&vec![event(overlay, x, y, kind)]).paint
        };
        if glimpse(&s) != before {
            assert!(!paint.is_empty() || s.overlays.iter().any(|o| o.needs_redraw));
        }
        for i in paint {
            assert!(!s.overlays[i].frame_pending);
            assert!(s.draw(i).is_some());
            s.painted(i);
        }
        if round % 3 == 0 {
            for i in 0..2 {
                if s.overlays[i].frame_pending && s.frame(i) {
                    assert!(s.draw(i).is_some());
                    s.painted(i);
                }
            }
        }
        let ed = s.editor.as_ref().unwrap();
        assert!(!(ed.show_color_wheel && ed.show_thickness_slider));
        for t in [ed.thickness, ed.highlight_thickness, ed.blur_thickness] {
            assert!(t.den <= t.num && t.num <= 100 * t.den);
        }
        for a in &ed.annotations {
            assert!(canvas.contains(a.start.0, a.start.1) && canvas.contains(a.end.0, a.end.1));
            assert!(a.points.iter().all(|p| canvas.contains(p.0, p.1)));
        }
        let (sel, _) = s.render_save().unwrap();
        assert!(sel.x >= 0 && sel.y >= 0 && sel.x + sel.w <= 3200 && sel.y + sel.h <= 1080);
        if ed.annotations.len() > 40 {
            s.press_key(0x65);
        }
    }
}
