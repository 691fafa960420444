use sharew::editor::{Action, Drag, Editor};
use sharew::render::color::{mix_color, preset_colors};
use sharew::render::thickness::whole_thickness;
use sharew::render::{
    color_wheel_layout, preset_swatch_rects, thickness_slider_layout, toolbar_layout, Color,
    DrawOp, Rect, Scale, Tool, ToolbarItem,
};

const ONE: Scale = Scale { num: 1, den: 1 };

fn editor() -> Editor {
    Editor::new(1920, 1080, ONE)
}

fn type_key(ed: &mut Editor, ch: &str) -> Action {
    ed.key(Some(ch), false, false, false)
}

fn click_item(ed: &mut Editor, item: ToolbarItem) {
    let (_, buttons) = toolbar_layout(ed.view, ed.scale);
    let (_, r) = buttons.into_iter().find(|(it, _)| *it == item).unwrap();
    ed.pointer_down(r.x + r.w / 2, r.y + r.h / 2);
    ed.pointer_up();
}

fn stroke(ed: &mut Editor, points: &[(i32, i32)]) {
    ed.pointer_down(points[0].0, points[0].1);
    for p in &points[1..] {
        ed.pointer_motion(p.0, p.1);
    }
    ed.pointer_up();
}

#[test]
fn a_fresh_editor() {
    let ed = editor();
    let whole = Rect { x: 0, y: 0, w: 1920, h: 1080 };
    assert_eq!((ed.view, ed.draw_bounds), (whole, whole));
    assert_eq!(ed.tool, Tool::Crop);
    assert_eq!(ed.selection, ((0, 0), (1919, 1079)));
    assert!(!ed.has_selection && !ed.show_color_wheel && !ed.show_thickness_slider);
    assert_eq!(ed.draw_color, mix_color(90, 10, 10));
    assert_eq!(ed.highlight_color, mix_color(100, 85, 10));
    assert_eq!(ed.thickness, whole_thickness(4));
    assert_eq!(ed.highlight_thickness, whole_thickness(24));
    assert_eq!(ed.blur_thickness, whole_thickness(24));
    assert!(ed.annotations.is_empty() && ed.draw.is_none() && ed.glass.is_none());
    assert_eq!(ed.drag, Drag::Idle);
}

#[test]
fn cropping_selects_a_rectangle() {
    let mut ed = editor();
    ed.pointer_down(300, 400);
    assert_eq!(ed.drag, Drag::NewSelection);
    assert!(ed.has_selection);
    assert_eq!(ed.selection, ((300, 400), (300, 400)));
    ed.pointer_motion(500, 450);
    ed.pointer_motion(200, 600);
    ed.pointer_up();
    assert_eq!(ed.selection, ((300, 400), (200, 600)));
    assert!(ed.has_selection);
    assert_eq!(ed.drag, Drag::Idle);
}

#[test]
fn a_tiny_selection_is_taken_for_a_click() {
    let mut ed = editor();
    stroke(&mut ed, &[(300, 400), (306, 500)]);
    assert!(!ed.has_selection);
    assert_eq!(ed.selection, ((0, 0), (1919, 1079)));
    stroke(&mut ed, &[(300, 400), (307, 407)]);
    assert!(ed.has_selection);
    assert_eq!(ed.selection, ((300, 400), (307, 407)));
    stroke(&mut ed, &[(10, 500), (900, 506)]);
    assert!(ed.has_selection);
    assert_eq!(ed.selection, ((300, 400), (307, 407)));
}

#[test]
fn drawing_tools_leave_marks() {
    let mut ed = editor();
    type_key(&mut ed, "r");
    stroke(&mut ed, &[(300, 400), (350, 420), (360, 500)]);
    assert_eq!(ed.annotations.len(), 1);
    let a = &ed.annotations[0];
    assert_eq!((a.tool, a.start, a.end), (Tool::Rectangle, (300, 400), (360, 500)));
    assert!(a.points.is_empty());
    assert_eq!((a.color, a.thickness), (mix_color(90, 10, 10), whole_thickness(4)));
    assert!(ed.draw.is_none());
    assert!(!ed.has_selection);
}

#[test]
fn marks_without_extent_are_dropped_unless_freehand() {
    let mut ed = editor();
    for ch in ["r", "l", "a", "h", "b"] {
        type_key(&mut ed, ch);
        stroke(&mut ed, &[(300, 400), (310, 400), (300, 400)]);
    }
    assert!(ed.annotations.is_empty());
    type_key(&mut ed, "f");
    stroke(&mut ed, &[(300, 400)]);
    assert_eq!(ed.annotations.len(), 1);
    assert_eq!(ed.annotations[0].points, [(300, 400)]);
}

#[test]
fn freehand_marks_go_through_all_points() {
    let mut ed = editor();
    type_key(&mut ed, "f");
    stroke(&mut ed, &[(300, 400), (310, 405), (320, 400)]);
    assert_eq!(ed.annotations[0].points, [(300, 400), (310, 405), (320, 400)]);
    assert_eq!(ed.annotations[0].end, (320, 400));
}

#[test]
fn a_drag_is_confined_to_its_output() {
    let left = Rect { x: 0, y: 0, w: 1000, h: 1080 };
    let right = Rect { x: 1000, y: 0, w: 920, h: 1080 };
    let mut ed = editor();
    ed.set_view(left);
    type_key(&mut ed, "f");
    ed.pointer_down(900, 500);
    ed.set_view(right);
    ed.pointer_motion(1500, 2000);
    ed.pointer_motion(-40, -40);
    ed.pointer_up();
    assert_eq!(ed.annotations[0].points, [(900, 500), (999, 1079), (0, 0)]);

    type_key(&mut ed, "c");
    ed.set_view(right);
    stroke(&mut ed, &[(500, 500), (200, 900)]);
    assert!(!ed.has_selection);
    stroke(&mut ed, &[(1500, 500), (200, 900)]);
    assert_eq!(ed.selection, ((1500, 500), (1000, 900)));
}

#[test]
fn each_kind_of_tool_has_its_own_pen() {
    let mut ed = editor();
    type_key(&mut ed, "h");
    ed.scroll(true);
    assert_eq!(ed.highlight_thickness, whole_thickness(26));
    type_key(&mut ed, "b");
    ed.scroll(false);
    assert_eq!(ed.blur_thickness, whole_thickness(22));
    type_key(&mut ed, "l");
    type_key(&mut ed, "=");
    type_key(&mut ed, "+");
    assert_eq!(ed.thickness, whole_thickness(8));
    type_key(&mut ed, "-");
    type_key(&mut ed, "_");
    assert_eq!(ed.thickness, whole_thickness(4));
    assert_eq!(ed.active_thickness(), whole_thickness(4));
    type_key(&mut ed, "h");
    assert_eq!(ed.active_thickness(), whole_thickness(26));
    assert_eq!(ed.active_color(), mix_color(100, 85, 10));
    stroke(&mut ed, &[(300, 400), (310, 410)]);
    assert_eq!(ed.annotations[0].thickness, whole_thickness(26));
    assert_eq!(ed.annotations[0].color, mix_color(100, 85, 10));
}

#[test]
fn the_thickness_stays_in_range() {
    let mut ed = editor();
    for _ in 0..10 {
        ed.scroll(false);
    }
    assert_eq!(ed.thickness, whole_thickness(1));
    for _ in 0..100 {
        ed.scroll(true);
    }
    assert_eq!(ed.thickness, whole_thickness(100));
}

#[test]
fn turning_up_and_down_gives_the_thickness_back() {
    let mut ed = editor();
    ed.scroll(true);
    ed.scroll(false);
    assert_eq!(ed.thickness, whole_thickness(4));
}

#[test]
fn the_toolbar_chooses_tools() {
    let mut ed = editor();
    for tool in [Tool::Rectangle, Tool::Line, Tool::Arrow, Tool::Freehand, Tool::Highlight, Tool::Blur] {
        click_item(&mut ed, ToolbarItem::Tool(tool));
        assert_eq!(ed.tool, tool);
    }
    assert!(ed.annotations.is_empty() && ed.draw.is_none() && !ed.has_selection);
}

#[test]
fn a_press_between_the_buttons_does_nothing() {
    let mut ed = editor();
    let (bounds, _) = toolbar_layout(ed.view, ed.scale);
    type_key(&mut ed, "l");
    ed.pointer_down(bounds.x + 1, bounds.y + 1);
    assert_eq!(ed.drag, Drag::Idle);
    assert!(ed.draw.is_none());
    assert_eq!(ed.tool, Tool::Line);
}

#[test]
fn popups_open_and_close() {
    let mut ed = editor();
    click_item(&mut ed, ToolbarItem::Color);
    assert!(ed.show_color_wheel);
    click_item(&mut ed, ToolbarItem::Thickness);
    assert!(ed.show_thickness_slider && !ed.show_color_wheel);
    click_item(&mut ed, ToolbarItem::Thickness);
    assert!(!ed.show_thickness_slider);
    click_item(&mut ed, ToolbarItem::Color);
    click_item(&mut ed, ToolbarItem::Color);
    assert!(!ed.show_color_wheel);
    click_item(&mut ed, ToolbarItem::Color);
    type_key(&mut ed, "a");
    assert!(!ed.show_color_wheel);
}

#[test]
fn a_press_beside_an_open_popup_only_closes_it() {
    let mut ed = editor();
    type_key(&mut ed, "l");
    click_item(&mut ed, ToolbarItem::Color);
    ed.pointer_down(100, 900);
    assert!(!ed.show_color_wheel);
    assert!(ed.draw.is_none());
    assert_eq!(ed.drag, Drag::Idle);
    ed.pointer_up();
    assert!(ed.annotations.is_empty());
}

#[test]
fn a_swatch_is_taken_at_once() {
    let mut ed = editor();
    for i in 0..8 {
        click_item(&mut ed, ToolbarItem::Color);
        let (bounds, _, _) = color_wheel_layout(ed.view, ed.scale);
        let r = preset_swatch_rects(bounds, ed.scale)[i];
        ed.pointer_down(r.x, r.y);
        assert_eq!(ed.draw_color, preset_colors()[i]);
        assert!(!ed.show_color_wheel);
        ed.pointer_up();
    }
    assert_eq!(ed.highlight_color, mix_color(100, 85, 10));
}

#[test]
fn a_color_of_the_wheel_is_dragged() {
    let mut ed = editor();
    type_key(&mut ed, "h");
    click_item(&mut ed, ToolbarItem::Color);
    let (bounds, center, radius) = color_wheel_layout(ed.view, ed.scale);
    ed.pointer_down(center.0 + 10, center.1);
    assert_eq!(ed.drag, Drag::ColorWheel);
    assert_eq!(ed.highlight_color, Color::Wheel { dx: 10, dy: 0, radius });
    ed.pointer_motion(center.0, center.1 - 30);
    assert_eq!(ed.highlight_color, Color::Wheel { dx: 0, dy: -30, radius });
    ed.pointer_motion(center.0 + 200, center.1);
    assert_eq!(ed.highlight_color, Color::Wheel { dx: 0, dy: -30, radius });
    assert!(ed.show_color_wheel);
    ed.pointer_up();
    assert!(!ed.show_color_wheel);
    assert_eq!(ed.draw_color, mix_color(90, 10, 10));

    click_item(&mut ed, ToolbarItem::Color);
    ed.pointer_down(bounds.x, bounds.y);
    assert_eq!(ed.drag, Drag::Idle);
    assert!(ed.show_color_wheel);
}

#[test]
fn the_slider_is_dragged() {
    let mut ed = editor();
    click_item(&mut ed, ToolbarItem::Thickness);
    let (_, x0, x1, cy) = thickness_slider_layout(ed.view, ed.scale);
    ed.pointer_down(x0, cy);
    assert_eq!(ed.drag, Drag::Slider);
    assert_eq!(ed.thickness.num, ed.thickness.den);
    ed.pointer_motion(x1 + 500, cy + 500);
    assert_eq!(ed.thickness.num, 100 * ed.thickness.den);
    ed.pointer_up();
    assert!(ed.show_thickness_slider);
    assert_eq!(ed.drag, Drag::Idle);
}

#[test]
fn marks_are_taken_back() {
    let mut ed = editor();
    type_key(&mut ed, "l");
    stroke(&mut ed, &[(300, 400), (310, 410)]);
    stroke(&mut ed, &[(400, 400), (410, 410)]);
    assert_eq!(ed.key(Some("z"), true, false, false), Action::Nothing);
    assert_eq!(ed.annotations.len(), 1);
    assert_eq!(ed.annotations[0].start, (300, 400));
    ed.key(Some("z"), true, false, false);
    ed.key(Some("z"), true, false, false);
    assert!(ed.annotations.is_empty());

    stroke(&mut ed, &[(300, 400), (310, 410)]);
    type_key(&mut ed, "e");
    assert!(ed.annotations.is_empty());
    stroke(&mut ed, &[(300, 400), (310, 410)]);
    click_item(&mut ed, ToolbarItem::Clear);
    assert!(ed.annotations.is_empty());
}

#[test]
fn keys_ask_for_actions() {
    let mut ed = editor();
    assert_eq!(ed.key(Some("c"), true, true, true), Action::Cancel);
    assert_eq!(ed.key(None, false, true, false), Action::Cancel);
    assert_eq!(ed.key(Some("c"), true, false, true), Action::SaveClipboard);
    assert_eq!(ed.key(None, true, false, true), Action::Nothing);
    assert_eq!(ed.key(None, false, false, true), Action::SaveDisk);
    assert_eq!(ed.key(Some("r"), false, false, true), Action::SaveDisk);
    assert_eq!(ed.tool, Tool::Crop);
    assert_eq!(ed.key(Some("r"), true, false, false), Action::Nothing);
    assert_eq!(ed.tool, Tool::Crop);
    assert_eq!(ed.key(None, false, false, false), Action::Nothing);
    assert_eq!(ed.key(Some("rr"), false, false, false), Action::Nothing);
    assert_eq!(ed.tool, Tool::Crop);
    for (ch, tool) in [
        ("r", Tool::Rectangle),
        ("l", Tool::Line),
        ("a", Tool::Arrow),
        ("f", Tool::Freehand),
        ("h", Tool::Highlight),
        ("b", Tool::Blur),
        ("c", Tool::Crop),
    ] {
        assert_eq!(type_key(&mut ed, ch), Action::Nothing);
        assert_eq!(ed.tool, tool);
    }
}

#[test]
fn the_glass_is_wanted_once() {
    let mut ed = editor();
    assert!(!ed.needs_blur() && !ed.wants_mosaic());
    type_key(&mut ed, "b");
    ed.pointer_down(300, 400);
    assert!(ed.needs_blur() && ed.wants_mosaic());
    ed.pointer_motion(400, 500);
    ed.pointer_up();
    assert!(ed.wants_mosaic());
    ed.mosaic_built(2);
    assert!(ed.needs_blur() && !ed.wants_mosaic());
    type_key(&mut ed, "e");
    assert!(!ed.needs_blur());
    stroke(&mut ed, &[(300, 400), (310, 410)]);
    assert!(ed.needs_blur() && !ed.wants_mosaic());
    assert_eq!(ed.glass, Some(2));
}

#[test]
fn the_scene_shows_the_selection() {
    let mut ed = editor();
    let bare = ed.render_scene();
    assert_eq!(bare[0], DrawOp::Screenshot);
    assert_eq!(bare.len(), 4);
    stroke(&mut ed, &[(300, 400), (399, 499)]);
    let chosen = ed.render_scene();
    assert_eq!(chosen.len(), 1 + 6 + 5);
    assert_eq!(*chosen.last().unwrap(), DrawOp::Stroke);
}

#[test]
fn the_saved_image_has_no_chrome() {
    let mut ed = editor();
    stroke(&mut ed, &[(300, 400), (399, 459)]);
    type_key(&mut ed, "h");
    stroke(&mut ed, &[(310, 410), (320, 420)]);
    ed.pointer_down(330, 430);
    ed.pointer_motion(340, 440);
    let (rect, ops) = ed.render_save();
    assert_eq!(rect, Rect { x: 300, y: 400, w: 100, h: 60 });
    assert_eq!(ops[0], DrawOp::Translate { dx: -300, dy: -400 });
    assert_eq!(ops[1], DrawOp::Screenshot);
    assert_eq!(ops.len(), 2 + 6);
    assert!(!ops.iter().any(|op| matches!(op, DrawOp::Save)));
}

#[test]
fn without_a_selection_everything_is_saved() {
    let (rect, ops) = editor().render_save();
    assert_eq!(rect, Rect { x: 0, y: 0, w: 1920, h: 1080 });
    assert_eq!(ops, [DrawOp::Translate { dx: 0, dy: 0 }, DrawOp::Screenshot]);
}

#[test]
fn an_accidental_click_still_saves_everything() {
    let mut ed = editor();
    stroke(&mut ed, &[(300, 400), (303, 900)]);
    type_key(&mut ed, "r");
    stroke(&mut ed, &[(300, 400), (303, 900)]);
    assert!(!ed.has_selection);
    assert_eq!(ed.render_save().0, Rect { x: 0, y: 0, w: 1920, h: 1080 });
}

#[test]
fn the_saved_image_does_not_depend_on_the_scale() {
    let mut images = Vec::new();
    for scale in [ONE, Scale::whole(2)] {
        let mut ed = Editor::new(1920, 1080, scale);
        for ch in ["l", "a", "f", "r"] {
            type_key(&mut ed, ch);
            stroke(&mut ed, &[(300, 800), (420, 900)]);
        }
        images.push(ed.render_save());
    }
    assert_eq!(images[0], images[1]);
}

#[test]
fn the_chrome_shows_the_open_popup() {
    let mut ed = editor();
    let bar = ed.render_chrome();
    click_item(&mut ed, ToolbarItem::Color);
    let wheel = ed.render_chrome();
    assert!(wheel.len() > bar.len() + 360 * 5);
    assert_eq!(wheel[..bar.len()], bar[..]);
    click_item(&mut ed, ToolbarItem::Thickness);
    let slider = ed.render_chrome();
    assert!(slider.iter().any(|op| matches!(op, DrawOp::LabelOnLine { value: 4, .. })));
}
