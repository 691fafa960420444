use sharew::render::layout::{can_lay_out, toolbar_button_offsets, toolbar_button_rect};
use sharew::render::tool::toolbar_items;
use sharew::render::{
    color_wheel_layout, preset_swatch_rects, thickness_slider_layout, toolbar_layout, Rect, Scale,
    Tool, ToolbarItem,
};

const VIEW: Rect = Rect { x: 0, y: 0, w: 1920, h: 1080 };

fn inside(inner: Rect, outer: Rect) -> bool {
    inner.x >= outer.x
        && inner.y >= outer.y
        && inner.x + inner.w <= outer.x + outer.w
        && inner.y + inner.h <= outer.y + outer.h
}

#[test]
fn tools_know_what_they_are() {
    assert!(!Tool::Crop.is_drawing());
    for t in [Tool::Rectangle, Tool::Line, Tool::Arrow, Tool::Freehand, Tool::Highlight, Tool::Blur] {
        assert!(t.is_drawing());
        assert_eq!(t.is_highlight(), t == Tool::Highlight);
        assert_eq!(t.is_freehand(), t == Tool::Freehand);
    }
}

#[test]
fn the_toolbar_starts_with_crop_and_ends_with_the_thickness() {
    let items = toolbar_items();
    assert_eq!(items[0], ToolbarItem::Tool(Tool::Crop));
    assert_eq!(items[1], ToolbarItem::Clear);
    assert_eq!(items[8], ToolbarItem::Color);
    assert_eq!(items[9], ToolbarItem::Thickness);
}

#[test]
fn button_offsets_at_scale_one() {
    let (btn, pad, inner, offsets) = toolbar_button_offsets(Scale::whole(1));
    assert_eq!((btn, pad, inner), (40, 6, 468));
    assert_eq!(offsets[0], (ToolbarItem::Tool(Tool::Crop), 0, 40));
    assert_eq!(offsets[1], (ToolbarItem::Clear, 62, 40));
    assert_eq!(offsets[2], (ToolbarItem::Tool(Tool::Rectangle), 106, 40));
    assert_eq!(offsets[9], (ToolbarItem::Thickness, 414, 54));
}

#[test]
fn the_toolbar_is_centered_at_the_top() {
    let (bounds, buttons) = toolbar_layout(VIEW, Scale::whole(1));
    assert_eq!(bounds, Rect { x: 720, y: 8, w: 480, h: 52 });
    assert_eq!(buttons[0], (ToolbarItem::Tool(Tool::Crop), Rect { x: 726, y: 14, w: 40, h: 40 }));
    assert_eq!(buttons[9], (ToolbarItem::Thickness, Rect { x: 1140, y: 14, w: 54, h: 40 }));
    let (odd, _) = toolbar_layout(Rect { x: 50, y: 30, w: 1921, h: 1080 }, Scale::whole(1));
    assert_eq!((odd.x, odd.y), (770, 38));
}

#[test]
fn a_toolbar_wider_than_the_output_starts_at_its_edge() {
    let (bounds, _) = toolbar_layout(Rect { x: 100, y: 0, w: 300, h: 200 }, Scale::whole(1));
    assert_eq!(bounds.x, 100);
}

#[test]
fn buttons_lie_in_the_toolbar_and_do_not_overlap() {
    for scale in [Scale::whole(1), Scale::whole(2), Scale { num: 5, den: 4 }] {
        let (bounds, buttons) = toolbar_layout(VIEW, scale);
        for (i, (_, a)) in buttons.iter().enumerate() {
            assert!(inside(*a, bounds));
            for (_, b) in &buttons[i + 1..] {
                assert!(a.x + a.w <= b.x);
            }
        }
    }
}

#[test]
fn a_button_is_found_by_its_item() {
    let (_, buttons) = toolbar_layout(VIEW, Scale::whole(2));
    for (item, rect) in buttons {
        assert_eq!(toolbar_button_rect(VIEW, Scale::whole(2), item), rect);
    }
}

#[test]
fn the_color_wheel_hangs_under_its_button() {
    let (bounds, center, radius) = color_wheel_layout(VIEW, Scale::whole(1));
    assert_eq!(bounds, Rect { x: 1014, y: 60, w: 204, h: 233 });
    assert_eq!(center, (1116, 162));
    assert_eq!(radius, 90);
}

#[test]
fn the_slider_hangs_under_its_button() {
    let (bounds, x0, x1, cy) = thickness_slider_layout(VIEW, Scale::whole(1));
    assert_eq!(bounds, Rect { x: 1070, y: 60, w: 194, h: 62 });
    assert_eq!((x0, x1, cy), (1090, 1244, 80));
}

#[test]
fn popups_start_right_under_the_toolbar() {
    for scale in [Scale::whole(1), Scale::whole(2), Scale { num: 5, den: 4 }] {
        let (bar, _) = toolbar_layout(VIEW, scale);
        assert_eq!(color_wheel_layout(VIEW, scale).0.y, bar.y + bar.h);
        assert_eq!(thickness_slider_layout(VIEW, scale).0.y, bar.y + bar.h);
    }
}

#[test]
fn popups_are_shifted_into_the_output() {
    let narrow = Rect { x: 10, y: 0, w: 400, h: 500 };
    let (wheel, _, _) = color_wheel_layout(narrow, Scale::whole(1));
    assert_eq!(wheel.x + wheel.w, 410);
    let (slider, _, _, _) = thickness_slider_layout(narrow, Scale::whole(1));
    assert_eq!(slider.x + slider.w, 410);
    let tiny = Rect { x: 10, y: 0, w: 100, h: 500 };
    assert_eq!(color_wheel_layout(tiny, Scale::whole(1)).0.x, 10);
}

#[test]
fn swatches_stand_in_a_row_under_the_wheel() {
    let (bounds, center, radius) = color_wheel_layout(VIEW, Scale::whole(1));
    let rects = preset_swatch_rects(bounds, Scale::whole(1));
    assert_eq!(rects.len(), 8);
    assert_eq!(rects[0], Rect { x: 1026, y: 262, w: 19, h: 19 });
    assert_eq!(rects[7], Rect { x: 1187, y: 262, w: 19, h: 19 });
    for (i, a) in rects.iter().enumerate() {
        assert!(inside(*a, bounds));
        assert!(a.y >= center.1 + radius);
        for b in &rects[i + 1..] {
            assert!(a.x + a.w <= b.x);
        }
    }
}

#[test]
fn swatches_never_vanish() {
    let rects = preset_swatch_rects(Rect { x: 0, y: 0, w: 10, h: 10 }, Scale { num: 0, den: 1 });
    assert!(rects.iter().all(|r| r.w == 1 && r.h == 1));
}

#[test]
fn layouts_that_do_not_fit_are_recognised() {
    assert!(can_lay_out(VIEW, Scale::whole(1)));
    assert!(can_lay_out(Rect { x: 0, y: 0, w: 1, h: 1 }, Scale::whole(3)));
    assert!(!can_lay_out(VIEW, Scale::whole(100_000_000)));
    assert!(!can_lay_out(Rect { x: 0, y: i32::MAX - 10, w: 5, h: 5 }, Scale::whole(1)));
}
