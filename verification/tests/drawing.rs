use sharew::render::chrome::{draw_color_wheel, draw_thickness_slider, draw_toolbar};
use sharew::render::color::mix_color;
use sharew::render::drawing::{Cap, Join};
use sharew::render::scene::{
    draw_annotation, draw_annotations, draw_blur_preview, draw_dim_full, draw_dim_outside,
    draw_selection_border,
};
use sharew::render::thickness::{thickness_from_slider_x, whole_thickness};
use sharew::render::{
    color_wheel_layout, preset_swatch_rects, thickness_slider_layout, toolbar_layout, Annotation,
    Color, DrawOp, Ratio, Rect, Scale, Tool,
};

const VIEW: Rect = Rect { x: 0, y: 0, w: 1920, h: 1080 };

fn px(v: i128) -> Ratio {
    Ratio { num: v, den: 1 }
}

fn value(r: Ratio) -> f64 {
    r.num as f64 / r.den as f64
}

fn source(red: i128, green: i128, blue: i128, alpha: i128) -> DrawOp {
    DrawOp::Source { color: mix_color(red, green, blue), alpha }
}

fn rectangle(x: i128, y: i128, w: i128, h: i128) -> DrawOp {
    DrawOp::Rectangle { x: px(x), y: px(y), w: px(w), h: px(h) }
}

fn mark(tool: Tool, start: (i32, i32), end: (i32, i32)) -> Annotation {
    Annotation {
        tool,
        start,
        end,
        points: Vec::new(),
        color: mix_color(90, 10, 10),
        thickness: whole_thickness(4),
    }
}

fn pen(width: Ratio) -> Vec<DrawOp> {
    vec![
        DrawOp::LineCap { cap: Cap::Round },
        DrawOp::LineJoin { join: Join::Round },
        DrawOp::LineWidth { width },
    ]
}

fn with_pen(rest: Vec<DrawOp>) -> Vec<DrawOp> {
    let mut ops = pen(px(4));
    ops.extend(rest);
    ops
}

#[test]
fn without_a_selection_everything_is_dimmed() {
    assert_eq!(
        draw_dim_full(640, 480),
        [source(0, 0, 0, 40), rectangle(0, 0, 640, 480), DrawOp::Fill]
    );
}

#[test]
fn with_a_selection_the_outside_is_dimmed() {
    let sel = Rect { x: 100, y: 50, w: 200, h: 150 };
    assert_eq!(
        draw_dim_outside(sel, 640, 480),
        [
            source(0, 0, 0, 40),
            rectangle(0, 0, 640, 50),
            rectangle(0, 200, 640, 280),
            rectangle(0, 50, 100, 150),
            rectangle(300, 50, 340, 150),
            DrawOp::Fill,
        ]
    );
}

#[test]
fn every_pixel_is_selected_or_dimmed_once() {
    let sel = Rect { x: 3, y: 2, w: 4, h: 5 };
    let ops = draw_dim_outside(sel, 11, 9);
    for x in 0..11 {
        for y in 0..9 {
            let hits = ops
                .iter()
                .filter(|op| match op {
                    DrawOp::Rectangle { x: rx, y: ry, w, h } => {
                        let r = Rect {
                            x: rx.num as i32,
                            y: ry.num as i32,
                            w: w.num as i32,
                            h: h.num as i32,
                        };
                        r.contains(x, y)
                    }
                    _ => false,
                })
                .count();
            assert_eq!(hits, if sel.contains(x, y) { 0 } else { 1 });
        }
    }
}

#[test]
fn the_border_lies_inside_the_selection() {
    let sel = Rect { x: 100, y: 50, w: 200, h: 150 };
    let ops = draw_selection_border(sel, Scale::whole(2));
    assert_eq!(ops[0], source(100, 100, 100, 100));
    assert_eq!(ops[1], DrawOp::LineWidth { width: px(4) });
    assert_eq!(ops[2], DrawOp::LineJoin { join: Join::Miter });
    assert_eq!(ops[4], DrawOp::Stroke);
    let DrawOp::Rectangle { x, y, w, h } = ops[3] else {
        panic!("no rectangle");
    };
    assert_eq!((value(x), value(y), value(w), value(h)), (102., 52., 196., 146.));
    assert_eq!(value(x) - 2., 100.);
    assert_eq!(value(x) + value(w) + 2., 300.);
}

#[test]
fn the_border_is_never_thinner_than_a_pixel() {
    let sel = Rect { x: 0, y: 0, w: 9, h: 9 };
    let ops = draw_selection_border(sel, Scale { num: 1, den: 4 });
    assert_eq!(ops[1], DrawOp::LineWidth { width: px(1) });
    let DrawOp::Rectangle { x, w, .. } = ops[3] else {
        panic!("no rectangle");
    };
    assert_eq!((value(x), value(w)), (0.5, 8.));
}

#[test]
fn marks_of_the_simple_tools() {
    let ink = source(90, 10, 10, 100);
    let (a, b) = ((10, 20), (30, 5));
    let one = Scale::whole(1);
    assert_eq!(draw_annotation(&mark(Tool::Crop, a, b), one, None), with_pen(vec![]));
    assert_eq!(
        draw_annotation(&mark(Tool::Rectangle, a, b), one, None),
        with_pen(vec![
            DrawOp::LineJoin { join: Join::Miter },
            rectangle(10, 5, 21, 16),
            ink,
            DrawOp::Stroke,
        ])
    );
    assert_eq!(
        draw_annotation(&mark(Tool::Line, a, b), one, None),
        with_pen(vec![
            DrawOp::MoveTo { x: px(10), y: px(20) },
            DrawOp::LineTo { x: px(30), y: px(5) },
            ink,
            DrawOp::Stroke,
        ])
    );
    assert_eq!(
        draw_annotation(&mark(Tool::Highlight, a, b), one, None),
        with_pen(vec![rectangle(10, 5, 21, 16), source(90, 10, 10, 40), DrawOp::Fill])
    );
}

#[test]
fn a_blur_needs_the_glass() {
    let m = mark(Tool::Blur, (0, 0), (9, 9));
    assert_eq!(draw_annotation(&m, Scale::whole(1), None), with_pen(vec![]));
    assert_eq!(
        draw_annotation(&m, Scale::whole(1), Some(2)),
        with_pen(vec![rectangle(0, 0, 10, 10), DrawOp::FillGlass { block: 2 }])
    );
}

#[test]
fn arrows_have_a_head_in_proportion() {
    let head = |t: i128, scale: Scale| {
        let mut m = mark(Tool::Arrow, (0, 0), (50, 0));
        m.thickness = whole_thickness(t);
        let ops = draw_annotation(&m, scale, None);
        match ops[4] {
            DrawOp::Arrow { from, to, head } => {
                assert_eq!((from, to), ((0, 0), (50, 0)));
                value(head)
            }
            _ => panic!("no arrow"),
        }
    };
    assert_eq!(head(4, Scale::whole(1)), 14.);
    assert_eq!(head(2, Scale::whole(1)), 12.);
    assert_eq!(head(4, Scale { num: 3, den: 2 }), 14.);
    assert_eq!(head(2, Scale::whole(2)), 12.);
    let point = draw_annotation(&mark(Tool::Arrow, (7, 7), (7, 7)), Scale::whole(1), None);
    assert_eq!(point, with_pen(vec![source(90, 10, 10, 100)]));
}

#[test]
fn a_freehand_mark_is_a_dot_and_then_a_line() {
    let mut m = mark(Tool::Freehand, (5, 6), (5, 6));
    m.points = vec![(5, 6)];
    let mut want = vec![source(90, 10, 10, 100)];
    want.extend(pen(px(4)));
    let dot = DrawOp::Arc {
        x: px(5),
        y: px(6),
        r: Ratio { num: 4, den: 2 },
        start: px(0),
        stop: px(1),
        extra: 0,
    };
    want.extend([dot, DrawOp::Fill]);
    assert_eq!(draw_annotation(&m, Scale::whole(1), None), with_pen(want.clone()));
    m.points = vec![];
    assert_eq!(draw_annotation(&m, Scale::whole(1), None), with_pen(want));

    m.points = vec![(5, 6), (7, 8), (9, 9)];
    let mut want = vec![source(90, 10, 10, 100)];
    want.extend(pen(px(4)));
    want.extend([
        DrawOp::MoveTo { x: px(5), y: px(6) },
        DrawOp::LineTo { x: px(7), y: px(8) },
        DrawOp::LineTo { x: px(9), y: px(9) },
        DrawOp::Stroke,
    ]);
    assert_eq!(draw_annotation(&m, Scale::whole(1), None), with_pen(want));
}

#[test]
fn the_scale_does_not_change_annotations() {
    let tools = [
        Tool::Crop,
        Tool::Rectangle,
        Tool::Line,
        Tool::Arrow,
        Tool::Freehand,
        Tool::Highlight,
        Tool::Blur,
    ];
    for tool in tools {
        let mut m = mark(tool, (3, 4), (50, 60));
        if tool == Tool::Freehand {
            m.points = vec![(3, 4), (50, 60)];
        }
        let ops = draw_annotation(&m, Scale::whole(1), Some(2));
        assert_eq!(ops[2], DrawOp::LineWidth { width: px(4) });
        for scale in [Scale::whole(2), Scale { num: 3, den: 2 }] {
            assert_eq!(draw_annotation(&m, scale, Some(2)), ops);
        }
    }
}

#[test]
fn marks_are_painted_in_order_and_the_current_one_last() {
    let one = Scale::whole(1);
    let marks = vec![mark(Tool::Line, (0, 0), (5, 5)), mark(Tool::Rectangle, (1, 1), (4, 4))];
    let current = mark(Tool::Highlight, (2, 2), (3, 3));
    let mut want = draw_annotation(&marks[0], one, None);
    want.extend(draw_annotation(&marks[1], one, None));
    assert_eq!(draw_annotations(one, &marks, None, None), want);
    want.extend(draw_annotation(&current, one, None));
    assert_eq!(draw_annotations(one, &marks, Some(&current), None), want);
}

#[test]
fn a_blur_that_is_being_drawn_is_outlined() {
    let current = mark(Tool::Blur, (0, 0), (9, 9));
    let ops = draw_annotations(Scale::whole(1), &vec![], Some(&current), Some(2));
    assert_eq!(ops, draw_blur_preview(&current, Scale::whole(1)));
    assert!(!ops.iter().any(|op| matches!(op, DrawOp::FillGlass { .. })));
    assert_eq!(
        ops,
        [
            rectangle(0, 0, 10, 10),
            source(50, 50, 50, 25),
            DrawOp::Fill,
            rectangle(0, 0, 10, 10),
            source(100, 100, 100, 80),
            DrawOp::LineWidth { width: px(1) },
            DrawOp::Dash { len: px(4) },
            DrawOp::Stroke,
            DrawOp::Solid,
        ]
    );
}

fn toolbar(active: Tool) -> Vec<DrawOp> {
    draw_toolbar(Scale::whole(1), VIEW, active, mix_color(20, 50, 95), whole_thickness(24))
}

#[test]
fn chrome_is_drawn_from_its_corner_and_leaves_no_trace() {
    let (bar, _) = toolbar_layout(VIEW, Scale::whole(1));
    let (wheel, _, _) = color_wheel_layout(VIEW, Scale::whole(1));
    let (slider, _, _, _) = thickness_slider_layout(VIEW, Scale::whole(1));
    let lists = [
        (bar, toolbar(Tool::Crop)),
        (wheel, draw_color_wheel(Scale::whole(1), VIEW)),
        (slider, draw_thickness_slider(Scale::whole(1), VIEW, whole_thickness(4))),
    ];
    for (bounds, ops) in lists {
        assert_eq!(ops[0], DrawOp::Save);
        assert_eq!(ops[1], DrawOp::Translate { dx: bounds.x as i64, dy: bounds.y as i64 });
        assert_eq!(ops[2], DrawOp::SubPath);
        assert_eq!(ops[7], DrawOp::ClosePath);
        assert_eq!(ops[8], source(10, 10, 10, 92));
        assert_eq!(ops[9], DrawOp::Fill);
        assert_eq!(*ops.last().unwrap(), DrawOp::Restore);
        let saves = ops.iter().filter(|op| **op == DrawOp::Save).count();
        let restores = ops.iter().filter(|op| **op == DrawOp::Restore).count();
        assert_eq!((saves, restores), (1, 1));
    }
}

#[test]
fn the_corners_of_the_toolbar_are_round() {
    let ops = toolbar(Tool::Crop);
    let corner = |op: DrawOp| match op {
        DrawOp::Arc { x, y, r, start, stop, extra } => {
            assert_eq!(extra, 0);
            (value(x), value(y), value(r), value(start), value(stop))
        }
        _ => panic!("no arc"),
    };
    assert_eq!(corner(ops[3]), (472., 8., 8., -0.25, 0.));
    assert_eq!(corner(ops[4]), (472., 44., 8., 0., 0.25));
    assert_eq!(corner(ops[5]), (8., 44., 8., 0.25, 0.5));
    assert_eq!(corner(ops[6]), (8., 8., 8., 0.5, 0.75));
}

#[test]
fn the_button_of_the_active_tool_is_set_off() {
    let backdrop = source(25, 45, 85, 100);
    for tool in [Tool::Crop, Tool::Line, Tool::Blur] {
        let ops = toolbar(tool);
        assert_eq!(ops.iter().filter(|op| **op == backdrop).count(), 1);
    }
    let ops = toolbar(Tool::Crop);
    let at = ops.iter().position(|op| *op == backdrop).unwrap();
    assert_eq!(at, 16);
    let DrawOp::Arc { x, y, r, .. } = ops[11] else {
        panic!("no arc");
    };
    assert_eq!((value(x), value(y), value(r)), (6. + 40. - 4.8, 6. + 4.8, 4.8));
}

#[test]
fn the_toolbar_shows_the_color_and_the_thickness() {
    let ops = toolbar(Tool::Line);
    let active = DrawOp::Source { color: mix_color(20, 50, 95), alpha: 100 };
    assert_eq!(ops.iter().filter(|op| **op == active).count(), 1);
    let label = ops.iter().find(|op| matches!(op, DrawOp::LabelInBox { .. }));
    assert_eq!(
        label,
        Some(&DrawOp::LabelInBox {
            value: 24,
            font: px(13),
            x: px(420),
            y: px(6),
            w: px(54),
            h: px(40),
        })
    );
}

#[test]
fn the_crop_icon_is_a_dashed_frame() {
    let ops = toolbar(Tool::Line);
    let frame = &ops[14..21];
    assert_eq!(frame[0], DrawOp::LineCap { cap: Cap::Butt });
    assert_eq!(frame[1], DrawOp::LineJoin { join: Join::Miter });
    assert_eq!(frame[2], DrawOp::LineWidth { width: px(1) });
    assert_eq!(frame[3], DrawOp::Dash { len: px(2) });
    let DrawOp::Rectangle { x, y, w, h } = frame[4] else {
        panic!("no frame");
    };
    assert_eq!((value(x), value(y), value(w), value(h)), (17.2, 17.2, 17.6, 17.6));
    assert_eq!(frame[5], DrawOp::Stroke);
    assert_eq!(frame[6], DrawOp::Solid);
}

#[test]
fn the_wheel_has_a_wedge_for_each_degree() {
    let ops = draw_color_wheel(Scale::whole(1), VIEW);
    let wedges: Vec<&DrawOp> = ops
        .iter()
        .filter(|op| matches!(op, DrawOp::Arc { extra: 1, .. }))
        .collect();
    assert_eq!(wedges.len(), 360);
    assert_eq!(
        *wedges[90],
        DrawOp::Arc {
            x: px(102),
            y: px(102),
            r: px(90),
            start: Ratio { num: 90, den: 360 },
            stop: Ratio { num: 91, den: 360 },
            extra: 1,
        }
    );
    let at = ops.iter().position(|op| op == wedges[0]).unwrap();
    let DrawOp::Source { color: Color::Mix { red, green, blue, full }, alpha } = ops[at + 2] else {
        panic!("no color");
    };
    assert_eq!((red, green, blue, alpha), (full, 0, 0, 100));
}

#[test]
fn swatches_are_drawn_where_they_are_hit() {
    let ops = draw_color_wheel(Scale::whole(1), VIEW);
    let (bounds, _, _) = color_wheel_layout(VIEW, Scale::whole(1));
    let rects = preset_swatch_rects(bounds, Scale::whole(1));
    let start = ops.len() - 1 - 8 * 8;
    for (i, rect) in rects.iter().enumerate() {
        let DrawOp::Arc { x, y, r, .. } = ops[start + 8 * i + 2] else {
            panic!("no corner");
        };
        assert_eq!(value(r), 4.75);
        assert_eq!(value(x) + value(r), (rect.x - bounds.x + rect.w) as f64);
        assert_eq!(value(y) + value(r), (rect.y - bounds.y + rect.h) as f64);
        assert_eq!(ops[start + 8 * i + 7], DrawOp::Fill);
    }
}

fn handle(ops: &[DrawOp]) -> (f64, f64, f64) {
    match ops[ops.len() - 6] {
        DrawOp::Arc { x, y, r, .. } => (value(x), value(y), value(r)),
        _ => panic!("no handle"),
    }
}

#[test]
fn the_handle_is_under_the_pointer() {
    let (bounds, x0, x1, _) = thickness_slider_layout(VIEW, Scale::whole(1));
    for x in [x0, x0 + 1, x0 + 60, x1 - 1, x1] {
        let t = thickness_from_slider_x(x, x0, x1);
        let ops = draw_thickness_slider(Scale::whole(1), VIEW, t);
        let (hx, hy, hr) = handle(&ops);
        assert!((hx - (x - bounds.x) as f64).abs() < 1e-9);
        assert_eq!((hy, hr), (20., 8.));
    }
}

#[test]
fn the_track_is_filled_up_to_the_handle() {
    let fill = source(25, 45, 85, 100);
    let thin = draw_thickness_slider(Scale::whole(1), VIEW, whole_thickness(1));
    assert!(!thin.contains(&fill));
    let thick = draw_thickness_slider(Scale::whole(1), VIEW, whole_thickness(100));
    assert!(thick.contains(&fill));
    let label = thick.iter().find(|op| matches!(op, DrawOp::LabelOnLine { .. }));
    assert_eq!(
        label,
        Some(&DrawOp::LabelOnLine {
            value: 100,
            font: px(13),
            w: px(194),
            y: Ratio { num: 434, den: 10 },
        })
    );
}
