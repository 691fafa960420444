use sharew::canvas::{assemble, can_assemble, placement, Captured};

fn output(w: i32, h: i32, scale: i32, x: i32, y: i32) -> Captured {
    Captured { w, h, scale, logical: (x, y) }
}

#[test]
fn what_is_unknown_of_an_output_has_a_default() {
    assert_eq!(placement(None), (1, (0, 0)));
    assert_eq!(placement(Some((2, None))), (2, (0, 0)));
    assert_eq!(placement(Some((0, Some((5, -6))))), (1, (5, -6)));
    assert_eq!(placement(Some((-3, None))), (1, (0, 0)));
    assert_eq!(placement(Some((3, Some((1920, 0))))), (3, (1920, 0)));
}

#[test]
fn one_output_is_the_whole_canvas() {
    let outputs = vec![output(1920, 1080, 1, 300, -70)];
    assert!(can_assemble(&outputs));
    let c = assemble(&outputs);
    assert_eq!((c.width, c.height, c.scale), (1920, 1080, 1));
    assert_eq!(c.origins, [(0, 0)]);
}

#[test]
fn outputs_side_by_side() {
    let outputs = vec![output(3840, 2160, 2, 0, 0), output(2560, 1440, 2, -1280, 200)];
    assert!(can_assemble(&outputs));
    let c = assemble(&outputs);
    assert_eq!(c.scale, 2);
    assert_eq!(c.origins, [(2560, 0), (0, 400)]);
    assert_eq!((c.width, c.height), (6400, 2160));
}

#[test]
fn the_canvas_is_tight_and_keeps_the_layout() {
    let outputs = vec![
        output(800, 600, 1, 10, 20),
        output(1024, 768, 1, 810, -5),
        output(640, 480, 1, -630, 100),
    ];
    let c = assemble(&outputs);
    let lefts: Vec<i32> = c.origins.iter().map(|o| o.0).collect();
    let tops: Vec<i32> = c.origins.iter().map(|o| o.1).collect();
    assert_eq!(lefts.iter().min(), Some(&0));
    assert_eq!(tops.iter().min(), Some(&0));
    let rights = outputs.iter().zip(&c.origins).map(|(p, o)| o.0 + p.w);
    assert_eq!(rights.max(), Some(c.width));
    let bottoms = outputs.iter().zip(&c.origins).map(|(p, o)| o.1 + p.h);
    assert_eq!(bottoms.max(), Some(c.height));
    for i in 0..3 {
        for k in 0..3 {
            assert_eq!(
                c.origins[k].0 - c.origins[i].0,
                outputs[k].logical.0 - outputs[i].logical.0
            );
            assert_eq!(
                c.origins[k].1 - c.origins[i].1,
                outputs[k].logical.1 - outputs[i].logical.1
            );
        }
    }
    assert!(c.origins[2].0 + outputs[2].w <= c.origins[0].0);
    assert!(c.origins[0].0 + outputs[0].w <= c.origins[1].0);
}

#[test]
fn layouts_beyond_the_range_are_recognised() {
    assert!(!can_assemble(&vec![output(10, 10, 1, 0, 0), output(10, 10, 1, i32::MAX, 0)]));
    assert!(!can_assemble(&vec![output(10, 10, 3, 0, 0), output(10, 10, 3, 0, 1_000_000_000)]));
    assert!(!can_assemble(&vec![output(1, 1, 1, i32::MIN, 0), output(1, 1, 1, i32::MAX, 0)]));
}
