use sharew::render::geometry::{clamp_i32, half_i32, rnd};
use sharew::render::{rect_from_corner_points, Rect, Scale};

#[test]
fn rect_holds_its_corner_but_not_its_far_edges() {
    let r = Rect { x: 10, y: 20, w: 5, h: 3 };
    assert!(r.contains(10, 20));
    assert!(r.contains(14, 22));
    assert!(!r.contains(15, 22));
    assert!(!r.contains(14, 23));
    assert!(!r.contains(9, 20));
    assert!(!r.contains(10, 19));
}

#[test]
fn rect_without_size_holds_nothing() {
    let r = Rect { x: 0, y: 0, w: 0, h: 0 };
    assert!(!r.contains(0, 0));
}

#[test]
fn rect_at_the_end_of_the_range_is_searched_without_overflow() {
    let r = Rect { x: i32::MAX - 1, y: i32::MAX - 1, w: i32::MAX, h: i32::MAX };
    assert!(r.contains(i32::MAX, i32::MAX));
    assert!(!r.contains(i32::MIN, i32::MAX));
}

#[test]
fn corners_are_inclusive_and_their_order_does_not_matter() {
    let r = rect_from_corner_points((7, 2), (3, 5));
    assert_eq!(r, Rect { x: 3, y: 2, w: 5, h: 4 });
    assert_eq!(rect_from_corner_points((3, 5), (7, 2)), r);
    assert!(r.contains(7, 2) && r.contains(3, 5));
    assert_eq!(rect_from_corner_points((4, 4), (4, 4)), Rect { x: 4, y: 4, w: 1, h: 1 });
}

#[test]
fn sizes_are_rounded_to_the_nearest_pixel() {
    let one_and_a_half = Scale { num: 3, den: 2 };
    assert_eq!(rnd(one_and_a_half, 40), 60);
    assert_eq!(rnd(one_and_a_half, 13), 20);
    assert_eq!(rnd(one_and_a_half, -13), -20);
    assert_eq!(rnd(Scale { num: 5, den: 4 }, 6), 8);
    assert_eq!(rnd(Scale { num: 1, den: 3 }, 4), 1);
    assert_eq!(rnd(Scale { num: 0, den: 1 }, 90), 0);
}

#[test]
fn whole_scales_round_nothing() {
    for v in [0, 1, 4, 18, 170] {
        assert_eq!(rnd(Scale::whole(1), v), v);
        assert_eq!(rnd(Scale::whole(3), v), 3 * v);
    }
}

#[test]
fn sizes_beyond_the_range_are_cut() {
    assert_eq!(rnd(Scale::whole(u32::MAX), 2), i32::MAX);
    assert_eq!(rnd(Scale::whole(u32::MAX), -2), i32::MIN);
}

#[test]
fn clamping_and_halving() {
    assert_eq!(clamp_i32(5, 0, 3), 3);
    assert_eq!(clamp_i32(-5, 0, 3), 0);
    assert_eq!(clamp_i32(2, 0, 3), 2);
    assert_eq!(half_i32(7), 3);
    assert_eq!(half_i32(-7), -3);
}
