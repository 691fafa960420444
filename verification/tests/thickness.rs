use sharew::render::thickness::{
    adjust, rounded, slider_fraction, thickness_from_slider_x, whole_thickness,
};
use sharew::render::Ratio;

fn value(r: Ratio) -> f64 {
    r.num as f64 / r.den as f64
}

#[test]
fn the_track_runs_from_thinnest_to_thickest() {
    assert_eq!(value(thickness_from_slider_x(100, 100, 298)), 1.);
    assert_eq!(value(thickness_from_slider_x(298, 100, 298)), 100.);
    assert_eq!(value(thickness_from_slider_x(199, 100, 298)), 50.5);
    assert_eq!(thickness_from_slider_x(102, 100, 298), Ratio { num: 396, den: 198 });
}

#[test]
fn places_beyond_the_track_count_as_its_ends() {
    assert_eq!(value(thickness_from_slider_x(-5000, 100, 298)), 1.);
    assert_eq!(value(thickness_from_slider_x(5000, 100, 298)), 100.);
}

#[test]
fn an_empty_track_counts_as_one_pixel() {
    assert_eq!(value(thickness_from_slider_x(100, 100, 100)), 1.);
    assert_eq!(value(thickness_from_slider_x(101, 100, 100)), 100.);
    assert_eq!(value(thickness_from_slider_x(101, 100, 40)), 100.);
}

#[test]
fn further_right_is_never_thinner() {
    let mut last = 0.;
    for x in 90..310 {
        let t = value(thickness_from_slider_x(x, 100, 298));
        assert!(t >= last);
        last = t;
    }
}

#[test]
fn the_handle_stands_where_the_thickness_was_picked() {
    for x in 100..299 {
        let f = slider_fraction(thickness_from_slider_x(x, 100, 298));
        assert_eq!(f.num * 198, (x as i128 - 100) * f.den);
    }
}

#[test]
fn fractions_are_cut_to_the_range() {
    assert_eq!(slider_fraction(whole_thickness(1)).num, 0);
    assert_eq!(slider_fraction(whole_thickness(-20)).num, 0);
    let most = slider_fraction(whole_thickness(500));
    assert_eq!(most.num, most.den);
}

#[test]
fn steps_stop_at_the_ends_of_the_range() {
    assert_eq!(adjust(whole_thickness(4), 2), whole_thickness(6));
    assert_eq!(adjust(whole_thickness(4), -2), whole_thickness(2));
    assert_eq!(adjust(whole_thickness(2), -2), whole_thickness(1));
    assert_eq!(adjust(whole_thickness(1), -2), whole_thickness(1));
    assert_eq!(adjust(whole_thickness(99), 2), whole_thickness(100));
    assert_eq!(adjust(whole_thickness(100), 2), whole_thickness(100));
}

#[test]
fn changes_of_any_size_end_in_the_range() {
    assert_eq!(adjust(whole_thickness(4), 1000), whole_thickness(100));
    assert_eq!(adjust(whole_thickness(4), i128::MAX), whole_thickness(100));
    assert_eq!(adjust(whole_thickness(100), -101), whole_thickness(1));
    assert_eq!(adjust(whole_thickness(4), i128::MIN), whole_thickness(1));
}

#[test]
fn a_step_up_is_undone_by_a_step_down() {
    let t = Ratio { num: 101, den: 2 };
    assert_eq!(adjust(t, 2), Ratio { num: 105, den: 2 });
    assert_eq!(adjust(adjust(t, 2), -2), t);
}

#[test]
fn thicknesses_are_shown_in_whole_pixels() {
    assert_eq!(rounded(whole_thickness(24)), 24);
    assert_eq!(rounded(Ratio { num: 101, den: 2 }), 51);
    assert_eq!(rounded(Ratio { num: 99, den: 4 }), 25);
    assert_eq!(rounded(Ratio { num: 97, den: 4 }), 24);
    assert_eq!(rounded(Ratio { num: -5, den: 2 }), -3);
    assert_eq!(rounded(Ratio { num: i64::MAX as i128, den: 1 }), i32::MAX);
}
