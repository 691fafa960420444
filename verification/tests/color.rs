use sharew::render::color::{mix_color, preset_colors, sector_channels, Channel};
use sharew::render::{hsv_to_rgb, wheel_color_at, Color, Ratio};

fn ratio(num: i128, den: i128) -> Ratio {
    Ratio { num, den }
}

fn rgb(c: Color) -> [f64; 3] {
    match c {
        Color::Mix { red, green, blue, full } => [
            red as f64 / full as f64,
            green as f64 / full as f64,
            blue as f64 / full as f64,
        ],
        Color::Wheel { .. } => panic!("not a mixture"),
    }
}

#[test]
fn pure_hues() {
    let one = ratio(1, 1);
    assert_eq!(rgb(hsv_to_rgb(ratio(0, 1), one, one)), [1., 0., 0.]);
    assert_eq!(rgb(hsv_to_rgb(ratio(1, 6), one, one)), [1., 1., 0.]);
    assert_eq!(rgb(hsv_to_rgb(ratio(1, 3), one, one)), [0., 1., 0.]);
    assert_eq!(rgb(hsv_to_rgb(ratio(1, 2), one, one)), [0., 1., 1.]);
    assert_eq!(rgb(hsv_to_rgb(ratio(2, 3), one, one)), [0., 0., 1.]);
    assert_eq!(rgb(hsv_to_rgb(ratio(5, 6), one, one)), [1., 0., 1.]);
}

#[test]
fn hues_between_the_pure_ones() {
    let one = ratio(1, 1);
    assert_eq!(rgb(hsv_to_rgb(ratio(1, 12), one, one)), [1., 0.5, 0.]);
    assert_eq!(rgb(hsv_to_rgb(ratio(1, 4), one, one)), [0.5, 1., 0.]);
    assert_eq!(rgb(hsv_to_rgb(ratio(11, 12), one, one)), [1., 0., 0.5]);
}

#[test]
fn saturation_and_value_weaken_the_color() {
    let half = ratio(1, 2);
    assert_eq!(rgb(hsv_to_rgb(ratio(0, 1), half, ratio(1, 1))), [1., 0.5, 0.5]);
    assert_eq!(rgb(hsv_to_rgb(ratio(1, 3), ratio(1, 1), half)), [0., 0.5, 0.]);
    assert_eq!(rgb(hsv_to_rgb(ratio(3, 7), ratio(0, 1), half)), [0.5, 0.5, 0.5]);
}

#[test]
fn a_full_turn_of_the_hue_changes_nothing() {
    let one = ratio(1, 1);
    for n in -7..8 {
        let c = hsv_to_rgb(ratio(n, 7), ratio(2, 3), one);
        assert_eq!(hsv_to_rgb(ratio(n + 7, 7), ratio(2, 3), one), c);
        assert_eq!(hsv_to_rgb(ratio(n - 7, 7), ratio(2, 3), one), c);
    }
    assert_eq!(rgb(hsv_to_rgb(ratio(-1, 3), one, one)), [0., 0., 1.]);
}

#[test]
fn ratios_of_large_numbers_are_computed_exactly() {
    let big = 1_i128 << 60;
    assert_eq!(rgb(hsv_to_rgb(ratio(big, 2 * big), ratio(1, 1), ratio(1, 1))), [0., 1., 1.]);
    assert_eq!(rgb(hsv_to_rgb(ratio(-big, 2 * big), ratio(1, 1), ratio(1, 1))), [0., 1., 1.]);
}

#[test]
fn no_channel_leaves_the_range() {
    for n in 0..24 {
        let [r, g, b] = rgb(hsv_to_rgb(ratio(n, 24), ratio(3, 4), ratio(4, 5)));
        for c in [r, g, b] {
            assert!((0.2 - 1e-12..=0.8 + 1e-12).contains(&c));
        }
    }
}

#[test]
fn every_sector_has_a_full_and_a_low_channel() {
    for i in 0..6 {
        let (r, g, b) = sector_channels(i);
        let channels = [r, g, b];
        assert!(channels.contains(&Channel::Full));
        assert!(channels.contains(&Channel::Low));
    }
}

#[test]
fn the_wheel_is_a_disc() {
    let center = (100, 100);
    assert_eq!(
        wheel_color_at((103, 96), center, 5),
        Some(Color::Wheel { dx: 3, dy: -4, radius: 5 })
    );
    assert_eq!(wheel_color_at((100, 100), center, 5), Some(Color::Wheel { dx: 0, dy: 0, radius: 5 }));
    assert_eq!(wheel_color_at((95, 100), center, 5), Some(Color::Wheel { dx: -5, dy: 0, radius: 5 }));
    assert_eq!(wheel_color_at((106, 100), center, 5), None);
    assert_eq!(wheel_color_at((104, 104), center, 5), None);
    assert_eq!(wheel_color_at((100, 100), center, -1), None);
}

#[test]
fn the_presets_are_given_in_hundredths() {
    let presets = preset_colors();
    assert_eq!(presets.len(), 8);
    assert_eq!(presets[0], mix_color(90, 10, 10));
    assert_eq!(rgb(presets[4]), [0.2, 0.5, 0.95]);
    assert_eq!(rgb(presets[7]), [0.95, 0.95, 0.95]);
}
