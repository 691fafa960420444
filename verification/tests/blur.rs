use sharew::render::blur::{blur_radius, blur_size, can_blur, BLUR_DOWNSAMPLE};
use sharew::render::noise::add_noise;
use sharew::render::{
    box_blur, box_blur_h, box_blur_v, build_blur_surface, Scale, Xorshift,
};

/// An image of `w` by `h` pixels whose rows are padded by four bytes.
fn image(w: usize, h: usize) -> (Vec<u8>, usize) {
    let stride = w * 4 + 4;
    let data = (0..stride * h).map(|i| (i * 37 % 251) as u8).collect();
    (data, stride)
}

fn mean_along_row(src: &[u8], w: i32, stride: usize, r: i32, x: i32, y: usize, c: usize) -> u8 {
    let sum: u32 = (-r..=r)
        .map(|k| src[y * stride + (x + k).clamp(0, w - 1) as usize * 4 + c] as u32)
        .sum();
    (sum / (2 * r + 1) as u32) as u8
}

#[test]
fn the_horizontal_pass_takes_means_along_rows() {
    let (src, stride) = image(6, 3);
    for r in 0..8 {
        let mut dst = vec![7u8; src.len()];
        box_blur_h(&src, &mut dst, 6, 3, stride, r);
        for y in 0..3usize {
            for x in 0..6i32 {
                let p = y * stride + x as usize * 4;
                for c in 0..3 {
                    assert_eq!(dst[p + c], mean_along_row(&src, 6, stride, r, x, y, c));
                }
                assert_eq!(dst[p + 3], src[p + 3]);
            }
            for pad in 24..28 {
                assert_eq!(dst[y * stride + pad], 7);
            }
        }
    }
}

#[test]
fn the_vertical_pass_takes_means_along_columns() {
    let (src, stride) = image(4, 5);
    for r in 0..7i32 {
        let mut dst = vec![7u8; src.len()];
        box_blur_v(&src, &mut dst, 4, 5, stride, r);
        for y in 0..5i32 {
            for x in 0..4usize {
                for c in 0..3 {
                    let sum: u32 = (-r..=r)
                        .map(|k| src[(y + k).clamp(0, 4) as usize * stride + x * 4 + c] as u32)
                        .sum();
                    let p = y as usize * stride + x * 4 + c;
                    assert_eq!(dst[p], (sum / (2 * r + 1) as u32) as u8);
                }
                let p = y as usize * stride + x * 4 + 3;
                assert_eq!(dst[p], src[p]);
            }
        }
    }
}

#[test]
fn a_bright_pixel_is_spread() {
    let mut data = vec![0u8; 5 * 4];
    data[2 * 4] = 90;
    box_blur(&mut data, 5, 1, 20, 1, 1);
    let blue: Vec<u8> = (0..5).map(|x| data[x * 4]).collect();
    assert_eq!(blue, [0, 30, 30, 30, 0]);
}

#[test]
fn a_blur_without_radius_or_passes_changes_nothing() {
    let (before, stride) = image(5, 4);
    let mut data = before.clone();
    box_blur(&mut data, 5, 4, stride, 0, 3);
    assert_eq!(data, before);
    box_blur(&mut data, 5, 4, stride, 2, 0);
    assert_eq!(data, before);
}

#[test]
fn a_blur_stays_in_range_and_keeps_alpha() {
    let (before, stride) = image(9, 7);
    let mut data = before.clone();
    box_blur(&mut data, 9, 7, stride, 2, 3);
    for c in 0..3 {
        let values = |d: &[u8]| -> Vec<u8> {
            (0..7)
                .flat_map(|y| (0..9).map(move |x| y * stride + x * 4 + c))
                .map(|p| d[p])
                .collect()
        };
        let (old, new) = (values(&before), values(&data));
        assert!(new.iter().min() >= old.iter().min());
        assert!(new.iter().max() <= old.iter().max());
    }
    for y in 0..7 {
        for x in 0..9 {
            let p = y * stride + x * 4 + 3;
            assert_eq!(data[p], before[p]);
        }
    }
}

#[test]
fn a_plain_image_stays_plain() {
    let mut data = vec![77u8; 6 * 4 * 6];
    box_blur(&mut data, 6, 6, 24, 3, 3);
    assert!(data.iter().all(|v| *v == 77));
}

#[test]
fn the_generator_gives_known_numbers() {
    let mut rng = Xorshift::from_seed(0);
    assert_eq!(rng, Xorshift(1));
    assert_eq!(rng.next_u64(), 1082269761);
    assert_eq!(rng.next_u64(), 1152992998833853505);
    assert_eq!(Xorshift::from_seed(6), Xorshift(7));
}

#[test]
fn the_seed_comes_from_the_system_if_it_can() {
    assert_eq!(Xorshift::from_entropy(Some(6), Some(8)), Xorshift(7));
    assert_eq!(Xorshift::from_entropy(None, Some(8)), Xorshift(9));
    assert_eq!(Xorshift::from_entropy(None, None), Xorshift(0x9e3779b97f4a7c15));
}

#[test]
fn the_generator_never_gets_stuck() {
    let mut rng = Xorshift::from_seed(0);
    for _ in 0..10_000 {
        assert_ne!(rng.next_u64(), 0);
    }
}

#[test]
fn drawn_numbers_fill_their_range() {
    let mut rng = Xorshift::from_seed(42);
    let mut seen = [false; 7];
    for _ in 0..1000 {
        let v = rng.next_range(3);
        assert!((-3..=3).contains(&v));
        seen[(v + 3) as usize] = true;
    }
    assert!(seen.iter().all(|s| *s));
    assert_eq!(rng.next_range(0), 0);
}

#[test]
fn drawn_numbers_are_spread_evenly() {
    let mut rng = Xorshift::from_seed(7);
    let mut counts = [0u32; 21];
    for _ in 0..210_000 {
        counts[(rng.next_range(10) + 10) as usize] += 1;
    }
    assert!(counts.iter().all(|c| (9_500..10_500).contains(c)));
}

#[test]
fn noise_is_light_and_spares_alpha() {
    let (before, stride) = image(8, 5);
    let mut data = before.clone();
    let mut rng = Xorshift::from_seed(99);
    add_noise(&mut data, 8, 5, stride, 10, &mut rng);
    assert_ne!(data, before);
    for p in 0..data.len() {
        let moved = (data[p] as i32 - before[p] as i32).abs();
        assert!(moved <= 10);
        if p % stride >= 32 || p % stride % 4 == 3 {
            assert_eq!(moved, 0);
        }
    }
}

#[test]
fn noise_follows_the_generator_pixel_by_pixel() {
    let mut data = vec![100u8; 2 * 4];
    let mut rng = Xorshift::from_seed(5);
    add_noise(&mut data, 2, 1, 8, 10, &mut rng);
    let mut twin = Xorshift::from_seed(5);
    for p in [0, 1, 2, 4, 5, 6] {
        assert_eq!(data[p] as i32, 100 + twin.next_range(10));
    }
    assert_eq!(rng, twin);
}

#[test]
fn noise_stops_at_black_and_white() {
    let mut data = vec![0u8; 400];
    add_noise(&mut data, 100, 1, 400, 10, &mut Xorshift::from_seed(3));
    assert!(data.iter().all(|v| *v <= 10));
    let mut data = vec![255u8; 400];
    add_noise(&mut data, 100, 1, 400, 10, &mut Xorshift::from_seed(3));
    assert!(data.iter().all(|v| *v >= 245));
}

#[test]
fn the_glass_is_made_from_a_shrunk_copy() {
    assert_eq!(blur_size(1920, 1081), (960, 540));
    assert_eq!(blur_size(1, 0), (1, 1));
    assert_eq!(blur_radius(Scale::whole(1)), 3);
    assert_eq!(blur_radius(Scale::whole(2)), 6);
    assert_eq!(blur_radius(Scale { num: 0, den: 1 }), 1);
}

#[test]
fn the_glass_is_blurred_and_then_jittered() {
    let (before, stride) = image(10, 8);
    assert!(can_blur(before.len(), 20, 16, stride, Scale::whole(1)));
    let mut data = before.clone();
    let mut rng = Xorshift::from_seed(11);
    assert_eq!(
        build_blur_surface(&mut data, 20, 16, stride, Scale::whole(1), &mut rng),
        BLUR_DOWNSAMPLE
    );
    let mut steps = before.clone();
    box_blur(&mut steps, 10, 8, stride, 3, 3);
    let mut twin = Xorshift::from_seed(11);
    add_noise(&mut steps, 10, 8, stride, 10, &mut twin);
    assert_eq!(data, steps);
    assert_eq!(rng, twin);
}

#[test]
fn buffers_too_short_for_the_glass_are_recognised() {
    assert!(can_blur(10 * 4 * 8, 20, 16, 40, Scale::whole(1)));
    assert!(!can_blur(10 * 4 * 8 - 1, 20, 16, 40, Scale::whole(1)));
    assert!(!can_blur(1_000_000, 20, 16, 39, Scale::whole(1)));
}
