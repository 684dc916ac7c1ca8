use image_kernels::color::{hsv_to_rgb, rgb_to_hsv, Hsv, Ratio};

fn next(seed: &mut u64) -> u8 {
    *seed = seed.wrapping_mul(6364136223846793005).wrapping_add(1442695040888963407);
    (*seed >> 56) as u8
}

#[test]
fn hsv_round_trip_is_exact_for_primaries() {
    for &(r, g, b) in &[(255u8, 0u8, 0u8), (0, 255, 0), (0, 0, 255), (12, 200, 77), (0, 0, 0)] {
        let c = rgb_to_hsv(r, g, b);
        assert_eq!(hsv_to_rgb(&c), (r, g, b));
    }
}

#[test]
fn hsv_round_trip_is_exact_for_random_triples() {
    let mut seed = 0x1234_5678_9abc_def0u64;
    for _ in 0..100_000 {
        let (r, g, b) = (next(&mut seed), next(&mut seed), next(&mut seed));
        assert_eq!(hsv_to_rgb(&rgb_to_hsv(r, g, b)), (r, g, b));
    }
}

#[test]
fn hsv_round_trip_is_exact_on_a_grid() {
    let mut r = 0u32;
    while r < 256 {
        let mut g = 0u32;
        while g < 256 {
            let mut b = 0u32;
            while b < 256 {
                let p = (r as u8, g as u8, b as u8);
                assert_eq!(hsv_to_rgb(&rgb_to_hsv(p.0, p.1, p.2)), p);
                b += 5;
            }
            g += 3;
        }
        r += 3;
    }
}

#[test]
fn rgb_to_hsv_gives_hue_saturation_and_value() {
    // Pure red: hue 0, saturation 1, value 255.
    let c = rgb_to_hsv(255, 0, 0);
    assert_eq!(c.hue.num, 0);
    assert_eq!(c.saturation, Ratio { num: 255, den: 255 });
    assert_eq!(c.value, 255);
    // (200, 100, 50): hue 60 * (100 - 50) / 150 = 20 degrees, saturation 150 / 200.
    let c = rgb_to_hsv(200, 100, 50);
    assert_eq!(c.hue, Ratio { num: 3000, den: 150 });
    assert_eq!(c.saturation, Ratio { num: 150, den: 200 });
    assert_eq!(c.value, 200);
    // Red largest with green below blue: a negative angle moves up a full turn.
    let c = rgb_to_hsv(200, 50, 100);
    assert_eq!(c.hue, Ratio { num: 60 * (50 - 100) + 360 * 150, den: 150 });
    // Green largest.
    let c = rgb_to_hsv(50, 200, 100);
    assert_eq!(c.hue, Ratio { num: 60 * (100 - 50) + 120 * 150, den: 150 });
    // Blue largest.
    let c = rgb_to_hsv(50, 100, 200);
    assert_eq!(c.hue, Ratio { num: 60 * (50 - 100) + 240 * 150, den: 150 });
}

#[test]
fn grey_and_black_have_hue_zero() {
    let c = rgb_to_hsv(77, 77, 77);
    assert_eq!(c.hue, Ratio { num: 0, den: 1 });
    assert_eq!(c.saturation, Ratio { num: 0, den: 77 });
    let c = rgb_to_hsv(0, 0, 0);
    assert_eq!(c.hue, Ratio { num: 0, den: 1 });
    assert_eq!(c.saturation, Ratio { num: 0, den: 1 });
    assert_eq!(c.value, 0);
}

#[test]
fn hsv_to_rgb_places_channels_by_sector() {
    let full = Ratio { num: 1, den: 1 };
    let at = |degrees: i64| Hsv {
        hue: Ratio { num: degrees, den: 1 },
        saturation: full,
        value: 255,
    };
    assert_eq!(hsv_to_rgb(&at(0)), (255, 0, 0));
    assert_eq!(hsv_to_rgb(&at(60)), (255, 255, 0));
    assert_eq!(hsv_to_rgb(&at(120)), (0, 255, 0));
    assert_eq!(hsv_to_rgb(&at(180)), (0, 255, 255));
    assert_eq!(hsv_to_rgb(&at(240)), (0, 0, 255));
    assert_eq!(hsv_to_rgb(&at(300)), (255, 0, 255));
    assert_eq!(hsv_to_rgb(&at(30)), (255, 127, 0));
    assert_eq!(hsv_to_rgb(&at(330)), (255, 0, 127));
}

#[test]
fn hsv_to_rgb_rounds_down() {
    // Half saturation at hue 90: chroma 100, middle share one half.
    let c = Hsv {
        hue: Ratio { num: 90, den: 1 },
        saturation: Ratio { num: 1, den: 2 },
        value: 201,
    };
    // low = 201 / 2 rounded down, mid = 201 * (1/2 + 1/4) rounded down.
    assert_eq!(hsv_to_rgb(&c), (150, 201, 100));
}
