use image_kernels::buffer::PixelBuffer;
use image_kernels::tonal::{
    exposure_pixel, highlights_pixel, hue_rotate_pixel, sepia_pixel, shadows_pixel,
    vibrance_pixel, white_balance_pixel, PointOp,
};

const UNIT: i64 = 1_000_000;

fn sample() -> PixelBuffer {
    let mut data = Vec::new();
    let mut v = 7u32;
    for _ in 0..(4 * 3) {
        for _ in 0..3 {
            v = v.wrapping_mul(1103515245).wrapping_add(12345);
            data.push((v >> 16) as u8);
        }
    }
    PixelBuffer::new(4, 3, data).unwrap()
}

fn float_hue(r: u8, g: u8, b: u8, shift: f64) -> (f64, f64, f64) {
    let (r, g, b) = (r as f64 / 255.0, g as f64 / 255.0, b as f64 / 255.0);
    let max = r.max(g.max(b));
    let min = r.min(g.min(b));
    let delta = max - min;
    let mut h = if delta == 0.0 {
        0.0
    } else if max == r {
        60.0 * (((g - b) / delta) % 6.0)
    } else if max == g {
        60.0 * ((b - r) / delta + 2.0)
    } else {
        60.0 * ((r - g) / delta + 4.0)
    };
    if h < 0.0 {
        h += 360.0;
    }
    let s = if max == 0.0 { 0.0 } else { delta / max };
    let v = max;
    let shift = ((shift % 360.0) + 360.0) % 360.0;
    h = (h + shift) % 360.0;
    let c = v * s;
    let x = c * (1.0 - ((h / 60.0) % 2.0 - 1.0).abs());
    let m = v - c;
    let (r1, g1, b1) = if h < 60.0 {
        (c, x, 0.0)
    } else if h < 120.0 {
        (x, c, 0.0)
    } else if h < 180.0 {
        (0.0, c, x)
    } else if h < 240.0 {
        (0.0, x, c)
    } else if h < 300.0 {
        (x, 0.0, c)
    } else {
        (c, 0.0, x)
    };
    ((r1 + m) * 255.0, (g1 + m) * 255.0, (b1 + m) * 255.0)
}

fn close_to(byte: u8, real: f64) -> bool {
    let f = real.clamp(0.0, 255.0);
    (byte as f64 - f.floor()).abs() <= 1.0 || (byte as f64 - f).abs() <= 1.0
}

fn float_vibrance(r: u8, g: u8, b: u8, amount: f64) -> (f64, f64, f64) {
    let bytes = (r as f64, g as f64, b as f64);
    let (r, g, b) = (r as f64 / 255.0, g as f64 / 255.0, b as f64 / 255.0);
    let max = r.max(g.max(b));
    let min = r.min(g.min(b));
    let delta = max - min;
    if !(max > 0.0 && delta > 0.01) {
        return bytes;
    }
    let factor = amount / 100.0;
    let s = delta / max;
    let skin = if r > g && r > b { 0.3 } else { 1.0 };
    let adjusted = factor * skin * (1.0 - s.powf(0.5));
    let mut h = if max == r {
        60.0 * (((g - b) / delta) % 6.0)
    } else if max == g {
        60.0 * ((b - r) / delta + 2.0)
    } else {
        60.0 * ((r - g) / delta + 4.0)
    };
    if h < 0.0 {
        h += 360.0;
    }
    let v = max;
    let new_s = (s + adjusted * (1.0 - s)).clamp(0.0, 1.0);
    let c = v * new_s;
    let x = c * (1.0 - ((h / 60.0) % 2.0 - 1.0).abs());
    let m = v - c;
    let (r1, g1, b1) = if h < 60.0 {
        (c, x, 0.0)
    } else if h < 120.0 {
        (x, c, 0.0)
    } else if h < 180.0 {
        (0.0, c, x)
    } else if h < 240.0 {
        (0.0, x, c)
    } else if h < 300.0 {
        (x, 0.0, c)
    } else {
        (c, 0.0, x)
    };
    ((r1 + m) * 255.0, (g1 + m) * 255.0, (b1 + m) * 255.0)
}

fn float_tone(r: u8, g: u8, b: u8, amount: f64, highlights: bool) -> (f64, f64, f64) {
    let (r, g, b) = (r as f64 / 255.0, g as f64 / 255.0, b as f64 / 255.0);
    let luminance = 0.299 * r + 0.587 * g + 0.114 * b;
    let factor = amount / 100.0;
    let one = |c: f64| {
        if highlights && luminance > 0.7 {
            let mask = ((luminance - 0.7) / 0.3).clamp(0.0, 1.0);
            (c + factor * mask * (1.0 - c)).clamp(0.0, 1.0) * 255.0
        } else if !highlights && luminance < 0.3 {
            let mask = (1.0 - luminance / 0.3).clamp(0.0, 1.0);
            (c + factor * mask * c).clamp(0.0, 1.0) * 255.0
        } else {
            c * 255.0
        }
    };
    (one(r), one(g), one(b))
}

fn near(got: (u8, u8, u8), want: (f64, f64, f64)) -> bool {
    close_to(got.0, want.0) && close_to(got.1, want.1) && close_to(got.2, want.2)
}

#[test]
fn vibrance_stays_near_the_floating_point_formula() {
    let mut v = 17u32;
    for _ in 0..20_000 {
        let mut next = || {
            v = v.wrapping_mul(1664525).wrapping_add(1013904223);
            (v >> 24) as u8
        };
        let (r, g, b) = (next(), next(), next());
        let amount = (next() as i64 - 128) * UNIT;
        let got = vibrance_pixel(r, g, b, amount);
        let want = float_vibrance(r, g, b, amount as f64 / 1e6);
        assert!(near(got, want), "{:?} {} {:?} {:?}", (r, g, b), amount, got, want);
    }
}

#[test]
fn highlights_and_shadows_stay_near_the_floating_point_formulas() {
    let mut v = 23u32;
    for _ in 0..20_000 {
        let mut next = || {
            v = v.wrapping_mul(1664525).wrapping_add(1013904223);
            (v >> 24) as u8
        };
        let (r, g, b) = (next(), next(), next());
        let amount = (next() as i64 - 128) * UNIT;
        // Leave out pixels on a threshold, where rounding decides.
        let weight = 299 * r as i64 + 587 * g as i64 + 114 * b as i64;
        if (weight - 178_500).abs() < 2 || (weight - 76_500).abs() < 2 {
            continue;
        }
        let got = highlights_pixel(r, g, b, amount);
        let want = float_tone(r, g, b, amount as f64 / 1e6, true);
        assert!(near(got, want), "{:?} {} {:?} {:?}", (r, g, b), amount, got, want);
        let got = shadows_pixel(r, g, b, amount);
        let want = float_tone(r, g, b, amount as f64 / 1e6, false);
        assert!(near(got, want), "{:?} {} {:?} {:?}", (r, g, b), amount, got, want);
    }
}

#[test]
fn white_balance_warms_and_cools() {
    assert_eq!(white_balance_pixel(100, 100, 100, 50 * UNIT), (125, 110, 80));
    assert_eq!(white_balance_pixel(100, 100, 100, -50 * UNIT), (80, 95, 125));
    assert_eq!(white_balance_pixel(250, 250, 10, 100 * UNIT), (255, 255, 0));
    assert_eq!(white_balance_pixel(10, 5, 250, -100 * UNIT), (0, 0, 255));
    // Half a percent: +0.25, +0.1, -0.2, each rounded down.
    assert_eq!(white_balance_pixel(100, 100, 100, UNIT / 2), (100, 100, 99));
    assert_eq!(white_balance_pixel(100, 100, 100, 0), (100, 100, 100));
}

#[test]
fn white_balance_takes_every_value() {
    assert_eq!(white_balance_pixel(100, 100, 100, i64::MAX), (255, 255, 0));
    assert_eq!(white_balance_pixel(100, 100, 100, i64::MIN), (0, 0, 255));
}

#[test]
fn hue_rotation_matches_exact_values() {
    assert_eq!(hue_rotate_pixel(200, 100, 50, 90 * UNIT), (75, 200, 50));
    assert_eq!(hue_rotate_pixel(200, 100, 50, 180_500_000), (50, 148, 200));
    assert_eq!(hue_rotate_pixel(10, 20, 30, -45 * UNIT), (10, 30, 25));
    assert_eq!(hue_rotate_pixel(255, 0, 0, 120 * UNIT), (0, 255, 0));
    assert_eq!(hue_rotate_pixel(255, 0, 0, 240 * UNIT), (0, 0, 255));
}

#[test]
fn hue_rotation_by_whole_turns_changes_nothing() {
    for &shift in &[0i64, 360 * UNIT, -360 * UNIT, 720 * UNIT, i64::MAX - i64::MAX % (360 * UNIT)] {
        for &(r, g, b) in &[(200u8, 100u8, 50u8), (1, 2, 3), (255, 255, 255), (0, 77, 0)] {
            assert_eq!(hue_rotate_pixel(r, g, b, shift), (r, g, b));
        }
    }
}

#[test]
fn hue_rotation_stays_near_the_floating_point_formula() {
    let mut v = 99u32;
    for _ in 0..20_000 {
        let mut next = || {
            v = v.wrapping_mul(1664525).wrapping_add(1013904223);
            (v >> 24) as u8
        };
        let (r, g, b) = (next(), next(), next());
        let shift = (next() as i64 * 256 + next() as i64) * 5_000 - 160 * UNIT;
        let got = hue_rotate_pixel(r, g, b, shift);
        let want = float_hue(r, g, b, shift as f64 / 1e6);
        assert!(close_to(got.0, want.0), "{:?} {} {:?} {:?}", (r, g, b), shift, got, want);
        assert!(close_to(got.1, want.1), "{:?} {} {:?} {:?}", (r, g, b), shift, got, want);
        assert!(close_to(got.2, want.2), "{:?} {} {:?} {:?}", (r, g, b), shift, got, want);
    }
}

#[test]
fn exposure_multiplies_and_limits() {
    assert_eq!(exposure_pixel(100, 200, 7, 1_500_000), (150, 255, 10));
    assert_eq!(exposure_pixel(100, 201, 7, 500_000), (50, 100, 3));
    assert_eq!(exposure_pixel(100, 201, 7, 0), (0, 0, 0));
    assert_eq!(exposure_pixel(100, 201, 7, -UNIT), (0, 0, 0));
    assert_eq!(exposure_pixel(100, 201, 0, i64::MAX), (255, 255, 0));
    assert_eq!(exposure_pixel(100, 201, 7, UNIT), (100, 201, 7));
}

#[test]
fn vibrance_matches_exact_values() {
    // Red strictly largest: the guard of 0.3 applies.
    assert_eq!(vibrance_pixel(200, 100, 50, 50 * UNIT), (200, 99, 48));
    assert_eq!(vibrance_pixel(50, 100, 200, 50 * UNIT), (46, 97, 200));
    assert_eq!(vibrance_pixel(50, 100, 200, -100 * UNIT), (56, 104, 200));
}

#[test]
fn vibrance_skips_near_grey_pixels() {
    assert_eq!(vibrance_pixel(100, 101, 102, 50 * UNIT), (100, 101, 102));
    assert_eq!(vibrance_pixel(0, 0, 0, 50 * UNIT), (0, 0, 0));
    assert_eq!(vibrance_pixel(9, 9, 9, -50 * UNIT), (9, 9, 9));
}

#[test]
fn vibrance_of_zero_changes_nothing() {
    let mut v = 5u32;
    for _ in 0..20_000 {
        let mut next = || {
            v = v.wrapping_mul(1664525).wrapping_add(1013904223);
            (v >> 24) as u8
        };
        let (r, g, b) = (next(), next(), next());
        assert_eq!(vibrance_pixel(r, g, b, 0), (r, g, b));
    }
}

#[test]
fn vibrance_limits_the_saturation() {
    // A huge amount drives the saturation to one: the smallest channel
    // drops to zero, the largest stays.
    let p = vibrance_pixel(50, 100, 200, i64::MAX);
    assert_eq!(p.2, 200);
    assert_eq!(p.0, 0);
    // A hugely negative amount drives it to zero: a grey of the value.
    assert_eq!(vibrance_pixel(50, 100, 200, i64::MIN), (200, 200, 200));
}

#[test]
fn highlights_move_bright_pixels_only() {
    assert_eq!(highlights_pixel(240, 230, 220, 50 * UNIT), (245, 238, 232));
    assert_eq!(highlights_pixel(240, 230, 220, -50 * UNIT), (234, 221, 207));
    assert_eq!(highlights_pixel(100, 100, 100, 50 * UNIT), (100, 100, 100));
    assert_eq!(highlights_pixel(255, 255, 255, -100 * UNIT), (255, 255, 255));
    assert_eq!(highlights_pixel(240, 230, 220, 0), (240, 230, 220));
}

#[test]
fn highlights_threshold_is_strict() {
    // 299 * 178 + 587 * 179 + 114 * 177 = 178473 lies below 178500.
    assert_eq!(highlights_pixel(178, 179, 177, 100 * UNIT), (178, 179, 177));
    // A weight of exactly 178500 is not above it.
    assert_eq!(299 * 7 + 587 * 251 + 114 * 255, 178_500);
    assert_eq!(highlights_pixel(7, 251, 255, 100 * UNIT), (7, 251, 255));
    // 200000 is: mask 21500 / 76500, so 200 + 55 * 0.281 = 215.45.
    assert_eq!(highlights_pixel(200, 200, 200, 100 * UNIT), (215, 215, 215));
}

#[test]
fn shadows_move_dark_pixels_only() {
    assert_eq!(shadows_pixel(40, 30, 20, 50 * UNIT), (51, 38, 25));
    assert_eq!(shadows_pixel(40, 30, 20, -100 * UNIT), (16, 12, 8));
    assert_eq!(shadows_pixel(100, 100, 100, 50 * UNIT), (100, 100, 100));
    assert_eq!(shadows_pixel(10, 60, 200, 100 * UNIT), (12, 72, 240));
    assert_eq!(shadows_pixel(40, 30, 20, 0), (40, 30, 20));
    // A weight of exactly 76500 is not below the threshold.
    assert_eq!(299 * 2 + 587 * 106 + 114 * 120, 76_500);
    assert_eq!(shadows_pixel(2, 106, 120, 100 * UNIT), (2, 106, 120));
}

#[test]
fn sepia_mixes_the_channels() {
    assert_eq!(sepia_pixel(100, 150, 200), (192, 171, 133));
    assert_eq!(sepia_pixel(255, 255, 255), (255, 255, 238));
    assert_eq!(sepia_pixel(10, 20, 30), (24, 22, 17));
    assert_eq!(sepia_pixel(0, 0, 0), (0, 0, 0));
}

#[test]
fn image_operations_apply_the_pixel_formula_everywhere() {
    let src = sample();
    let out = src.adjust_white_balance(30 * UNIT);
    assert_eq!((out.width(), out.height()), (4, 3));
    for y in 0..3 {
        for x in 0..4 {
            let p = src.pixel_at(x, y);
            assert_eq!(out.pixel_at(x, y), white_balance_pixel(p.0, p.1, p.2, 30 * UNIT));
        }
    }
    let out = src.adjust_hue(77 * UNIT);
    let sepia = src.apply_sepia();
    let vib = src.adjust_vibrance(40 * UNIT);
    let hi = src.adjust_highlights(-60 * UNIT);
    let lo = src.adjust_shadows(60 * UNIT);
    let exp = src.adjust_exposure(2 * UNIT);
    for y in 0..3 {
        for x in 0..4 {
            let p = src.pixel_at(x, y);
            assert_eq!(out.pixel_at(x, y), hue_rotate_pixel(p.0, p.1, p.2, 77 * UNIT));
            assert_eq!(sepia.pixel_at(x, y), sepia_pixel(p.0, p.1, p.2));
            assert_eq!(vib.pixel_at(x, y), vibrance_pixel(p.0, p.1, p.2, 40 * UNIT));
            assert_eq!(hi.pixel_at(x, y), highlights_pixel(p.0, p.1, p.2, -60 * UNIT));
            assert_eq!(lo.pixel_at(x, y), shadows_pixel(p.0, p.1, p.2, 60 * UNIT));
            assert_eq!(exp.pixel_at(x, y), exposure_pixel(p.0, p.1, p.2, 2 * UNIT));
        }
    }
}

#[test]
fn neutral_settings_give_the_image_back() {
    let src = sample();
    assert_eq!(src.adjust_exposure(UNIT).data(), src.data());
    assert_eq!(src.adjust_hue(0).data(), src.data());
    assert_eq!(src.adjust_vibrance(0).data(), src.data());
    assert_eq!(src.adjust_white_balance(0).data(), src.data());
    assert_eq!(src.adjust_highlights(0).data(), src.data());
    assert_eq!(src.adjust_shadows(0).data(), src.data());
}

#[test]
fn point_operations_run_on_empty_images() {
    let empty = PixelBuffer::new(0, 5, Vec::new()).unwrap();
    let out = (PointOp::Sepia).run(&empty);
    assert_eq!((out.width(), out.height()), (0, 5));
    assert!(out.data().is_empty());
}

#[test]
fn buffers_are_checked_on_construction() {
    assert!(PixelBuffer::new(2, 2, vec![0; 12]).is_some());
    assert!(PixelBuffer::new(2, 2, vec![0; 11]).is_none());
    assert!(PixelBuffer::new(2, 2, vec![0; 13]).is_none());
    assert!(PixelBuffer::new(0, 0, vec![]).is_some());
    assert!(PixelBuffer::new(u32::MAX, u32::MAX, vec![0; 12]).is_none());
    let b = PixelBuffer::new(1, 2, vec![1, 2, 3, 4, 5, 6]).unwrap();
    assert_eq!(b.pixel_at(0, 1), (4, 5, 6));
    assert_eq!(b.duplicate().into_data(), vec![1, 2, 3, 4, 5, 6]);
}
