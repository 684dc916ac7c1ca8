use image_kernels::buffer::PixelBuffer;
use image_kernels::convolution::{weigh, Border, Kernel};
use image_kernels::noise::{
    intensity_loss, noise_radius, pixel_difference, spatial_loss, BilateralKernel,
};

const UNIT: i64 = 1_000_000;

fn pattern(width: u32, height: u32, seed: u32) -> PixelBuffer {
    let mut v = seed;
    let data: Vec<u8> = (0..width * height * 3)
        .map(|_| {
            v = v.wrapping_mul(1103515245).wrapping_add(12345);
            (v >> 16) as u8
        })
        .collect();
    PixelBuffer::new(width, height, data).unwrap()
}

fn channel(p: (u8, u8, u8), c: usize) -> u8 {
    [p.0, p.1, p.2][c]
}

#[test]
fn sharpen_keeps_the_rim_and_weighs_the_inside() {
    let src = pattern(5, 5, 1);
    let out = src.sharpen(UNIT / 2);
    assert_eq!((out.width(), out.height()), (5, 5));
    for y in 0..5u32 {
        for x in 0..5u32 {
            if x == 0 || y == 0 || x == 4 || y == 4 {
                assert_eq!(out.pixel_at(x, y), src.pixel_at(x, y));
            } else {
                for c in 0..3 {
                    let at = |dx: i32, dy: i32| {
                        let p = src.pixel_at((x as i32 + dx) as u32, (y as i32 + dy) as u32);
                        channel(p, c) as f64
                    };
                    let sum = 3.0 * at(0, 0) - 0.5 * (at(0, -1) + at(-1, 0) + at(1, 0) + at(0, 1));
                    let want = sum.clamp(0.0, 255.0) as u8;
                    assert_eq!(channel(out.pixel_at(x, y), c), want);
                }
            }
        }
    }
}

#[test]
fn sharpen_centre_of_a_known_image() {
    let mut data = vec![100u8; 75];
    let at = |x: usize, y: usize| 3 * (y * 5 + x);
    data[at(2, 2)] = 120;
    data[at(2, 1)] = 90;
    data[at(1, 2)] = 80;
    data[at(3, 2)] = 95;
    data[at(2, 3)] = 101;
    data[at(2, 2) + 1] = 250;
    data[at(2, 2) + 2] = 3;
    let src = PixelBuffer::new(5, 5, data).unwrap();
    let out = src.sharpen(UNIT / 2);
    // Red: 3 * 120 - (90 + 80 + 95 + 101) / 2 = 177. Green: 750 - 200 limited
    // to 255. Blue: 9 - 200 limited to 0.
    assert_eq!(out.pixel_at(2, 2), (177, 255, 0));
    // Above the centre: 3 * 90 - (100 + 100 + 100 + 120) / 2 = 60.
    assert_eq!(out.pixel_at(2, 1).0, 60);
    // Halves round down: 3 * 100 - (100 + 90 + 100 + 95) / 2 = 107.5.
    assert_eq!(out.pixel_at(3, 1).0, 107);
    assert_eq!(out.pixel_at(3, 3).0, 102);
    let third = src.sharpen(333_333);
    // 120 + 0.333333 * (480 - 366) = 157.99996.
    assert_eq!(third.pixel_at(2, 2).0, 157);
}

#[test]
fn sharpen_by_nothing_changes_nothing() {
    let src = pattern(6, 4, 2);
    assert_eq!(src.sharpen(0).data(), src.data());
    assert_eq!(src.sharpen(-UNIT).data(), src.data());
    assert_eq!(src.sharpen(i64::MIN).data(), src.data());
}

#[test]
fn sharpen_takes_the_largest_amount() {
    let src = pattern(4, 4, 3);
    let out = src.sharpen(i64::MAX);
    for y in 1..3u32 {
        for x in 1..3u32 {
            for c in 0..3 {
                let at = |dx: i32, dy: i32| {
                    channel(src.pixel_at((x as i32 + dx) as u32, (y as i32 + dy) as u32), c) as i32
                };
                let lap = 4 * at(0, 0) - at(0, -1) - at(-1, 0) - at(1, 0) - at(0, 1);
                let want = if lap > 0 { 255 } else if lap < 0 { 0 } else { at(0, 0) as u8 };
                assert_eq!(channel(out.pixel_at(x, y), c), want);
            }
        }
    }
}

#[test]
fn images_without_an_inside_are_all_rim() {
    for &(w, h) in &[(0u32, 0u32), (1, 1), (2, 7), (7, 2), (1, 0)] {
        let src = pattern(w, h, 4);
        assert_eq!(src.sharpen(UNIT).data(), src.data());
        let e = src.apply_emboss();
        assert_eq!((e.width(), e.height()), (w, h));
        assert!(e.data().iter().all(|&b| b == 128));
    }
}

#[test]
fn emboss_greys_the_rim_and_weighs_the_inside() {
    let src = pattern(5, 4, 5);
    let out = src.apply_emboss();
    assert_eq!((out.width(), out.height()), (5, 4));
    let k = [-2, -1, 0, -1, 1, 1, 0, 1, 2];
    for y in 0..4u32 {
        for x in 0..5u32 {
            if x == 0 || y == 0 || x == 4 || y == 3 {
                assert_eq!(out.pixel_at(x, y), (128, 128, 128));
            } else {
                for c in 0..3 {
                    let mut sum = 128i32;
                    for ky in 0..3 {
                        for kx in 0..3 {
                            let p = src.pixel_at(x + kx - 1, y + ky - 1);
                            sum += k[(ky * 3 + kx) as usize] * channel(p, c) as i32;
                        }
                    }
                    assert_eq!(channel(out.pixel_at(x, y), c), sum.clamp(0, 255) as u8);
                }
            }
        }
    }
}

#[test]
fn emboss_of_a_flat_image_is_mid_grey_plus_the_colour() {
    let src = PixelBuffer::new(3, 3, vec![40; 27]).unwrap();
    let out = src.apply_emboss();
    // The weights sum to one: 40 + 128.
    assert_eq!(out.pixel_at(1, 1), (168, 168, 168));
    assert_eq!(out.pixel_at(0, 0), (128, 128, 128));
}

#[test]
fn weigh_sums_weights_times_values() {
    let v = [1u8, 2, 3, 4, 5, 6, 7, 8, 9];
    let k = Kernel { weights: [UNIT as i128; 9], bias: 0 };
    assert_eq!(weigh(&v, &k), 45);
    let k = Kernel { weights: [0, 0, 0, 0, 1_500_000, 0, 0, 0, 0], bias: 10 };
    assert_eq!(weigh(&v, &k), 17);
    let k = Kernel { weights: [-(UNIT as i128); 9], bias: 44 };
    assert_eq!(weigh(&v, &k), 0);
    let k = Kernel { weights: [UNIT as i128 * 100; 9], bias: 0 };
    assert_eq!(weigh(&v, &k), 255);
}

#[test]
fn convolve_follows_the_border_policy() {
    let src = pattern(4, 4, 6);
    let blur = Kernel { weights: [111_111; 9], bias: 0 };
    let kept = src.convolve(&blur, Border::Source);
    let grey = src.convolve(&blur, Border::Gray);
    assert_eq!(kept.pixel_at(0, 2), src.pixel_at(0, 2));
    assert_eq!(grey.pixel_at(0, 2), (128, 128, 128));
    assert_eq!(kept.pixel_at(1, 2), grey.pixel_at(1, 2));
    let mut sum = 0u32;
    for y in 1..4 {
        for x in 0..3 {
            sum += src.pixel_at(x, y).0 as u32;
        }
    }
    assert_eq!(kept.pixel_at(1, 2).0 as u32, sum * 111_111 / 1_000_000);
}

fn bilateral(strength: f64) -> BilateralKernel {
    let fixed = (strength * 1e6) as i64;
    let radius = noise_radius(fixed) as u32;
    let weight =
        |(num, den): (u128, u128)| ((-(num as f64 / den as f64)).exp() * 1e6).round() as u32;
    let spatial: Vec<u32> =
        (0..=2 * radius * radius).map(|d2| weight(spatial_loss(fixed, d2))).collect();
    let intensity: Vec<u32> = (0..766u16).map(|d| weight(intensity_loss(fixed, d))).collect();
    BilateralKernel::new(radius, spatial, intensity).unwrap()
}

fn float_denoise(src: &PixelBuffer, strength: f64, x: u32, y: u32) -> [f64; 3] {
    let t = strength / 100.0;
    let radius = (t * 3.0 + 1.0) as i32;
    let spatial_sigma = t * 2.0 + 0.5;
    let intensity_sigma = t * 30.0 + 10.0;
    let c = src.pixel_at(x, y);
    let mut sum = [0f64; 3];
    let mut total = 0f64;
    for dy in -radius..=radius {
        for dx in -radius..=radius {
            let nx = (x as i32 + dx).clamp(0, src.width() as i32 - 1) as u32;
            let ny = (y as i32 + dy).clamp(0, src.height() as i32 - 1) as u32;
            let n = src.pixel_at(nx, ny);
            let d2 = (dx * dx + dy * dy) as f64;
            let ws = (-d2 / (2.0 * spatial_sigma * spatial_sigma)).exp();
            let diff = ((c.0 as f64 - n.0 as f64).abs()
                + (c.1 as f64 - n.1 as f64).abs()
                + (c.2 as f64 - n.2 as f64).abs())
                / 3.0;
            let wi = (-diff * diff / (2.0 * intensity_sigma * intensity_sigma)).exp();
            let w = ws * wi;
            sum[0] += n.0 as f64 * w;
            sum[1] += n.1 as f64 * w;
            sum[2] += n.2 as f64 * w;
            total += w;
        }
    }
    [sum[0] / total, sum[1] / total, sum[2] / total]
}

#[test]
fn noise_radius_follows_the_strength() {
    assert_eq!(noise_radius(0), 1);
    assert_eq!(noise_radius(1), 1);
    assert_eq!(noise_radius(33_333_333), 1);
    assert_eq!(noise_radius(33_333_334), 2);
    assert_eq!(noise_radius(50 * UNIT), 2);
    assert_eq!(noise_radius(66_666_667), 3);
    assert_eq!(noise_radius(100 * UNIT), 4);
    assert_eq!(noise_radius(i64::MAX), (3 * (i64::MAX as i128) / 100_000_000 + 1) as i64);
}

#[test]
fn losses_are_the_gaussian_exponents() {
    // A strength of 50 percent: sigma 1.5 in space and 25 in intensity.
    let (num, den) = spatial_loss(50 * UNIT, 2);
    assert_eq!(num as f64 / den as f64, 2.0 / (2.0 * 1.5 * 1.5));
    assert_eq!((num, den), (20_000_000_000_000_000, 2 * 150_000_000 * 150_000_000));
    let (num, den) = intensity_loss(50 * UNIT, 30);
    assert_eq!(num as f64 / den as f64, 100.0 / (2.0 * 25.0 * 25.0));
    assert_eq!((num, den), (9_000_000_000_000_000_000, 18 * 2_500_000_000 * 2_500_000_000));
    assert_eq!(spatial_loss(1, 0).0, 0);
    assert_eq!(intensity_loss(1, 765).0, 765 * 765 * 10_000_000_000_000_000);
    assert_eq!(spatial_loss(34_133_333_333, 7).1, 2 * 68_316_666_666u128.pow(2));
}

#[test]
fn pixel_difference_adds_the_channel_differences() {
    assert_eq!(pixel_difference((0, 0, 0), (255, 255, 255)), 765);
    assert_eq!(pixel_difference((10, 200, 30), (20, 100, 30)), 110);
    assert_eq!(pixel_difference((5, 5, 5), (5, 5, 5)), 0);
}

#[test]
fn kernels_are_checked_on_construction() {
    assert!(BilateralKernel::new(1, vec![1; 3], vec![1; 766]).is_some());
    assert!(BilateralKernel::new(1, vec![1; 2], vec![1; 766]).is_none());
    assert!(BilateralKernel::new(1, vec![1; 3], vec![1; 765]).is_none());
    assert!(BilateralKernel::new(0, vec![1; 1], vec![1; 766]).is_some());
    assert!(BilateralKernel::new(2, vec![1; 9], vec![1; 766]).is_some());
    assert!(BilateralKernel::new(1025, vec![1; 3], vec![1; 766]).is_none());
    assert_eq!(BilateralKernel::new(2, vec![1; 9], vec![1; 766]).unwrap().radius(), 2);
}

#[test]
fn noise_reduction_stays_near_the_floating_point_formula() {
    let src = pattern(9, 7, 11);
    for &strength in &[10.0f64, 50.0, 100.0] {
        let out = src.reduce_noise(&bilateral(strength));
        assert_eq!((out.width(), out.height()), (9, 7));
        for y in 0..7 {
            for x in 0..9 {
                let want = float_denoise(&src, strength, x, y);
                let got = out.pixel_at(x, y);
                for c in 0..3 {
                    let g = channel(got, c) as f64;
                    let near = (g - want[c].floor()).abs() <= 1.0;
                    assert!(near, "{} {:?} {:?}", strength, got, want);
                }
            }
        }
    }
}

#[test]
fn noise_reduction_with_equal_weights_is_the_plain_average() {
    // A 3 by 1 image: the neighbourhood of the middle pixel, with rows
    // above and below moved onto the only row, holds each pixel three times.
    let src = PixelBuffer::new(3, 1, vec![10, 0, 0, 20, 0, 0, 40, 0, 0]).unwrap();
    let k = BilateralKernel::new(1, vec![1; 3], vec![1; 766]).unwrap();
    let out = src.reduce_noise(&k);
    assert_eq!(out.pixel_at(1, 0), (23, 0, 0));
    // At the left rim the column to the left is the rim itself.
    assert_eq!(out.pixel_at(0, 0), (13, 0, 0));
    assert_eq!(out.pixel_at(2, 0), (33, 0, 0));
}

#[test]
fn noise_reduction_keeps_the_pixel_where_all_weights_vanish() {
    let src = pattern(4, 3, 12);
    let k = BilateralKernel::new(1, vec![0; 3], vec![5; 766]).unwrap();
    assert_eq!(src.reduce_noise(&k).data(), src.data());
    let k = BilateralKernel::new(0, vec![7], vec![u32::MAX; 766]).unwrap();
    assert_eq!(src.reduce_noise(&k).data(), src.data());
}

#[test]
fn noise_reduction_weighs_by_likeness() {
    let src = PixelBuffer::new(3, 1, vec![0, 0, 0, 30, 30, 30, 255, 255, 255]).unwrap();
    let mut intensity = vec![0u32; 766];
    for w in intensity.iter_mut().take(100) {
        *w = 1;
    }
    let k = BilateralKernel::new(1, vec![1; 3], intensity).unwrap();
    let out = src.reduce_noise(&k);
    // The white pixel differs by 675 from the middle one and counts for
    // nothing: the average of 0 and 30, each three times.
    assert_eq!(out.pixel_at(1, 0), (15, 15, 15));
    assert_eq!(out.pixel_at(2, 0), (255, 255, 255));
}

#[test]
fn vignette_never_brightens_and_darkens_outwards() {
    let src = PixelBuffer::new(41, 1, vec![200; 41 * 3]).unwrap();
    let out = src.apply_vignette(80 * UNIT, 30 * UNIT);
    assert_eq!((out.width(), out.height()), (41, 1));
    let mut last = 200u8;
    for x in 20..41 {
        let p = out.pixel_at(x, 0);
        assert!(p.0 <= last);
        assert!(p.0 <= 200);
        assert_eq!(p.0, p.1);
        last = p.0;
    }
    assert!(last < 200);
    let mut last = 200u8;
    for x in (0..21).rev() {
        let p = out.pixel_at(x, 0);
        assert!(p.0 <= last);
        last = p.0;
    }
    assert_eq!(out.pixel_at(20, 0), (200, 200, 200));
}

#[test]
fn vignette_keeps_every_pixel_within_the_radius() {
    // A 2 by 2 image: the corner lies at the distance sqrt(2), the pixel
    // (1, 0) at the distance 1, just within 70.7107 percent of sqrt(2).
    let src = PixelBuffer::new(2, 2, vec![255; 12]).unwrap();
    let out = src.apply_vignette(100 * UNIT, 70_710_700);
    assert_eq!(out.pixel_at(1, 0), (255, 255, 255));
    assert_eq!(out.pixel_at(0, 1), (255, 255, 255));
    assert_eq!(out.pixel_at(1, 1), (255, 255, 255));
    assert_eq!(out.pixel_at(0, 0), (0, 0, 0));
    // Just short of it, the pixel is beyond the radius and dimmed.
    let out = src.apply_vignette(100 * UNIT, 70_710_600);
    assert!(out.pixel_at(1, 0).0 < 255);
    assert_eq!(out.pixel_at(1, 1), (255, 255, 255));
}

#[test]
fn vignette_within_the_radius_agrees_with_the_exact_distances() {
    let src = pattern(17, 11, 31);
    for &radius in &[0i64, 10 * UNIT, 33_333_333, 50 * UNIT, 70_710_678, 99_999_999, 100 * UNIT] {
        let out = src.apply_vignette(60 * UNIT, radius);
        for y in 0..11i128 {
            for x in 0..17i128 {
                let d2 = (2 * x - 17).pow(2) + (2 * y - 11).pow(2);
                let s2 = 17 * 17 + 11 * 11;
                let inside = d2 * 10i128.pow(16) <= s2 * (radius as i128).pow(2);
                let got = out.pixel_at(x as u32, y as u32);
                let was = src.pixel_at(x as u32, y as u32);
                if inside {
                    assert_eq!(got, was);
                } else {
                    assert!(got.0 <= was.0 && got.1 <= was.1 && got.2 <= was.2);
                }
            }
        }
    }
}

#[test]
fn vignette_with_a_negative_radius_dims_every_pixel() {
    let src = PixelBuffer::new(3, 3, vec![200; 27]).unwrap();
    let out = src.apply_vignette(50 * UNIT, -50 * UNIT);
    // The centre pixel (1, 1) lies half a pixel off the centre (1.5, 1.5).
    for y in 0..3 {
        for x in 0..3 {
            assert!(out.pixel_at(x, y).0 < 200);
        }
    }
    assert!(out.pixel_at(1, 1).0 > out.pixel_at(0, 0).0);
}

#[test]
fn vignette_stays_near_the_floating_point_formula() {
    let src = pattern(13, 9, 21);
    let (strength, radius) = (70.0f64, 40.0f64);
    let out = src.apply_vignette((strength * 1e6) as i64, (radius * 1e6) as i64);
    let (cx, cy) = (13.0 / 2.0, 9.0 / 2.0);
    let max: f64 = ((cx * cx + cy * cy) as f64).sqrt();
    let eff = max * radius / 100.0;
    for y in 0..9 {
        for x in 0..13 {
            let (dx, dy) = (x as f64 - cx, y as f64 - cy);
            let d = (dx * dx + dy * dy).sqrt();
            let f = if d <= eff {
                1.0
            } else {
                (1.0 - (d - eff) / (max - eff) * strength / 100.0).max(0.0)
            };
            let p = src.pixel_at(x, y);
            let got = out.pixel_at(x, y);
            for c in 0..3 {
                let want = channel(p, c) as f64 * f;
                assert!((channel(got, c) as f64 - want).abs() <= 1.0);
            }
        }
    }
}

#[test]
fn vignette_exact_values_on_a_row() {
    // Width 4, height 0 would be empty; take 5 by 1: centre at 2.5, corner
    // distance sqrt(26) / 2.
    let src = PixelBuffer::new(5, 1, vec![100; 15]).unwrap();
    let out = src.apply_vignette(100 * UNIT, 0);
    let max = 26f64.sqrt() / 2.0;
    let want: Vec<u8> = (0..5)
        .map(|x| {
            let dx = x as f64 - 2.5;
            let d = (dx * dx + 0.25).sqrt();
            (100.0 * (1.0 - d / max)) as u8
        })
        .collect();
    let got: Vec<u8> = (0..5).map(|x| out.pixel_at(x, 0).0).collect();
    assert_eq!(got, want);
    assert_eq!(got, vec![0, 37, 72, 72, 37]);
}

#[test]
fn vignette_with_a_full_radius_or_no_strength_changes_nothing() {
    let src = pattern(6, 5, 22);
    assert_eq!(src.apply_vignette(50 * UNIT, 100 * UNIT).data(), src.data());
    assert_eq!(src.apply_vignette(50 * UNIT, 150 * UNIT).data(), src.data());
    assert_eq!(src.apply_vignette(0, 20 * UNIT).data(), src.data());
}

#[test]
fn vignette_beyond_its_range_changes_nothing() {
    let src = pattern(6, 5, 23);
    assert_eq!(src.apply_vignette(10_000_000_001, 0).data(), src.data());
    assert_eq!(src.apply_vignette(50 * UNIT, -10_000_000_001).data(), src.data());
    assert_eq!(src.apply_vignette(i64::MIN, i64::MIN).data(), src.data());
    assert_ne!(src.apply_vignette(10_000_000_000, 0).data(), src.data());
    assert_ne!(src.apply_vignette(-10_000_000_000, -10_000_000_000).data(), src.data());
    // Any radius from the whole way to a corner on holds every pixel.
    assert_eq!(src.apply_vignette(50 * UNIT, i64::MAX).data(), src.data());
}
