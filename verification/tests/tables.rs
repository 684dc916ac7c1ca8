use image_kernels::buffer::PixelBuffer;
use image_kernels::histogram::build_equalization_lut;
use image_kernels::lut::{
    build_gamma_lut, build_levels_lut, clamp_gamma, levels_ramp, LookupTable, PowerTable,
};

const UNIT: i64 = 1_000_000;

fn powers_of(inputs: &dyn Fn(u8) -> f64, gamma: i64) -> PowerTable {
    let g = clamp_gamma(gamma) as f64 / 1e6;
    let values: Vec<i64> =
        (0..=255u8).map(|i| (inputs(i).powf(1.0 / g) * 1e6).round() as i64).collect();
    PowerTable::new(values).unwrap()
}

fn gamma_powers(gamma: i64) -> PowerTable {
    powers_of(&|i| i as f64 / 255.0, gamma)
}

fn level_powers(black: u8, white: u8, gamma: i64) -> PowerTable {
    powers_of(
        &|i| {
            let (n, d) = levels_ramp(black, white, i);
            n as f64 / d as f64
        },
        gamma,
    )
}

fn unused() -> PowerTable {
    PowerTable::new(vec![0; 256]).unwrap()
}

#[test]
fn lookup_tables_have_256_entries() {
    assert!(LookupTable::new(vec![0; 256]).is_some());
    assert!(LookupTable::new(vec![0; 255]).is_none());
    assert!(LookupTable::new(vec![0; 257]).is_none());
    assert!(PowerTable::new(vec![0; 256]).is_some());
    assert!(PowerTable::new(vec![0; 0]).is_none());
    assert!(PowerTable::new(vec![0; 255]).is_none());
    let id = LookupTable::identity();
    for i in 0..=255u8 {
        assert_eq!(id.get(i), i);
    }
    let t = LookupTable::new((0..=255u8).rev().collect()).unwrap();
    assert_eq!(t.get(0), 255);
    assert_eq!(t.get(255), 0);
    assert_eq!(t.entries().len(), 256);
}

#[test]
fn powers_must_not_decrease() {
    let rising: Vec<i64> = (0..256).map(|i| i * 3 - 100).collect();
    assert!(PowerTable::new(rising.clone()).is_some());
    for at in [1usize, 100, 255] {
        let mut values = rising.clone();
        values[at] = values[at - 1] - 1;
        assert!(PowerTable::new(values).is_none());
    }
    let mut flat = rising.clone();
    flat[200] = flat[199];
    assert!(PowerTable::new(flat).is_some());
    assert_eq!(PowerTable::new(rising).unwrap().get(2), -94);
}

#[test]
fn gamma_and_levels_tables_never_decrease() {
    for &gamma in &[100_000i64, 500_000, UNIT, 2 * UNIT, 3 * UNIT] {
        let t = build_gamma_lut(gamma, &gamma_powers(gamma));
        for i in 1..=255u8 {
            assert!(t.get(i - 1) <= t.get(i));
        }
        for &(black, white) in &[(0u8, 255u8), (50, 150), (254, 255), (0, 1), (100, 101)] {
            let t = build_levels_lut(black, white, gamma, &level_powers(black, white, gamma))
                .unwrap();
            for i in 1..=255u8 {
                assert!(t.get(i - 1) <= t.get(i));
            }
            assert_eq!(t.get(black), 0);
            assert_eq!(t.get(white), 255);
        }
    }
}

#[test]
fn gamma_is_limited() {
    assert_eq!(clamp_gamma(50_000), 100_000);
    assert_eq!(clamp_gamma(100_000), 100_000);
    assert_eq!(clamp_gamma(2 * UNIT), 2 * UNIT);
    assert_eq!(clamp_gamma(3 * UNIT), 3 * UNIT);
    assert_eq!(clamp_gamma(3 * UNIT + 1), 3 * UNIT);
    assert_eq!(clamp_gamma(i64::MIN), 100_000);
    assert_eq!(clamp_gamma(i64::MAX), 3 * UNIT);
}

#[test]
fn gamma_curve_rounds_to_the_nearest_byte() {
    let t = build_gamma_lut(2 * UNIT, &gamma_powers(2 * UNIT));
    assert_eq!(t.get(0), 0);
    assert_eq!(t.get(1), 16);
    assert_eq!(t.get(64), 128);
    assert_eq!(t.get(128), 181);
    assert_eq!(t.get(255), 255);
    for i in 0..=255u8 {
        let want = (255.0 * (i as f64 / 255.0).sqrt()).round();
        assert!((t.get(i) as f64 - want).abs() <= 1.0);
    }
}

#[test]
fn gamma_curve_of_one_is_the_identity_whatever_the_powers() {
    let t = build_gamma_lut(UNIT, &unused());
    for i in 0..=255u8 {
        assert_eq!(t.get(i), i);
    }
}

#[test]
fn gamma_curve_limits_its_entries() {
    let high = PowerTable::new(vec![i64::MAX; 256]).unwrap();
    let low = PowerTable::new(vec![i64::MIN; 256]).unwrap();
    assert_eq!(build_gamma_lut(2 * UNIT, &high).get(7), 255);
    assert_eq!(build_gamma_lut(2 * UNIT, &low).get(7), 0);
    // 0.5 / 255 rounds away from zero.
    let mut values = vec![1961i64; 256];
    values[0] = -1961;
    values[1] = -1960;
    values[2] = 0;
    values[3] = 1960; // 255 * 0.001960 = 0.4998
    // From 4 on: 255 * 0.001961 = 0.500055.
    let t = build_gamma_lut(2 * UNIT, &PowerTable::new(values).unwrap());
    assert_eq!(t.get(3), 0);
    assert_eq!(t.get(4), 1);
    assert_eq!(t.get(255), 1);
}

#[test]
fn gamma_beyond_the_limits_is_taken_at_the_limit() {
    let a = build_gamma_lut(5 * UNIT, &gamma_powers(5 * UNIT));
    let b = build_gamma_lut(3 * UNIT, &gamma_powers(3 * UNIT));
    assert_eq!(a.entries(), b.entries());
}

#[test]
fn levels_ramp_is_zero_below_and_one_above() {
    assert_eq!(levels_ramp(50, 150, 0), (0, 1));
    assert_eq!(levels_ramp(50, 150, 50), (0, 1));
    assert_eq!(levels_ramp(50, 150, 51), (1, 100));
    assert_eq!(levels_ramp(50, 150, 149), (99, 100));
    assert_eq!(levels_ramp(50, 150, 150), (1, 1));
    assert_eq!(levels_ramp(50, 150, 255), (1, 1));
    assert_eq!(levels_ramp(150, 50, 100), (0, 1));
    assert_eq!(levels_ramp(150, 50, 200), (1, 1));
}

#[test]
fn levels_table_is_linear_for_a_gamma_of_one() {
    let t = build_levels_lut(50, 150, UNIT, &unused()).unwrap();
    let got: Vec<u8> = [0u8, 50, 51, 100, 149, 150, 255].iter().map(|&i| t.get(i)).collect();
    assert_eq!(got, vec![0, 0, 2, 127, 252, 255, 255]);
}

#[test]
fn levels_table_uses_the_powers_for_any_other_gamma() {
    let t = build_levels_lut(50, 150, 2 * UNIT, &level_powers(50, 150, 2 * UNIT)).unwrap();
    let got: Vec<u8> = [0u8, 50, 51, 75, 100, 149, 150, 255].iter().map(|&i| t.get(i)).collect();
    assert_eq!(got, vec![0, 0, 25, 127, 180, 253, 255, 255]);
}

#[test]
fn levels_table_is_refused_unless_black_lies_below_white() {
    assert!(build_levels_lut(200, 100, UNIT, &unused()).is_none());
    assert!(build_levels_lut(100, 100, UNIT, &unused()).is_none());
    assert!(build_levels_lut(0, 0, UNIT, &unused()).is_none());
    assert!(build_levels_lut(255, 255, 2 * UNIT, &unused()).is_none());
    assert!(build_levels_lut(99, 100, UNIT, &unused()).is_some());
}

#[test]
fn levels_with_invalid_points_return_the_image_unchanged() {
    let src = PixelBuffer::new(2, 1, vec![10, 120, 250, 0, 99, 201]).unwrap();
    let out = src.adjust_levels(200, 100, UNIT, &unused());
    assert_eq!(out.data(), src.data());
    assert_eq!((out.width(), out.height()), (2, 1));
}

#[test]
fn levels_apply_one_table_to_all_channels() {
    let src = PixelBuffer::new(2, 1, vec![10, 100, 250, 51, 149, 150]).unwrap();
    let out = src.adjust_levels(50, 150, UNIT, &unused());
    assert_eq!(out.data(), &vec![0, 127, 255, 2, 252, 255]);
    let full = src.adjust_levels(0, 255, UNIT, &unused());
    assert_eq!(full.data(), src.data());
}

#[test]
fn curves_apply_a_table_to_each_channel() {
    let src = PixelBuffer::new(2, 1, vec![64, 64, 64, 128, 128, 1]).unwrap();
    let out = src.adjust_curves(
        (2 * UNIT, UNIT, 2 * UNIT),
        &gamma_powers(2 * UNIT),
        &unused(),
        &gamma_powers(2 * UNIT),
    );
    assert_eq!(out.data(), &vec![128, 64, 128, 181, 128, 16]);
    let same = src.adjust_curves((UNIT, UNIT, UNIT), &unused(), &unused(), &unused());
    assert_eq!(same.data(), src.data());
}

#[test]
fn lookup_applies_per_channel() {
    let src = PixelBuffer::new(1, 2, vec![1, 2, 3, 4, 5, 6]).unwrap();
    let plus =
        |k: u8| LookupTable::new((0..=255u8).map(|i| i.saturating_add(k)).collect()).unwrap();
    let out = src.apply_lut(plus(10), plus(20), plus(30));
    assert_eq!(out.data(), &vec![11, 22, 33, 14, 25, 36]);
}

#[test]
fn histogram_counts_every_channel() {
    let data = vec![10, 0, 255, 10, 0, 255, 20, 1, 255, 200, 0, 254];
    let src = PixelBuffer::new(2, 2, data).unwrap();
    let h = src.calculate_histogram();
    assert_eq!(h.len(), 768);
    assert_eq!(h[10], 2);
    assert_eq!(h[20], 1);
    assert_eq!(h[200], 1);
    assert_eq!(h[256], 3);
    assert_eq!(h[256 + 1], 1);
    assert_eq!(h[512 + 255], 3);
    assert_eq!(h[512 + 254], 1);
    assert_eq!(h[..256].iter().sum::<u64>(), 4);
    assert_eq!(h[256..512].iter().sum::<u64>(), 4);
    assert_eq!(h[512..].iter().sum::<u64>(), 4);
    let empty = PixelBuffer::new(0, 0, vec![]).unwrap();
    assert_eq!(empty.calculate_histogram(), vec![0u64; 768]);
}

#[test]
fn equalization_table_follows_the_cumulative_share() {
    let mut hist = vec![0u64; 256];
    hist[10] = 2;
    hist[20] = 1;
    hist[200] = 1;
    let t = build_equalization_lut(&hist).unwrap();
    let got: Vec<u8> = [0u8, 9, 10, 19, 20, 199, 200, 255].iter().map(|&i| t.get(i)).collect();
    // Shares 0, 1/2, 3/4, 1 times 255: 0, 127.5 -> 128, 191.25 -> 191, 255.
    assert_eq!(got, vec![0, 0, 128, 128, 191, 191, 255, 255]);
}

#[test]
fn equalization_table_never_decreases() {
    let mut v = 3u64;
    for _ in 0..50 {
        let hist: Vec<u64> = (0..256)
            .map(|_| {
                v = v.wrapping_mul(6364136223846793005).wrapping_add(1442695040888963407);
                if v >> 60 < 6 { 0 } else { v >> 40 }
            })
            .collect();
        let t = build_equalization_lut(&hist).unwrap();
        for i in 1..=255u8 {
            assert!(t.get(i - 1) <= t.get(i));
        }
        assert_eq!(t.get(255), 255);
    }
}

#[test]
fn equalization_table_takes_the_largest_counts() {
    let t = build_equalization_lut(&vec![u64::MAX; 256]).unwrap();
    assert_eq!(t.get(0), 1);
    assert_eq!(t.get(127), 128);
    assert_eq!(t.get(255), 255);
}

#[test]
fn equalization_table_of_an_empty_histogram_is_zero() {
    let t = build_equalization_lut(&vec![0u64; 256]).unwrap();
    for i in 0..=255u8 {
        assert_eq!(t.get(i), 0);
    }
}

#[test]
fn equalization_table_needs_256_counts() {
    assert!(build_equalization_lut(&vec![1u64; 255]).is_none());
    assert!(build_equalization_lut(&vec![1u64; 768]).is_none());
    assert!(build_equalization_lut(&[]).is_none());
}

#[test]
fn equalization_spreads_each_channel() {
    let src = PixelBuffer::new(2, 2, vec![10, 5, 0, 10, 5, 0, 20, 5, 0, 200, 6, 0]).unwrap();
    let out = src.histogram_equalization();
    assert_eq!((out.width(), out.height()), (2, 2));
    // Red: 10 -> 128, 20 -> 191, 200 -> 255. Green: 5 -> 191, 6 -> 255. Blue: 0 -> 255.
    assert_eq!(out.data(), &vec![128, 191, 255, 128, 191, 255, 191, 191, 255, 255, 255, 255]);
}
