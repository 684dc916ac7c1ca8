//! Conversion between RGB bytes and hue, saturation and value, in exact
//! rational arithmetic.

use vstd::prelude::*;
use crate::fixed::lemma_floor_between;

verus! {

/// A fraction `num / den`.
#[derive(Clone, Copy, Debug, PartialEq, Eq, Structural)]
pub struct Ratio {
    pub num: i64,
    pub den: i64,
}

/// A colour as hue in degrees, saturation, and value in 255ths.
#[derive(Clone, Copy, Debug, PartialEq, Eq, Structural)]
pub struct Hsv {
    pub hue: Ratio,
    pub saturation: Ratio,
    pub value: u8,
}

/// Largest denominator of a hue.
pub const HUE_DEN_MAX: i64 = 0x100_0000_0000;

/// Largest denominator of a saturation.
pub const SATURATION_DEN_MAX: i64 = 0x1000_0000_0000_0000;

impl Hsv {
    /// The hue lies in `[0, 360)`, the saturation in `[0, 1]`, and both
    /// denominators are positive and small enough for the conversion to
    /// stay within 128 bits.
    pub open spec fn wf(self) -> bool {
        &&& 1 <= self.hue.den <= HUE_DEN_MAX
        &&& 0 <= self.hue.num < 360 * self.hue.den
        &&& 1 <= self.saturation.den <= SATURATION_DEN_MAX
        &&& 0 <= self.saturation.num <= self.saturation.den
    }
}

/// The largest of three integers.
pub open spec fn max3(a: int, b: int, c: int) -> int {
    if a >= b && a >= c {
        a
    } else if b >= c {
        b
    } else {
        c
    }
}

/// The smallest of three integers.
pub open spec fn min3(a: int, b: int, c: int) -> int {
    if a <= b && a <= c {
        a
    } else if b <= c {
        b
    } else {
        c
    }
}

/// The hue of an RGB colour, in degrees, as a fraction over the spread
/// `max - min` of its channels: zero for a grey, else the position on the
/// colour circle counted from the largest channel (red first, then green),
/// with a negative angle moved up by a full turn.
pub open spec fn hue_of(r: int, g: int, b: int) -> Ratio {
    let hi = max3(r, g, b);
    let spread = hi - min3(r, g, b);
    if spread == 0 {
        Ratio { num: 0, den: 1 }
    } else if hi == r {
        if g >= b {
            Ratio { num: (60 * (g - b)) as i64, den: spread as i64 }
        } else {
            Ratio { num: (60 * (g - b) + 360 * spread) as i64, den: spread as i64 }
        }
    } else if hi == g {
        Ratio { num: (60 * (b - r) + 120 * spread) as i64, den: spread as i64 }
    } else {
        Ratio { num: (60 * (r - g) + 240 * spread) as i64, den: spread as i64 }
    }
}

/// The saturation of an RGB colour: the spread of its channels over the
/// largest, or zero for black.
pub open spec fn saturation_of(r: int, g: int, b: int) -> Ratio {
    let hi = max3(r, g, b);
    if hi == 0 {
        Ratio { num: 0, den: 1 }
    } else {
        Ratio { num: (hi - min3(r, g, b)) as i64, den: hi as i64 }
    }
}

/// Hue, saturation and value of an RGB colour.
pub open spec fn hsv_of(r: u8, g: u8, b: u8) -> Hsv {
    Hsv {
        hue: hue_of(r as int, g as int, b as int),
        saturation: saturation_of(r as int, g as int, b as int),
        value: max3(r as int, g as int, b as int) as u8,
    }
}

/// The sixth of the colour circle that a hue falls in, `0` to `5`.
pub open spec fn sector(hue: Ratio) -> int {
    (hue.num as int) / (60 * hue.den)
}

/// Numerator, over `60 * hue.den`, of `1 - |(hue / 60 mod 2) - 1|`: the
/// share of the chroma that the middle channel receives.
pub open spec fn ramp(hue: Ratio) -> int {
    let half = 60 * hue.den;
    let phase = (hue.num as int) % (2 * half);
    if phase <= half {
        phase
    } else {
        2 * half - phase
    }
}

/// The smallest output channel, `255 * (v - c)` with chroma `c = v * s`,
/// rounded down.
pub open spec fn low_channel(c: Hsv) -> int {
    (c.value * (c.saturation.den - c.saturation.num)) / (c.saturation.den as int)
}

/// The middle output channel, `255 * (v - c + x)` with
/// `x = c * (1 - |(h / 60 mod 2) - 1|)`, rounded down.
pub open spec fn mid_channel(c: Hsv) -> int {
    let half = 60 * c.hue.den;
    (c.value * ((c.saturation.den - c.saturation.num) * half + c.saturation.num * ramp(c.hue)))
        / (c.saturation.den * half)
}

/// The RGB bytes of a colour given by hue, saturation and value: the
/// largest channel is the value, and the sector of the hue says which
/// channels are largest, middle and smallest.
pub open spec fn rgb_of(c: Hsv) -> (u8, u8, u8) {
    let top = c.value;
    let mid = mid_channel(c) as u8;
    let low = low_channel(c) as u8;
    let k = sector(c.hue);
    if k == 0 {
        (top, mid, low)
    } else if k == 1 {
        (mid, top, low)
    } else if k == 2 {
        (low, top, mid)
    } else if k == 3 {
        (low, mid, top)
    } else if k == 4 {
        (mid, low, top)
    } else {
        (top, low, mid)
    }
}

/// Hue, saturation and value of an RGB colour.
pub fn rgb_to_hsv(r: u8, g: u8, b: u8) -> (c: Hsv)
    ensures
        c == hsv_of(r, g, b),
        c.wf(),
        c.hue.den <= 255,
        c.saturation.den <= 255,
{
    let hi: u8 = if r >= g && r >= b {
        r
    } else if g >= b {
        g
    } else {
        b
    };
    let lo: u8 = if r <= g && r <= b {
        r
    } else if g <= b {
        g
    } else {
        b
    };
    let spread: i64 = (hi - lo) as i64;
    let hue = if spread == 0 {
        Ratio { num: 0, den: 1 }
    } else if hi == r {
        if g >= b {
            Ratio { num: 60 * (g as i64 - b as i64), den: spread }
        } else {
            Ratio { num: 60 * (g as i64 - b as i64) + 360 * spread, den: spread }
        }
    } else if hi == g {
        Ratio { num: 60 * (b as i64 - r as i64) + 120 * spread, den: spread }
    } else {
        Ratio { num: 60 * (r as i64 - g as i64) + 240 * spread, den: spread }
    };
    let saturation = if hi == 0 {
        Ratio { num: 0, den: 1 }
    } else {
        Ratio { num: spread, den: hi as i64 }
    };
    Hsv { hue, saturation, value: hi }
}

/// The RGB bytes of a colour given by hue, saturation and value.
pub fn hsv_to_rgb(c: &Hsv) -> (rgb: (u8, u8, u8))
    requires
        c.wf(),
    ensures
        rgb == rgb_of(*c),
        rgb.0 <= c.value,
        rgb.1 <= c.value,
        rgb.2 <= c.value,
{
    let hd: u128 = c.hue.den as u128;
    let hn: u128 = c.hue.num as u128;
    let sd: u128 = c.saturation.den as u128;
    let sn: u128 = c.saturation.num as u128;
    let v: u128 = c.value as u128;
    let half: u128 = 60 * hd;
    let k: u128 = hn / half;
    let phase: u128 = hn % (2 * half);
    let share: u128 = if phase <= half {
        phase
    } else {
        2 * half - phase
    };
    assert(share == ramp(c.hue));
    assert(k == sector(c.hue));
    assert(k < 6) by (nonlinear_arith)
        requires
            k == hn / half,
            hn < 6 * half,
            half > 0,
    ;
    let rest: u128 = sd - sn;
    assert(v * rest <= 255 * sd) by (nonlinear_arith)
        requires
            v <= 255,
            0 <= rest <= sd,
    ;
    let low: u128 = v * rest / sd;
    assert(low <= v) by (nonlinear_arith)
        requires
            low == (v * rest) / (sd as int),
            0 <= rest <= sd,
            sd > 0,
            v >= 0,
    ;
    assert(sd * half <= 0x1000_0000_0000_0000 * (60 * 0x100_0000_0000)) by (nonlinear_arith)
        requires
            0 < sd <= 0x1000_0000_0000_0000,
            0 < half <= 60 * 0x100_0000_0000,
    ;
    assert(rest * half + sn * share <= sd * half && 0 <= rest * half && rest * half <= sd * half
        && 0 <= sn * share && sn * share <= sd * half) by (nonlinear_arith)
        requires
            0 <= rest,
            rest + sn == sd,
            0 <= sn,
            0 <= share <= half,
    ;
    let weight: u128 = rest * half + sn * share;
    let whole: u128 = sd * half;
    assert(v * weight <= 255 * whole) by (nonlinear_arith)
        requires
            v <= 255,
            0 <= weight <= whole,
    ;
    assert(whole > 0) by (nonlinear_arith)
        requires
            whole == sd * half,
            sd > 0,
            half > 0,
    ;
    let mid: u128 = v * weight / whole;
    assert(mid <= v) by (nonlinear_arith)
        requires
            mid == (v * weight) / (whole as int),
            0 <= weight <= whole,
            whole > 0,
            v >= 0,
    ;
    assert(mid == mid_channel(*c));
    assert(low == low_channel(*c));
    let top: u8 = c.value;
    let mid: u8 = mid as u8;
    let low: u8 = low as u8;
    if k == 0 {
        (top, mid, low)
    } else if k == 1 {
        (mid, top, low)
    } else if k == 2 {
        (low, top, mid)
    } else if k == 3 {
        (low, mid, top)
    } else if k == 4 {
        (mid, low, top)
    } else {
        (top, low, mid)
    }
}

/// For the colour `c` made of a pixel whose smallest channel is `lo`: where
/// the hue ramp is `60 * step`, the middle channel is `lo + step`, and the
/// smallest channel is `lo`. A grey or black pixel has a saturation of zero
/// and no step.
proof fn lemma_mid_channel(c: Hsv, lo: int, step: int)
    requires
        c.hue.den >= 1,
        c.saturation.den >= 1,
        c.saturation.num == c.hue.den || (c.saturation.num == 0 && step == 0),
        c.value == c.saturation.den || (c.saturation.num == 0 && c.value == 0 && lo == 0),
        lo == c.saturation.den - c.saturation.num || (c.value == 0 && lo == 0),
        ramp(c.hue) == 60 * step,
    ensures
        mid_channel(c) == lo + step,
        low_channel(c) == lo,
{
    let sd = c.saturation.den as int;
    let sn = c.saturation.num as int;
    let half = 60 * c.hue.den;
    let v = c.value as int;
    let whole = sd * half;
    assert(whole > 0) by (nonlinear_arith)
        requires
            whole == sd * half,
            sd > 0,
            half > 0,
    ;
    assert(v * ((sd - sn) * half + sn * ramp(c.hue)) == (lo + step) * whole) by (nonlinear_arith)
        requires
            whole == sd * half,
            half == 60 * c.hue.den,
            sn == c.hue.den || (sn == 0 && step == 0),
            v == sd || (sn == 0 && v == 0 && lo == 0),
            lo == sd - sn || (v == 0 && lo == 0),
            ramp(c.hue) == 60 * step,
    ;
    assert((lo + step + 1) * whole == (lo + step) * whole + whole) by (nonlinear_arith);
    lemma_floor_between(v * ((sd - sn) * half + sn * ramp(c.hue)), whole, lo + step);
    assert(v * (sd - sn) == lo * sd) by (nonlinear_arith)
        requires
            v == sd || (sn == 0 && v == 0 && lo == 0),
            lo == sd - sn || (v == 0 && lo == 0),
    ;
    assert((lo + 1) * sd == lo * sd + sd) by (nonlinear_arith);
    lemma_floor_between(v * (sd - sn), sd, lo);
}

/// Converting an RGB colour to hue, saturation and value and back gives
/// the colour again, exactly.
pub proof fn lemma_hsv_round_trip(r: u8, g: u8, b: u8)
    ensures
        hsv_of(r, g, b).wf(),
        rgb_of(hsv_of(r, g, b)) == (r, g, b),
{
    let c = hsv_of(r, g, b);
    let hi = max3(r as int, g as int, b as int);
    let lo = min3(r as int, g as int, b as int);
    let spread = hi - lo;
    let half = 60 * c.hue.den;
    let hn = c.hue.num as int;
    if spread == 0 {
        lemma_floor_between(hn, half, 0);
        lemma_floor_between(hn, 2 * half, 0);
        lemma_mid_channel(c, lo, 0);
    } else if hi == r {
        if g >= b {
            if g == r {
                lemma_floor_between(hn, half, 1);
                lemma_floor_between(hn, 2 * half, 0);
                lemma_mid_channel(c, lo, spread);
            } else {
                lemma_floor_between(hn, half, 0);
                lemma_floor_between(hn, 2 * half, 0);
                lemma_mid_channel(c, lo, g - b);
            }
        } else {
            lemma_floor_between(hn, half, 5);
            lemma_floor_between(hn, 2 * half, 2);
            lemma_mid_channel(c, lo, b - g);
        }
    } else if hi == g {
        if b < r {
            lemma_floor_between(hn, half, 1);
            lemma_floor_between(hn, 2 * half, 0);
            lemma_mid_channel(c, lo, r - b);
        } else if b - r < spread {
            lemma_floor_between(hn, half, 2);
            lemma_floor_between(hn, 2 * half, 1);
            lemma_mid_channel(c, lo, b - r);
        } else {
            lemma_floor_between(hn, half, 3);
            lemma_floor_between(hn, 2 * half, 1);
            lemma_mid_channel(c, lo, spread);
        }
    } else {
        if r < g {
            lemma_floor_between(hn, half, 3);
            lemma_floor_between(hn, 2 * half, 1);
            lemma_mid_channel(c, lo, g - r);
        } else {
            lemma_floor_between(hn, half, 4);
            lemma_floor_between(hn, 2 * half, 2);
            lemma_mid_channel(c, lo, r - g);
        }
    }
}

/// Products regrouped: `v * (a * (k * h) + b * (k * r))` is `k` times
/// `v * (a * h + b * r)`.
proof fn lemma_regroup(v: int, a: int, b: int, h: int, r: int, k: int)
    ensures
        v * (a * (k * h) + b * (k * r)) == k * (v * (a * h + b * r)),
        v * ((a * k) * h + (b * k) * r) == k * (v * (a * h + b * r)),
{
    let x = a * h;
    let y = b * r;
    assert(a * (k * h) == k * x) by (nonlinear_arith)
        requires
            x == a * h,
    ;
    assert(b * (k * r) == k * y) by (nonlinear_arith)
        requires
            y == b * r,
    ;
    assert((a * k) * h == k * x) by (nonlinear_arith)
        requires
            x == a * h,
    ;
    assert((b * k) * r == k * y) by (nonlinear_arith)
        requires
            y == b * r,
    ;
    assert(k * x + k * y == k * (x + y)) by (nonlinear_arith);
    let z = x + y;
    assert(v * (k * z) == k * (v * z)) by (nonlinear_arith);
}

/// The colour does not depend on how the fraction of the hue is written:
/// numerator and denominator times the same positive number give the same
/// bytes.
pub proof fn lemma_hue_scaling(c: Hsv, k: int)
    requires
        k > 0,
        c.hue.den >= 1,
        c.hue.num >= 0,
        c.hue.num * k <= i64::MAX,
        c.hue.den * k <= i64::MAX,
        c.saturation.den >= 1,
        0 <= c.saturation.num <= c.saturation.den,
    ensures
        rgb_of(
            Hsv {
                hue: Ratio { num: (c.hue.num * k) as i64, den: (c.hue.den * k) as i64 },
                saturation: c.saturation,
                value: c.value,
            },
        ) == rgb_of(c),
{
    let hn = c.hue.num as int;
    let hd = c.hue.den as int;
    let sn = c.saturation.num as int;
    let sd = c.saturation.den as int;
    let v = c.value as int;
    let half = 60 * hd;
    let d = Hsv {
        hue: Ratio { num: (hn * k) as i64, den: (hd * k) as i64 },
        saturation: c.saturation,
        value: c.value,
    };
    assert(hn * k >= 0 && hd * k >= 1) by (nonlinear_arith)
        requires
            hn >= 0,
            hd >= 1,
            k > 0,
    ;
    assert(d.hue.num == hn * k && d.hue.den == hd * k);
    assert(hn * k == k * hn && 60 * (hd * k) == k * half && 2 * (60 * (hd * k)) == k * (2 * half))
        by (nonlinear_arith)
        requires
            half == 60 * hd,
    ;
    vstd::arithmetic::div_mod::lemma_div_multiples_vanish_quotient(k, hn, half);
    assert(sector(d.hue) == sector(c.hue));
    vstd::arithmetic::div_mod::lemma_truncate_middle(hn, k, 2 * half);
    let phase = hn % (2 * half);
    assert((hn * k) % (2 * (60 * (hd * k))) == k * phase);
    assert(ramp(d.hue) == k * ramp(c.hue)) by {
        assert(k * phase <= k * half <==> phase <= half) by (nonlinear_arith)
            requires
                k > 0,
        ;
        assert(2 * (k * half) - k * phase == k * (2 * half - phase)) by (nonlinear_arith);
    }
    let weight = (sd - sn) * half + sn * ramp(c.hue);
    assert(0 <= ramp(c.hue) <= half) by {
        crate::fixed::lemma_floor_bounds(hn, 2 * half);
    }
    assert(v * weight >= 0 && sd * half > 0) by (nonlinear_arith)
        requires
            v >= 0,
            weight == (sd - sn) * half + sn * ramp(c.hue),
            0 <= sn <= sd,
            sd >= 1,
            half > 0,
            0 <= ramp(c.hue),
    ;
    lemma_regroup(v, sd - sn, sn, half, ramp(c.hue), k);
    assert(sd * (k * half) == k * (sd * half)) by (nonlinear_arith);
    vstd::arithmetic::div_mod::lemma_div_multiples_vanish_quotient(k, v * weight, sd * half);
    assert(mid_channel(d) == mid_channel(c));
    assert(low_channel(d) == low_channel(c));
}

/// The colour does not depend on how the fraction of the saturation is
/// written.
pub proof fn lemma_saturation_scaling(c: Hsv, k: int)
    requires
        k > 0,
        c.hue.den >= 1,
        c.hue.num >= 0,
        c.saturation.den >= 1,
        0 <= c.saturation.num <= c.saturation.den,
        c.saturation.den * k <= i64::MAX,
    ensures
        rgb_of(
            Hsv {
                hue: c.hue,
                saturation: Ratio {
                    num: (c.saturation.num * k) as i64,
                    den: (c.saturation.den * k) as i64,
                },
                value: c.value,
            },
        ) == rgb_of(c),
{
    let hn = c.hue.num as int;
    let hd = c.hue.den as int;
    let sn = c.saturation.num as int;
    let sd = c.saturation.den as int;
    let v = c.value as int;
    let half = 60 * hd;
    let share = ramp(c.hue);
    assert(0 <= sn * k <= sd * k && sd * k >= 1) by (nonlinear_arith)
        requires
            0 <= sn <= sd,
            sd >= 1,
            k > 0,
    ;
    let d = Hsv {
        hue: c.hue,
        saturation: Ratio { num: (sn * k) as i64, den: (sd * k) as i64 },
        value: c.value,
    };
    assert(d.saturation.num == sn * k && d.saturation.den == sd * k);
    assert(0 <= share <= half) by {
        crate::fixed::lemma_floor_bounds(hn, 2 * half);
    }
    let weight = (sd - sn) * half + sn * share;
    assert(v * weight >= 0 && sd * half > 0 && v * (sd - sn) >= 0) by (nonlinear_arith)
        requires
            v >= 0,
            weight == (sd - sn) * half + sn * share,
            0 <= sn <= sd,
            sd >= 1,
            half > 0,
            0 <= share,
    ;
    lemma_regroup(v, sd - sn, sn, half, share, k);
    assert(sd * k - sn * k == (sd - sn) * k) by (nonlinear_arith);
    assert((sd * k) * half == k * (sd * half)) by (nonlinear_arith);
    assert(v * ((sd - sn) * k) == k * (v * (sd - sn))) by (nonlinear_arith);
    assert(sd * k == k * sd) by (nonlinear_arith);
    vstd::arithmetic::div_mod::lemma_div_multiples_vanish_quotient(k, v * weight, sd * half);
    vstd::arithmetic::div_mod::lemma_div_multiples_vanish_quotient(k, v * (sd - sn), sd);
    assert(mid_channel(d) == mid_channel(c));
    assert(low_channel(d) == low_channel(c));
}

} // verus!
