//! Tonal adjustments: each sets every pixel from the pixel that stood at its
//! place, by an exact formula.

use vstd::prelude::*;
use crate::buffer::{lemma_map_pixels_identity, lemma_whole_pixels, PixelBuffer, Raster};
use crate::color::{
    hsv_of, hsv_to_rgb, hue_of, lemma_hsv_round_trip, lemma_hue_scaling, lemma_saturation_scaling,
    max3, min3, rgb_of, rgb_to_hsv, Hsv, Ratio,
};
use crate::fixed::{
    byte_floor, clamp_int, floor_sqrt, isqrt, lemma_byte_floor_exact, product, rem_euclid,
    small_product, to_byte, PERCENT, UNIT,
};
use crate::lut::LookupTable;

verus! {

/// Denominator of a luminance mask times a percentage: `76500 * PERCENT`.
pub const MASK_SCALE: i128 = 7_650_000_000_000;

/// Weighted channel sum whose 255000th part is the luminance
/// `0.299 r + 0.587 g + 0.114 b` of a pixel, on the scale where white is one.
pub open spec fn luminance_weight(r: int, g: int, b: int) -> int {
    299 * r + 587 * g + 114 * b
}

/// A pixel after a white balance of `value` percent (in millionths): a
/// positive value warms it by adding `50`, `20` and `-40` times the hundredth
/// of `value` to red, green and blue; any other value cools it by adding
/// `40`, `10` and `-50` times that (negative) hundredth. Each channel is
/// limited to a byte and rounded down.
pub open spec fn white_balanced(r: u8, g: u8, b: u8, value: int) -> (u8, u8, u8) {
    if value > 0 {
        (
            byte_floor(r * PERCENT + 50 * value, PERCENT as int),
            byte_floor(g * PERCENT + 20 * value, PERCENT as int),
            byte_floor(b * PERCENT - 40 * value, PERCENT as int),
        )
    } else {
        (
            byte_floor(r * PERCENT + 40 * value, PERCENT as int),
            byte_floor(g * PERCENT + 10 * value, PERCENT as int),
            byte_floor(b * PERCENT - 50 * value, PERCENT as int),
        )
    }
}

/// A hue moved on by `shift` degrees (in millionths) around the colour
/// circle.
pub open spec fn hue_shifted(hue: Ratio, shift: int) -> Ratio {
    Ratio {
        num: ((hue.num * UNIT + shift * hue.den) % (360 * UNIT * hue.den)) as i64,
        den: (hue.den * UNIT) as i64,
    }
}

/// A pixel after its hue is moved on by `shift` degrees (in millionths);
/// saturation and value stay.
pub open spec fn hue_rotated(r: u8, g: u8, b: u8, shift: int) -> (u8, u8, u8) {
    let c = hsv_of(r, g, b);
    rgb_of(Hsv { hue: hue_shifted(c.hue, shift), saturation: c.saturation, value: c.value })
}

/// A pixel after each channel is multiplied by `gain` (in millionths),
/// limited to a byte and rounded down.
pub open spec fn exposed(r: u8, g: u8, b: u8, gain: int) -> (u8, u8, u8) {
    (
        byte_floor(r * gain, UNIT as int),
        byte_floor(g * gain, UNIT as int),
        byte_floor(b * gain, UNIT as int),
    )
}

/// The saturation that vibrance gives a pixel. With `s` the saturation of
/// the pixel and `f` the hundredth of `amount`, it is
/// `s + f * guard * (1 - root) * (1 - s)`, limited to `[0, 1]`, where `guard`
/// is `0.3` for a pixel whose red channel is strictly the largest and `1`
/// otherwise, and `root` is the square root of `s` to six decimal places,
/// rounded down.
pub open spec fn vibrance_saturation(r: int, g: int, b: int, amount: int) -> Ratio {
    let hi = max3(r, g, b);
    let lo = min3(r, g, b);
    let guard = if r > g && r > b {
        3int
    } else {
        10int
    };
    let root = floor_sqrt(((hi - lo) * 1_000_000_000_000) / hi);
    let den = hi * 1_000_000_000_000_000;
    let num = (hi - lo) * 1_000_000_000_000_000 + guard * ((1_000_000 - root) * lo) * amount;
    Ratio { num: clamp_int(num, 0, den) as i64, den: den as i64 }
}

/// A pixel after a vibrance of `amount` percent (in millionths): a pixel
/// whose channels spread over more than a hundredth of the full range gets
/// the saturation `vibrance_saturation`, with hue and value kept; any other
/// pixel stays.
pub open spec fn vibrant(r: u8, g: u8, b: u8, amount: int) -> (u8, u8, u8) {
    if max3(r as int, g as int, b as int) - min3(r as int, g as int, b as int) >= 3 {
        rgb_of(
            Hsv {
                hue: hue_of(r as int, g as int, b as int),
                saturation: vibrance_saturation(r as int, g as int, b as int, amount),
                value: max3(r as int, g as int, b as int) as u8,
            },
        )
    } else {
        (r, g, b)
    }
}

/// One channel of a highlight adjustment: `c + f * mask * (255 - c)` with
/// `f` the hundredth of `amount` and `mask = (weight - 178500) / 76500`,
/// limited to a byte and rounded down.
pub open spec fn highlight_channel(c: u8, weight: int, amount: int) -> u8 {
    byte_floor(c * MASK_SCALE + (weight - 178500) * (255 - c) * amount, MASK_SCALE as int)
}

/// A pixel after a highlight adjustment of `amount` percent (in
/// millionths): a pixel of luminance above `0.7` has each channel moved
/// towards white in proportion to how far its luminance exceeds `0.7`; any
/// other pixel stays.
pub open spec fn highlighted(r: u8, g: u8, b: u8, amount: int) -> (u8, u8, u8) {
    let weight = luminance_weight(r as int, g as int, b as int);
    if weight > 178500 {
        (
            highlight_channel(r, weight, amount),
            highlight_channel(g, weight, amount),
            highlight_channel(b, weight, amount),
        )
    } else {
        (r, g, b)
    }
}

/// One channel of a shadow adjustment: `c + f * mask * c` with `f` the
/// hundredth of `amount` and `mask = (76500 - weight) / 76500`, limited to a
/// byte and rounded down.
pub open spec fn shadow_channel(c: u8, weight: int, amount: int) -> u8 {
    byte_floor(c * MASK_SCALE + (76500 - weight) * c * amount, MASK_SCALE as int)
}

/// A pixel after a shadow adjustment of `amount` percent (in millionths): a
/// pixel of luminance below `0.3` has each channel scaled in proportion to
/// how far its luminance falls short of `0.3`; any other pixel stays.
pub open spec fn shadowed(r: u8, g: u8, b: u8, amount: int) -> (u8, u8, u8) {
    let weight = luminance_weight(r as int, g as int, b as int);
    if weight < 76500 {
        (
            shadow_channel(r, weight, amount),
            shadow_channel(g, weight, amount),
            shadow_channel(b, weight, amount),
        )
    } else {
        (r, g, b)
    }
}

/// A pixel in sepia: each channel a fixed mix of the three, capped at 255
/// and rounded down.
pub open spec fn sepia_toned(r: u8, g: u8, b: u8) -> (u8, u8, u8) {
    (
        byte_floor(393 * r + 769 * g + 189 * b, 1000),
        byte_floor(349 * r + 686 * g + 168 * b, 1000),
        byte_floor(272 * r + 534 * g + 131 * b, 1000),
    )
}

/// A pixel with each channel looked up in its own table.
pub open spec fn looked_up(r: u8, g: u8, b: u8, red: Seq<u8>, green: Seq<u8>, blue: Seq<u8>) -> (
    u8,
    u8,
    u8,
) {
    (red[r as int], green[g as int], blue[b as int])
}

/// An operation that sets each pixel from the pixel at its place.
pub enum PointOp {
    /// White balance by a percentage in millionths.
    WhiteBalance { value: i64 },
    /// Hue rotation by degrees in millionths.
    HueRotate { shift: i64 },
    /// Multiplication of every channel by a gain in millionths.
    Exposure { gain: i64 },
    /// Vibrance by a percentage in millionths.
    Vibrance { amount: i64 },
    /// Highlight adjustment by a percentage in millionths.
    Highlights { amount: i64 },
    /// Shadow adjustment by a percentage in millionths.
    Shadows { amount: i64 },
    /// Sepia toning.
    Sepia,
    /// A lookup table for each channel.
    Lookup { red: LookupTable, green: LookupTable, blue: LookupTable },
}

impl PointOp {
    /// What the operation makes of the pixel `(r, g, b)`.
    pub open spec fn apply(self, r: u8, g: u8, b: u8) -> (u8, u8, u8) {
        match self {
            PointOp::WhiteBalance { value } => white_balanced(r, g, b, value as int),
            PointOp::HueRotate { shift } => hue_rotated(r, g, b, shift as int),
            PointOp::Exposure { gain } => exposed(r, g, b, gain as int),
            PointOp::Vibrance { amount } => vibrant(r, g, b, amount as int),
            PointOp::Highlights { amount } => highlighted(r, g, b, amount as int),
            PointOp::Shadows { amount } => shadowed(r, g, b, amount as int),
            PointOp::Sepia => sepia_toned(r, g, b),
            PointOp::Lookup { red, green, blue } => looked_up(r, g, b, red@, green@, blue@),
        }
    }

    /// The image that the operation makes of `src`.
    pub open spec fn image(self, src: Raster) -> Raster {
        src.map_pixels(|r: u8, g: u8, b: u8| self.apply(r, g, b))
    }
}

/// White balance of one pixel.
pub fn white_balance_pixel(r: u8, g: u8, b: u8, value: i64) -> (p: (u8, u8, u8))
    ensures
        p == white_balanced(r, g, b, value as int),
{
    let scale: i128 = PERCENT as i128;
    let v: i128 = value as i128;
    if value > 0 {
        (
            to_byte(r as i128 * scale + 50 * v, scale),
            to_byte(g as i128 * scale + 20 * v, scale),
            to_byte(b as i128 * scale - 40 * v, scale),
        )
    } else {
        (
            to_byte(r as i128 * scale + 40 * v, scale),
            to_byte(g as i128 * scale + 10 * v, scale),
            to_byte(b as i128 * scale - 50 * v, scale),
        )
    }
}

/// Exposure of one pixel.
pub fn exposure_pixel(r: u8, g: u8, b: u8, gain: i64) -> (p: (u8, u8, u8))
    ensures
        p == exposed(r, g, b, gain as int),
{
    let scale: i128 = UNIT as i128;
    let k: i128 = gain as i128;
    (
        to_byte(product(r as i128, k), scale),
        to_byte(product(g as i128, k), scale),
        to_byte(product(b as i128, k), scale),
    )
}

/// Sepia toning of one pixel.
pub fn sepia_pixel(r: u8, g: u8, b: u8) -> (p: (u8, u8, u8))
    ensures
        p == sepia_toned(r, g, b),
{
    let r: i128 = r as i128;
    let g: i128 = g as i128;
    let b: i128 = b as i128;
    (
        to_byte(393 * r + 769 * g + 189 * b, 1000),
        to_byte(349 * r + 686 * g + 168 * b, 1000),
        to_byte(272 * r + 534 * g + 131 * b, 1000),
    )
}

/// Hue rotation of one pixel.
pub fn hue_rotate_pixel(r: u8, g: u8, b: u8, shift: i64) -> (p: (u8, u8, u8))
    ensures
        p == hue_rotated(r, g, b, shift as int),
{
    let c = rgb_to_hsv(r, g, b);
    let hd: i128 = c.hue.den as i128;
    let den: i128 = hd * (UNIT as i128);
    let full: i128 = 360 * den;
    let turned: i128 = (c.hue.num as i128) * (UNIT as i128) + product(hd, shift as i128);
    assert(turned == c.hue.num * UNIT + shift * c.hue.den) by (nonlinear_arith)
        requires
            turned == c.hue.num * UNIT + c.hue.den * shift,
    ;
    assert(full == 360 * UNIT * c.hue.den) by (nonlinear_arith)
        requires
            full == 360 * (c.hue.den * UNIT),
    ;
    let num: i128 = rem_euclid(turned, full);
    let hue = Ratio { num: num as i64, den: den as i64 };
    hsv_to_rgb(&Hsv { hue, saturation: c.saturation, value: c.value })
}

/// Vibrance of one pixel.
pub fn vibrance_pixel(r: u8, g: u8, b: u8, amount: i64) -> (p: (u8, u8, u8))
    ensures
        p == vibrant(r, g, b, amount as int),
{
    let c = rgb_to_hsv(r, g, b);
    let hi: u8 = c.value;
    let spread: u8 = if c.saturation.num <= 255 && hi > 0 {
        c.saturation.num as u8
    } else {
        0
    };
    if spread < 3 {
        return (r, g, b);
    }
    let lo: u8 = hi - spread;
    let guard: i128 = if r > g && r > b {
        3
    } else {
        10
    };
    let scaled: u64 = (spread as u64 * 1_000_000_000_000) / (hi as u64);
    proof {
        crate::fixed::lemma_floor_bounds(spread * 1_000_000_000_000, hi as int);
        assert(scaled <= 1_000_000_000_000) by (nonlinear_arith)
            requires
                scaled * hi <= spread * 1_000_000_000_000,
                0 <= spread <= hi,
                hi > 0,
                scaled >= 0,
        ;
    }
    let root: u32 = isqrt(scaled);
    assert(root <= 1_000_000) by (nonlinear_arith)
        requires
            root * root <= scaled,
            scaled <= 1_000_000_000_000,
            root >= 0,
    ;
    let den: i128 = hi as i128 * 1_000_000_000_000_000;
    let rest: i128 = small_product(1_000_000 - root as i128, lo as i128);
    assert(rest <= 1_000_000 * 255) by (nonlinear_arith)
        requires
            rest == (1_000_000 - root) * lo,
            0 <= root <= 1_000_000,
            0 <= lo <= 255,
    ;
    let weight: i128 = guard * rest;
    let num: i128 = spread as i128 * 1_000_000_000_000_000 + product(weight, amount as i128);
    let limited: i128 = if num < 0 {
        0
    } else if num > den {
        den
    } else {
        num
    };
    let saturation = Ratio { num: limited as i64, den: den as i64 };
    assert(saturation == vibrance_saturation(r as int, g as int, b as int, amount as int));
    hsv_to_rgb(&Hsv { hue: c.hue, saturation, value: hi })
}

/// Highlight adjustment of one pixel.
pub fn highlights_pixel(r: u8, g: u8, b: u8, amount: i64) -> (p: (u8, u8, u8))
    ensures
        p == highlighted(r, g, b, amount as int),
{
    let weight: i128 = 299 * (r as i128) + 587 * (g as i128) + 114 * (b as i128);
    if weight > 178500 {
        let scale: i128 = MASK_SCALE;
        let over: i128 = weight - 178500;
        let a: i128 = amount as i128;
        (
            to_byte(r as i128 * scale + product(small_product(over, 255 - r as i128), a), scale),
            to_byte(g as i128 * scale + product(small_product(over, 255 - g as i128), a), scale),
            to_byte(b as i128 * scale + product(small_product(over, 255 - b as i128), a), scale),
        )
    } else {
        (r, g, b)
    }
}

/// Shadow adjustment of one pixel.
pub fn shadows_pixel(r: u8, g: u8, b: u8, amount: i64) -> (p: (u8, u8, u8))
    ensures
        p == shadowed(r, g, b, amount as int),
{
    let weight: i128 = 299 * (r as i128) + 587 * (g as i128) + 114 * (b as i128);
    if weight < 76500 {
        let scale: i128 = MASK_SCALE;
        let under: i128 = 76500 - weight;
        let a: i128 = amount as i128;
        (
            to_byte(r as i128 * scale + product(small_product(under, r as i128), a), scale),
            to_byte(g as i128 * scale + product(small_product(under, g as i128), a), scale),
            to_byte(b as i128 * scale + product(small_product(under, b as i128), a), scale),
        )
    } else {
        (r, g, b)
    }
}

impl PointOp {
    /// Applies the operation to one pixel.
    pub fn apply_to(&self, r: u8, g: u8, b: u8) -> (p: (u8, u8, u8))
        ensures
            p == self.apply(r, g, b),
    {
        match self {
            PointOp::WhiteBalance { value } => white_balance_pixel(r, g, b, *value),
            PointOp::HueRotate { shift } => hue_rotate_pixel(r, g, b, *shift),
            PointOp::Exposure { gain } => exposure_pixel(r, g, b, *gain),
            PointOp::Vibrance { amount } => vibrance_pixel(r, g, b, *amount),
            PointOp::Highlights { amount } => highlights_pixel(r, g, b, *amount),
            PointOp::Shadows { amount } => shadows_pixel(r, g, b, *amount),
            PointOp::Sepia => sepia_pixel(r, g, b),
            PointOp::Lookup { red, green, blue } => (red.get(r), green.get(g), blue.get(b)),
        }
    }

    /// Applies the operation to every pixel of an image.
    pub fn run(&self, image: &PixelBuffer) -> (out: PixelBuffer)
        ensures
            out@ == self.image(image@),
            out@.wf(),
            out@.same_shape(image@),
    {
        let width = image.width();
        let height = image.height();
        let src = image.data();
        let n = src.len();
        let ghost want = self.image(image@);
        assert(3 * width * height == 3 * (width * height)) by (nonlinear_arith);
        let mut data: Vec<u8> = Vec::with_capacity(n);
        let mut i: usize = 0;
        while i < n
            invariant
                n == src@.len(),
                n % 3 == 0,
                i % 3 == 0,
                i <= n,
                src@ == image@.data,
                want == self.image(image@),
                data@.len() == i,
                forall|j: int| 0 <= j < i ==> data@[j] == want.data[j],
            decreases n - i,
        {
            let p = self.apply_to(src[i], src[i + 1], src[i + 2]);
            data.push(p.0);
            data.push(p.1);
            data.push(p.2);
            i += 3;
        }
        assert(data@ =~= want.data);
        PixelBuffer::assemble(width, height, data)
    }
}

impl PixelBuffer {
    /// White balance of `value` percent (in millionths): positive warms,
    /// negative cools.
    pub fn adjust_white_balance(&self, value: i64) -> (out: PixelBuffer)
        ensures
            out@ == self@.map_pixels(|r: u8, g: u8, b: u8| white_balanced(r, g, b, value as int)),
            out@.wf(),
            out@.same_shape(self@),
    {
        let out = (PointOp::WhiteBalance { value }).run(self);
        assert(out@.data =~= self@.map_pixels(
            |r: u8, g: u8, b: u8| white_balanced(r, g, b, value as int),
        ).data);
        out
    }

    /// Hue rotation by `shift` degrees (in millionths).
    pub fn adjust_hue(&self, shift: i64) -> (out: PixelBuffer)
        ensures
            out@ == self@.map_pixels(|r: u8, g: u8, b: u8| hue_rotated(r, g, b, shift as int)),
            out@.wf(),
            out@.same_shape(self@),
    {
        let out = (PointOp::HueRotate { shift }).run(self);
        assert(out@.data =~= self@.map_pixels(
            |r: u8, g: u8, b: u8| hue_rotated(r, g, b, shift as int),
        ).data);
        out
    }

    /// Exposure: every channel times `gain` (in millionths), which for an
    /// exposure of `n` stops is two to the power `n`.
    pub fn adjust_exposure(&self, gain: i64) -> (out: PixelBuffer)
        ensures
            out@ == self@.map_pixels(|r: u8, g: u8, b: u8| exposed(r, g, b, gain as int)),
            out@.wf(),
            out@.same_shape(self@),
    {
        let out = (PointOp::Exposure { gain }).run(self);
        assert(out@.data =~= self@.map_pixels(
            |r: u8, g: u8, b: u8| exposed(r, g, b, gain as int),
        ).data);
        out
    }

    /// Vibrance of `amount` percent (in millionths).
    pub fn adjust_vibrance(&self, amount: i64) -> (out: PixelBuffer)
        ensures
            out@ == self@.map_pixels(|r: u8, g: u8, b: u8| vibrant(r, g, b, amount as int)),
            out@.wf(),
            out@.same_shape(self@),
    {
        let out = (PointOp::Vibrance { amount }).run(self);
        assert(out@.data =~= self@.map_pixels(
            |r: u8, g: u8, b: u8| vibrant(r, g, b, amount as int),
        ).data);
        out
    }

    /// Highlight adjustment of `amount` percent (in millionths).
    pub fn adjust_highlights(&self, amount: i64) -> (out: PixelBuffer)
        ensures
            out@ == self@.map_pixels(|r: u8, g: u8, b: u8| highlighted(r, g, b, amount as int)),
            out@.wf(),
            out@.same_shape(self@),
    {
        let out = (PointOp::Highlights { amount }).run(self);
        assert(out@.data =~= self@.map_pixels(
            |r: u8, g: u8, b: u8| highlighted(r, g, b, amount as int),
        ).data);
        out
    }

    /// Shadow adjustment of `amount` percent (in millionths).
    pub fn adjust_shadows(&self, amount: i64) -> (out: PixelBuffer)
        ensures
            out@ == self@.map_pixels(|r: u8, g: u8, b: u8| shadowed(r, g, b, amount as int)),
            out@.wf(),
            out@.same_shape(self@),
    {
        let out = (PointOp::Shadows { amount }).run(self);
        assert(out@.data =~= self@.map_pixels(
            |r: u8, g: u8, b: u8| shadowed(r, g, b, amount as int),
        ).data);
        out
    }

    /// Sepia toning.
    pub fn apply_sepia(&self) -> (out: PixelBuffer)
        ensures
            out@ == self@.map_pixels(|r: u8, g: u8, b: u8| sepia_toned(r, g, b)),
            out@.wf(),
            out@.same_shape(self@),
    {
        let out = (PointOp::Sepia).run(self);
        assert(out@.data =~= self@.map_pixels(|r: u8, g: u8, b: u8| sepia_toned(r, g, b)).data);
        out
    }

    /// Every channel looked up in its own table.
    pub fn apply_lut(&self, red: LookupTable, green: LookupTable, blue: LookupTable) -> (out:
        PixelBuffer)
        ensures
            out@ == self@.map_pixels(
                |r: u8, g: u8, b: u8| looked_up(r, g, b, red@, green@, blue@),
            ),
            out@.wf(),
            out@.same_shape(self@),
    {
        let ghost tables = (red@, green@, blue@);
        let out = (PointOp::Lookup { red, green, blue }).run(self);
        assert(out@.data =~= self@.map_pixels(
            |r: u8, g: u8, b: u8| looked_up(r, g, b, tables.0, tables.1, tables.2),
        ).data);
        out
    }
}

/// A gain of one leaves every pixel as it is.
pub proof fn lemma_exposure_identity(r: u8, g: u8, b: u8)
    ensures
        exposed(r, g, b, UNIT as int) == (r, g, b),
{
    lemma_byte_floor_exact(r as int, UNIT as int);
    lemma_byte_floor_exact(g as int, UNIT as int);
    lemma_byte_floor_exact(b as int, UNIT as int);
}

/// A hue rotation by zero degrees leaves every pixel as it is.
pub proof fn lemma_hue_identity(r: u8, g: u8, b: u8)
    ensures
        hue_rotated(r, g, b, 0) == (r, g, b),
{
    let c = hsv_of(r, g, b);
    lemma_hsv_round_trip(r, g, b);
    let hn = c.hue.num as int;
    let hd = c.hue.den as int;
    assert(0 <= hn * UNIT < 360 * UNIT * hd && hd * UNIT <= 255 * UNIT) by (nonlinear_arith)
        requires
            0 <= hn < 360 * hd,
            1 <= hd <= 255,
    ;
    vstd::arithmetic::div_mod::lemma_small_mod((hn * UNIT) as nat, (360 * UNIT * hd) as nat);
    lemma_hue_scaling(c, UNIT as int);
}

/// A vibrance of zero leaves every pixel as it is.
pub proof fn lemma_vibrance_identity(r: u8, g: u8, b: u8)
    ensures
        vibrant(r, g, b, 0) == (r, g, b),
{
    let hi = max3(r as int, g as int, b as int);
    let lo = min3(r as int, g as int, b as int);
    if hi - lo >= 3 {
        let c = hsv_of(r, g, b);
        lemma_hsv_round_trip(r, g, b);
        let k = 1_000_000_000_000_000int;
        let s = vibrance_saturation(r as int, g as int, b as int, 0);
        assert(s.num == (hi - lo) * k && s.den == hi * k);
        lemma_saturation_scaling(c, k);
    }
}

/// At their neutral settings, exposure, hue rotation, vibrance, curves and
/// sharpening give the image they were given.
pub proof fn lemma_neutral_settings(src: Raster, powers: (Seq<i64>, Seq<i64>, Seq<i64>))
    requires
        src.wf(),
    ensures
        src.map_pixels(|r: u8, g: u8, b: u8| exposed(r, g, b, UNIT as int)) == src,
        src.map_pixels(|r: u8, g: u8, b: u8| hue_rotated(r, g, b, 0)) == src,
        src.map_pixels(|r: u8, g: u8, b: u8| vibrant(r, g, b, 0)) == src,
        src.map_pixels(
            |r: u8, g: u8, b: u8|
                crate::lut::curved_pixel(r, g, b, (UNIT as int, UNIT as int, UNIT as int), powers),
        ) == src,
        crate::convolution::sharpened(src, 0) == src,
{
    lemma_whole_pixels(src);
    assert forall|r: u8, g: u8, b: u8| exposed(r, g, b, UNIT as int) == (r, g, b) by {
        lemma_exposure_identity(r, g, b);
    }
    assert forall|r: u8, g: u8, b: u8| hue_rotated(r, g, b, 0) == (r, g, b) by {
        lemma_hue_identity(r, g, b);
    }
    assert forall|r: u8, g: u8, b: u8| vibrant(r, g, b, 0) == (r, g, b) by {
        lemma_vibrance_identity(r, g, b);
    }
    lemma_map_pixels_identity(src, |r: u8, g: u8, b: u8| exposed(r, g, b, UNIT as int));
    lemma_map_pixels_identity(src, |r: u8, g: u8, b: u8| hue_rotated(r, g, b, 0));
    lemma_map_pixels_identity(src, |r: u8, g: u8, b: u8| vibrant(r, g, b, 0));
    lemma_map_pixels_identity(
        src,
        |r: u8, g: u8, b: u8|
            crate::lut::curved_pixel(r, g, b, (UNIT as int, UNIT as int, UNIT as int), powers),
    );
}

} // verus!
