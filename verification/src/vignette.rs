//! Vignette: pixels far from the centre of the image are darkened.
//!
//! Whether a pixel lies within the radius is decided on squared distances,
//! exactly. How much a pixel beyond the radius is dimmed depends on the
//! distances themselves, which are taken to thousandths of a pixel and
//! rounded down.

use vstd::prelude::*;
use crate::buffer::{lemma_offset, PixelBuffer, Raster};
use crate::fixed::{
    byte_floor, floor_sqrt, is_floor_sqrt, isqrt_wide, lemma_floor_sqrt_exists,
    lemma_floor_sqrt_monotone, lemma_square_order, product, to_byte, PERCENT,
};

verus! {

/// Largest magnitude of the strength of a vignette, and of a radius below
/// zero, in millionths of a percent.
pub const VIGNETTE_MAX: i64 = 10_000_000_000;

/// Twice the distance of `(x, y)` from the centre of a `width` by `height`
/// image, squared.
pub open spec fn reach_squared(width: int, height: int, x: int, y: int) -> int {
    (2 * x - width) * (2 * x - width) + (2 * y - height) * (2 * y - height)
}

/// Twice the distance of `(x, y)` from the centre of the image, in
/// thousandths of a pixel, rounded down.
pub open spec fn reach(width: int, height: int, x: int, y: int) -> int {
    floor_sqrt(reach_squared(width, height, x, y) * 1_000_000)
}

/// Twice the distance of a corner from the centre of the image, squared.
pub open spec fn span_squared(width: int, height: int) -> int {
    width * width + height * height
}

/// Twice the distance of a corner from the centre of the image, in
/// thousandths of a pixel, rounded down.
pub open spec fn span(width: int, height: int) -> int {
    floor_sqrt(span_squared(width, height) * 1_000_000)
}

/// The pixel at `(x, y)` lies within the radius of the vignette, which is
/// `radius` percent (in millionths) of the distance of a corner from the
/// centre: its distance is at most the radius. Both sides are squared, so
/// that no root is taken and nothing is rounded.
pub open spec fn within_radius(width: int, height: int, radius: int, x: int, y: int) -> bool {
    radius >= 0 && reach_squared(width, height, x, y) * (PERCENT * PERCENT) <= span_squared(
        width,
        height,
    ) * (radius * radius)
}

/// How far a pixel at the distance `reach` lies beyond the radius, on the
/// scale where `margin` is the way from the radius to a corner. The
/// distances are rounded, so a pixel just beyond the radius may come out
/// as not beyond it: it then counts as on it.
pub open spec fn excess(span: int, radius: int, reach: int) -> int {
    if reach * PERCENT >= span * radius {
        reach * PERCENT - span * radius
    } else {
        0
    }
}

/// The way from the radius to a corner.
pub open spec fn margin(span: int, radius: int) -> int {
    span * PERCENT - span * radius
}

/// Numerator of the brightness that is left at a pixel beyond the radius,
/// over `margin * PERCENT`: one less the share of the margin that the
/// pixel lies beyond the radius, times the hundredth of `strength`.
pub open spec fn brightness(span: int, radius: int, strength: int, reach: int) -> int {
    margin(span, radius) * PERCENT - excess(span, radius, reach) * strength
}

/// A channel of a pixel beyond the radius: the channel times the
/// brightness left, limited to a byte and rounded down.
pub open spec fn dimmed(c: u8, span: int, radius: int, strength: int, reach: int) -> u8 {
    byte_floor(c * brightness(span, radius, strength, reach), margin(span, radius) * PERCENT)
}

/// What is left of a channel `c` of the pixel at `(x, y)` of a `width` by
/// `height` image: all of it within the radius; beyond it, the channel
/// dimmed by the distances of the pixel and of a corner, taken to
/// thousandths of a pixel.
pub open spec fn vignetted_channel(
    width: int,
    height: int,
    strength: int,
    radius: int,
    c: u8,
    x: int,
    y: int,
) -> u8 {
    if within_radius(width, height, radius, x, y) {
        c
    } else {
        dimmed(c, span(width, height), radius, strength, reach(width, height, x, y))
    }
}

/// The pixel at `(x, y)` after the vignette.
pub open spec fn vignetted_pixel(src: Raster, strength: int, radius: int, x: int, y: int) -> (
    u8,
    u8,
    u8,
) {
    let p = src.pixel(x, y);
    (
        vignetted_channel(src.width as int, src.height as int, strength, radius, p.0, x, y),
        vignetted_channel(src.width as int, src.height as int, strength, radius, p.1, x, y),
        vignetted_channel(src.width as int, src.height as int, strength, radius, p.2, x, y),
    )
}

/// The strength is within `VIGNETTE_MAX` of zero, and the radius not below
/// minus `VIGNETTE_MAX`: what the dimming can be worked out for in 128
/// bits.
pub open spec fn vignette_in_range(strength: int, radius: int) -> bool {
    -VIGNETTE_MAX <= strength <= VIGNETTE_MAX && -VIGNETTE_MAX <= radius
}

/// The image after a vignette of `strength` percent with a radius of
/// `radius` percent (both in millionths): unchanged where they are out of
/// range.
pub open spec fn vignetted(src: Raster, strength: int, radius: int) -> Raster {
    if vignette_in_range(strength, radius) {
        Raster::from_fn(
            src.width,
            src.height,
            |x: int, y: int| vignetted_pixel(src, strength, radius, x, y),
        )
    } else {
        src
    }
}

/// No pixel lies farther from the centre than a corner.
pub proof fn lemma_reach_within_span(width: int, height: int, x: int, y: int)
    requires
        0 <= x < width,
        0 <= y < height,
    ensures
        0 <= reach_squared(width, height, x, y) <= span_squared(width, height),
{
    let px = 2 * x - width;
    let py = 2 * y - height;
    assert(0 <= px * px <= width * width) by (nonlinear_arith)
        requires
            -width <= px <= width,
    ;
    assert(0 <= py * py <= height * height) by (nonlinear_arith)
        requires
            -height <= py <= height,
    ;
}

/// With a radius of the whole way to a corner, or more, every pixel lies
/// within the radius.
pub proof fn lemma_full_radius(width: int, height: int, radius: int, x: int, y: int)
    requires
        0 <= x < width,
        0 <= y < height,
        radius >= PERCENT,
    ensures
        within_radius(width, height, radius, x, y),
{
    lemma_reach_within_span(width, height, x, y);
    let d2 = reach_squared(width, height, x, y);
    let s2 = span_squared(width, height);
    let pp = PERCENT * PERCENT;
    let rr = radius * radius;
    assert(pp <= rr) by (nonlinear_arith)
        requires
            pp == PERCENT * PERCENT,
            rr == radius * radius,
            0 < PERCENT <= radius,
    ;
    assert(d2 * pp <= s2 * rr) by (nonlinear_arith)
        requires
            0 <= d2 <= s2,
            0 <= pp <= rr,
    ;
}

/// A vignette of non-negative strength leaves less brightness the farther
/// a pixel lies from the centre, and never more than all of it.
pub proof fn lemma_brightness_decreases(span: int, radius: int, strength: int, near: int, far: int)
    requires
        strength >= 0,
        near <= far,
    ensures
        brightness(span, radius, strength, far) <= brightness(span, radius, strength, near),
        brightness(span, radius, strength, near) <= margin(span, radius) * PERCENT,
{
    let a = excess(span, radius, near);
    let b = excess(span, radius, far);
    assert(0 <= a <= b);
    assert(a * strength <= b * strength && 0 <= a * strength) by (nonlinear_arith)
        requires
            0 <= a <= b,
            strength >= 0,
    ;
}

/// A vignette of non-negative strength never brightens a channel, and
/// darkens it the more the farther the pixel lies from the centre.
pub proof fn lemma_dimmed_decreases(
    c: u8,
    span: int,
    radius: int,
    strength: int,
    near: int,
    far: int,
)
    requires
        strength >= 0,
        near <= far,
        margin(span, radius) > 0,
    ensures
        dimmed(c, span, radius, strength, far) <= dimmed(c, span, radius, strength, near) <= c,
{
    lemma_brightness_decreases(span, radius, strength, near, far);
    let den = margin(span, radius) * PERCENT;
    let bn = brightness(span, radius, strength, near);
    let bf = brightness(span, radius, strength, far);
    assert(den > 0) by (nonlinear_arith)
        requires
            den == margin(span, radius) * PERCENT,
            margin(span, radius) > 0,
    ;
    assert(c * bf <= c * bn <= c * den) by (nonlinear_arith)
        requires
            bf <= bn <= den,
            c >= 0,
    ;
    vstd::arithmetic::div_mod::lemma_div_is_ordered(c * bf, c * bn, den);
    vstd::arithmetic::div_mod::lemma_div_is_ordered(c * bn, c * den, den);
    assert((c * den) / den == c) by {
        assert((c + 1) * den == c * den + den) by (nonlinear_arith);
        crate::fixed::lemma_floor_between(c * den, den, c as int);
    }
}

/// Beyond the radius there is a way left to the corner.
proof fn lemma_margin_positive(width: int, height: int, radius: int, x: int, y: int)
    requires
        0 <= x < width,
        0 <= y < height,
        !within_radius(width, height, radius, x, y),
    ensures
        margin(span(width, height), radius) > 0,
{
    if radius >= PERCENT {
        lemma_full_radius(width, height, radius, x, y);
    }
    let s2 = span_squared(width, height);
    assert(s2 >= 2) by (nonlinear_arith)
        requires
            s2 == width * width + height * height,
            width >= 1,
            height >= 1,
    ;
    lemma_floor_sqrt_exists(s2 * 1_000_000);
    let s = span(width, height);
    if s == 0 {
        assert((s + 1) * (s + 1) == 1) by (nonlinear_arith)
            requires
                s == 0,
        ;
    }
    assert(s * PERCENT - s * radius >= 1) by (nonlinear_arith)
        requires
            s >= 1,
            radius < PERCENT,
    ;
}

/// A vignette of non-negative strength never brightens, and darkens
/// outwards: of two pixels, the one that lies no nearer to the centre keeps
/// no more of a channel than the other, and neither keeps more than all of
/// it.
pub proof fn lemma_vignette_darkens_outwards(
    width: int,
    height: int,
    strength: int,
    radius: int,
    c: u8,
    near: (int, int),
    far: (int, int),
)
    requires
        strength >= 0,
        0 <= near.0 < width,
        0 <= near.1 < height,
        0 <= far.0 < width,
        0 <= far.1 < height,
        reach_squared(width, height, near.0, near.1) <= reach_squared(
            width,
            height,
            far.0,
            far.1,
        ),
    ensures
        vignetted_channel(width, height, strength, radius, c, far.0, far.1) <= vignetted_channel(
            width,
            height,
            strength,
            radius,
            c,
            near.0,
            near.1,
        ) <= c,
{
    let dn = reach_squared(width, height, near.0, near.1);
    let df = reach_squared(width, height, far.0, far.1);
    let s = span(width, height);
    lemma_reach_within_span(width, height, near.0, near.1);
    lemma_reach_within_span(width, height, far.0, far.1);
    lemma_floor_sqrt_monotone(dn * 1_000_000, df * 1_000_000);
    let rn = reach(width, height, near.0, near.1);
    let rf = reach(width, height, far.0, far.1);
    if within_radius(width, height, radius, far.0, far.1) {
        assert(dn * (PERCENT * PERCENT) <= df * (PERCENT * PERCENT)) by (nonlinear_arith)
            requires
                dn <= df,
        ;
    } else if within_radius(width, height, radius, near.0, near.1) {
        lemma_margin_positive(width, height, radius, far.0, far.1);
        lemma_dimmed_decreases(c, s, radius, strength, rf, rf);
    } else {
        lemma_margin_positive(width, height, radius, far.0, far.1);
        lemma_dimmed_decreases(c, s, radius, strength, rn, rf);
    }
}

/// A rounded-down square root of a number below `2^86` is below `2^43`.
proof fn lemma_root_bound(n: int, k: int)
    requires
        is_floor_sqrt(n, k),
        n < 0x40_0000_0000_0000_0000_0000,
    ensures
        k < 0x800_0000_0000,
{
    if k >= 0x800_0000_0000 {
        assert(k * k >= 0x800_0000_0000 * 0x800_0000_0000) by (nonlinear_arith)
            requires
                k >= 0x800_0000_0000,
        ;
    }
}

/// Twice the distance of a corner from the centre: squared, and in
/// thousandths of a pixel.
fn span_of(width: u32, height: u32) -> (r: (u128, u64))
    ensures
        r.0 == span_squared(width as int, height as int),
        r.1 == span(width as int, height as int),
        is_floor_sqrt(r.0 * 1_000_000, r.1 as int),
        r.1 < 0x800_0000_0000,
{
    let w: u128 = width as u128;
    let h: u128 = height as u128;
    assert(w * w <= 0xFFFF_FFFF * 0xFFFF_FFFF && h * h <= 0xFFFF_FFFF * 0xFFFF_FFFF)
        by (nonlinear_arith)
        requires
            0 <= w <= 0xFFFF_FFFF,
            0 <= h <= 0xFFFF_FFFF,
    ;
    let s2: u128 = w * w + h * h;
    let s = isqrt_wide(s2 * 1_000_000);
    proof {
        lemma_root_bound(s2 * 1_000_000, s as int);
    }
    (s2, s)
}

impl PixelBuffer {
    /// The pixel at `(x, y)` after a vignette, given the distance of a
    /// corner, squared and rounded.
    fn vignette_pixel(&self, strength: i64, radius: i64, s2: u128, s: u64, x: u32, y: u32) -> (p:
        (u8, u8, u8))
        requires
            self@.contains(x as int, y as int),
            vignette_in_range(strength as int, radius as int),
            s2 == span_squared(self@.width as int, self@.height as int),
            s == span(self@.width as int, self@.height as int),
            is_floor_sqrt(s2 * 1_000_000, s as int),
            s < 0x800_0000_0000,
        ensures
            p == vignetted_pixel(self@, strength as int, radius as int, x as int, y as int),
    {
        let width = self.width();
        let height = self.height();
        let p = self.pixel_at(x, y);
        let px: i128 = 2 * (x as i128) - width as i128;
        let py: i128 = 2 * (y as i128) - height as i128;
        let xx = product(px, px);
        let yy = product(py, py);
        proof {
            lemma_reach_within_span(width as int, height as int, x as int, y as int);
            assert(width * width <= 0xFFFF_FFFF * 0xFFFF_FFFF && height * height <= 0xFFFF_FFFF
                * 0xFFFF_FFFF) by (nonlinear_arith)
                requires
                    0 <= width <= 0xFFFF_FFFF,
                    0 <= height <= 0xFFFF_FFFF,
            ;
        }
        let d2: u128 = (xx + yy) as u128;
        assert(d2 == reach_squared(width as int, height as int, x as int, y as int));
        assert(1 <= s2 <= 0x2_0000_0000_0000_0000) by (nonlinear_arith)
            requires
                s2 == width * width + height * height,
                width * width <= 0xFFFF_FFFF * 0xFFFF_FFFF,
                height * height <= 0xFFFF_FFFF * 0xFFFF_FFFF,
                width >= 1,
                height >= 1,
        ;
        let unit: u128 = 10_000_000_000_000_000;
        assert(unit == PERCENT * PERCENT);
        let inside: bool = if radius < 0 {
            false
        } else if radius >= PERCENT {
            proof {
                lemma_full_radius(
                    width as int,
                    height as int,
                    radius as int,
                    x as int,
                    y as int,
                );
            }
            true
        } else {
            let r: u128 = radius as u128;
            assert(r * r < 100_000_000 * 100_000_000) by (nonlinear_arith)
                requires
                    0 <= r < 100_000_000,
            ;
            let rr: u128 = r * r;
            assert(d2 * unit <= 0x2_0000_0000_0000_0000 * 10_000_000_000_000_000 && s2 * rr
                <= 0x2_0000_0000_0000_0000 * 10_000_000_000_000_000) by (nonlinear_arith)
                requires
                    0 <= d2 <= 0x2_0000_0000_0000_0000,
                    0 <= s2 <= 0x2_0000_0000_0000_0000,
                    unit == 10_000_000_000_000_000,
                    0 <= rr < 10_000_000_000_000_000,
            ;
            d2 * unit <= s2 * rr
        };
        assert(inside == within_radius(
            width as int,
            height as int,
            radius as int,
            x as int,
            y as int,
        ));
        if inside {
            return p;
        }
        let d: u64 = isqrt_wide(d2 * 1_000_000);
        proof {
            if s < d {
                lemma_square_order(s as int, d as int);
            }
            assert(d <= s);
            assert(s >= 1) by {
                if s == 0 {
                    assert((s + 1) * (s + 1) == 1) by (nonlinear_arith)
                        requires
                            s == 0,
                    ;
                }
            }
        }
        let ghost sp = s as int;
        let lhs: i128 = (d as i128) * (PERCENT as i128);
        let rhs: i128 = product(s as i128, radius as i128);
        assert(-0x800_0000_0000 * 10_000_000_000 <= rhs <= 0x800_0000_0000 * 10_000_000_000)
            by (nonlinear_arith)
            requires
                rhs == s * radius,
                0 <= s < 0x800_0000_0000,
                -10_000_000_000 <= radius < 100_000_000,
        ;
        let a: i128 = if lhs >= rhs {
            lhs - rhs
        } else {
            0
        };
        let b: i128 = (s as i128) * (PERCENT as i128) - rhs;
        assert(a == excess(sp, radius as int, d as int));
        assert(b == margin(sp, radius as int));
        assert(b >= 1) by (nonlinear_arith)
            requires
                b == s * PERCENT - rhs,
                rhs == s * radius,
                s >= 1,
                radius < PERCENT,
        ;
        assert(0 <= a <= b <= 0x4000_0000_0000_0000_0000);
        let den: i128 = b * (PERCENT as i128);
        assert(-0x1_0000_0000_0000_0000_0000_0000_0000 <= a * strength
            <= 0x1_0000_0000_0000_0000_0000_0000_0000) by (nonlinear_arith)
            requires
                0 <= a <= 0x4000_0000_0000_0000_0000,
                -0x4_0000_0000 <= strength <= 0x4_0000_0000,
        ;
        let cut: i128 = a * (strength as i128);
        let left: i128 = den - cut;
        assert(left == brightness(sp, radius as int, strength as int, d as int));
        assert(-0x4_0000_0000_0000_0000_0000_0000_0000 <= left
            <= 0x4_0000_0000_0000_0000_0000_0000_0000);
        assert({
            &&& -0x400_0000_0000_0000_0000_0000_0000_0000 <= p.0 * left
                <= 0x400_0000_0000_0000_0000_0000_0000_0000
            &&& -0x400_0000_0000_0000_0000_0000_0000_0000 <= p.1 * left
                <= 0x400_0000_0000_0000_0000_0000_0000_0000
            &&& -0x400_0000_0000_0000_0000_0000_0000_0000 <= p.2 * left
                <= 0x400_0000_0000_0000_0000_0000_0000_0000
        }) by (nonlinear_arith)
            requires
                -0x4_0000_0000_0000_0000_0000_0000_0000 <= left
                    <= 0x4_0000_0000_0000_0000_0000_0000_0000,
                0 <= p.0 <= 255,
                0 <= p.1 <= 255,
                0 <= p.2 <= 255,
        ;
        let r: i128 = (p.0 as i128) * left;
        let g: i128 = (p.1 as i128) * left;
        let bl: i128 = (p.2 as i128) * left;
        (to_byte(r, den), to_byte(g, den), to_byte(bl, den))
    }

    /// Darkens the pixels that lie beyond `radius` percent of the way from
    /// the centre to a corner, by up to `strength` percent at the corners
    /// (both in millionths).
    pub fn apply_vignette(&self, strength: i64, radius: i64) -> (out: PixelBuffer)
        ensures
            out@ == vignetted(self@, strength as int, radius as int),
            out@.wf(),
            out@.same_shape(self@),
    {
        if strength < -VIGNETTE_MAX || strength > VIGNETTE_MAX || radius < -VIGNETTE_MAX {
            return self.duplicate();
        }
        let width = self.width();
        let height = self.height();
        let (s2, s) = span_of(width, height);
        let ghost want = vignetted(self@, strength as int, radius as int);
        let mut data: Vec<u8> = Vec::with_capacity(self.data().len());
        let mut y: u32 = 0;
        while y < height
            invariant
                y <= height,
                width == self@.width,
                height == self@.height,
                self@.wf(),
                vignette_in_range(strength as int, radius as int),
                s == span(self@.width as int, self@.height as int),
                s2 == span_squared(self@.width as int, self@.height as int),
                is_floor_sqrt(s2 * 1_000_000, s as int),
                s < 0x800_0000_0000,
                want == vignetted(self@, strength as int, radius as int),
                data@.len() == 3 * (y * width),
                forall|j: int| 0 <= j < data@.len() ==> data@[j] == want.data[j],
            decreases height - y,
        {
            let mut x: u32 = 0;
            while x < width
                invariant
                    x <= width,
                    y < height,
                    width == self@.width,
                    height == self@.height,
                    self@.wf(),
                    vignette_in_range(strength as int, radius as int),
                    s == span(self@.width as int, self@.height as int),
                    s2 == span_squared(self@.width as int, self@.height as int),
                is_floor_sqrt(s2 * 1_000_000, s as int),
                    s < 0x800_0000_0000,
                    want == vignetted(self@, strength as int, radius as int),
                    data@.len() == 3 * (y * width + x),
                    forall|j: int| 0 <= j < data@.len() ==> data@[j] == want.data[j],
                decreases width - x,
            {
                let p = self.vignette_pixel(strength, radius, s2, s, x, y);
                proof {
                    lemma_offset(want, x as int, y as int, 0);
                    lemma_offset(want, x as int, y as int, 1);
                    lemma_offset(want, x as int, y as int, 2);
                }
                data.push(p.0);
                data.push(p.1);
                data.push(p.2);
                x += 1;
            }
            assert((y + 1) * width == y * width + width) by (nonlinear_arith);
            y += 1;
        }
        assert(3 * width * height == 3 * (height * width)) by (nonlinear_arith);
        assert(data@ =~= want.data);
        PixelBuffer::assemble(width, height, data)
    }
}

} // verus!
