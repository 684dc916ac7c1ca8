//! Tonal adjustments of encoded images, and the whole-image adjustments
//! that the `image` crate provides.

use vstd::prelude::*;
use crate::boundary::{close, open, untouched};
use crate::buffer::{PixelBuffer, Raster};
use crate::codec::{brighten, brightened, decoded, encodes, huerotate, replies};
use crate::error::ImageError;
use crate::fixed::UNIT;
use crate::lut::{curved_pixel, leveled, PowerTable};
use crate::tonal::{exposed, highlighted, hue_rotated, shadowed, vibrant, white_balanced};

verus! {

impl PixelBuffer {
    /// Adds `value` to every channel, limited to a byte.
    pub fn adjust_brightness(&self, value: i32) -> (out: PixelBuffer)
        ensures
            out@ == brightened(self@, value as int),
            out@.wf(),
            out@.same_shape(self@),
    {
        let limited: i32 = if value < -255 {
            -255
        } else if value > 255 {
            255
        } else {
            value
        };
        let out = brighten(self, limited);
        assert(out@.data =~= brightened(self@, value as int).data);
        out
    }

    /// Turns the hue of every pixel by whole `degrees`, with the colour
    /// matrix of the `image` crate.
    pub fn adjust_saturation(&self, degrees: i32) -> (out: PixelBuffer)
        ensures
            out@.wf(),
            out@.same_shape(self@),
    {
        huerotate(self, degrees)
    }
}

/// Adds `value` to every channel of an encoded image.
pub fn adjust_brightness(image_data: &[u8], value: i32) -> (r: Result<Vec<u8>, ImageError>)
    ensures
        replies(r, image_data@, |image: Raster| Some(brightened(image, value as int))),
{
    match open(image_data) {
        Err(e) => Err(e),
        Ok(image) => close(&image.adjust_brightness(value)),
    }
}

/// `r` is the answer of a hue rotation by the colour matrix on the encoded
/// image `image_data`: the report that the input is no image, or the
/// encoding of some image of the shape of the image read.
pub open spec fn saturation_replies(r: Result<Vec<u8>, ImageError>, image_data: Seq<u8>) -> bool {
    match decoded(image_data) {
        None => r matches Err(e) && e == ImageError::Decode,
        Some(image) => exists|out: Raster| out.wf() && out.same_shape(image) && encodes(r, out),
    }
}

/// Turns the hue of an encoded image by whole `degrees`.
pub fn adjust_saturation(image_data: &[u8], degrees: i32) -> (r: Result<Vec<u8>, ImageError>)
    ensures
        saturation_replies(r, image_data@),
{
    match open(image_data) {
        Err(e) => Err(e),
        Ok(image) => {
            let out = image.adjust_saturation(degrees);
            close(&out)
        },
    }
}

/// White balance of an encoded image by `value` percent (in millionths); a
/// value of zero gives the input back as it came.
pub fn adjust_white_balance(image_data: &[u8], value: i64) -> (r: Result<Vec<u8>, ImageError>)
    ensures
        replies(
            r,
            image_data@,
            |image: Raster|
                if value == 0 {
                    None
                } else {
                    Some(
                        image.map_pixels(
                            |r: u8, g: u8, b: u8| white_balanced(r, g, b, value as int),
                        ),
                    )
                },
        ),
{
    match open(image_data) {
        Err(e) => Err(e),
        Ok(image) => if value == 0 {
            untouched(image_data)
        } else {
            close(&image.adjust_white_balance(value))
        },
    }
}

/// Hue rotation of an encoded image by `shift` degrees (in millionths); a
/// shift of zero gives the input back as it came.
pub fn adjust_hue(image_data: &[u8], shift: i64) -> (r: Result<Vec<u8>, ImageError>)
    ensures
        replies(
            r,
            image_data@,
            |image: Raster|
                if shift == 0 {
                    None
                } else {
                    Some(image.map_pixels(|r: u8, g: u8, b: u8| hue_rotated(r, g, b, shift as int)))
                },
        ),
{
    match open(image_data) {
        Err(e) => Err(e),
        Ok(image) => if shift == 0 {
            untouched(image_data)
        } else {
            close(&image.adjust_hue(shift))
        },
    }
}

/// Exposure of an encoded image by a gain (in millionths), which for `n`
/// stops is two to the power `n`; a gain of one gives the input back as it
/// came.
pub fn adjust_exposure(image_data: &[u8], gain: i64) -> (r: Result<Vec<u8>, ImageError>)
    ensures
        replies(
            r,
            image_data@,
            |image: Raster|
                if gain == UNIT {
                    None
                } else {
                    Some(image.map_pixels(|r: u8, g: u8, b: u8| exposed(r, g, b, gain as int)))
                },
        ),
{
    match open(image_data) {
        Err(e) => Err(e),
        Ok(image) => if gain == UNIT {
            untouched(image_data)
        } else {
            close(&image.adjust_exposure(gain))
        },
    }
}

/// Vibrance of an encoded image by `amount` percent (in millionths); an
/// amount of zero gives the input back as it came.
pub fn adjust_vibrance(image_data: &[u8], amount: i64) -> (r: Result<Vec<u8>, ImageError>)
    ensures
        replies(
            r,
            image_data@,
            |image: Raster|
                if amount == 0 {
                    None
                } else {
                    Some(image.map_pixels(|r: u8, g: u8, b: u8| vibrant(r, g, b, amount as int)))
                },
        ),
{
    match open(image_data) {
        Err(e) => Err(e),
        Ok(image) => if amount == 0 {
            untouched(image_data)
        } else {
            close(&image.adjust_vibrance(amount))
        },
    }
}

/// Highlight adjustment of an encoded image by `amount` percent (in
/// millionths); an amount of zero gives the input back as it came.
pub fn adjust_highlights(image_data: &[u8], amount: i64) -> (r: Result<Vec<u8>, ImageError>)
    ensures
        replies(
            r,
            image_data@,
            |image: Raster|
                if amount == 0 {
                    None
                } else {
                    Some(
                        image.map_pixels(|r: u8, g: u8, b: u8| highlighted(r, g, b, amount as int)),
                    )
                },
        ),
{
    match open(image_data) {
        Err(e) => Err(e),
        Ok(image) => if amount == 0 {
            untouched(image_data)
        } else {
            close(&image.adjust_highlights(amount))
        },
    }
}

/// Shadow adjustment of an encoded image by `amount` percent (in
/// millionths); an amount of zero gives the input back as it came.
pub fn adjust_shadows(image_data: &[u8], amount: i64) -> (r: Result<Vec<u8>, ImageError>)
    ensures
        replies(
            r,
            image_data@,
            |image: Raster|
                if amount == 0 {
                    None
                } else {
                    Some(image.map_pixels(|r: u8, g: u8, b: u8| shadowed(r, g, b, amount as int)))
                },
        ),
{
    match open(image_data) {
        Err(e) => Err(e),
        Ok(image) => if amount == 0 {
            untouched(image_data)
        } else {
            close(&image.adjust_shadows(amount))
        },
    }
}

/// All three gammas are one: the curves change nothing.
pub open spec fn curves_idle(gammas: (i64, i64, i64)) -> bool {
    gammas.0 == UNIT && gammas.1 == UNIT && gammas.2 == UNIT
}

/// Gamma curves on an encoded image; three gammas of one give the input
/// back as it came.
pub fn adjust_curves(
    image_data: &[u8],
    gammas: (i64, i64, i64),
    red: &PowerTable,
    green: &PowerTable,
    blue: &PowerTable,
) -> (r: Result<Vec<u8>, ImageError>)
    ensures
        replies(
            r,
            image_data@,
            |image: Raster|
                if curves_idle(gammas) {
                    None
                } else {
                    Some(
                        image.map_pixels(
                            |r: u8, g: u8, b: u8|
                                curved_pixel(
                                    r,
                                    g,
                                    b,
                                    (gammas.0 as int, gammas.1 as int, gammas.2 as int),
                                    (red@, green@, blue@),
                                ),
                        ),
                    )
                },
        ),
{
    match open(image_data) {
        Err(e) => Err(e),
        Ok(image) => if gammas.0 == UNIT && gammas.1 == UNIT && gammas.2 == UNIT {
            untouched(image_data)
        } else {
            close(&image.adjust_curves(gammas, red, green, blue))
        },
    }
}

/// The levels are refused, because the black point does not lie below the
/// white point, or change nothing, because they span the full range with a
/// gamma of one.
pub open spec fn levels_idle(black: u8, white: u8, gamma: i64) -> bool {
    black >= white || (black == 0 && white == 255 && gamma == UNIT)
}

/// Levels correction of an encoded image; levels that are refused or
/// change nothing give the input back as it came.
pub fn adjust_levels(
    image_data: &[u8],
    black: u8,
    white: u8,
    gamma: i64,
    powers: &PowerTable,
) -> (r: Result<Vec<u8>, ImageError>)
    ensures
        replies(
            r,
            image_data@,
            |image: Raster|
                if levels_idle(black, white, gamma) {
                    None
                } else {
                    Some(leveled(image, black as int, white as int, gamma as int, powers@))
                },
        ),
{
    match open(image_data) {
        Err(e) => Err(e),
        Ok(image) => if black >= white || (black == 0 && white == 255 && gamma == UNIT) {
            untouched(image_data)
        } else {
            close(&image.adjust_levels(black, white, gamma, powers))
        },
    }
}

} // verus!
