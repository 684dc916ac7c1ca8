//! Filters on encoded images, and the conversion to grey.

use vstd::prelude::*;
use crate::boundary::{close, open, untouched};
use crate::buffer::{lemma_map_pixels_idempotent, lemma_whole_pixels, PixelBuffer, Raster};
use crate::codec::{decoded, luma, luma_plane, replies};
use crate::convolution::{embossed, sharpened};
use crate::error::ImageError;
use crate::histogram::{equalized, is_histogram};
use crate::noise::{denoised, noise_radius, radius_of, BilateralKernel};
use crate::tonal::sepia_toned;
use crate::vignette::{vignette_in_range, vignetted, VIGNETTE_MAX};

verus! {

/// A pixel in grey: every channel its luminance.
pub open spec fn grey(r: u8, g: u8, b: u8) -> (u8, u8, u8) {
    let l = luma(r as int, g as int, b as int) as u8;
    (l, l, l)
}

/// The image in grey.
pub open spec fn greyed(src: Raster) -> Raster {
    src.map_pixels(|r: u8, g: u8, b: u8| grey(r, g, b))
}

/// The kernel belongs to the strength: the strength is positive and gives
/// the radius of the kernel.
pub open spec fn kernel_matches(strength: i64, radius: int) -> bool {
    strength > 0 && radius_of(strength as int) == radius
}

impl PixelBuffer {
    /// Converts to grey: every channel of a pixel becomes its luminance.
    pub fn to_grayscale(&self) -> (out: PixelBuffer)
        ensures
            out@ == greyed(self@),
            out@.wf(),
            out@.same_shape(self@),
    {
        let width = self.width();
        let height = self.height();
        let plane = luma_plane(self);
        let n = plane.len();
        let ghost want = greyed(self@);
        assert(3 * width * height == 3 * (width * height)) by (nonlinear_arith);
        let mut data: Vec<u8> = Vec::new();
        let mut i: usize = 0;
        while i < n
            invariant
                i <= n,
                n == plane@.len(),
                n == width * height,
                self@.wf(),
                self@.data.len() == 3 * n,
                want == greyed(self@),
                forall|k: int|
                    0 <= k < n ==> #[trigger] plane@[k] == luma(
                        self@.data[3 * k] as int,
                        self@.data[3 * k + 1] as int,
                        self@.data[3 * k + 2] as int,
                    ),
                data@.len() == 3 * i,
                forall|j: int| 0 <= j < data@.len() ==> data@[j] == want.data[j],
            decreases n - i,
        {
            let l = plane[i];
            assert(plane@[i as int] == luma(
                self@.data[3 * i] as int,
                self@.data[3 * i + 1] as int,
                self@.data[3 * i + 2] as int,
            ));
            data.push(l);
            data.push(l);
            data.push(l);
            i += 1;
        }
        assert(data@ =~= want.data);
        PixelBuffer::assemble(width, height, data)
    }
}

/// Converts an encoded image to grey.
pub fn to_grayscale(image_data: &[u8]) -> (r: Result<Vec<u8>, ImageError>)
    ensures
        replies(r, image_data@, |image: Raster| Some(greyed(image))),
{
    match open(image_data) {
        Err(e) => Err(e),
        Ok(image) => close(&image.to_grayscale()),
    }
}

/// Sepia toning of an encoded image.
pub fn apply_sepia(image_data: &[u8]) -> (r: Result<Vec<u8>, ImageError>)
    ensures
        replies(
            r,
            image_data@,
            |image: Raster| Some(image.map_pixels(|r: u8, g: u8, b: u8| sepia_toned(r, g, b))),
        ),
{
    match open(image_data) {
        Err(e) => Err(e),
        Ok(image) => close(&image.apply_sepia()),
    }
}

/// Embosses an encoded image.
pub fn apply_emboss(image_data: &[u8]) -> (r: Result<Vec<u8>, ImageError>)
    ensures
        replies(r, image_data@, |image: Raster| Some(embossed(image))),
{
    match open(image_data) {
        Err(e) => Err(e),
        Ok(image) => close(&image.apply_emboss()),
    }
}

/// Equalizes the histograms of an encoded image.
pub fn histogram_equalization(image_data: &[u8]) -> (r: Result<Vec<u8>, ImageError>)
    ensures
        replies(r, image_data@, |image: Raster| Some(equalized(image))),
{
    match open(image_data) {
        Err(e) => Err(e),
        Ok(image) => close(&image.histogram_equalization()),
    }
}

/// The histograms of an encoded image: 256 counts for red, then for green,
/// then for blue.
pub fn calculate_histogram(image_data: &[u8]) -> (r: Result<Vec<u64>, ImageError>)
    ensures
        match decoded(image_data@) {
            None => r matches Err(e) && e == ImageError::Decode,
            Some(image) => r matches Ok(hist) && is_histogram(image, hist@),
        },
{
    match open(image_data) {
        Err(e) => Err(e),
        Ok(image) => Ok(image.calculate_histogram()),
    }
}

/// Sharpens an encoded image by `amount` (in millionths); an amount that
/// is not positive gives the input back as it came.
pub fn sharpen(image_data: &[u8], amount: i64) -> (r: Result<Vec<u8>, ImageError>)
    ensures
        replies(
            r,
            image_data@,
            |image: Raster|
                if amount <= 0 {
                    None
                } else {
                    Some(sharpened(image, amount as int))
                },
        ),
{
    match open(image_data) {
        Err(e) => Err(e),
        Ok(image) => if amount <= 0 {
            untouched(image_data)
        } else {
            close(&image.sharpen(amount))
        },
    }
}

/// A vignette has nothing to do, because its strength is zero, or is
/// refused, because its strength or its radius is out of range.
pub open spec fn vignette_idle(strength: i64, radius: i64) -> bool {
    strength == 0 || !vignette_in_range(strength as int, radius as int)
}

/// Vignette on an encoded image; a vignette that has nothing to do or is
/// refused gives the input back as it came.
pub fn apply_vignette(image_data: &[u8], strength: i64, radius: i64) -> (r: Result<
    Vec<u8>,
    ImageError,
>)
    ensures
        replies(
            r,
            image_data@,
            |image: Raster|
                if vignette_idle(strength, radius) {
                    None
                } else {
                    Some(vignetted(image, strength as int, radius as int))
                },
        ),
{
    match open(image_data) {
        Err(e) => Err(e),
        Ok(image) => if strength == 0 || strength < -VIGNETTE_MAX || strength > VIGNETTE_MAX
            || radius < -VIGNETTE_MAX {
            untouched(image_data)
        } else {
            close(&image.apply_vignette(strength, radius))
        },
    }
}

/// Noise reduction of an encoded image by `strength` percent (in
/// millionths) with the weights of `kernel`; a kernel that does not belong
/// to the strength gives the input back as it came.
pub fn reduce_noise(image_data: &[u8], strength: i64, kernel: &BilateralKernel) -> (r: Result<
    Vec<u8>,
    ImageError,
>)
    ensures
        replies(
            r,
            image_data@,
            |image: Raster|
                if kernel_matches(strength, kernel@.radius) {
                    Some(denoised(image, kernel@))
                } else {
                    None
                },
        ),
{
    match open(image_data) {
        Err(e) => Err(e),
        Ok(image) => if strength <= 0 {
            untouched(image_data)
        } else if noise_radius(strength) != kernel.radius() as i64 {
            untouched(image_data)
        } else {
            close(&image.reduce_noise(kernel))
        },
    }
}

/// A grey pixel is its own grey.
pub proof fn lemma_grey_idempotent(r: u8, g: u8, b: u8)
    ensures
        grey(grey(r, g, b).0, grey(r, g, b).1, grey(r, g, b).2) == grey(r, g, b),
{
}

/// Converting to grey twice gives what converting once gives.
pub proof fn lemma_greyed_idempotent(src: Raster)
    requires
        src.wf(),
    ensures
        greyed(greyed(src)) == greyed(src),
{
    lemma_whole_pixels(src);
    assert forall|r: u8, g: u8, b: u8|
        grey((#[trigger] grey(r, g, b)).0, grey(r, g, b).1, grey(r, g, b).2) == grey(
            r,
            g,
            b,
        ) by {
        lemma_grey_idempotent(r, g, b);
    }
    lemma_map_pixels_idempotent(src, |r: u8, g: u8, b: u8| grey(r, g, b));
}

} // verus!
