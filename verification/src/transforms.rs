//! Geometric operations: rotation, mirroring, cropping and resizing.

use vstd::prelude::*;
use crate::boundary::{close, open, untouched};
use crate::buffer::{PixelBuffer, Raster};
use crate::codec::{
    decoded, encodes, half_turn, half_turned, mirror, mirrored, quarter_turn,
    quarter_turned, replies, resample, resizes, three_quarter_turn, three_quarter_turned,
    turn_upside_down, upside_down, window, windowed,
};
use crate::error::ImageError;
use crate::geometry::{rotated, rotation_refused};

verus! {

/// The image rotated clockwise by `angle` degrees: a quarter, a half or
/// three quarters of a turn for 90, 180 and 270, and the image itself for
/// any other angle.
pub open spec fn fixed_rotation(src: Raster, angle: int) -> Raster {
    if angle == 90 {
        quarter_turned(src)
    } else if angle == 180 {
        half_turned(src)
    } else if angle == 270 {
        three_quarter_turned(src)
    } else {
        src
    }
}

/// The window of the given size at `(x, y)` lies within the image.
pub open spec fn window_fits(src: Raster, x: int, y: int, width: int, height: int) -> bool {
    x + width <= src.width && y + height <= src.height
}

/// The image cropped to the window of the given size at `(x, y)`, or the
/// image itself where the window leaves it.
pub open spec fn cropped(src: Raster, x: int, y: int, width: nat, height: nat) -> Raster {
    if window_fits(src, x, y, width as int, height as int) {
        windowed(src, x, y, width, height)
    } else {
        src
    }
}

/// A resize to `width` by `height` is not carried out: a side is zero, the
/// image is empty, or the work space of sixteen bytes for each pixel of the
/// new height by the larger width would exceed the largest allocation.
pub open spec fn resize_refused(src: Raster, width: int, height: int) -> bool {
    ||| width == 0
    ||| height == 0
    ||| src.width == 0
    ||| src.height == 0
    ||| 16 * width * height > isize::MAX
    ||| 16 * src.width * height > isize::MAX
}

impl PixelBuffer {
    /// Rotates clockwise by 90, 180 or 270 degrees; any other angle leaves
    /// the image as it is.
    pub fn rotate(&self, angle: u32) -> (out: PixelBuffer)
        ensures
            out@ == fixed_rotation(self@, angle as int),
            out@.wf(),
    {
        if angle == 90 {
            quarter_turn(self)
        } else if angle == 180 {
            half_turn(self)
        } else if angle == 270 {
            three_quarter_turn(self)
        } else {
            self.duplicate()
        }
    }

    /// Mirrors left to right.
    pub fn flip_horizontal(&self) -> (out: PixelBuffer)
        ensures
            out@ == mirrored(self@),
            out@.wf(),
    {
        mirror(self)
    }

    /// Turns upside down.
    pub fn flip_vertical(&self) -> (out: PixelBuffer)
        ensures
            out@ == upside_down(self@),
            out@.wf(),
    {
        turn_upside_down(self)
    }

    /// Crops to the window of the given size at `(x, y)`; a window that
    /// leaves the image leaves the image as it is.
    pub fn crop(&self, x: u32, y: u32, width: u32, height: u32) -> (out: PixelBuffer)
        ensures
            out@ == cropped(self@, x as int, y as int, width as nat, height as nat),
            out@.wf(),
    {
        let w = self.width();
        let h = self.height();
        if x as u64 + width as u64 > w as u64 || y as u64 + height as u64 > h as u64 {
            self.duplicate()
        } else {
            window(self, x, y, width, height)
        }
    }

    /// Scales the image to the largest size that fits within `width` by
    /// `height`, keeping its aspect ratio; `None` where the resize is
    /// refused.
    pub fn try_resize(&self, width: u32, height: u32) -> (r: Option<PixelBuffer>)
        ensures
            r is None <==> resize_refused(self@, width as int, height as int),
            r matches Some(out) ==> resizes(self@, width as int, height as int, out@),
    {
        let w = self.width();
        let h = self.height();
        if width == 0 || height == 0 || w == 0 || h == 0 {
            return None;
        }
        assert(width * height <= 0xFFFF_FFFF * 0xFFFF_FFFF && w * height <= 0xFFFF_FFFF
            * 0xFFFF_FFFF) by (nonlinear_arith)
            requires
                0 <= width <= 0xFFFF_FFFF,
                0 <= height <= 0xFFFF_FFFF,
                0 <= w <= 0xFFFF_FFFF,
        ;
        let fresh: u128 = 16 * ((width as u128) * (height as u128));
        let work: u128 = 16 * ((w as u128) * (height as u128));
        assert(fresh == 16 * width * height && work == 16 * w * height) by (nonlinear_arith)
            requires
                fresh == 16 * (width * height),
                work == 16 * (w * height),
        ;
        if fresh > isize::MAX as u128 || work > isize::MAX as u128 {
            return None;
        }
        Some(resample(self, width, height))
    }

    /// Scales the image to the largest size that fits within `width` by
    /// `height`, keeping its aspect ratio; a resize that is refused leaves
    /// the image as it is.
    pub fn resize(&self, width: u32, height: u32) -> (out: PixelBuffer)
        ensures
            if resize_refused(self@, width as int, height as int) {
                out@ == self@
            } else {
                resizes(self@, width as int, height as int, out@)
            },
            out@.wf(),
    {
        match self.try_resize(width, height) {
            Some(out) => out,
            None => self.duplicate(),
        }
    }
}

/// The angle is one that a fixed rotation turns by: 90, 180 or 270 degrees.
pub open spec fn angle_supported(angle: u32) -> bool {
    angle == 90 || angle == 180 || angle == 270
}

/// Rotates an encoded image clockwise by 90, 180 or 270 degrees; any other
/// angle gives the input back as it came.
pub fn rotate(image_data: &[u8], angle: u32) -> (r: Result<Vec<u8>, ImageError>)
    ensures
        replies(
            r,
            image_data@,
            |image: Raster|
                if angle_supported(angle) {
                    Some(fixed_rotation(image, angle as int))
                } else {
                    None
                },
        ),
{
    match open(image_data) {
        Err(e) => Err(e),
        Ok(image) => if angle == 90 || angle == 180 || angle == 270 {
            close(&image.rotate(angle))
        } else {
            untouched(image_data)
        },
    }
}

/// Mirrors an encoded image left to right.
pub fn flip_horizontal(image_data: &[u8]) -> (r: Result<Vec<u8>, ImageError>)
    ensures
        replies(r, image_data@, |image: Raster| Some(mirrored(image))),
{
    match open(image_data) {
        Err(e) => Err(e),
        Ok(image) => close(&image.flip_horizontal()),
    }
}

/// Turns an encoded image upside down.
pub fn flip_vertical(image_data: &[u8]) -> (r: Result<Vec<u8>, ImageError>)
    ensures
        replies(r, image_data@, |image: Raster| Some(upside_down(image))),
{
    match open(image_data) {
        Err(e) => Err(e),
        Ok(image) => close(&image.flip_vertical()),
    }
}

/// Crops an encoded image; a window that leaves the image gives the input
/// back as it came.
pub fn crop(image_data: &[u8], x: u32, y: u32, width: u32, height: u32) -> (r: Result<
    Vec<u8>,
    ImageError,
>)
    ensures
        replies(
            r,
            image_data@,
            |image: Raster|
                if window_fits(image, x as int, y as int, width as int, height as int) {
                    Some(windowed(image, x as int, y as int, width as nat, height as nat))
                } else {
                    None
                },
        ),
{
    match open(image_data) {
        Err(e) => Err(e),
        Ok(image) => {
            if x as u64 + width as u64 > image.width() as u64 || y as u64 + height as u64
                > image.height() as u64 {
                untouched(image_data)
            } else {
                close(&image.crop(x, y, width, height))
            }
        },
    }
}

/// `r` is the answer of a resize of the encoded image `image_data`: the
/// report that the input is no image; the input as it came, where the
/// resize is refused; else the encoding of an image that the resize may
/// give.
pub open spec fn resize_replies(
    r: Result<Vec<u8>, ImageError>,
    image_data: Seq<u8>,
    width: int,
    height: int,
) -> bool {
    match decoded(image_data) {
        None => r matches Err(e) && e == ImageError::Decode,
        Some(image) => if resize_refused(image, width, height) {
            r matches Ok(v) && v@ == image_data
        } else {
            exists|out: Raster| resizes(image, width, height, out) && encodes(r, out)
        },
    }
}

/// Resizes an encoded image; a resize that is refused gives the input back
/// as it came.
pub fn resize(image_data: &[u8], width: u32, height: u32) -> (r: Result<Vec<u8>, ImageError>)
    ensures
        resize_replies(r, image_data@, width as int, height as int),
{
    match open(image_data) {
        Err(e) => Err(e),
        Ok(image) => match image.try_resize(width, height) {
            None => untouched(image_data),
            Some(out) => close(&out),
        },
    }
}

/// Rotates an encoded image by `angle` (in millionths of a degree), given
/// the cosine and sine of the angle (in millionths); a rotation that is
/// refused gives the input back as it came.
pub fn rotate_arbitrary(image_data: &[u8], angle: i64, cos: i64, sin: i64) -> (r: Result<
    Vec<u8>,
    ImageError,
>)
    ensures
        replies(
            r,
            image_data@,
            |image: Raster|
                if rotation_refused(image, angle as int, cos as int, sin as int) {
                    None
                } else {
                    Some(rotated(image, angle as int, cos as int, sin as int))
                },
        ),
{
    match open(image_data) {
        Err(e) => Err(e),
        Ok(image) => match image.try_rotate(angle, cos, sin) {
            None => untouched(image_data),
            Some(out) => close(&out),
        },
    }
}

} // verus!
