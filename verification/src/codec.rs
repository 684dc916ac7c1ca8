//! The boundary to the `image` crate: decoding, PNG encoding and the
//! whole-image operations that the crate provides. Nothing in this module is
//! proved; each contract restates what the called function does.

use vstd::prelude::*;
use crate::buffer::{PixelBuffer, Raster};
use crate::error::ImageError;
use crate::fixed::clamp_int;

verus! {

/// The image that the decoder of the `image` crate reads from `bytes`,
/// converted to 8-bit RGB; `None` where it reads none.
pub uninterp spec fn decoded(bytes: Seq<u8>) -> Option<Raster>;

/// The bytes that the PNG encoder of the `image` crate writes for an
/// image; `None` where it writes none.
pub uninterp spec fn png_encoded(image: Raster) -> Option<Seq<u8>>;

/// The luminance that the `image` crate assigns to an RGB pixel.
pub open spec fn luma(r: int, g: int, b: int) -> int {
    (2126 * r + 7152 * g + 722 * b) / 10000
}

/// The image turned a quarter turn clockwise.
pub open spec fn quarter_turned(src: Raster) -> Raster {
    Raster::from_fn(src.height, src.width, |x: int, y: int| src.pixel(y, src.height - 1 - x))
}

/// The image turned half a turn.
pub open spec fn half_turned(src: Raster) -> Raster {
    Raster::from_fn(
        src.width,
        src.height,
        |x: int, y: int| src.pixel(src.width - 1 - x, src.height - 1 - y),
    )
}

/// The image turned three quarter turns clockwise.
pub open spec fn three_quarter_turned(src: Raster) -> Raster {
    Raster::from_fn(src.height, src.width, |x: int, y: int| src.pixel(src.width - 1 - y, x))
}

/// The image mirrored left to right.
pub open spec fn mirrored(src: Raster) -> Raster {
    Raster::from_fn(src.width, src.height, |x: int, y: int| src.pixel(src.width - 1 - x, y))
}

/// The image turned upside down.
pub open spec fn upside_down(src: Raster) -> Raster {
    Raster::from_fn(src.width, src.height, |x: int, y: int| src.pixel(x, src.height - 1 - y))
}

/// The `width` by `height` window of the image whose top left corner is at
/// `(left, top)`.
pub open spec fn windowed(src: Raster, left: int, top: int, width: nat, height: nat) -> Raster {
    Raster::from_fn(width, height, |x: int, y: int| src.pixel(left + x, top + y))
}

/// The image with `value` added to every channel, limited to a byte.
pub open spec fn brightened(src: Raster, value: int) -> Raster {
    Raster {
        width: src.width,
        height: src.height,
        data: Seq::new(src.data.len(), |i: int| clamp_int(src.data[i] + value, 0, 255) as u8),
    }
}

/// `r` is the answer of an operation whose result is `out`: the PNG
/// encoding of `out`, or the report that it has none.
pub open spec fn encodes(r: Result<Vec<u8>, ImageError>, out: Raster) -> bool {
    match png_encoded(out) {
        Some(bytes) => r matches Ok(v) && v@ == bytes,
        None => r matches Err(e) && e == ImageError::Encode,
    }
}

/// `r` is the answer of an operation on the encoded image `image_data`:
/// the report that the input is no image; or, where `edit` gives nothing
/// for the image read, the input as it came; or the encoding of what `edit`
/// gives.
pub open spec fn replies(
    r: Result<Vec<u8>, ImageError>,
    image_data: Seq<u8>,
    edit: spec_fn(Raster) -> Option<Raster>,
) -> bool {
    match decoded(image_data) {
        None => r matches Err(e) && e == ImageError::Decode,
        Some(image) => match edit(image) {
            None => r matches Ok(v) && v@ == image_data,
            Some(out) => encodes(r, out),
        },
    }
}

/// Decodes an image held in memory into 8-bit RGB. Calls
/// `image::guess_format`, which tells the container format from the leading
/// bytes, `image::load_from_memory_with_format` and
/// `DynamicImage::into_rgb8`. `None` stands for any error of the two. The
/// pixels are named, not stated: they are whatever the decoder of the
/// format reads, a function of the bytes alone. Every buffer that comes out
/// holds three bytes per pixel.
#[verifier::external_body]
pub fn load_image(image_data: &[u8]) -> (r: Option<PixelBuffer>)
    ensures
        match r {
            Some(b) => decoded(image_data@) == Some(b@) && b@.wf(),
            None => decoded(image_data@) is None,
        },
{
    let format = image::guess_format(image_data).ok()?;
    let rgb = image::load_from_memory_with_format(image_data, format).ok()?.into_rgb8();
    Some(PixelBuffer { width: rgb.width(), height: rgb.height(), data: rgb.into_raw() })
}

/// Encodes an image as PNG. Calls `DynamicImage::write_to` with
/// `ImageFormat::Png` on a cursor over a vector. `None` stands for any error
/// of the encoder. The bytes are named, not stated: they are a function of
/// the image alone.
#[verifier::external_body]
pub fn to_bytes(img: &PixelBuffer) -> (r: Option<Vec<u8>>)
    ensures
        match r {
            Some(v) => png_encoded(img@) == Some(v@),
            None => png_encoded(img@) is None,
        },
{
    let rgb = image::RgbImage::from_raw(img.width, img.height, img.data.clone())?;
    let mut out = std::io::Cursor::new(Vec::new());
    match image::DynamicImage::ImageRgb8(rgb).write_to(&mut out, image::ImageFormat::Png) {
        Ok(()) => Some(out.into_inner()),
        Err(_) => None,
    }
}

/// `image::imageops::rotate90`: the pixel at `(x, y)` of the source lands at
/// `(height - 1 - y, x)` of a buffer with width and height exchanged.
#[verifier::external_body]
pub(crate) fn quarter_turn(img: &PixelBuffer) -> (out: PixelBuffer)
    ensures
        out@ == quarter_turned(img@),
        out@.wf(),
{
    let src = image::RgbImage::from_raw(img.width, img.height, img.data.clone()).unwrap();
    let dst = image::imageops::rotate90(&src);
    PixelBuffer { width: dst.width(), height: dst.height(), data: dst.into_raw() }
}

/// `image::imageops::rotate180`: the pixel at `(x, y)` of the source lands at
/// `(width - 1 - x, height - 1 - y)` of a buffer of the same shape.
#[verifier::external_body]
pub(crate) fn half_turn(img: &PixelBuffer) -> (out: PixelBuffer)
    ensures
        out@ == half_turned(img@),
        out@.wf(),
{
    let src = image::RgbImage::from_raw(img.width, img.height, img.data.clone()).unwrap();
    let dst = image::imageops::rotate180(&src);
    PixelBuffer { width: dst.width(), height: dst.height(), data: dst.into_raw() }
}

/// `image::imageops::rotate270`: the pixel at `(x, y)` of the source lands at
/// `(y, width - 1 - x)` of a buffer with width and height exchanged.
#[verifier::external_body]
pub(crate) fn three_quarter_turn(img: &PixelBuffer) -> (out: PixelBuffer)
    ensures
        out@ == three_quarter_turned(img@),
        out@.wf(),
{
    let src = image::RgbImage::from_raw(img.width, img.height, img.data.clone()).unwrap();
    let dst = image::imageops::rotate270(&src);
    PixelBuffer { width: dst.width(), height: dst.height(), data: dst.into_raw() }
}

/// `image::imageops::flip_horizontal`: the pixel at `(x, y)` of the source
/// lands at `(width - 1 - x, y)`.
#[verifier::external_body]
pub(crate) fn mirror(img: &PixelBuffer) -> (out: PixelBuffer)
    ensures
        out@ == mirrored(img@),
        out@.wf(),
{
    let src = image::RgbImage::from_raw(img.width, img.height, img.data.clone()).unwrap();
    let dst = image::imageops::flip_horizontal(&src);
    PixelBuffer { width: dst.width(), height: dst.height(), data: dst.into_raw() }
}

/// `image::imageops::flip_vertical`: the pixel at `(x, y)` of the source
/// lands at `(x, height - 1 - y)`.
#[verifier::external_body]
pub(crate) fn turn_upside_down(img: &PixelBuffer) -> (out: PixelBuffer)
    ensures
        out@ == upside_down(img@),
        out@.wf(),
{
    let src = image::RgbImage::from_raw(img.width, img.height, img.data.clone()).unwrap();
    let dst = image::imageops::flip_vertical(&src);
    PixelBuffer { width: dst.width(), height: dst.height(), data: dst.into_raw() }
}

/// `image::imageops::crop_imm` followed by `SubImage::to_image`: a copy of
/// the window of the given size at `(left, top)`. The crate clips a window
/// that leaves the image; such windows are left out here.
#[verifier::external_body]
pub(crate) fn window(img: &PixelBuffer, left: u32, top: u32, width: u32, height: u32) -> (out:
    PixelBuffer)
    requires
        left + width <= img@.width,
        top + height <= img@.height,
    ensures
        out@ == windowed(img@, left as int, top as int, width as nat, height as nat),
        out@.wf(),
{
    let src = image::RgbImage::from_raw(img.width, img.height, img.data.clone()).unwrap();
    let dst = image::imageops::crop_imm(&src, left, top, width, height).to_image();
    PixelBuffer { width: dst.width(), height: dst.height(), data: dst.into_raw() }
}

/// `image::imageops::brighten`: adds `value` to every channel and limits the
/// sum to 0..=255. The crate adds in `i32`; values that could overflow there
/// are left out.
#[verifier::external_body]
pub(crate) fn brighten(img: &PixelBuffer, value: i32) -> (out: PixelBuffer)
    requires
        -255 <= value <= 255,
    ensures
        out@ == brightened(img@, value as int),
        out@.wf(),
{
    let src = image::RgbImage::from_raw(img.width, img.height, img.data.clone()).unwrap();
    let dst = image::imageops::brighten(&src, value);
    PixelBuffer { width: dst.width(), height: dst.height(), data: dst.into_raw() }
}

/// `image::imageops::grayscale`: one byte per pixel, row by row, each the
/// luminance `(2126 r + 7152 g + 722 b) / 10000` of its pixel.
#[verifier::external_body]
pub(crate) fn luma_plane(img: &PixelBuffer) -> (out: Vec<u8>)
    ensures
        out@.len() == img@.width * img@.height,
        forall|i: int|
            0 <= i < out@.len() ==> #[trigger] out@[i] == luma(
                img@.data[3 * i] as int,
                img@.data[3 * i + 1] as int,
                img@.data[3 * i + 2] as int,
            ),
{
    let src = image::RgbImage::from_raw(img.width, img.height, img.data.clone()).unwrap();
    image::imageops::grayscale(&src).into_raw()
}

/// `image::imageops::huerotate`: turns the hue of every pixel by `degrees`
/// with a colour matrix made of the floating-point cosine and sine of the
/// angle. Only the shape of the result is claimed.
#[verifier::external_body]
pub(crate) fn huerotate(img: &PixelBuffer, degrees: i32) -> (out: PixelBuffer)
    ensures
        out@.wf(),
        out@.same_shape(img@),
{
    let src = image::RgbImage::from_raw(img.width, img.height, img.data.clone()).unwrap();
    let dst = image::imageops::huerotate(&src, degrees);
    PixelBuffer { width: dst.width(), height: dst.height(), data: dst.into_raw() }
}

/// A shape that fits within `width` by `height` and touches one of the
/// two bounds.
pub open spec fn fits_within(out: Raster, width: int, height: int) -> bool {
    &&& 1 <= out.width <= width
    &&& 1 <= out.height <= height
    &&& (out.width == width || out.height == height)
}

/// `out` may be what a resize of `src` to fit within `width` by `height`
/// gives: an image whose shape fits within the bounds and touches one, and
/// `src` itself where the bounds are the shape of `src`.
pub open spec fn resizes(src: Raster, width: int, height: int, out: Raster) -> bool {
    &&& out.wf()
    &&& fits_within(out, width, height)
    &&& (width == src.width && height == src.height) ==> out == src
}

/// `DynamicImage::resize` with the Lanczos filter of window 3: scales the
/// image, keeping its aspect ratio, to the largest size that fits within
/// `width` by `height`. The crate works in a buffer of sixteen bytes for
/// each pixel of the new height by the old width, and fills one of at most
/// the new shape; sizes beyond the largest allocation are left out. Where
/// the bounds are the shape of the image, the crate hands back a copy. Of
/// any other result only the shape is claimed, and of the shape only that
/// it fits and touches a bound: the pixels are floating-point sums.
#[verifier::external_body]
pub(crate) fn resample(img: &PixelBuffer, width: u32, height: u32) -> (out: PixelBuffer)
    requires
        width > 0,
        height > 0,
        img@.width > 0,
        img@.height > 0,
        16 * width * height <= isize::MAX,
        16 * img@.width * height <= isize::MAX,
    ensures
        resizes(img@, width as int, height as int, out@),
{
    let src = image::RgbImage::from_raw(img.width, img.height, img.data.clone()).unwrap();
    let dst = image::DynamicImage::ImageRgb8(src).resize(
        width,
        height,
        image::imageops::FilterType::Lanczos3,
    ).into_rgb8();
    PixelBuffer { width: dst.width(), height: dst.height(), data: dst.into_raw() }
}

} // verus!
