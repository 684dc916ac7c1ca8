//! Shared steps of the operations that take and give encoded images.

use vstd::prelude::*;
use crate::buffer::PixelBuffer;
use crate::codec::{decoded, encodes, load_image, to_bytes};
use crate::error::ImageError;

verus! {

/// Decodes an image, or reports that the bytes are none.
pub(crate) fn open(image_data: &[u8]) -> (r: Result<PixelBuffer, ImageError>)
    ensures
        match r {
            Ok(image) => decoded(image_data@) == Some(image@) && image@.wf(),
            Err(e) => decoded(image_data@) is None && e == ImageError::Decode,
        },
{
    match load_image(image_data) {
        Some(image) => Ok(image),
        None => Err(ImageError::Decode),
    }
}

/// Encodes an image as PNG, or reports that it could not be written.
pub(crate) fn close(image: &PixelBuffer) -> (r: Result<Vec<u8>, ImageError>)
    ensures
        encodes(r, image@),
{
    match to_bytes(image) {
        Some(bytes) => Ok(bytes),
        None => Err(ImageError::Encode),
    }
}

/// The input as it came: the answer of an operation that has nothing to
/// do.
pub(crate) fn untouched(image_data: &[u8]) -> (r: Result<Vec<u8>, ImageError>)
    ensures
        r matches Ok(out) && out@ == image_data@,
{
    Ok(vstd::slice::slice_to_vec(image_data))
}

} // verus!
