//! Failures of the operations that work on encoded images.

use vstd::prelude::*;

verus! {

/// Why an operation on an encoded image gave no result.
#[derive(Clone, Copy, Debug, PartialEq, Eq, Structural)]
pub enum ImageError {
    /// The input bytes are not an image in a supported container format.
    Decode,
    /// The result could not be written as a PNG image.
    Encode,
}

} // verus!
