//! Integer-only image kernels over packed 8-bit RGB buffers.
//!
//! Every kernel is an exact function of its arguments. A fractional
//! parameter is a fixed-point integer counted in millionths (see
//! [`fixed::UNIT`]): an amount of one half is `500_000`, an angle of ninety
//! degrees `90_000_000`. Where a formula needs a power, an exponential, a
//! cosine or a sine, the caller computes it and hands it over in the same
//! fixed point; what the kernels do with it is again exact.
//!
//! The kernels come in two layers. The methods of [`buffer::PixelBuffer`]
//! work on pixels and give a new buffer. The free functions of
//! [`adjustments`], [`filters`] and [`transforms`] take an encoded image,
//! decode it, apply the method of the same name and give the result back as
//! PNG. A parameter that asks for nothing, or that is refused, gives the
//! input bytes back as they came, the same in every function; the method of
//! the same name then gives a copy of the image.

pub mod fixed;
pub mod error;
pub mod buffer;
pub mod codec;
pub mod color;
pub mod lut;
pub mod tonal;
pub mod convolution;
pub mod histogram;
pub mod noise;
pub mod geometry;
pub mod vignette;
mod boundary;
pub mod transforms;
pub mod adjustments;
pub mod filters;
