use vstd::prelude::*;

verus! {

/// Why a capture request could not be resolved into a capture plan.
///
/// These are the only two failure modes of request resolution; either one
/// aborts the whole operation.
#[derive(Debug, PartialEq, Eq)]
pub enum ResolveError {
    /// The request named an output that is absent from the live output list.
    /// Carries the requested name.
    OutputNotFound(String),
    /// A geometry text (literal or read from standard input) is malformed.
    /// Carries the offending text.
    GeometryParse(String),
}

/// Why a finalize (crop) request was rejected.
#[derive(Debug, PartialEq, Eq)]
pub enum FinalizeError {
    /// The crop was not given as exactly four integers `x y w h`.
    BadCropSpec,
    /// The crop width or height is zero.
    EmptyCrop,
    /// `x + w` or `y + h` does not fit in 32 bits.
    CropOverflow,
    /// The crop rectangle does not lie inside the base image.
    /// Carries the image size and the rejected rectangle.
    CropOutOfBounds { image_width: u32, image_height: u32, x: u32, y: u32, width: u32, height: u32 },
}

/// Why a pixel buffer could not be encoded.
#[derive(Debug, PartialEq, Eq)]
pub enum EncodeError {
    /// The buffer length does not match the stated dimensions.
    BufferSizeMismatch { expected: u128, got: u128 },
    /// The encoder itself failed; carries its message.
    EncoderFailure(String),
}

} // verus!
