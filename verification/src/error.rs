//! Errors reported by the checked encoding and decoding entry points.

use vstd::prelude::*;

verus! {

/// An error found while validating the inputs of an encode or decode call.
///
/// Every variant reports a caller-input problem found before any byte is
/// written; no entry point leaves a partial write behind on error.
#[derive(Clone, Copy, Debug, PartialEq, Eq)]
pub enum Error {
    /// The image width or height is zero; nothing can be encoded.
    ZeroImageDimensions,
    /// The input buffer is shorter than the header or pixel region needs.
    InputBufferTooSmall,
    /// The output buffer is shorter than the computed write size.
    OutputBufferTooSmall,
    /// The header is not a valid Limg header (bad signature or zero
    /// dimensions).
    UnsupportedFormat,
}

} // verus!
