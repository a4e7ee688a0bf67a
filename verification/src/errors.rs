use vstd::prelude::*;

verus! {

/// The failure conditions of the engine. All validation happens before any
/// pixel computation begins: a failing call performs no partial writes to
/// the destination buffer.
#[derive(Clone, Copy, Debug, PartialEq, Eq, Structural)]
pub enum ResizeError {
    /// An image was declared with a zero width or height.
    InvalidZeroDimension,
    /// Source and destination views carry different pixel types.
    PixelTypeMismatch,
    /// A view's byte length does not match width x height x pixel size,
    /// or a dimension lies beyond the engine's limit.
    InvalidBufferSize,
    /// A forced CPU extension is not supported by the detected capability.
    UnsupportedCpuExtension,
}

impl ResizeError {
    /// A short description of the failure.
    pub fn message(&self) -> (r: &'static str) {
        match self {
            ResizeError::InvalidZeroDimension => "image width and height must be non-zero",
            ResizeError::PixelTypeMismatch => "source and destination pixel types differ",
            ResizeError::InvalidBufferSize => "buffer size does not match image dimensions",
            ResizeError::UnsupportedCpuExtension => "requested CPU extension is not supported",
        }
    }
}

} // verus!
