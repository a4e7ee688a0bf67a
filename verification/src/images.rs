//! The image buffer.
//!
//! An [`Image`] owns a contiguous byte region together with a declared
//! width, height and pixel type. Rows are stored without padding, so the
//! row stride is `width * pixel_size`. The buffer doubles as the engine's
//! full-region view: a `&Image` is a read-only view, a `&mut Image` a
//! mutable one. [`Image::from_parts`] builds a view from raw parts without
//! checking that the declared size matches the byte length; a resize call
//! validates the declaration and rejects a mismatch before writing.

use vstd::prelude::*;

use crate::errors::ResizeError;
use crate::pixels::PixelType;

verus! {

/// Largest width or height the engine accepts.
pub const MAX_DIMENSION: usize = 0x100_0000;

/// An owned raster buffer with a declared geometry.
#[derive(Debug)]
pub struct Image {
    /// Declared width in pixels.
    pub width: usize,
    /// Declared height in pixels.
    pub height: usize,
    /// Layout of one pixel.
    pub pixel_type: PixelType,
    /// Row-major bytes, `width * pixel_size` per row, no padding.
    pub data: Vec<u8>,
}

/// A well-formed image: strictly positive dimensions within the engine's
/// limit, and a byte length that matches the declared geometry exactly.
pub open spec fn image_wf(img: Image) -> bool {
    &&& 1 <= img.width <= MAX_DIMENSION
    &&& 1 <= img.height <= MAX_DIMENSION
    &&& img.data.len() == img.width * img.height * img.pixel_type.pixel_size_spec()
}

impl Image {
    /// Create a zero-initialized image. Fails with `InvalidZeroDimension`
    /// exactly when `width` or `height` is zero, and with
    /// `InvalidBufferSize` exactly when a dimension is beyond
    /// [`MAX_DIMENSION`] or the buffer would not fit in memory.
    pub fn new(width: usize, height: usize, pixel_type: PixelType) -> (r: Result<
        Image,
        ResizeError,
    >)
        ensures
            (width == 0 || height == 0) <==> r == Result::<Image, ResizeError>::Err(
                ResizeError::InvalidZeroDimension,
            ),
            (width >= 1 && height >= 1 && (width > MAX_DIMENSION || height > MAX_DIMENSION || width
                * height * pixel_type.pixel_size_spec() > usize::MAX)) <==> r == Result::<
                Image,
                ResizeError,
            >::Err(ResizeError::InvalidBufferSize),
            r matches Ok(img) ==> {
                &&& image_wf(img)
                &&& img.width == width
                &&& img.height == height
                &&& img.pixel_type == pixel_type
                &&& forall|j: int| 0 <= j < img.data.len() ==> img.data@[j] == 0u8
            },
    {
        if width == 0 || height == 0 {
            return Err(ResizeError::InvalidZeroDimension);
        }
        if width > MAX_DIMENSION || height > MAX_DIMENSION {
            return Err(ResizeError::InvalidBufferSize);
        }
        let psz = pixel_type.pixel_size();
        proof {
            assert(width as int * height as int <= 0x1_0000_0000_0000 && (width as int
                * height as int) * psz as int <= 0x8_0000_0000_0000 && 0 <= width as int
                * height as int)
                by (nonlinear_arith)
                requires
                    1 <= width <= 0x100_0000,
                    1 <= height <= 0x100_0000,
                    1 <= psz <= 8,
            ;
        }
        let wh = (width as u64) * (height as u64);
        let bytes = wh * (psz as u64);
        if bytes > usize::MAX as u64 {
            return Err(ResizeError::InvalidBufferSize);
        }
        let len = bytes as usize;
        let mut data: Vec<u8> = Vec::new();
        while data.len() < len
            invariant
                data.len() <= len,
                forall|j: int| 0 <= j < data.len() ==> data@[j] == 0u8,
            decreases len - data.len(),
        {
            data.push(0u8);
        }
        Ok(Image { width, height, pixel_type, data })
    }

    /// Wrap caller-filled bytes. Fails with `InvalidZeroDimension` exactly
    /// when `width` or `height` is zero, and with `InvalidBufferSize`
    /// exactly when a dimension is beyond [`MAX_DIMENSION`] or the byte
    /// length does not equal `width * height * pixel_size`.
    pub fn from_vec(width: usize, height: usize, pixel_type: PixelType, data: Vec<u8>) -> (r:
        Result<Image, ResizeError>)
        ensures
            (width == 0 || height == 0) <==> r == Result::<Image, ResizeError>::Err(
                ResizeError::InvalidZeroDimension,
            ),
            (width >= 1 && height >= 1 && (width > MAX_DIMENSION || height > MAX_DIMENSION
                || data.len() != width * height * pixel_type.pixel_size_spec())) <==> r == Result::<
                Image,
                ResizeError,
            >::Err(ResizeError::InvalidBufferSize),
            r matches Ok(img) ==> {
                &&& image_wf(img)
                &&& img.width == width
                &&& img.height == height
                &&& img.pixel_type == pixel_type
                &&& img.data@ == data@
            },
    {
        if width == 0 || height == 0 {
            return Err(ResizeError::InvalidZeroDimension);
        }
        if width > MAX_DIMENSION || height > MAX_DIMENSION {
            return Err(ResizeError::InvalidBufferSize);
        }
        let psz = pixel_type.pixel_size();
        proof {
            assert(width as int * height as int <= 0x1_0000_0000_0000 && (width as int
                * height as int) * psz as int <= 0x8_0000_0000_0000 && 0 <= width as int
                * height as int)
                by (nonlinear_arith)
                requires
                    1 <= width <= 0x100_0000,
                    1 <= height <= 0x100_0000,
                    1 <= psz <= 8,
            ;
        }
        let bytes = (width as u64) * (height as u64) * (psz as u64);
        if (data.len() as u64) != bytes {
            return Err(ResizeError::InvalidBufferSize);
        }
        Ok(Image { width, height, pixel_type, data })
    }

    /// Wrap raw parts without any validation. The declared geometry may
    /// disagree with the byte length; a resize call checks the declaration
    /// and fails with `InvalidBufferSize` on a mismatch.
    pub fn from_parts(width: usize, height: usize, pixel_type: PixelType, data: Vec<u8>) -> (r:
        Image)
        ensures
            r.width == width,
            r.height == height,
            r.pixel_type == pixel_type,
            r.data@ == data@,
    {
        Image { width, height, pixel_type, data }
    }

    /// The declared width in pixels.
    pub fn width(&self) -> (r: usize)
        ensures
            r == self.width,
    {
        self.width
    }

    /// The declared height in pixels.
    pub fn height(&self) -> (r: usize)
        ensures
            r == self.height,
    {
        self.height
    }

    /// The pixel layout.
    pub fn pixel_type(&self) -> (r: PixelType)
        ensures
            r == self.pixel_type,
    {
        self.pixel_type
    }

    /// The raster bytes.
    pub fn buffer(&self) -> (r: &Vec<u8>)
        ensures
            r@ == self.data@,
    {
        &self.data
    }
}

} // verus!
