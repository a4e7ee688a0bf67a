//! A verified image-resampling engine.
//!
//! Given a source raster and a target resolution, the engine produces a
//! resized raster using either nearest-neighbor sampling or separable
//! convolution filtering (box, bilinear, Hamming, Catmull-Rom, Mitchell,
//! Lanczos3). One algorithm operates over 8-bit and 16-bit images with one
//! to four interleaved channels and over 32-bit single-channel data.
//!
//! Filter weights are integers scaled by a fixed-point unit, so every
//! arithmetic step is exact and free of overflow by proof. The convolution
//! executors carry contracts that pin each output channel to the clamped,
//! rounded weighted sum of the source channels; every execution backend
//! satisfies the same contract, so backends agree bit for bit.
//!
//! An [`images::Image`] owns its byte buffer and serves as the full-region
//! view of itself: a `&Image` is the read-only view, a `&mut Image` the
//! mutable view that a resize call fills.

pub mod errors;
pub mod fixed;
pub mod pixels;
pub mod images;
pub mod filters;
pub mod coefficients;
pub mod cpu;
pub mod convolution;
pub mod nearest;
pub mod resizer;
