//! Perceptual image comparison: image buffers, colour look-up, and the
//! histogram pool that summarises an error map.
//!
//! Colour images read and write as 8-bit sRGB triples. Scalar images (error
//! maps) hold one fixed-point sample per pixel, with `SAMPLE_ONE` standing for
//! 1.0; every statistic of a pool is exact integer arithmetic on those samples.

pub mod aggregate;
pub mod histogram;
pub mod image;
pub mod magma;
pub mod percentile;
pub mod pool;
pub mod sample;
pub mod srgb;

pub use histogram::FlipHistogram;
pub use image::{FlipImageFloat, FlipImageRgb8};
pub use magma::magma_lut;
pub use pool::FlipPool;
pub use sample::SAMPLE_ONE;
