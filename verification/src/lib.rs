//! A verified Mandelbrot-set rasterizer.
//!
//! The escape-time kernel, the color mapper and the per-pixel raster fill are
//! verified down to the bytes they produce.  All arithmetic is 32.32 fixed
//! point, so every step of the computation is exact integer arithmetic that
//! the verifier can reason about.  The parallel distribution of the per-pixel
//! work is delegated to rayon behind a single trusted wrapper.

pub mod color;
pub mod fixed;
pub mod kernel;
pub mod params;
pub mod render;
