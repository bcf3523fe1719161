//! Conversion of raster images into pixel buffers for small LCD panels.
//!
//! The target size is chosen from the source orientation and the caller's
//! requests, the picture is resampled by the `image` crate, and the pixels are
//! packed either as a one-bit-per-pixel monochrome bitmap or as RGB565 words,
//! which are then laid out as a C header.

pub mod geometry;
pub mod encoding;
pub mod picture;
pub mod header;
