//! Stylising filter for RGB raster images: a compression-artifact simulator
//! (quantisation and row blockiness) followed by a luminance-bucketed
//! three-colour posterisation with optional random dithering.

pub mod smix64;
pub mod buffer;
pub mod comp;
pub mod filt;
pub mod codec;
pub mod file;
