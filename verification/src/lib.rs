//! Palette quantization and dithering of 8-bit RGB rasters.
//!
//! Every function here works on integers only and is verified against the
//! mathematical model stated in its contract.

pub mod color;
pub mod diffusion;
pub mod dithering;
pub mod effects;
pub mod palette;
pub mod raster;
