//! Verified core of a Mandelbrot rendering service.
//!
//! The library covers the parts of the service that are pure data logic:
//! decoding the textual request, partitioning a raster into row bands,
//! assembling band results into the raster buffer, turning escape-time
//! results into pixel intensities, and framing the raster for the PNG
//! codec.  Floating-point plane arithmetic and socket I/O live outside
//! the library, in the surrounding application.

pub mod bands;
pub mod encode;
pub mod escape;
pub mod parse;
pub mod raster;
pub mod render;
pub mod request;
