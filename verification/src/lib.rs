//! A tiny image library: a color codec that packs four 8-bit channels into a
//! 32-bit pixel, a serializer for the binary PPM image format, and a gradient
//! generator that fills a framebuffer with a red/green color ramp.

pub mod codec;
pub mod gradient;
pub mod ppm;
