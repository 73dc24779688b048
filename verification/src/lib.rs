//! Webcam colorspace diagnostic library.
//!
//! Decodes a chroma-subsampled planar frame (NV12 layout) into an
//! interleaved RGB24 buffer under a chosen YCbCr transform standard and
//! quantization range, optionally mirrors it horizontally, and serializes
//! it byte-for-byte as an uncompressed BMP container.
pub mod bmp;
pub mod cli;
pub mod mirror;
pub mod pipeline;
pub mod platform;
pub mod text;
pub mod yuv;
