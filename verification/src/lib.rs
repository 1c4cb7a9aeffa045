//! Hides a short ASCII text in the least significant bit of the red channel of
//! an RGB image, one bit per pixel in row-major order, and recovers it.
//!
//! [`embed`] and [`extract`] work on a [`PixelGrid`] in memory;
//! [`encode_lossless`] and [`decode_lossless`] take an encoded image instead
//! and decode it first. Nothing here touches a file.

pub mod decoder;
pub mod encoder;
pub mod error;
pub mod format;
pub mod grid;
pub mod laws;
pub mod trusted;

pub use decoder::{decode_lossless, extract};
pub use encoder::{embed, encode_lossless};
pub use error::{DecodeError, EncodeError};
pub use grid::PixelGrid;
