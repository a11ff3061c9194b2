//! Codec boundary of an image pipeline: a JPEG decoder that fills canonical
//! BGRA bitmaps, a palette-quantizing PNG encoder with a true-color fallback,
//! and the keyed bitmap store that arbitrates exclusive access to rasters.
pub mod error;
pub mod info;
pub mod bitmap;
pub mod pixels;
pub mod jpeg_decoder;
pub mod pngquant;
