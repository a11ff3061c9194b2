use vstd::prelude::*;

verus! {

/// Pixel format of a decoded frame.
#[derive(Debug, Clone, Copy, PartialEq, Eq, Structural)]
pub enum PixelFormat {
    Bgra32,
    Bgr32,
    Bgr24,
    Gray8,
}

/// What a decoder reports about an image before decoding it.
pub struct ImageInfo {
    pub frame_decodes_into: PixelFormat,
    pub image_width: i32,
    pub image_height: i32,
    pub preferred_mime_type: String,
    pub preferred_extension: String,
    pub lossless: bool,
    pub multiple_frames: bool,
}

/// Where the encoded bytes of a result are found.
#[derive(Debug, Clone, Copy, PartialEq, Eq, Structural)]
pub enum ResultBytes {
    Elsewhere,
}

/// What an encoder reports after writing a frame.
pub struct EncodeResult {
    pub w: i32,
    pub h: i32,
    pub io_id: i32,
    pub bytes: ResultBytes,
    pub preferred_extension: String,
    pub preferred_mime_type: String,
}

/// A directive handed to a decoder before it decodes.
#[derive(Debug, Clone, Copy, PartialEq, Eq, Structural)]
pub enum DecoderCommand {
    DiscardColorProfile,
    IgnoreColorProfileErrors,
}

} // verus!
