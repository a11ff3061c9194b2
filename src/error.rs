use vstd::prelude::*;

verus! {

/// Every way in which a codec operation can fail.
#[derive(Debug, Clone, Copy, PartialEq, Eq, Structural)]
pub enum CodecError {
    /// The compressed stream is malformed or truncated.
    InputFormat,
    /// The stream decodes to a native layout that has no conversion.
    UnsupportedLayout,
    /// An exclusive borrow was requested while another is outstanding.
    BorrowConflict,
    /// The key names no bitmap of the store, or the bitmap is not checked out.
    InvalidKey,
    /// Raster memory of the requested size cannot be addressed.
    AllocationFailure,
    /// The encoder is excluded from the enabled-codec set.
    CodecDisabled,
    /// The quantizer failed for a reason other than the quality floor.
    QuantizationFailure,
    /// The PNG writer refused the pixels.
    EncodeFailure,
    /// A row or buffer length disagrees with the dimensions: a defect, not bad input.
    InternalConsistency,
}

} // verus!
