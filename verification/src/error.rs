//! The ways in which decoding can end without a result.

use vstd::prelude::*;

verus! {

/// A part of the format that this decoder recognises but does not decode.
#[derive(Debug, Clone, Copy, PartialEq, Eq, Structural)]
pub enum Unsupported {
    /// The large-range branch of the variable-length integer.
    LargeVarInt,
    /// An image that declares at least one extra channel.
    ExtraChannels,
    /// A colour encoding other than the default one.
    ColourEncoding,
    /// A tone mapping record.
    ToneMapping,
    /// A non-empty extensions bitmap.
    Extensions,
    /// A custom XYB colour matrix.
    CustomXybMatrix,
    /// A non-zero channel-weight mask.
    ChannelWeightMask,
    /// A frame that is not a regular frame.
    FrameType,
    /// A frame that is not coded in modular mode.
    FrameEncoding,
    /// A codestream split over partial-codestream boxes.
    PartialCodestream,
}

/// Why a decode stopped.
#[derive(Debug, Clone, Copy, PartialEq, Eq, Structural)]
pub enum JxlError {
    /// The input ended before the field or box being read was complete.
    Truncated,
    /// The codestream does not start with its 16-bit signature.
    InvalidCodestream,
    /// A box carries a type code outside the known vocabulary.
    UnknownBoxType,
    /// A box declares a length shorter than its own header.
    InvalidBoxLength,
    /// The payload of the signature box is not the expected one.
    InvalidSignature,
    /// The payload of the file-type box is not the expected one.
    InvalidFileType,
    /// A feature was met that this decoder does not handle.
    Unsupported(Unsupported),
}

/// The outcome of a decode with its value replaced by the value's view.
pub open spec fn view_of<T: View>(r: Result<T, JxlError>) -> Result<T::V, JxlError> {
    match r {
        Ok(value) => Ok(value@),
        Err(e) => Err(e),
    }
}

} // verus!
