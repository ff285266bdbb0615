//! The error surface of the codec.

use vstd::prelude::*;

verus! {

/// Why reading a message from a peer failed.
///
/// Faults stay local to the exchange they occur on: a malformed or hostile
/// message rejects only that message and never destabilizes the node.
#[derive(Clone, Copy, Debug, PartialEq, Eq, Structural)]
pub enum CodecError {
    /// The input ended before the message was complete: the stream was
    /// truncated or closed mid-message (a transport-level fault).
    Truncated,
    /// A variable-length integer in the input does not fit in 64 bits or
    /// runs past the longest accepted encoding (a data-format fault).
    LengthOverflow,
    /// The declared response length exceeds the protocol's size ceiling.
    /// Raised before any buffer proportional to the declared size exists.
    SizeLimitExceeded,
    /// The payload bytes do not form a well-formed message.
    Malformed,
}

impl CodecError {
    /// A short human-readable description, for logging by the caller.
    pub fn describe(&self) -> (r: &'static str)
        ensures
            r@ == self.describe_spec(),
    {
        match self {
            CodecError::Truncated => "input ended before the message was complete",
            CodecError::LengthOverflow => "length prefix does not fit in 64 bits",
            CodecError::SizeLimitExceeded => "declared length exceeds the protocol size limit",
            CodecError::Malformed => "malformed message payload",
        }
    }

    /// What [`CodecError::describe`] returns for each variant.
    pub open spec fn describe_spec(self) -> Seq<char> {
        match self {
            CodecError::Truncated => "input ended before the message was complete"@,
            CodecError::LengthOverflow => "length prefix does not fit in 64 bits"@,
            CodecError::SizeLimitExceeded => "declared length exceeds the protocol size limit"@,
            CodecError::Malformed => "malformed message payload"@,
        }
    }
}

} // verus!
