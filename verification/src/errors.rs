//! Typed errors for the codec and decoder layers. Connection-level failures
//! (resolution, connect, read, write) belong to the caller that owns the
//! socket; the library only classifies what can go wrong with bytes.

use vstd::prelude::*;

verus! {

/// A failure while reading one of the wire primitives.
#[derive(Clone, Copy, Debug, PartialEq, Eq, Structural)]
pub enum CodecError {
    /// A variable-length integer ran past bit 31 without terminating:
    /// five bytes were read and every one carried the continuation bit.
    VarIntTooLong,
    /// The byte source ended before the value it promised was complete.
    UnexpectedEnd,
    /// A string prefix declared a negative byte length.
    NegativeLength,
    /// String bytes are not valid UTF-8.
    InvalidUtf8,
}

/// A failure while decoding a status-response frame into the model.
#[derive(Clone, Copy, Debug, PartialEq, Eq, Structural)]
pub enum DecodeError {
    /// The frame's length prefix, packet id, or string payload is malformed.
    Codec(CodecError),
    /// The payload text is not a well-formed JSON document.
    Json,
    /// The document is well-formed JSON but does not have the shape of a
    /// status response (a required field is missing or has the wrong type,
    /// a count is out of range, or the rich-text tree nests too deeply).
    Schema,
}

impl CodecError {
    /// A short human-readable description.
    pub fn describe(&self) -> (r: &'static str)
        ensures
            r@.len() > 0,
    {
        proof {
            reveal_strlit("VarInt is too big");
            reveal_strlit("Invalid input buffer");
            reveal_strlit("String length is negative");
            reveal_strlit("String bytes are not valid UTF-8");
        }
        match self {
            CodecError::VarIntTooLong => "VarInt is too big",
            CodecError::UnexpectedEnd => "Invalid input buffer",
            CodecError::NegativeLength => "String length is negative",
            CodecError::InvalidUtf8 => "String bytes are not valid UTF-8",
        }
    }
}

impl DecodeError {
    /// A short human-readable description.
    pub fn describe(&self) -> (r: &'static str)
        ensures
            r@.len() > 0,
    {
        proof {
            reveal_strlit("Payload is not valid JSON");
            reveal_strlit("Document is not a status response");
        }
        match self {
            DecodeError::Codec(e) => e.describe(),
            DecodeError::Json => "Payload is not valid JSON",
            DecodeError::Schema => "Document is not a status response",
        }
    }
}

} // verus!
