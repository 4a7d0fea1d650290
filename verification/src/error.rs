//! The ways in which decoding a PTP message can fail.

use vstd::prelude::*;

verus! {

/// Why a byte buffer was rejected by a decoder.
#[derive(Debug, Clone, Copy, PartialEq, Eq, Structural)]
pub enum DecodeError {
    /// The buffer ends before the last fixed field of what is being decoded.
    TooShort,
    /// The buffer does not have the exact length of the field being decoded.
    WrongLength,
    /// The low nibble of the first byte names no known message type.
    UnknownMessageType,
    /// The low nibble of the second byte is neither 1 nor 2.
    UnknownVersion,
    /// The header parses, but its version is not 2.
    UnsupportedVersion,
}

impl DecodeError {
    /// A short description of the error.
    pub fn message(&self) -> (text: &'static str)
        ensures
            text@ == self.message_text(),
    {
        match self {
            DecodeError::TooShort => "Packet too short",
            DecodeError::WrongLength => "Field has the wrong length",
            DecodeError::UnknownMessageType => "Unknown PTP message type",
            DecodeError::UnknownVersion => "Unknown PTP version",
            DecodeError::UnsupportedVersion => "Unsupported PTP version",
        }
    }

    /// The text of [`DecodeError::message`].
    pub open spec fn message_text(&self) -> Seq<char> {
        match self {
            DecodeError::TooShort => "Packet too short"@,
            DecodeError::WrongLength => "Field has the wrong length"@,
            DecodeError::UnknownMessageType => "Unknown PTP message type"@,
            DecodeError::UnknownVersion => "Unknown PTP version"@,
            DecodeError::UnsupportedVersion => "Unsupported PTP version"@,
        }
    }
}

} // verus!
