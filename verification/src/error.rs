//! The ways in which reading or writing a container can fail.

use vstd::prelude::*;

verus! {

/// Why a container could not be read or written.
#[derive(Debug, Clone, Copy, PartialEq, Eq, Structural)]
pub enum Error {
    /// The input is shorter than a header or does not start with the magic tag.
    UnrecognizedFormat,
    /// The block decoder refused the payload, or cannot be handed it on this
    /// platform.
    MalformedPayload,
    /// The block encoder produced nothing, or the input is too long for the
    /// size field.
    CompressionFailed,
    /// No buffer of the size asked for can exist on this platform.
    AllocationFailed,
}

impl Error {
    /// The text of [`Error::message`].
    pub open spec fn message_text(self) -> Seq<char> {
        match self {
            Error::UnrecognizedFormat => "Unrecognized input file"@,
            Error::MalformedPayload => "Malformed input file"@,
            Error::CompressionFailed => "Compression failed"@,
            Error::AllocationFailed => "Allocation failed"@,
        }
    }

    /// A short description for a human reader.
    pub fn message(&self) -> (text: &'static str)
        ensures
            text@ == self.message_text(),
    {
        match self {
            Error::UnrecognizedFormat => "Unrecognized input file",
            Error::MalformedPayload => "Malformed input file",
            Error::CompressionFailed => "Compression failed",
            Error::AllocationFailed => "Allocation failed",
        }
    }
}

} // verus!
