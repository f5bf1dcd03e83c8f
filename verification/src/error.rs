//! The failures the codec can report.

use vstd::prelude::*;

verus! {

/// What went wrong while decoding or materializing.
#[derive(Clone, Copy, Debug, PartialEq, Eq, Structural)]
pub enum Error {
    /// A text was not a non-negative base-10 integer.
    MalformedInteger,
    /// The textual form of a curve point lacked an expected delimiter.
    UnrecognizedPointFormat,
    /// The proving library supplied no default verifier parameters.
    VerifierParametersMissing,
    /// An image identifier was not a JSON array of at most eight 32-bit words.
    MalformedImageId,
    /// A seal was not a JSON array of exactly 256 bytes.
    MalformedSeal,
    /// A seal or a public input could not be brought into the verifier's form.
    ReceiptFormatError,
    /// The verifier rejected the proof.
    InvalidProof,
}

impl Error {
    /// A short description of the failure.
    pub fn message(&self) -> (r: &'static str)
        ensures
            r@ == self.message_text(),
    {
        match self {
            Error::MalformedInteger => "malformed integer",
            Error::UnrecognizedPointFormat => "unrecognized point format",
            Error::VerifierParametersMissing => "verifier parameters missing",
            Error::MalformedImageId => "malformed image id",
            Error::MalformedSeal => "malformed seal",
            Error::ReceiptFormatError => "receipt format error",
            Error::InvalidProof => "invalid proof",
        }
    }

    /// The description that `message` returns for each failure.
    pub open spec fn message_text(&self) -> Seq<char> {
        match self {
            Error::MalformedInteger => "malformed integer"@,
            Error::UnrecognizedPointFormat => "unrecognized point format"@,
            Error::VerifierParametersMissing => "verifier parameters missing"@,
            Error::MalformedImageId => "malformed image id"@,
            Error::MalformedSeal => "malformed seal"@,
            Error::ReceiptFormatError => "receipt format error"@,
            Error::InvalidProof => "invalid proof"@,
        }
    }
}

} // verus!
