//! The ways in which issuance and decoding fail.
use vstd::prelude::*;

verus! {

/// Why an operation of this library was refused.
#[derive(Clone, Copy, PartialEq, Eq, Debug)]
pub enum CredentialError {
    /// A key pair was asked for with an attribute count other than three or four.
    InvalidAttributeMode,
    /// The credential core was handed more than four attribute points.
    TooManyAttributes,
    /// Bytes were not the canonical encoding of the structure asked for.
    MalformedEncoding,
    /// The embedded system parameters did not decode.
    ParameterMismatch,
}

} // verus!
