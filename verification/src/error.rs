//! The error type shared by every component.

use vstd::prelude::*;

verus! {

/// The error of a JSON parse, carried through unchanged.
#[verifier::external_type_specification]
#[verifier::external_body]
pub struct ExSerdeJsonError(serde_json::Error);

/// An error of any other origin, carried through unchanged.
#[verifier::external_type_specification]
#[verifier::external_body]
pub struct ExAnyhowError(anyhow::Error);

/// What can go wrong in the assurance stack.
#[derive(Debug)]
pub enum AssuranceError {
    /// Entity resolution failed.
    Resolution(String),
    /// Retrieval failed.
    Retrieval(String),
    /// An attestation could not be produced or checked.
    Attestation(String),
    /// A completion backend failed.
    Backend(String),
    /// A JSON document could not be read.
    Serde(serde_json::Error),
    /// Anything else.
    Other(anyhow::Error),
}

} // verus!
