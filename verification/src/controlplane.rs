//! Request, response and error shapes of the control-plane surface.
//! The routing layer around the library marshals between the wire and
//! these plain types.

use vstd::prelude::*;
use crate::attestation::{Signature, Subject};

verus! {

/// Why a control-plane operation failed.
#[derive(Debug, Clone, PartialEq)]
pub enum ControlPlaneError {
    PolicyRepositoryError(String),
    AttestationStorageError(String),
    NoPolicyFound,
}

impl ControlPlaneError {
    /// A human-readable description of the failure.
    pub fn message(&self) -> (r: String)
        ensures
            self matches ControlPlaneError::PolicyRepositoryError(s) ==> r@
                == "Policy repository error: "@ + s@,
            self matches ControlPlaneError::AttestationStorageError(s) ==> r@
                == "Attestation storage error: "@ + s@,
            self is NoPolicyFound ==> r@ == "No policy found for component"@,
    {
        match self {
            ControlPlaneError::PolicyRepositoryError(s) => String::from_str(
                "Policy repository error: ",
            ).concat(s.as_str()),
            ControlPlaneError::AttestationStorageError(s) => String::from_str(
                "Attestation storage error: ",
            ).concat(s.as_str()),
            ControlPlaneError::NoPolicyFound => String::from_str("No policy found for component"),
        }
    }
}

/// A client's request to create an attestation; the server fills in the
/// identifier and timestamp.  Timestamps are seconds since the Unix
/// epoch; parent attestations are referenced by client-provided ids.
#[derive(Debug, Clone, PartialEq)]
pub struct AttestationCreateRequest {
    pub subject: Subject,
    pub expiration: Option<i64>,
    pub signatures: Vec<Signature>,
    pub claims: Vec<(String, serde_json::Value)>,
    pub parent_attestations: Vec<String>,
}

/// A client's request to create a namespace at a '/'-delimited path.
#[derive(Debug, Clone, PartialEq)]
pub struct NamespaceCreateRequest {
    pub namespace: String,
}

/// Acknowledgement that a namespace was created.
#[derive(Debug, Clone, Copy, PartialEq, Eq, Structural)]
pub struct NamespaceCreateResponse;

/// Why a namespace could not be created.
#[derive(Debug, Clone, Copy, PartialEq, Eq, Structural)]
pub enum NamespaceCreateError {
    InvalidPath,
}

} // verus!
