//! Errors reported by policy storage collaborators.

use vstd::prelude::*;

verus! {

/// Why a policy-repository operation failed.
#[derive(Debug, Clone, PartialEq)]
pub enum PolicyRepositoryError {
    StorageError(String),
    RetrievalError(String),
}

impl PolicyRepositoryError {
    /// A human-readable description of the failure.
    pub fn message(&self) -> (r: String)
        ensures
            self matches PolicyRepositoryError::StorageError(s) ==> r@
                == "Failed to store policy: "@ + s@,
            self matches PolicyRepositoryError::RetrievalError(s) ==> r@
                == "Failed to retrieve policy: "@ + s@,
    {
        match self {
            PolicyRepositoryError::StorageError(s) => String::from_str(
                "Failed to store policy: ",
            ).concat(s.as_str()),
            PolicyRepositoryError::RetrievalError(s) => String::from_str(
                "Failed to retrieve policy: ",
            ).concat(s.as_str()),
        }
    }
}

} // verus!
