//! Attestations: signed claims about a subject, the evidence policies
//! are evaluated against.

use vstd::prelude::*;
use crate::env::{fresh_id, now_timestamp};

verus! {

/// What an attestation speaks about.
#[derive(Debug, Clone, Copy, PartialEq, Eq, Structural)]
pub enum SubjectType {
    Commit,
    Artifact,
    Deployment,
}

/// The subject of an attestation: its kind, name and content digest.
#[derive(Debug, Clone, PartialEq)]
pub struct Subject {
    pub type_: SubjectType,
    pub name: String,
    pub digest: String,
}

/// One signature over an attestation.
#[derive(Debug, Clone, PartialEq)]
pub struct Signature {
    pub signer: String,
    pub signature: String,
}

/// A signed claim about a subject: when it was made, when it expires,
/// who signed it, arbitrary claims, and weak references by id to the
/// attestations it derives from.  Timestamps are seconds since the Unix
/// epoch.
#[derive(Debug, Clone, PartialEq)]
pub struct Attestation {
    pub id: String,
    pub subject: Subject,
    pub timestamp: i64,
    pub expiration: Option<i64>,
    pub signatures: Vec<Signature>,
    pub claims: Vec<(String, serde_json::Value)>,
    pub parent_attestations: Vec<String>,
}

impl Attestation {
    /// A fresh attestation about `subject` carrying `claims`: no
    /// expiration, no signatures, no parents.  Its identifier and
    /// timestamp come from the environment.
    pub fn new(subject: Subject, claims: Vec<(String, serde_json::Value)>) -> (r: Attestation)
        ensures
            r.subject == subject,
            r.expiration is None,
            r.signatures@.len() == 0,
            r.claims == claims,
            r.parent_attestations@.len() == 0,
    {
        Attestation {
            id: fresh_id(),
            subject,
            timestamp: now_timestamp(),
            expiration: None,
            signatures: Vec::new(),
            claims,
            parent_attestations: Vec::new(),
        }
    }

    /// Appends a signature; existing signatures and everything else are
    /// kept.
    pub fn add_signature(&mut self, signer: String, signature: String)
        ensures
            final(self).signatures@ == old(self).signatures@.push(
                Signature { signer, signature },
            ),
            *final(self) == (Attestation { signatures: final(self).signatures, ..*old(self) }),
    {
        self.signatures.push(Signature { signer, signature });
    }
}

} // verus!
