//! The status of a release within its current phase.

use vstd::prelude::*;

verus! {

/// Fine-grained progress marker within a phase.  The same vocabulary is
/// reused across phases; which statuses are legal depends on the current
/// phase and is enforced by the transition operations on a release.
#[derive(Debug, Clone, PartialEq)]
pub enum ReleaseState {
    Draft,
    InProgress { started_by: String, started_at: i64 },
    Releasable { approved_by: String, approved_at: i64 },
    Released { release_notes: String, release_time: i64 },
    Deployed { environment: String, deployment_time: i64 },
    Revoked { reason: String, revocation_time: i64 },
    Custom(String),
}

/// The variant of a `ReleaseState` without its payload; transition errors
/// report the status a transition expected against the one it found.
#[derive(Debug, Clone, Copy, PartialEq, Eq, Structural)]
pub enum StatusKind {
    Draft,
    InProgress,
    Releasable,
    Released,
    Deployed,
    Revoked,
    Custom,
}

impl ReleaseState {
    /// The variant of this status, without its payload.
    pub open spec fn kind(&self) -> StatusKind {
        match self {
            ReleaseState::Draft => StatusKind::Draft,
            ReleaseState::InProgress { .. } => StatusKind::InProgress,
            ReleaseState::Releasable { .. } => StatusKind::Releasable,
            ReleaseState::Released { .. } => StatusKind::Released,
            ReleaseState::Deployed { .. } => StatusKind::Deployed,
            ReleaseState::Revoked { .. } => StatusKind::Revoked,
            ReleaseState::Custom(..) => StatusKind::Custom,
        }
    }

    /// The variant of this status, as a value a caller can keep.
    pub fn status_kind(&self) -> (k: StatusKind)
        ensures
            k == self.kind(),
    {
        match self {
            ReleaseState::Draft => StatusKind::Draft,
            ReleaseState::InProgress { .. } => StatusKind::InProgress,
            ReleaseState::Releasable { .. } => StatusKind::Releasable,
            ReleaseState::Released { .. } => StatusKind::Released,
            ReleaseState::Deployed { .. } => StatusKind::Deployed,
            ReleaseState::Revoked { .. } => StatusKind::Revoked,
            ReleaseState::Custom(..) => StatusKind::Custom,
        }
    }

    /// The display name of this status; a custom status names itself.
    pub open spec fn spec_name(&self) -> Seq<char> {
        match self {
            ReleaseState::Draft => "Draft"@,
            ReleaseState::InProgress { .. } => "InProgress"@,
            ReleaseState::Releasable { .. } => "Releasable"@,
            ReleaseState::Released { .. } => "Released"@,
            ReleaseState::Deployed { .. } => "Deployed"@,
            ReleaseState::Revoked { .. } => "Revoked"@,
            ReleaseState::Custom(name) => name@,
        }
    }

    /// The display name of this status; a custom status names itself.
    pub fn name(&self) -> (r: &str)
        ensures
            r@ == self.spec_name(),
    {
        match self {
            ReleaseState::Draft => "Draft",
            ReleaseState::InProgress { .. } => "InProgress",
            ReleaseState::Releasable { .. } => "Releasable",
            ReleaseState::Released { .. } => "Released",
            ReleaseState::Deployed { .. } => "Deployed",
            ReleaseState::Revoked { .. } => "Revoked",
            ReleaseState::Custom(name) => name.as_str(),
        }
    }
}

} // verus!
