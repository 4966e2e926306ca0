//! The release record and the guarded state machine that advances it.
//!
//! A release carries a two-dimensional state, `(phase, status)`, and only
//! a subset of the cross product is legal.  Every transition first checks
//! that the record's current pair matches the transition's precondition;
//! on mismatch it fails with a structured error and leaves the record
//! completely unchanged.  On success it atomically updates phase, status
//! and the phase-specific payloads together.

use vstd::prelude::*;
use crate::env::{fresh_id, now_timestamp};
use crate::phase::{
    BuildDetails, DeployDetails, DevelopmentDetails, PackageDetails, PhaseDetails, PhaseKind,
    SDLCPhase, SourceDetails,
};
use crate::sdlc_component::SDLCComponent;
use crate::state::{ReleaseState, StatusKind};

verus! {

/// Which required payload a transition found absent.
#[derive(Debug, Clone, Copy, PartialEq, Eq, Structural)]
pub enum MissingField {
    PhaseDetails,
    DeployDetails,
}

/// Why a transition was refused.  The record is never modified when a
/// transition returns one of these.
#[derive(Debug, Clone, Copy, PartialEq, Eq, Structural)]
pub enum TransitionError {
    /// The record is in a different phase than the transition requires.
    PhaseMismatch { expected: PhaseKind, actual: PhaseKind },
    /// The record is in the required phase but a different status.
    StatusMismatch { expected: StatusKind, actual: StatusKind },
    /// Required prior payload data is absent.
    MissingDetails { field: MissingField },
}

/// The entity under management: identity, provenance, current
/// `(phase, status)` pair, and phase-specific payloads.  Mutated
/// exclusively through the transition operations below; it is never
/// deleted by this subsystem.
#[derive(Debug, Clone, PartialEq)]
pub struct SDLCRelease {
    pub id: String,
    pub component: SDLCComponent,
    pub version: String,
    pub created_by: String,
    pub created_at: i64,
    pub commit_hash: Option<String>,
    pub dependencies: Vec<String>,
    pub phase_attestations: Vec<(String, String)>,
    pub state: ReleaseState,
    pub phase: SDLCPhase,
    pub phase_details: Option<PhaseDetails>,
}

/// The attestation id recorded for `key`, reading the association list
/// front to back.
pub open spec fn assoc_lookup(s: Seq<(String, String)>, key: Seq<char>) -> Option<Seq<char>>
    decreases s.len(),
{
    if s.len() == 0 {
        None
    } else if s[0].0@ == key {
        Some(s[0].1@)
    } else {
        assoc_lookup(s.drop_first(), key)
    }
}

/// The `(phase, status)` pairs reachable from a fresh record through the
/// transition table.
pub open spec fn state_pair_reachable(r: SDLCRelease) -> bool {
    ||| (r.phase is Development && (r.state is Draft || r.state is InProgress))
    ||| (r.phase is Source && (r.state is Draft || r.state is InProgress))
    ||| (r.phase is Build && (r.state is Draft || r.state is InProgress))
    ||| (r.phase is Package && (r.state is Draft || r.state is InProgress))
    ||| (r.phase is Deploy && (r.state is Releasable || r.state is Released || r.state is
    InProgress))
    ||| (r.phase is Runtime && (r.state is Deployed || r.state is Revoked))
}

/// Structural soundness of a record: its pair is reachable, and the
/// commit hash is unset until source review completes.
pub open spec fn wf_release(r: SDLCRelease) -> bool {
    &&& state_pair_reachable(r)
    &&& (r.phase is Development || r.phase is Source) ==> r.commit_hash is None
}

/// An empty payload bag.
pub open spec fn empty_details(d: PhaseDetails) -> bool {
    &&& d.development_details is None
    &&& d.source_details is None
    &&& d.build_details is None
    &&& d.package_details is None
    &&& d.deploy_details is None
    &&& d.runtime_details is None
    &&& d.custom_details@.len() == 0
}

// Payload updates performed by the transitions.  Each takes effect only
// when the bag is present, matching how records constructed without a
// bag pass through the transitions with their payloads untouched.
pub open spec fn with_development_details(
    pd: Option<PhaseDetails>,
    feature_list: Vec<String>,
) -> Option<PhaseDetails> {
    match pd {
        None => None,
        Some(d) => Some(
            PhaseDetails { development_details: Some(DevelopmentDetails { feature_list }), ..d },
        ),
    }
}

pub open spec fn with_development_and_source_cleared(pd: Option<PhaseDetails>) -> Option<
    PhaseDetails,
> {
    match pd {
        None => None,
        Some(d) => Some(PhaseDetails { development_details: None, source_details: None, ..d }),
    }
}

pub open spec fn with_source_details(pd: Option<PhaseDetails>, commit_hash: String) -> Option<
    PhaseDetails,
> {
    match pd {
        None => None,
        Some(d) => Some(PhaseDetails { source_details: Some(SourceDetails { commit_hash }), ..d }),
    }
}

pub open spec fn with_build_details(
    pd: Option<PhaseDetails>,
    build_id: String,
    t: i64,
) -> Option<PhaseDetails> {
    match pd {
        None => None,
        Some(d) => Some(
            PhaseDetails {
                build_details: Some(BuildDetails { build_id, build_timestamp: t }),
                ..d
            },
        ),
    }
}

pub open spec fn with_package_details(
    pd: Option<PhaseDetails>,
    artifact_hash: String,
    artifact_url: String,
) -> Option<PhaseDetails> {
    match pd {
        None => None,
        Some(d) => Some(
            PhaseDetails { package_details: Some(PackageDetails { artifact_hash, artifact_url }), ..d },
        ),
    }
}

pub open spec fn with_deploy_details(
    pd: Option<PhaseDetails>,
    deployment_id: String,
    environment: String,
) -> Option<PhaseDetails> {
    match pd {
        None => None,
        Some(d) => Some(
            PhaseDetails { deploy_details: Some(DeployDetails { deployment_id, environment }), ..d },
        ),
    }
}

// Guards: whether the record's current pair (and required payloads)
// admit each transition.
pub open spec fn can_start_development(r: SDLCRelease) -> bool {
    r.phase is Development && r.state is Draft
}

pub open spec fn can_complete_development(r: SDLCRelease) -> bool {
    r.phase is Development && r.state is InProgress
}

pub open spec fn can_start_source_review(r: SDLCRelease) -> bool {
    r.phase is Source && r.state is Draft
}

pub open spec fn can_complete_source_review(r: SDLCRelease) -> bool {
    r.phase is Source && r.state is InProgress
}

pub open spec fn can_start_build(r: SDLCRelease) -> bool {
    r.phase is Build && r.state is Draft
}

pub open spec fn can_complete_build(r: SDLCRelease) -> bool {
    r.phase is Build && r.state is InProgress
}

pub open spec fn can_start_packaging(r: SDLCRelease) -> bool {
    r.phase is Package && r.state is Draft
}

pub open spec fn can_complete_packaging(r: SDLCRelease) -> bool {
    r.phase is Package && r.state is InProgress
}

pub open spec fn can_release(r: SDLCRelease) -> bool {
    r.state is Releasable
}

pub open spec fn can_start_deployment(r: SDLCRelease) -> bool {
    r.phase is Deploy && r.state is Released
}

pub open spec fn can_complete_deployment(r: SDLCRelease) -> bool {
    &&& r.phase is Deploy
    &&& r.state is InProgress
    &&& r.phase_details matches Some(d) && d.deploy_details is Some
}

pub open spec fn can_revoke(r: SDLCRelease) -> bool {
    r.state is Deployed
}

// Step functions: the new record produced by each transition when its
// guard holds.  `t` is the clock reading the transition records;
// identities the transition invents (the packaging approver, the
// deployment id and actor) are passed in as well, so that each step is a
// total function of its arguments.
pub open spec fn start_development_step(
    r: SDLCRelease,
    started_by: String,
    feature_list: Vec<String>,
    t: i64,
) -> SDLCRelease {
    SDLCRelease {
        state: ReleaseState::InProgress { started_by, started_at: t },
        phase_details: with_development_details(r.phase_details, feature_list),
        ..r
    }
}

pub open spec fn complete_development_step(r: SDLCRelease) -> SDLCRelease {
    SDLCRelease {
        phase: SDLCPhase::Source,
        state: ReleaseState::Draft,
        phase_details: with_development_and_source_cleared(r.phase_details),
        ..r
    }
}

pub open spec fn start_source_review_step(r: SDLCRelease, started_by: String, t: i64) -> SDLCRelease {
    SDLCRelease { state: ReleaseState::InProgress { started_by, started_at: t }, ..r }
}

pub open spec fn complete_source_review_step(r: SDLCRelease, commit_hash: String) -> SDLCRelease {
    SDLCRelease {
        commit_hash: Some(commit_hash),
        phase: SDLCPhase::Build,
        state: ReleaseState::Draft,
        phase_details: with_source_details(r.phase_details, commit_hash),
        ..r
    }
}

pub open spec fn start_build_step(r: SDLCRelease, started_by: String, t: i64) -> SDLCRelease {
    SDLCRelease { state: ReleaseState::InProgress { started_by, started_at: t }, ..r }
}

pub open spec fn complete_build_step(r: SDLCRelease, build_id: String, t: i64) -> SDLCRelease {
    SDLCRelease {
        phase: SDLCPhase::Package,
        state: ReleaseState::Draft,
        phase_details: with_build_details(r.phase_details, build_id, t),
        ..r
    }
}

pub open spec fn start_packaging_step(r: SDLCRelease, started_by: String, t: i64) -> SDLCRelease {
    SDLCRelease { state: ReleaseState::InProgress { started_by, started_at: t }, ..r }
}

pub open spec fn complete_packaging_step(
    r: SDLCRelease,
    artifact_hash: String,
    artifact_url: String,
    approved_by: String,
    t: i64,
) -> SDLCRelease {
    SDLCRelease {
        phase: SDLCPhase::Deploy,
        state: ReleaseState::Releasable { approved_by, approved_at: t },
        phase_details: with_package_details(r.phase_details, artifact_hash, artifact_url),
        ..r
    }
}

pub open spec fn release_step(r: SDLCRelease, release_notes: String, t: i64) -> SDLCRelease {
    SDLCRelease { state: ReleaseState::Released { release_notes, release_time: t }, ..r }
}

pub open spec fn start_deployment_step(
    r: SDLCRelease,
    environment: String,
    deployment_id: String,
    started_by: String,
    t: i64,
) -> SDLCRelease {
    SDLCRelease {
        state: ReleaseState::InProgress { started_by, started_at: t },
        phase_details: with_deploy_details(r.phase_details, deployment_id, environment),
        ..r
    }
}

pub open spec fn complete_deployment_step(r: SDLCRelease, environment: String, t: i64) -> SDLCRelease {
    SDLCRelease {
        phase: SDLCPhase::Runtime,
        state: ReleaseState::Deployed { environment, deployment_time: t },
        ..r
    }
}

pub open spec fn revoke_step(r: SDLCRelease, reason: String, t: i64) -> SDLCRelease {
    SDLCRelease { state: ReleaseState::Revoked { reason, revocation_time: t }, ..r }
}

// Errors: what each transition reports when its guard fails.
pub open spec fn phase_status_error(
    r: SDLCRelease,
    expected_phase: PhaseKind,
    expected_status: StatusKind,
) -> TransitionError {
    if r.phase.kind() != expected_phase {
        TransitionError::PhaseMismatch { expected: expected_phase, actual: r.phase.kind() }
    } else {
        TransitionError::StatusMismatch { expected: expected_status, actual: r.state.kind() }
    }
}

pub open spec fn status_error(r: SDLCRelease, expected_status: StatusKind) -> TransitionError {
    TransitionError::StatusMismatch { expected: expected_status, actual: r.state.kind() }
}

pub open spec fn complete_deployment_error(r: SDLCRelease) -> TransitionError {
    if r.phase.kind() != PhaseKind::Deploy || !(r.state is InProgress) {
        phase_status_error(r, PhaseKind::Deploy, StatusKind::InProgress)
    } else if r.phase_details is None {
        TransitionError::MissingDetails { field: MissingField::PhaseDetails }
    } else {
        TransitionError::MissingDetails { field: MissingField::DeployDetails }
    }
}

impl SDLCRelease {
    /// A fresh record for `component` at `version`: Development phase,
    /// Draft status, no commit hash, no dependencies or attestations,
    /// and an empty payload bag.  Its identifier and creation time come
    /// from the environment.
    pub fn new(component: SDLCComponent, version: String, created_by: String) -> (r: SDLCRelease)
        ensures
            r.component == component,
            r.version == version,
            r.created_by == created_by,
            r.commit_hash is None,
            r.dependencies@.len() == 0,
            r.phase_attestations@.len() == 0,
            r.phase is Development,
            r.state is Draft,
            r.phase_details matches Some(d) && empty_details(d),
            wf_release(r),
    {
        SDLCRelease {
            id: fresh_id(),
            component,
            version,
            created_by,
            created_at: now_timestamp(),
            commit_hash: None,
            dependencies: Vec::new(),
            phase_attestations: Vec::new(),
            phase: SDLCPhase::Development,
            state: ReleaseState::Draft,
            phase_details: Some(PhaseDetails::new()),
        }
    }

    /// The record's identifier.
    pub fn id(&self) -> (r: &str)
        ensures
            r@ == self.id@,
    {
        self.id.as_str()
    }

    /// The record's version string.
    pub fn version(&self) -> (r: &str)
        ensures
            r@ == self.version@,
    {
        self.version.as_str()
    }

    /// The name of the record's current phase.
    pub fn phase_name(&self) -> (r: &str)
        ensures
            r@ == self.phase.spec_name(),
    {
        self.phase.name()
    }

    /// The name of the record's current status.
    pub fn state_name(&self) -> (r: &str)
        ensures
            r@ == self.state.spec_name(),
    {
        self.state.name()
    }

    /// The name of the component under release.
    pub fn component_name(&self) -> (r: &str)
        ensures
            r@ == self.component.spec_name(),
    {
        self.component.name()
    }

    /// Appends a dependency on another release.
    pub fn add_dependency(&mut self, dependency_id: String)
        ensures
            final(self).dependencies@ == old(self).dependencies@.push(dependency_id),
            *final(self) == (SDLCRelease { dependencies: final(self).dependencies, ..*old(self) }),
    {
        self.dependencies.push(dependency_id);
    }

    /// Records the attestation gating `phase_name`, replacing any earlier
    /// entry for that phase and leaving every other phase's entry as it
    /// was.
    pub fn add_phase_attestation(&mut self, phase_name: String, attestation_id: String)
        ensures
            assoc_lookup(final(self).phase_attestations@, phase_name@) == Some(attestation_id@),
            forall|k: Seq<char>|
                k != phase_name@ ==> assoc_lookup(final(self).phase_attestations@, k)
                    == assoc_lookup(old(self).phase_attestations@, k),
            *final(self) == (SDLCRelease {
                phase_attestations: final(self).phase_attestations,
                ..*old(self)
            }),
    {
        let found = find_key(&self.phase_attestations, phase_name.as_str());
        match found {
            Some(i) => {
                let ghost s = self.phase_attestations@;
                self.phase_attestations.remove(i);
                self.phase_attestations.insert(i, (phase_name, attestation_id));
                proof {
                    assert(self.phase_attestations@ =~= s.update(
                        i as int,
                        (phase_name, attestation_id),
                    ));
                    lemma_assoc_update(s, i as int, (phase_name, attestation_id), phase_name@);
                }
            },
            None => {
                let ghost s = self.phase_attestations@;
                self.phase_attestations.push((phase_name, attestation_id));
                proof {
                    lemma_assoc_absent(s, phase_name@);
                    lemma_assoc_push(s, (phase_name, attestation_id), phase_name@);
                }
            },
        }
    }

    /// Starts the Development phase: records who started it and the
    /// planned features.  Fails unless the record is at
    /// (Development, Draft).
    pub fn start_development(&mut self, started_by: String, feature_list: Vec<String>) -> (r:
        Result<(), TransitionError>)
        ensures
            r is Ok <==> can_start_development(*old(self)),
            r matches Err(e) ==> *final(self) == *old(self) && e == phase_status_error(
                *old(self),
                PhaseKind::Development,
                StatusKind::Draft,
            ),
            r is Ok ==> exists|t: i64|
                *final(self) == start_development_step(*old(self), started_by, feature_list, t),
            wf_release(*old(self)) && r is Ok ==> wf_release(*final(self)),
    {
        let ghost sb = started_by;
        let ghost fl = feature_list;
        let phase_ok = match &self.phase {
            SDLCPhase::Development => true,
            _ => false,
        };
        if !phase_ok {
            return Err(TransitionError::PhaseMismatch {
                expected: PhaseKind::Development,
                actual: self.phase.phase_kind(),
            });
        }
        let state_ok = match &self.state {
            ReleaseState::Draft => true,
            _ => false,
        };
        if !state_ok {
            return Err(TransitionError::StatusMismatch {
                expected: StatusKind::Draft,
                actual: self.state.status_kind(),
            });
        }
        let t = now_timestamp();
        self.state = ReleaseState::InProgress { started_by, started_at: t };
        match self.phase_details.take() {
            None => {},
            Some(mut d) => {
                d.development_details = Some(DevelopmentDetails { feature_list });
                self.phase_details = Some(d);
            },
        }
        proof {
            assert(*self == start_development_step(*old(self), sb, fl, t));
        }
        Ok(())
    }

    /// Completes the Development phase: moves to (Source, Draft) and
    /// clears the development and source payloads.  Fails unless the
    /// record is at (Development, InProgress).
    pub fn complete_development(&mut self) -> (r: Result<(), TransitionError>)
        ensures
            r is Ok <==> can_complete_development(*old(self)),
            r matches Err(e) ==> *final(self) == *old(self) && e == phase_status_error(
                *old(self),
                PhaseKind::Development,
                StatusKind::InProgress,
            ),
            r is Ok ==> *final(self) == complete_development_step(*old(self)),
            wf_release(*old(self)) && r is Ok ==> wf_release(*final(self)),
    {
        let phase_ok = match &self.phase {
            SDLCPhase::Development => true,
            _ => false,
        };
        if !phase_ok {
            return Err(TransitionError::PhaseMismatch {
                expected: PhaseKind::Development,
                actual: self.phase.phase_kind(),
            });
        }
        let state_ok = match &self.state {
            ReleaseState::InProgress { .. } => true,
            _ => false,
        };
        if !state_ok {
            return Err(TransitionError::StatusMismatch {
                expected: StatusKind::InProgress,
                actual: self.state.status_kind(),
            });
        }
        self.phase = SDLCPhase::Source;
        self.state = ReleaseState::Draft;
        match self.phase_details.take() {
            None => {},
            Some(mut d) => {
                d.development_details = None;
                d.source_details = None;
                self.phase_details = Some(d);
            },
        }
        Ok(())
    }

    /// Starts source review: records who took it up.  Fails unless the
    /// record is at (Source, Draft).
    pub fn start_source_review(&mut self, started_by: String) -> (r: Result<(), TransitionError>)
        ensures
            r is Ok <==> can_start_source_review(*old(self)),
            r matches Err(e) ==> *final(self) == *old(self) && e == phase_status_error(
                *old(self),
                PhaseKind::Source,
                StatusKind::Draft,
            ),
            r is Ok ==> exists|t: i64|
                *final(self) == start_source_review_step(*old(self), started_by, t),
            wf_release(*old(self)) && r is Ok ==> wf_release(*final(self)),
    {
        let ghost sb = started_by;
        let phase_ok = match &self.phase {
            SDLCPhase::Source => true,
            _ => false,
        };
        if !phase_ok {
            return Err(TransitionError::PhaseMismatch {
                expected: PhaseKind::Source,
                actual: self.phase.phase_kind(),
            });
        }
        let state_ok = match &self.state {
            ReleaseState::Draft => true,
            _ => false,
        };
        if !state_ok {
            return Err(TransitionError::StatusMismatch {
                expected: StatusKind::Draft,
                actual: self.state.status_kind(),
            });
        }
        let t = now_timestamp();
        self.state = ReleaseState::InProgress { started_by, started_at: t };
        proof {
            assert(*self == start_source_review_step(*old(self), sb, t));
        }
        Ok(())
    }

    /// Completes source review: records the reviewed commit on the
    /// record and in the source payload, and moves to (Build, Draft).
    /// Fails unless the record is at (Source, InProgress).
    pub fn complete_source_review(&mut self, commit_hash: String) -> (r: Result<
        (),
        TransitionError,
    >)
        ensures
            r is Ok <==> can_complete_source_review(*old(self)),
            r matches Err(e) ==> *final(self) == *old(self) && e == phase_status_error(
                *old(self),
                PhaseKind::Source,
                StatusKind::InProgress,
            ),
            r is Ok ==> *final(self) == complete_source_review_step(*old(self), commit_hash),
            wf_release(*old(self)) && r is Ok ==> wf_release(*final(self)),
    {
        let ghost ch = commit_hash;
        let phase_ok = match &self.phase {
            SDLCPhase::Source => true,
            _ => false,
        };
        if !phase_ok {
            return Err(TransitionError::PhaseMismatch {
                expected: PhaseKind::Source,
                actual: self.phase.phase_kind(),
            });
        }
        let state_ok = match &self.state {
            ReleaseState::InProgress { .. } => true,
            _ => false,
        };
        if !state_ok {
            return Err(TransitionError::StatusMismatch {
                expected: StatusKind::InProgress,
                actual: self.state.status_kind(),
            });
        }
        self.commit_hash = Some(commit_hash.clone());
        match self.phase_details.take() {
            None => {},
            Some(mut d) => {
                d.source_details = Some(SourceDetails { commit_hash });
                self.phase_details = Some(d);
            },
        }
        self.phase = SDLCPhase::Build;
        self.state = ReleaseState::Draft;
        proof {
            assert(*self == complete_source_review_step(*old(self), ch));
        }
        Ok(())
    }

    /// Starts the Build phase: records the builder.  Fails unless the
    /// record is at (Build, Draft).
    pub fn start_build(&mut self, started_by: String) -> (r: Result<(), TransitionError>)
        ensures
            r is Ok <==> can_start_build(*old(self)),
            r matches Err(e) ==> *final(self) == *old(self) && e == phase_status_error(
                *old(self),
                PhaseKind::Build,
                StatusKind::Draft,
            ),
            r is Ok ==> exists|t: i64| *final(self) == start_build_step(*old(self), started_by, t),
            wf_release(*old(self)) && r is Ok ==> wf_release(*final(self)),
    {
        let ghost sb = started_by;
        let phase_ok = match &self.phase {
            SDLCPhase::Build => true,
            _ => false,
        };
        if !phase_ok {
            return Err(TransitionError::PhaseMismatch {
                expected: PhaseKind::Build,
                actual: self.phase.phase_kind(),
            });
        }
        let state_ok = match &self.state {
            ReleaseState::Draft => true,
            _ => false,
        };
        if !state_ok {
            return Err(TransitionError::StatusMismatch {
                expected: StatusKind::Draft,
                actual: self.state.status_kind(),
            });
        }
        let t = now_timestamp();
        self.state = ReleaseState::InProgress { started_by, started_at: t };
        proof {
            assert(*self == start_build_step(*old(self), sb, t));
        }
        Ok(())
    }

    /// Completes the Build phase: records the build id and the time the
    /// build finished, and moves to (Package, Draft).  Fails unless the
    /// record is at (Build, InProgress).
    pub fn complete_build(&mut self, build_id: String) -> (r: Result<(), TransitionError>)
        ensures
            r is Ok <==> can_complete_build(*old(self)),
            r matches Err(e) ==> *final(self) == *old(self) && e == phase_status_error(
                *old(self),
                PhaseKind::Build,
                StatusKind::InProgress,
            ),
            r is Ok ==> exists|t: i64|
                *final(self) == complete_build_step(*old(self), build_id, t),
            wf_release(*old(self)) && r is Ok ==> wf_release(*final(self)),
    {
        let ghost bid = build_id;
        let phase_ok = match &self.phase {
            SDLCPhase::Build => true,
            _ => false,
        };
        if !phase_ok {
            return Err(TransitionError::PhaseMismatch {
                expected: PhaseKind::Build,
                actual: self.phase.phase_kind(),
            });
        }
        let state_ok = match &self.state {
            ReleaseState::InProgress { .. } => true,
            _ => false,
        };
        if !state_ok {
            return Err(TransitionError::StatusMismatch {
                expected: StatusKind::InProgress,
                actual: self.state.status_kind(),
            });
        }
        let t = now_timestamp();
        match self.phase_details.take() {
            None => {},
            Some(mut d) => {
                d.build_details = Some(BuildDetails { build_id, build_timestamp: t });
                self.phase_details = Some(d);
            },
        }
        self.phase = SDLCPhase::Package;
        self.state = ReleaseState::Draft;
        proof {
            assert(*self == complete_build_step(*old(self), bid, t));
        }
        Ok(())
    }

    /// Starts the Packaging phase: records the packager.  Fails unless
    /// the record is at (Package, Draft).
    pub fn start_packaging(&mut self, started_by: String) -> (r: Result<(), TransitionError>)
        ensures
            r is Ok <==> can_start_packaging(*old(self)),
            r matches Err(e) ==> *final(self) == *old(self) && e == phase_status_error(
                *old(self),
                PhaseKind::Package,
                StatusKind::Draft,
            ),
            r is Ok ==> exists|t: i64|
                *final(self) == start_packaging_step(*old(self), started_by, t),
            wf_release(*old(self)) && r is Ok ==> wf_release(*final(self)),
    {
        let ghost sb = started_by;
        let phase_ok = match &self.phase {
            SDLCPhase::Package => true,
            _ => false,
        };
        if !phase_ok {
            return Err(TransitionError::PhaseMismatch {
                expected: PhaseKind::Package,
                actual: self.phase.phase_kind(),
            });
        }
        let state_ok = match &self.state {
            ReleaseState::Draft => true,
            _ => false,
        };
        if !state_ok {
            return Err(TransitionError::StatusMismatch {
                expected: StatusKind::Draft,
                actual: self.state.status_kind(),
            });
        }
        let t = now_timestamp();
        self.state = ReleaseState::InProgress { started_by, started_at: t };
        proof {
            assert(*self == start_packaging_step(*old(self), sb, t));
        }
        Ok(())
    }

    /// Completes the Packaging phase: records the artifact, moves to the
    /// Deploy phase, and auto-approves the release for shipping.  Fails
    /// unless the record is at (Package, InProgress).
    pub fn complete_packaging(&mut self, artifact_hash: String, artifact_url: String) -> (r:
        Result<(), TransitionError>)
        ensures
            r is Ok <==> can_complete_packaging(*old(self)),
            r matches Err(e) ==> *final(self) == *old(self) && e == phase_status_error(
                *old(self),
                PhaseKind::Package,
                StatusKind::InProgress,
            ),
            r is Ok ==> exists|approved_by: String, t: i64|
                approved_by@ == "Auto-Approved"@ && *final(self) == complete_packaging_step(
                    *old(self),
                    artifact_hash,
                    artifact_url,
                    approved_by,
                    t,
                ),
            wf_release(*old(self)) && r is Ok ==> wf_release(*final(self)),
    {
        let ghost ah = artifact_hash;
        let ghost au = artifact_url;
        let phase_ok = match &self.phase {
            SDLCPhase::Package => true,
            _ => false,
        };
        if !phase_ok {
            return Err(TransitionError::PhaseMismatch {
                expected: PhaseKind::Package,
                actual: self.phase.phase_kind(),
            });
        }
        let state_ok = match &self.state {
            ReleaseState::InProgress { .. } => true,
            _ => false,
        };
        if !state_ok {
            return Err(TransitionError::StatusMismatch {
                expected: StatusKind::InProgress,
                actual: self.state.status_kind(),
            });
        }
        match self.phase_details.take() {
            None => {},
            Some(mut d) => {
                d.package_details = Some(PackageDetails { artifact_hash, artifact_url });
                self.phase_details = Some(d);
            },
        }
        let approved_by = String::from_str("Auto-Approved");
        let ghost ab = approved_by;
        let t = now_timestamp();
        self.phase = SDLCPhase::Deploy;
        self.state = ReleaseState::Releasable { approved_by, approved_at: t };
        proof {
            assert(*self == complete_packaging_step(*old(self), ah, au, ab, t));
        }
        Ok(())
    }

    /// Ships a releasable record: records the release notes.  Fails
    /// unless the record's status is Releasable, in whatever phase.
    pub fn release(&mut self, release_notes: String) -> (r: Result<(), TransitionError>)
        ensures
            r is Ok <==> can_release(*old(self)),
            r matches Err(e) ==> *final(self) == *old(self) && e == status_error(
                *old(self),
                StatusKind::Releasable,
            ),
            r is Ok ==> exists|t: i64| *final(self) == release_step(*old(self), release_notes, t),
            wf_release(*old(self)) && r is Ok ==> wf_release(*final(self)),
    {
        let ghost notes = release_notes;
        let state_ok = match &self.state {
            ReleaseState::Releasable { .. } => true,
            _ => false,
        };
        if !state_ok {
            return Err(TransitionError::StatusMismatch {
                expected: StatusKind::Releasable,
                actual: self.state.status_kind(),
            });
        }
        let t = now_timestamp();
        self.state = ReleaseState::Released { release_notes, release_time: t };
        proof {
            assert(*self == release_step(*old(self), notes, t));
        }
        Ok(())
    }

    /// Starts a deployment into `environment`: invents a deployment id,
    /// records it with the environment in the deploy payload, and marks
    /// the record in progress on behalf of the deployment system.  Fails
    /// unless the record is at (Deploy, Released).
    pub fn start_deployment(&mut self, environment: String) -> (r: Result<(), TransitionError>)
        ensures
            r is Ok <==> can_start_deployment(*old(self)),
            r matches Err(e) ==> *final(self) == *old(self) && e == phase_status_error(
                *old(self),
                PhaseKind::Deploy,
                StatusKind::Released,
            ),
            r is Ok ==> exists|deployment_id: String, started_by: String, t: i64|
                started_by@ == "Deployment System"@ && *final(self) == start_deployment_step(
                    *old(self),
                    environment,
                    deployment_id,
                    started_by,
                    t,
                ),
            wf_release(*old(self)) && r is Ok ==> wf_release(*final(self)),
    {
        let ghost env = environment;
        let phase_ok = match &self.phase {
            SDLCPhase::Deploy => true,
            _ => false,
        };
        if !phase_ok {
            return Err(TransitionError::PhaseMismatch {
                expected: PhaseKind::Deploy,
                actual: self.phase.phase_kind(),
            });
        }
        let state_ok = match &self.state {
            ReleaseState::Released { .. } => true,
            _ => false,
        };
        if !state_ok {
            return Err(TransitionError::StatusMismatch {
                expected: StatusKind::Released,
                actual: self.state.status_kind(),
            });
        }
        let started_by = String::from_str("Deployment System");
        let ghost sb = started_by;
        let deployment_id = fresh_id();
        let ghost did = deployment_id;
        let t = now_timestamp();
        self.state = ReleaseState::InProgress { started_by, started_at: t };
        match self.phase_details.take() {
            None => {},
            Some(mut d) => {
                d.deploy_details = Some(DeployDetails { deployment_id, environment });
                self.phase_details = Some(d);
            },
        }
        proof {
            assert(*self == start_deployment_step(*old(self), env, did, sb, t));
        }
        Ok(())
    }

    /// Completes a deployment: moves to the Runtime phase, marking the
    /// record deployed into the environment that `start_deployment`
    /// recorded.  Fails unless the record is at (Deploy, InProgress);
    /// fails with `MissingDetails`, leaving the record unchanged, when no
    /// deploy payload was recorded.
    pub fn complete_deployment(&mut self) -> (r: Result<(), TransitionError>)
        ensures
            r is Ok <==> can_complete_deployment(*old(self)),
            r matches Err(e) ==> *final(self) == *old(self) && e == complete_deployment_error(
                *old(self),
            ),
            r is Ok ==> exists|t: i64|
                *final(self) == complete_deployment_step(
                    *old(self),
                    old(self).phase_details->Some_0.deploy_details->Some_0.environment,
                    t,
                ),
            wf_release(*old(self)) && r is Ok ==> wf_release(*final(self)),
    {
        let phase_ok = match &self.phase {
            SDLCPhase::Deploy => true,
            _ => false,
        };
        if !phase_ok {
            return Err(TransitionError::PhaseMismatch {
                expected: PhaseKind::Deploy,
                actual: self.phase.phase_kind(),
            });
        }
        let state_ok = match &self.state {
            ReleaseState::InProgress { .. } => true,
            _ => false,
        };
        if !state_ok {
            return Err(TransitionError::StatusMismatch {
                expected: StatusKind::InProgress,
                actual: self.state.status_kind(),
            });
        }
        let got: Result<String, TransitionError> = match &self.phase_details {
            None => Err(TransitionError::MissingDetails { field: MissingField::PhaseDetails }),
            Some(d) => match &d.deploy_details {
                None => Err(TransitionError::MissingDetails { field: MissingField::DeployDetails }),
                Some(dd) => Ok(dd.environment.clone()),
            },
        };
        match got {
            Err(e) => Err(e),
            Ok(environment) => {
                let ghost env = environment;
                let t = now_timestamp();
                self.phase = SDLCPhase::Runtime;
                self.state = ReleaseState::Deployed { environment, deployment_time: t };
                proof {
                    assert(*self == complete_deployment_step(*old(self), env, t));
                }
                Ok(())
            },
        }
    }

    /// Revokes a deployed record: records the reason.  Fails unless the
    /// record's status is Deployed, in whatever phase.
    pub fn revoke(&mut self, reason: String) -> (r: Result<(), TransitionError>)
        ensures
            r is Ok <==> can_revoke(*old(self)),
            r matches Err(e) ==> *final(self) == *old(self) && e == status_error(
                *old(self),
                StatusKind::Deployed,
            ),
            r is Ok ==> exists|t: i64| *final(self) == revoke_step(*old(self), reason, t),
            wf_release(*old(self)) && r is Ok ==> wf_release(*final(self)),
    {
        let ghost why = reason;
        let state_ok = match &self.state {
            ReleaseState::Deployed { .. } => true,
            _ => false,
        };
        if !state_ok {
            return Err(TransitionError::StatusMismatch {
                expected: StatusKind::Deployed,
                actual: self.state.status_kind(),
            });
        }
        let t = now_timestamp();
        self.state = ReleaseState::Revoked { reason, revocation_time: t };
        proof {
            assert(*self == revoke_step(*old(self), why, t));
        }
        Ok(())
    }

    /// Diagnostic structural check: accepts exactly the `(phase, status)`
    /// pairs reachable through the transition table — each phase with the
    /// statuses it admits (Development only Draft or InProgress, and so
    /// on) — and rejects everything else.  It enforces nothing;
    /// transitions guard themselves.
    pub fn validate(&self) -> (r: Result<(), String>)
        ensures
            r is Ok <==> state_pair_reachable(*self),
            r matches Err(m) ==> m@ == "Invalid phase and state combination."@,
    {
        let ok = match &self.phase {
            SDLCPhase::Development => match &self.state {
                ReleaseState::Draft => true,
                ReleaseState::InProgress { .. } => true,
                _ => false,
            },
            SDLCPhase::Source => match &self.state {
                ReleaseState::Draft => true,
                ReleaseState::InProgress { .. } => true,
                _ => false,
            },
            SDLCPhase::Build => match &self.state {
                ReleaseState::Draft => true,
                ReleaseState::InProgress { .. } => true,
                _ => false,
            },
            SDLCPhase::Package => match &self.state {
                ReleaseState::Draft => true,
                ReleaseState::InProgress { .. } => true,
                _ => false,
            },
            SDLCPhase::Deploy => match &self.state {
                ReleaseState::Releasable { .. } => true,
                ReleaseState::Released { .. } => true,
                ReleaseState::InProgress { .. } => true,
                _ => false,
            },
            SDLCPhase::Runtime => match &self.state {
                ReleaseState::Deployed { .. } => true,
                ReleaseState::Revoked { .. } => true,
                _ => false,
            },
            SDLCPhase::Custom(..) => false,
        };
        if ok {
            Ok(())
        } else {
            Err(String::from_str("Invalid phase and state combination."))
        }
    }
}

/// The full lifecycle always runs to completion: from a fresh record —
/// Development phase, Draft status, payload bag present — the sequence
/// start_development, complete_development, start_source_review,
/// complete_source_review, start_build, complete_build, start_packaging,
/// complete_packaging, release, start_deployment, complete_deployment,
/// revoke is accepted step by step, whatever actors, identifiers, notes
/// and times are supplied, and ends at (Runtime, Revoked).  Repeating an
/// operation that was just applied is rejected, not silently re-applied:
/// after each step, the step's own guard no longer holds.
pub proof fn lemma_full_lifecycle(
    r0: SDLCRelease,
    dev_actor: String,
    features: Vec<String>,
    reviewer: String,
    commit: String,
    builder: String,
    build_id: String,
    packager: String,
    artifact_hash: String,
    artifact_url: String,
    approver: String,
    notes: String,
    environment: String,
    deployment_id: String,
    deploy_actor: String,
    reason: String,
    t1: i64,
    t2: i64,
    t3: i64,
    t4: i64,
    t5: i64,
    t6: i64,
    t7: i64,
    t8: i64,
    t9: i64,
    t10: i64,
)
    requires
        r0.phase is Development,
        r0.state is Draft,
        r0.phase_details is Some,
    ensures
        ({
            let r1 = start_development_step(r0, dev_actor, features, t1);
            let r2 = complete_development_step(r1);
            let r3 = start_source_review_step(r2, reviewer, t2);
            let r4 = complete_source_review_step(r3, commit);
            let r5 = start_build_step(r4, builder, t3);
            let r6 = complete_build_step(r5, build_id, t4);
            let r7 = start_packaging_step(r6, packager, t5);
            let r8 = complete_packaging_step(r7, artifact_hash, artifact_url, approver, t6);
            let r9 = release_step(r8, notes, t7);
            let r10 = start_deployment_step(r9, environment, deployment_id, deploy_actor, t8);
            let r11 = complete_deployment_step(r10, environment, t9);
            let r12 = revoke_step(r11, reason, t10);
            &&& can_start_development(r0) && !can_start_development(r1)
            &&& can_complete_development(r1) && !can_complete_development(r2)
            &&& can_start_source_review(r2) && !can_start_source_review(r3)
            &&& can_complete_source_review(r3) && !can_complete_source_review(r4)
            &&& can_start_build(r4) && !can_start_build(r5)
            &&& can_complete_build(r5) && !can_complete_build(r6)
            &&& can_start_packaging(r6) && !can_start_packaging(r7)
            &&& can_complete_packaging(r7) && !can_complete_packaging(r8)
            &&& can_release(r8) && !can_release(r9)
            &&& can_start_deployment(r9) && !can_start_deployment(r10)
            &&& can_complete_deployment(r10) && !can_complete_deployment(r11)
            &&& can_revoke(r11) && !can_revoke(r12)
            &&& r4.commit_hash == Some(commit)
            &&& r12.phase is Runtime
            &&& r12.state is Revoked
            &&& wf_release(r12)
        }),
{
}

/// The index of the first entry recorded under `key`, if any.
fn find_key(s: &Vec<(String, String)>, key: &str) -> (r: Option<usize>)
    ensures
        r matches Some(i) ==> i < s@.len() && s@[i as int].0@ == key@ && forall|j: int|
            0 <= j < i ==> s@[j].0@ != key@,
        r is None ==> forall|j: int| 0 <= j < s@.len() ==> s@[j].0@ != key@,
{
    let mut i: usize = 0;
    while i < s.len()
        invariant
            0 <= i <= s@.len(),
            forall|j: int| 0 <= j < i ==> s@[j].0@ != key@,
        decreases s@.len() - i,
    {
        if crate::env::str_eq(s[i].0.as_str(), key) {
            return Some(i);
        }
        i = i + 1;
    }
    None
}

/// Updating the first entry recorded under `key` with a pair that keeps
/// that key changes what is recorded under `key` and nothing else.
proof fn lemma_assoc_update(s: Seq<(String, String)>, i: int, p: (String, String), key: Seq<char>)
    requires
        0 <= i < s.len(),
        forall|j: int| 0 <= j < i ==> s[j].0@ != key,
        s[i].0@ == key,
        p.0@ == key,
    ensures
        assoc_lookup(s.update(i, p), key) == Some(p.1@),
        forall|k: Seq<char>| k != key ==> assoc_lookup(s.update(i, p), k) == assoc_lookup(s, k),
    decreases i,
{
    if i == 0 {
        assert(s.update(0, p)[0] == p);
        assert forall|k: Seq<char>| k != key implies assoc_lookup(s.update(0, p), k)
            == assoc_lookup(s, k) by {
            assert(s.update(0, p).drop_first() =~= s.drop_first());
        }
    } else {
        let s2 = s.drop_first();
        assert(s.update(i, p).drop_first() =~= s2.update(i - 1, p));
        lemma_assoc_update(s2, i - 1, p, key);
        assert(s.update(i, p)[0] == s[0]);
        assert(assoc_lookup(s.update(i, p), key) == Some(p.1@));
        assert forall|k: Seq<char>| k != key implies assoc_lookup(s.update(i, p), k)
            == assoc_lookup(s, k) by {
            if s[0].0@ == k {
                assert(assoc_lookup(s.update(i, p), k) == Some(s[0].1@));
                assert(assoc_lookup(s, k) == Some(s[0].1@));
            } else {
                assert(assoc_lookup(s.update(i, p), k) == assoc_lookup(s2.update(i - 1, p), k));
                assert(assoc_lookup(s, k) == assoc_lookup(s2, k));
            }
        }
    }
}

/// A key held by no entry has nothing recorded under it.
proof fn lemma_assoc_absent(s: Seq<(String, String)>, key: Seq<char>)
    requires
        forall|j: int| 0 <= j < s.len() ==> s[j].0@ != key,
    ensures
        assoc_lookup(s, key) is None,
    decreases s.len(),
{
    if s.len() != 0 {
        lemma_assoc_absent(s.drop_first(), key);
    }
}

/// Appending a pair does not disturb what is recorded under other keys,
/// and records its own key when that key was absent.
proof fn lemma_assoc_push(s: Seq<(String, String)>, p: (String, String), key: Seq<char>)
    requires
        p.0@ == key,
    ensures
        forall|k: Seq<char>| k != key ==> assoc_lookup(s.push(p), k) == assoc_lookup(s, k),
        assoc_lookup(s, key) is None ==> assoc_lookup(s.push(p), key) == Some(p.1@),
    decreases s.len(),
{
    if s.len() == 0 {
        assert(s.push(p)[0] == p);
        assert(s.push(p).drop_first() =~= Seq::<(String, String)>::empty());
        assert forall|k: Seq<char>| k != key implies assoc_lookup(s.push(p), k)
            == assoc_lookup(s, k) by {
            assert(assoc_lookup(Seq::<(String, String)>::empty(), k) is None);
            assert(assoc_lookup(s.push(p), k) == assoc_lookup(s.push(p).drop_first(), k));
        }
    } else {
        let s2 = s.drop_first();
        assert(s.push(p)[0] == s[0]);
        assert(s.push(p).drop_first() =~= s2.push(p));
        lemma_assoc_push(s2, p, key);
        if assoc_lookup(s, key) is None {
            assert(s[0].0@ != key);
            assert(assoc_lookup(s2, key) is None);
            assert(assoc_lookup(s.push(p), key) == assoc_lookup(s2.push(p), key));
        }
        assert forall|k: Seq<char>| k != key implies assoc_lookup(s.push(p), k)
            == assoc_lookup(s, k) by {
            if s[0].0@ == k {
                assert(assoc_lookup(s.push(p), k) == Some(s[0].1@));
                assert(assoc_lookup(s, k) == Some(s[0].1@));
            } else {
                assert(assoc_lookup(s.push(p), k) == assoc_lookup(s2.push(p), k));
                assert(assoc_lookup(s, k) == assoc_lookup(s2, k));
            }
        }
    }
}

} // verus!
