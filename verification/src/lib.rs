//! A control-plane library for the lifecycle of software releases.
//!
//! A release moves through a sequence of delivery phases (development,
//! source review, build, packaging, deployment, runtime), each with a
//! status inside the phase.  Transitions between `(phase, status)` pairs
//! are guarded: an operation invoked in the wrong state fails with a
//! structured error and leaves the record untouched.  Organizations gate
//! advancement with policies, evaluated against signed attestations and
//! against vulnerability findings attached to a deployed release.

pub mod attestation;
pub mod attestation_service;
pub mod controlplane;
mod env;
pub mod evaluation;
pub mod namespace;
pub mod phase;
pub mod policy;
pub mod policy_repository;
pub mod sdlc_component;
pub mod sdlc_release;
pub mod state;

pub use attestation::Attestation;
pub use phase::SDLCPhase;
pub use policy::Policy;
pub use sdlc_release::SDLCRelease;
pub use state::ReleaseState;
