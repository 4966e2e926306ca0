//! Lifecycle phases and their phase-specific payloads.

use vstd::prelude::*;
use crate::policy::Vulnerability;

verus! {

/// Macro lifecycle stage of a release.  The six built-in phases are
/// conceptually ordered Development -> Source -> Build -> Package ->
/// Deploy -> Runtime; organizations may add custom phases.
#[derive(Debug, Clone, PartialEq)]
pub enum SDLCPhase {
    Development,
    Source,
    Build,
    Package,
    Deploy,
    Runtime,
    Custom(String),
}

/// The variant of an `SDLCPhase` without its payload; transition errors
/// report the phase a transition expected against the one it found.
#[derive(Debug, Clone, Copy, PartialEq, Eq, Structural)]
pub enum PhaseKind {
    Development,
    Source,
    Build,
    Package,
    Deploy,
    Runtime,
    Custom,
}

impl SDLCPhase {
    /// The variant of this phase, without its payload.
    pub open spec fn kind(&self) -> PhaseKind {
        match self {
            SDLCPhase::Development => PhaseKind::Development,
            SDLCPhase::Source => PhaseKind::Source,
            SDLCPhase::Build => PhaseKind::Build,
            SDLCPhase::Package => PhaseKind::Package,
            SDLCPhase::Deploy => PhaseKind::Deploy,
            SDLCPhase::Runtime => PhaseKind::Runtime,
            SDLCPhase::Custom(..) => PhaseKind::Custom,
        }
    }

    /// The variant of this phase, as a value a caller can keep.
    pub fn phase_kind(&self) -> (k: PhaseKind)
        ensures
            k == self.kind(),
    {
        match self {
            SDLCPhase::Development => PhaseKind::Development,
            SDLCPhase::Source => PhaseKind::Source,
            SDLCPhase::Build => PhaseKind::Build,
            SDLCPhase::Package => PhaseKind::Package,
            SDLCPhase::Deploy => PhaseKind::Deploy,
            SDLCPhase::Runtime => PhaseKind::Runtime,
            SDLCPhase::Custom(..) => PhaseKind::Custom,
        }
    }

    /// The display name of this phase; a custom phase names itself.
    pub open spec fn spec_name(&self) -> Seq<char> {
        match self {
            SDLCPhase::Development => "Development"@,
            SDLCPhase::Source => "Source"@,
            SDLCPhase::Build => "Build"@,
            SDLCPhase::Package => "Package"@,
            SDLCPhase::Deploy => "Deploy"@,
            SDLCPhase::Runtime => "Runtime"@,
            SDLCPhase::Custom(name) => name@,
        }
    }

    /// The display name of this phase; a custom phase names itself.
    pub fn name(&self) -> (r: &str)
        ensures
            r@ == self.spec_name(),
    {
        match self {
            SDLCPhase::Development => "Development",
            SDLCPhase::Source => "Source",
            SDLCPhase::Build => "Build",
            SDLCPhase::Package => "Package",
            SDLCPhase::Deploy => "Deploy",
            SDLCPhase::Runtime => "Runtime",
            SDLCPhase::Custom(name) => name.as_str(),
        }
    }
}

/// Features planned or delivered while the release is in development.
#[derive(Debug, Clone, PartialEq)]
pub struct DevelopmentDetails {
    pub feature_list: Vec<String>,
}

/// The commit that passed source review.
#[derive(Debug, Clone, PartialEq)]
pub struct SourceDetails {
    pub commit_hash: String,
}

/// The build that produced the release, with the time it ran
/// (seconds since the Unix epoch).
#[derive(Debug, Clone, PartialEq)]
pub struct BuildDetails {
    pub build_id: String,
    pub build_timestamp: i64,
}

/// The packaged artifact: its content hash and where it was published.
#[derive(Debug, Clone, PartialEq)]
pub struct PackageDetails {
    pub artifact_hash: String,
    pub artifact_url: String,
}

/// An in-flight or completed deployment and its target environment.
#[derive(Debug, Clone, PartialEq)]
pub struct DeployDetails {
    pub deployment_id: String,
    pub environment: String,
}

/// Evidence observed while the release runs: the runtime identity, its
/// last heartbeat (seconds since the Unix epoch), and any vulnerability
/// findings reported against it.
#[derive(Debug, Clone, PartialEq)]
pub struct RuntimeDetails {
    pub runtime_id: String,
    pub last_heartbeat: i64,
    pub vulnerabilities: Vec<Vulnerability>,
}

/// A bag of optional phase-specific payloads.  At most the payload of the
/// current or most recently completed phase is populated; transitions
/// clear the payload of the phase being left when appropriate.  Custom
/// phases record arbitrary payloads by name, opaque to the core.
#[derive(Debug, Clone, PartialEq)]
pub struct PhaseDetails {
    pub development_details: Option<DevelopmentDetails>,
    pub source_details: Option<SourceDetails>,
    pub build_details: Option<BuildDetails>,
    pub package_details: Option<PackageDetails>,
    pub deploy_details: Option<DeployDetails>,
    pub runtime_details: Option<RuntimeDetails>,
    pub custom_details: Vec<(String, Option<serde_json::Value>)>,
}

impl PhaseDetails {
    /// An empty bag: no payload for any phase.
    pub fn new() -> (r: PhaseDetails)
        ensures
            r.development_details is None,
            r.source_details is None,
            r.build_details is None,
            r.package_details is None,
            r.deploy_details is None,
            r.runtime_details is None,
            r.custom_details@ =~= Seq::<(String, Option<serde_json::Value>)>::empty(),
    {
        PhaseDetails {
            development_details: None,
            source_details: None,
            build_details: None,
            package_details: None,
            deploy_details: None,
            runtime_details: None,
            custom_details: Vec::new(),
        }
    }
}

} // verus!
