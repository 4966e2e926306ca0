use sdlc_cp_api::attestation::{Attestation, Subject, SubjectType};
use sdlc_cp_api::evaluation::{check_policy, check_runtime_policy, update_release_vulnerabilities};
use sdlc_cp_api::phase::{PhaseDetails, SDLCPhase};
use sdlc_cp_api::policy::{Policy, PolicyRule, Vulnerability, VulnerabilityLevel};
use sdlc_cp_api::sdlc_component::{Project, SDLCComponent, Unmanaged};
use sdlc_cp_api::sdlc_release::SDLCRelease;
use sdlc_cp_api::state::ReleaseState;

fn test_project() -> SDLCComponent {
    SDLCComponent::Project(Project {
        id: "project-1".to_string(),
        name: "Test Project".to_string(),
        repository_url: Some("https://github.com/test/project".to_string()),
        owner: Some("Test Owner".to_string()),
        components: Vec::new(),
    })
}

fn test_unmanaged() -> SDLCComponent {
    SDLCComponent::Unmanaged(Unmanaged {
        id: "unmanaged-1".to_string(),
        name: "Unmanaged Component".to_string(),
        repository_url: None,
        package_url: Some("https://example.com/packages/unmanaged-1.0.0.tar.gz".to_string()),
        metadata: Vec::new(),
    })
}

#[test]
fn test_sdlc_release_lifecycle() {
    let component = test_project();

    // Initialize a new release
    let mut release = SDLCRelease::new(component, "1.0.0".to_string(), "developer1".to_string());

    assert_eq!(release.phase, SDLCPhase::Development);
    assert_eq!(release.state, ReleaseState::Draft);
    assert_eq!(release.created_by, "developer1");
    assert_eq!(release.component_name(), "Test Project");

    // Start development
    release
        .start_development(
            "developer2".to_string(),
            vec!["feature x".to_string(), "feature y".to_string()],
        )
        .unwrap();
    assert_eq!(release.phase, SDLCPhase::Development);
    assert!(matches!(release.state, ReleaseState::InProgress { .. }));
    if let ReleaseState::InProgress { started_by, .. } = &release.state {
        assert_eq!(started_by, "developer2");
    }

    // Complete development
    release.complete_development().unwrap();
    assert_eq!(release.phase, SDLCPhase::Source);
    assert!(matches!(release.state, ReleaseState::Draft));

    // Start source review
    release.start_source_review("reviewer1".to_string()).unwrap();
    assert_eq!(release.phase, SDLCPhase::Source);
    assert!(matches!(release.state, ReleaseState::InProgress { .. }));

    // Complete source review
    release.complete_source_review("abcdef123456".to_string()).unwrap();
    assert_eq!(release.phase, SDLCPhase::Build);
    assert!(matches!(release.state, ReleaseState::Draft));
    assert_eq!(release.commit_hash, Some("abcdef123456".to_string()));

    // Start build
    release.start_build("builder1".to_string()).unwrap();
    assert_eq!(release.phase, SDLCPhase::Build);
    assert!(matches!(release.state, ReleaseState::InProgress { .. }));

    // Complete build
    release.complete_build("build123".to_string()).unwrap();
    assert_eq!(release.phase, SDLCPhase::Package);
    assert!(matches!(release.state, ReleaseState::Draft));

    // Start packaging
    release.start_packaging("packager1".to_string()).unwrap();
    assert_eq!(release.phase, SDLCPhase::Package);
    assert!(matches!(release.state, ReleaseState::InProgress { .. }));

    // Complete packaging
    release
        .complete_packaging(
            "123abc456def".to_string(),
            "https://example.com/artifacts/project1-1.0.0.tar.gz".to_string(),
        )
        .unwrap();
    assert_eq!(release.phase, SDLCPhase::Deploy);
    assert!(matches!(release.state, ReleaseState::Releasable { .. }));

    // Release
    release.release("Version 1.0.0 release notes".to_string()).unwrap();
    assert_eq!(release.phase, SDLCPhase::Deploy);
    assert!(matches!(release.state, ReleaseState::Released { .. }));

    // Start deployment
    release.start_deployment("production".to_string()).unwrap();
    assert_eq!(release.phase, SDLCPhase::Deploy);
    assert!(matches!(release.state, ReleaseState::InProgress { .. }));

    // Complete deployment
    release.complete_deployment().unwrap();
    assert_eq!(release.phase, SDLCPhase::Runtime);
    assert!(matches!(release.state, ReleaseState::Deployed { .. }));

    // Revoke
    release.revoke("Critical bug found".to_string()).unwrap();
    assert_eq!(release.phase, SDLCPhase::Runtime);
    assert!(matches!(release.state, ReleaseState::Revoked { .. }));
}

#[test]
fn test_sdlc_release_lifecycle_unmanaged() {
    let component = test_unmanaged();

    // Initialize a new release
    let mut release = SDLCRelease::new(component, "1.0.0".to_string(), "integrator1".to_string());

    assert_eq!(release.phase, SDLCPhase::Development);
    assert_eq!(release.state, ReleaseState::Draft);
    assert_eq!(release.created_by, "integrator1");
    assert_eq!(release.component_name(), "Unmanaged Component");

    // Start integration (using development phase)
    release
        .start_development(
            "integrator2".to_string(),
            vec!["feature 1".to_string(), "feature 2".to_string()],
        )
        .unwrap();
    assert_eq!(release.phase, SDLCPhase::Development);
    assert!(matches!(release.state, ReleaseState::InProgress { .. }));

    // Complete integration
    release.complete_development().unwrap();
    assert_eq!(release.phase, SDLCPhase::Source);
    assert!(matches!(release.state, ReleaseState::Draft));

    // Start source review (a verification pass for unmanaged components)
    release.start_source_review("verifier1".to_string()).unwrap();
    assert_eq!(release.phase, SDLCPhase::Source);
    assert!(matches!(release.state, ReleaseState::InProgress { .. }));

    // Complete source review
    release.complete_source_review("verify123".to_string()).unwrap();
    assert_eq!(release.phase, SDLCPhase::Build);
    assert!(matches!(release.state, ReleaseState::Draft));

    // For unmanaged components, build and packaging might be skipped:
    // move directly to the Deploy phase.
    release.phase = SDLCPhase::Deploy;
    release.state = ReleaseState::Releasable {
        approved_by: "Auto-Approved".to_string(),
        approved_at: 1_700_000_000,
    };

    // Release
    release.release("Unmanaged Component 1.0.0 integrated".to_string()).unwrap();
    assert_eq!(release.phase, SDLCPhase::Deploy);
    assert!(matches!(release.state, ReleaseState::Released { .. }));

    // Start deployment
    release.start_deployment("production".to_string()).unwrap();
    assert_eq!(release.phase, SDLCPhase::Deploy);
    assert!(matches!(release.state, ReleaseState::InProgress { .. }));

    // Complete deployment
    release.complete_deployment().unwrap();
    assert_eq!(release.phase, SDLCPhase::Runtime);
    assert!(matches!(release.state, ReleaseState::Deployed { .. }));
}

#[test]
fn test_policy_checks() {
    // Create a policy
    let mut policy = Policy::new(
        "Security Policy".to_string(),
        vec!["Source".to_string(), "Build".to_string()],
    );

    // Add some rules
    policy.add_rule(PolicyRule::MaxAge(7 * 24 * 60 * 60));
    policy.add_rule(PolicyRule::ApprovedIdentities(vec!["trusted_developer".to_string()]));
    policy.add_rule(PolicyRule::VulnerabilityThreshold(VulnerabilityLevel::High, 0));

    // Create an attestation
    let mut attestation = Attestation::new(
        Subject {
            type_: SubjectType::Artifact,
            name: "app-1.0.0.jar".to_string(),
            digest: "sha256:1234567890abcdef".to_string(),
        },
        Vec::new(),
    );
    attestation.add_signature("trusted_developer".to_string(), "signature123".to_string());

    let passes_policy = check_policy(&policy, &attestation);
    assert!(passes_policy, "Attestation should pass the policy");
}

#[test]
fn test_vulnerability_detection() {
    // Create a release
    let component = test_unmanaged();

    let mut release = SDLCRelease::new(component, "1.0.0".to_string(), "integrator1".to_string());

    // Set the release to Runtime phase and Deployed state
    release.phase = SDLCPhase::Runtime;
    release.state = ReleaseState::Deployed {
        environment: "production".to_string(),
        deployment_time: 1_700_000_000,
    };

    // Create a policy
    let mut policy = Policy::new("Runtime Policy".to_string(), vec!["Runtime".to_string()]);
    policy.add_rule(PolicyRule::VulnerabilityThreshold(VulnerabilityLevel::High, 0));

    // Initially, the release passes the policy
    assert!(check_runtime_policy(&policy, &release), "Release should initially pass policy");

    // Simulate detection of a new vulnerability
    let vulnerability = Vulnerability {
        id: "CVE-2023-12345".to_string(),
        severity: VulnerabilityLevel::High,
        description: "Critical vulnerability detected".to_string(),
        discovered_at: 1_700_000_100,
    };

    // Update the release with the new vulnerability
    let updated_release = update_release_vulnerabilities(release, vec![vulnerability]);

    // Check policy again
    assert!(
        !check_runtime_policy(&policy, &updated_release),
        "Release should fail policy after vulnerability detection"
    );
}

#[test]
fn test_transition_from_wrong_state_leaves_record_unchanged() {
    let mut release =
        SDLCRelease::new(test_project(), "1.0.0".to_string(), "developer1".to_string());
    let before = release.clone();

    // A fresh record is at (Development, Draft): completing development
    // needs InProgress, and building needs the Build phase.
    let err = release.complete_development().unwrap_err();
    assert_eq!(release, before);
    assert!(matches!(
        err,
        sdlc_cp_api::sdlc_release::TransitionError::StatusMismatch { .. }
    ));

    let err = release.start_build("builder1".to_string()).unwrap_err();
    assert_eq!(release, before);
    assert!(matches!(
        err,
        sdlc_cp_api::sdlc_release::TransitionError::PhaseMismatch { .. }
    ));

    let err = release.revoke("no reason".to_string()).unwrap_err();
    assert_eq!(release, before);
    assert!(matches!(
        err,
        sdlc_cp_api::sdlc_release::TransitionError::StatusMismatch { .. }
    ));
}

#[test]
fn test_complete_source_review_sets_commit_hash() {
    let mut release =
        SDLCRelease::new(test_project(), "2.0.0".to_string(), "developer1".to_string());
    release.start_development("developer1".to_string(), Vec::new()).unwrap();
    release.complete_development().unwrap();
    release.start_source_review("reviewer1".to_string()).unwrap();
    release.complete_source_review("abc123".to_string()).unwrap();
    assert_eq!(release.commit_hash, Some("abc123".to_string()));
    assert_eq!(release.phase, SDLCPhase::Build);
    assert_eq!(release.state, ReleaseState::Draft);
    let details = release.phase_details.as_ref().unwrap();
    assert_eq!(details.source_details.as_ref().unwrap().commit_hash, "abc123");
}

#[test]
fn test_complete_deployment_requires_deploy_details() {
    let mut release =
        SDLCRelease::new(test_project(), "1.0.0".to_string(), "developer1".to_string());
    // Put the record at (Deploy, InProgress) without a prior
    // start_deployment, so no deploy payload was recorded.
    release.phase = SDLCPhase::Deploy;
    release.state = ReleaseState::InProgress {
        started_by: "Deployment System".to_string(),
        started_at: 1_700_000_000,
    };
    let before = release.clone();
    let err = release.complete_deployment().unwrap_err();
    assert_eq!(
        err,
        sdlc_cp_api::sdlc_release::TransitionError::MissingDetails {
            field: sdlc_cp_api::sdlc_release::MissingField::DeployDetails
        }
    );
    assert_eq!(release, before);

    // With a prior start_deployment the same transition succeeds and
    // records the environment it was started into.
    release.state = ReleaseState::Released {
        release_notes: "notes".to_string(),
        release_time: 1_700_000_000,
    };
    release.start_deployment("staging".to_string()).unwrap();
    release.complete_deployment().unwrap();
    assert_eq!(release.phase, SDLCPhase::Runtime);
    match &release.state {
        ReleaseState::Deployed { environment, .. } => assert_eq!(environment, "staging"),
        other => panic!("expected Deployed, got {:?}", other),
    }
}

#[test]
fn test_validate_accepts_reachable_pairs_only() {
    let mut release =
        SDLCRelease::new(test_project(), "1.0.0".to_string(), "developer1".to_string());
    assert!(release.validate().is_ok());

    // Every pair the transition table reaches is structurally sound.
    release.phase = SDLCPhase::Runtime;
    release.state = ReleaseState::Deployed {
        environment: "production".to_string(),
        deployment_time: 0,
    };
    assert!(release.validate().is_ok());
    release.phase = SDLCPhase::Deploy;
    release.state = ReleaseState::Releasable {
        approved_by: "Auto-Approved".to_string(),
        approved_at: 0,
    };
    assert!(release.validate().is_ok());

    // Pairs the table never produces are rejected.
    release.phase = SDLCPhase::Runtime;
    release.state = ReleaseState::Draft;
    let err = release.validate().unwrap_err();
    assert_eq!(err, "Invalid phase and state combination.");
    release.phase = SDLCPhase::Development;
    release.state = ReleaseState::Deployed {
        environment: "production".to_string(),
        deployment_time: 0,
    };
    assert!(release.validate().is_err());
}

#[test]
fn test_names_and_accessors() {
    let mut release =
        SDLCRelease::new(test_project(), "3.1.4".to_string(), "developer1".to_string());
    assert_eq!(release.version(), "3.1.4");
    assert_eq!(release.phase_name(), "Development");
    assert_eq!(release.state_name(), "Draft");
    assert_eq!(release.id(), release.id.as_str());
    release.phase = SDLCPhase::Custom("Fuzzing".to_string());
    release.state = ReleaseState::Custom("Soaking".to_string());
    assert_eq!(release.phase_name(), "Fuzzing");
    assert_eq!(release.state_name(), "Soaking");
}

#[test]
fn test_add_dependency_and_phase_attestation() {
    let mut release =
        SDLCRelease::new(test_project(), "1.0.0".to_string(), "developer1".to_string());
    release.add_dependency("release-7".to_string());
    assert_eq!(release.dependencies, vec!["release-7".to_string()]);

    release.add_phase_attestation("Build".to_string(), "att-1".to_string());
    release.add_phase_attestation("Deploy".to_string(), "att-2".to_string());
    // A later attestation for the same phase replaces the earlier one.
    release.add_phase_attestation("Build".to_string(), "att-3".to_string());
    assert_eq!(
        release.phase_attestations,
        vec![
            ("Build".to_string(), "att-3".to_string()),
            ("Deploy".to_string(), "att-2".to_string()),
        ]
    );
}

#[test]
fn test_repeated_operation_is_rejected() {
    let mut release =
        SDLCRelease::new(test_project(), "1.0.0".to_string(), "developer1".to_string());
    release.start_development("developer1".to_string(), Vec::new()).unwrap();
    assert!(release.start_development("developer1".to_string(), Vec::new()).is_err());
    release.complete_development().unwrap();
    assert!(release.complete_development().is_err());
}

#[test]
fn test_phase_details_new_is_empty() {
    let details = PhaseDetails::new();
    assert!(details.development_details.is_none());
    assert!(details.source_details.is_none());
    assert!(details.build_details.is_none());
    assert!(details.package_details.is_none());
    assert!(details.deploy_details.is_none());
    assert!(details.runtime_details.is_none());
    assert!(details.custom_details.is_empty());
}
