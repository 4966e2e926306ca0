use sdlc_cp_api::attestation::{Attestation, Subject, SubjectType};
use sdlc_cp_api::evaluation::{
    check_policy_at, check_runtime_policy, update_release_vulnerabilities,
};
use sdlc_cp_api::phase::SDLCPhase;
use sdlc_cp_api::policy::{Policy, PolicyRule, Vulnerability, VulnerabilityLevel};
use sdlc_cp_api::sdlc_component::{SDLCComponent, Unmanaged};
use sdlc_cp_api::sdlc_release::SDLCRelease;
use sdlc_cp_api::state::ReleaseState;

fn deployed_release() -> SDLCRelease {
    let component = SDLCComponent::Unmanaged(Unmanaged {
        id: "unmanaged-1".to_string(),
        name: "Component".to_string(),
        repository_url: None,
        package_url: None,
        metadata: Vec::new(),
    });
    let mut release = SDLCRelease::new(component, "1.0.0".to_string(), "operator".to_string());
    release.phase = SDLCPhase::Runtime;
    release.state = ReleaseState::Deployed {
        environment: "production".to_string(),
        deployment_time: 1_700_000_000,
    };
    release
}

fn attestation_with_signers(signers: &[&str]) -> Attestation {
    let mut attestation = Attestation::new(
        Subject {
            type_: SubjectType::Artifact,
            name: "app.jar".to_string(),
            digest: "sha256:feed".to_string(),
        },
        Vec::new(),
    );
    for signer in signers {
        attestation.add_signature(signer.to_string(), "sig".to_string());
    }
    attestation
}

fn identity_policy() -> Policy {
    let mut policy = Policy::new("Identities".to_string(), vec!["Source".to_string()]);
    policy.add_rule(PolicyRule::ApprovedIdentities(vec![
        "alice".to_string(),
        "bob".to_string(),
    ]));
    policy
}

fn finding(severity: VulnerabilityLevel) -> Vulnerability {
    Vulnerability {
        id: "ADV-1".to_string(),
        severity,
        description: "a finding".to_string(),
        discovered_at: 1_700_000_000,
    }
}

#[test]
fn test_approved_identities_no_signatures_fails() {
    let policy = identity_policy();
    let attestation = attestation_with_signers(&[]);
    assert!(!check_policy_at(&policy, &attestation, attestation.timestamp));
}

#[test]
fn test_approved_identities_one_matching_signer_passes() {
    let policy = identity_policy();
    let attestation = attestation_with_signers(&["bob"]);
    assert!(check_policy_at(&policy, &attestation, attestation.timestamp));
}

#[test]
fn test_approved_identities_one_unknown_signer_fails() {
    let policy = identity_policy();
    let attestation = attestation_with_signers(&["mallory"]);
    assert!(!check_policy_at(&policy, &attestation, attestation.timestamp));
}

#[test]
fn test_approved_identities_many_signers() {
    let policy = identity_policy();
    // One approved signer among many strangers is enough.
    let attestation = attestation_with_signers(&["mallory", "trent", "alice"]);
    assert!(check_policy_at(&policy, &attestation, attestation.timestamp));
    // Many strangers and no approved signer is not.
    let attestation = attestation_with_signers(&["mallory", "trent", "eve"]);
    assert!(!check_policy_at(&policy, &attestation, attestation.timestamp));
}

#[test]
fn test_max_age_rule() {
    let mut policy = Policy::new("Freshness".to_string(), vec!["Source".to_string()]);
    policy.add_rule(PolicyRule::MaxAge(3600));
    let attestation = attestation_with_signers(&["alice"]);
    let made = attestation.timestamp;
    assert!(check_policy_at(&policy, &attestation, made + 3600));
    assert!(!check_policy_at(&policy, &attestation, made + 3601));
}

#[test]
fn test_unevaluated_rules_pass_against_attestations() {
    let mut policy = Policy::new("Misc".to_string(), vec!["Source".to_string()]);
    policy.add_rule(PolicyRule::RequiredClaims(vec![(
        "reviewed".to_string(),
        "true".to_string(),
    )]));
    policy.add_rule(PolicyRule::VulnerabilityThreshold(VulnerabilityLevel::Low, 0));
    let attestation = attestation_with_signers(&[]);
    assert!(check_policy_at(&policy, &attestation, attestation.timestamp));
}

#[test]
fn test_runtime_policy_threshold_scenario() {
    // Policy: no findings of severity High or above may be present.
    let mut policy = Policy::new("Runtime Policy".to_string(), vec!["Runtime".to_string()]);
    policy.add_rule(PolicyRule::VulnerabilityThreshold(VulnerabilityLevel::High, 0));
    assert!(policy.applies_to_phase("Runtime"));
    assert!(!policy.applies_to_phase("Source"));

    // A deployed release with no findings passes.
    let release = deployed_release();
    assert!(check_runtime_policy(&policy, &release));

    // One High finding makes it fail.
    let failing = update_release_vulnerabilities(
        release.clone(),
        vec![finding(VulnerabilityLevel::High)],
    );
    assert!(!check_runtime_policy(&policy, &failing));

    // Only Low findings keep it passing.
    let passing = update_release_vulnerabilities(
        release,
        vec![finding(VulnerabilityLevel::Low), finding(VulnerabilityLevel::Low)],
    );
    assert!(check_runtime_policy(&policy, &passing));
}

#[test]
fn test_runtime_policy_fails_outside_deployed_status() {
    let mut policy = Policy::new("Runtime Policy".to_string(), vec!["Runtime".to_string()]);
    policy.add_rule(PolicyRule::VulnerabilityThreshold(VulnerabilityLevel::High, 0));
    let mut release = deployed_release();
    release.state = ReleaseState::Draft;
    assert!(!check_runtime_policy(&policy, &release));
}

#[test]
fn test_runtime_policy_passes_without_runtime_evidence() {
    let mut policy = Policy::new("Runtime Policy".to_string(), vec!["Runtime".to_string()]);
    policy.add_rule(PolicyRule::VulnerabilityThreshold(VulnerabilityLevel::High, 0));
    let mut release = deployed_release();
    release.phase_details = None;
    assert!(check_runtime_policy(&policy, &release));
}

#[test]
fn test_removing_finding_restores_pass() {
    let mut policy = Policy::new("Runtime Policy".to_string(), vec!["Runtime".to_string()]);
    policy.add_rule(PolicyRule::VulnerabilityThreshold(VulnerabilityLevel::Critical, 0));
    let release = deployed_release();
    assert!(check_runtime_policy(&policy, &release));
    let mut flagged =
        update_release_vulnerabilities(release, vec![finding(VulnerabilityLevel::Critical)]);
    assert!(!check_runtime_policy(&policy, &flagged));
    // Removing the finding restores the pass.
    flagged
        .phase_details
        .as_mut()
        .unwrap()
        .runtime_details
        .as_mut()
        .unwrap()
        .vulnerabilities
        .clear();
    assert!(check_runtime_policy(&policy, &flagged));
}

#[test]
fn test_severity_order() {
    assert!(VulnerabilityLevel::Low < VulnerabilityLevel::Medium);
    assert!(VulnerabilityLevel::Medium < VulnerabilityLevel::High);
    assert!(VulnerabilityLevel::High < VulnerabilityLevel::Critical);
    assert!(VulnerabilityLevel::Critical.at_least(VulnerabilityLevel::High));
    assert!(VulnerabilityLevel::High.at_least(VulnerabilityLevel::High));
    assert!(!VulnerabilityLevel::Medium.at_least(VulnerabilityLevel::High));
}

#[test]
fn test_policy_new_and_add_rule() {
    let mut policy = Policy::new("P".to_string(), vec!["Build".to_string()]);
    assert!(policy.rules.is_empty());
    assert!(policy.parent_policies.is_empty());
    assert_eq!(policy.applies_to, vec!["Build".to_string()]);
    policy.add_rule(PolicyRule::MaxAge(60));
    assert_eq!(policy.rules.len(), 1);
    assert!(matches!(policy.rules[0], PolicyRule::MaxAge(60)));
}

#[test]
fn test_update_release_vulnerabilities_creates_runtime_evidence() {
    let mut release = deployed_release();
    release.phase_details = None;
    let updated = update_release_vulnerabilities(release, vec![finding(VulnerabilityLevel::Low)]);
    let details = updated.phase_details.as_ref().unwrap();
    let runtime = details.runtime_details.as_ref().unwrap();
    assert_eq!(runtime.vulnerabilities.len(), 1);
    assert_eq!(runtime.vulnerabilities[0].severity, VulnerabilityLevel::Low);
    assert!(details.deploy_details.is_none());
}
