use sdlc_cp_api::attestation::{Attestation, Subject, SubjectType};
use sdlc_cp_api::attestation_service::{AttestationError, InMemoryAttestationService};
use sdlc_cp_api::controlplane::ControlPlaneError;
use sdlc_cp_api::policy_repository::PolicyRepositoryError;

fn attestation_about(name: &str) -> Attestation {
    Attestation::new(
        Subject {
            type_: SubjectType::Deployment,
            name: name.to_string(),
            digest: "sha256:cafe".to_string(),
        },
        Vec::new(),
    )
}

#[test]
fn test_store_and_get_attestation() {
    let mut service = InMemoryAttestationService::new();
    let attestation = attestation_about("release-1");
    let id = attestation.id.clone();
    service.store_attestation(attestation).unwrap();

    let found = service.get_attestation(&id).unwrap();
    assert_eq!(found.unwrap().subject.name, "release-1");
    assert!(service.get_attestation("no-such-id").unwrap().is_none());
}

#[test]
fn test_store_replaces_same_id() {
    let mut service = InMemoryAttestationService::new();
    let mut first = attestation_about("release-1");
    first.id = "fixed".to_string();
    let mut second = attestation_about("release-2");
    second.id = "fixed".to_string();
    service.store_attestation(first).unwrap();
    service.store_attestation(second).unwrap();
    assert_eq!(service.attestations.len(), 1);
    let found = service.get_attestation("fixed").unwrap().unwrap();
    assert_eq!(found.subject.name, "release-2");
}

#[test]
fn test_get_attestations_for_release() {
    let mut service = InMemoryAttestationService::new();
    service.store_attestation(attestation_about("release-1")).unwrap();
    service.store_attestation(attestation_about("release-2")).unwrap();
    service.store_attestation(attestation_about("release-1")).unwrap();

    let found = service.get_attestations_for_release("release-1").unwrap();
    assert_eq!(found.len(), 2);
    assert!(found.iter().all(|a| a.subject.name == "release-1"));
    assert!(service.get_attestations_for_release("release-9").unwrap().is_empty());
}

#[test]
fn test_verify_attestation_accepts_everything() {
    let mut service = InMemoryAttestationService::new();
    let attestation = attestation_about("release-1");
    assert_eq!(service.verify_attestation(&attestation).unwrap(), true);
    service.store_attestation(attestation).unwrap();
}

#[test]
fn test_attestation_new_is_unsigned() {
    let attestation = attestation_about("release-1");
    assert!(attestation.signatures.is_empty());
    assert!(attestation.expiration.is_none());
    assert!(attestation.parent_attestations.is_empty());
    assert!(attestation.claims.is_empty());
}

#[test]
fn test_add_signature_appends() {
    let mut attestation = attestation_about("release-1");
    attestation.add_signature("alice".to_string(), "sig-a".to_string());
    attestation.add_signature("bob".to_string(), "sig-b".to_string());
    assert_eq!(attestation.signatures.len(), 2);
    assert_eq!(attestation.signatures[0].signer, "alice");
    assert_eq!(attestation.signatures[1].signature, "sig-b");
}

#[test]
fn test_error_messages() {
    assert_eq!(
        AttestationError::StorageError("disk full".to_string()).message(),
        "Failed to store attestation: disk full"
    );
    assert_eq!(
        AttestationError::RetrievalError("oops".to_string()).message(),
        "Failed to retrieve attestation: oops"
    );
    assert_eq!(
        AttestationError::VerificationError("bad sig".to_string()).message(),
        "Failed to verify attestation: bad sig"
    );
    assert_eq!(
        PolicyRepositoryError::StorageError("nope".to_string()).message(),
        "Failed to store policy: nope"
    );
    assert_eq!(
        PolicyRepositoryError::RetrievalError("nope".to_string()).message(),
        "Failed to retrieve policy: nope"
    );
    assert_eq!(
        ControlPlaneError::PolicyRepositoryError("down".to_string()).message(),
        "Policy repository error: down"
    );
    assert_eq!(
        ControlPlaneError::AttestationStorageError("down".to_string()).message(),
        "Attestation storage error: down"
    );
    assert_eq!(
        ControlPlaneError::NoPolicyFound.message(),
        "No policy found for component"
    );
}

#[test]
fn test_unique_identifiers() {
    // Fresh releases and attestations draw distinct identifiers from the
    // environment.
    let a = attestation_about("x");
    let b = attestation_about("x");
    assert_ne!(a.id, b.id);
}
