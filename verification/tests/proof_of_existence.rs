use state_machine::proof_of_existence::{Call, Pallet};
use state_machine::support::ErrorKind;

#[test]
fn basic_proof_of_existence() {
    let mut poe = Pallet::new();

    let _ = poe.create_claim("Alice".to_string(), "My Document".to_string());
    assert_eq!(poe.get_claim(&"My Document".to_string()), Some(&"Alice".to_string()));

    let result = poe.revoke_claim("Bob".to_string(), "My Document".to_string());
    assert!(result.is_err(), "caller is not the owner of the claim");

    let result2 = poe.create_claim("Bob".to_string(), "My Document".to_string());
    assert!(result2.is_err(), "claim already exists");

    let result3 = poe.revoke_claim("Alice".to_string(), "Not existent document".to_string());
    assert!(result3.is_err(), "claim does not exist");

    let result4 = poe.revoke_claim("Alice".to_string(), "My Document".to_string());
    assert!(result4.is_ok(), "should be able to revoke the claim");
    assert_eq!(
        poe.get_claim(&"My Document".to_string()),
        None,
        "claim should be removed after revocation"
    );
}

#[test]
fn each_claim_failure_has_its_own_error() {
    let mut poe = Pallet::new();
    assert_eq!(poe.create_claim("Alice".to_string(), "My Document".to_string()), Ok(()));

    assert_eq!(
        poe.revoke_claim("Bob".to_string(), "My Document".to_string()),
        Err(ErrorKind::NotClaimOwner)
    );
    assert_eq!(
        poe.create_claim("Bob".to_string(), "My Document".to_string()),
        Err(ErrorKind::ClaimConflict)
    );
    assert_eq!(
        poe.create_claim("Alice".to_string(), "My Document".to_string()),
        Err(ErrorKind::ClaimConflict)
    );
    assert_eq!(
        poe.revoke_claim("Alice".to_string(), "Not existent document".to_string()),
        Err(ErrorKind::ClaimNotFound)
    );
    assert_eq!(poe.get_claim(&"My Document".to_string()), Some(&"Alice".to_string()));
}

#[test]
fn revoked_content_can_be_claimed_again() {
    let mut poe = Pallet::new();
    assert_eq!(poe.create_claim("Alice".to_string(), "one".to_string()), Ok(()));
    assert_eq!(poe.create_claim("Alice".to_string(), "two".to_string()), Ok(()));
    assert_eq!(poe.create_claim("Bob".to_string(), "three".to_string()), Ok(()));

    assert_eq!(poe.revoke_claim("Alice".to_string(), "one".to_string()), Ok(()));
    assert_eq!(poe.get_claim(&"one".to_string()), None);
    assert_eq!(poe.get_claim(&"two".to_string()), Some(&"Alice".to_string()));
    assert_eq!(poe.get_claim(&"three".to_string()), Some(&"Bob".to_string()));

    assert_eq!(poe.create_claim("Bob".to_string(), "one".to_string()), Ok(()));
    assert_eq!(poe.get_claim(&"one".to_string()), Some(&"Bob".to_string()));
}

#[test]
fn dispatch_routes_claims() {
    let mut poe = Pallet::new();

    let created = poe.dispatch("Alice".to_string(), Call::CreateClaim { claim: "doc".to_string() });
    assert_eq!(created, Ok(()));
    assert_eq!(poe.get_claim(&"doc".to_string()), Some(&"Alice".to_string()));

    let refused = poe.dispatch("Bob".to_string(), Call::RevokeClaim { claim: "doc".to_string() });
    assert_eq!(refused, Err(ErrorKind::NotClaimOwner));

    let revoked = poe.dispatch("Alice".to_string(), Call::RevokeClaim { claim: "doc".to_string() });
    assert_eq!(revoked, Ok(()));
    assert_eq!(poe.get_claim(&"doc".to_string()), None);
}
