use biometric_did::{BiometricContract, DidError};

fn s(text: &str) -> String {
    text.to_string()
}

#[test]
fn test_create_did() {
    let mut registry = BiometricContract::new();
    let wallet = s("GWALLETADDRESS0001");
    let hash = s("test_hash_123");

    let result = registry.create_did(wallet.clone(), hash, 0);
    assert_eq!(result, Ok(s("DID created successfully")));

    let has_did = registry.has_did(&wallet);
    assert!(has_did);

    let is_verified = registry.is_verified(&wallet);
    assert!(!is_verified);
}

#[test]
fn test_verify_biometrics() {
    let mut registry = BiometricContract::new();
    let wallet = s("GWALLETADDRESS0001");
    let hash = s("test_hash_123");

    registry.create_did(wallet.clone(), hash.clone(), 0).unwrap();

    let result = registry.verify_biometrics(&wallet, &hash);
    assert!(result);

    let is_verified = registry.is_verified(&wallet);
    assert!(is_verified);

    let wrong_hash = s("wrong_hash");
    let result_wrong = registry.verify_biometrics(&wallet, &wrong_hash);
    assert!(!result_wrong);
}

#[test]
fn test_update_biometric_hash() {
    let mut registry = BiometricContract::new();
    let wallet = s("GWALLETADDRESS0001");
    let hash = s("test_hash_123");
    let new_hash = s("new_hash_456");

    registry.create_did(wallet.clone(), hash, 0).unwrap();

    let update_result = registry.update_biometric_hash(&wallet, new_hash.clone());
    assert!(update_result);

    let retrieved_hash = registry.get_biometric_hash(&wallet);
    assert_eq!(retrieved_hash, Some(new_hash.clone()));

    registry.verify_biometrics(&wallet, &new_hash);

    let final_hash = s("final_hash_789");
    let update_result_after_verification = registry.update_biometric_hash(&wallet, final_hash);
    assert!(!update_result_after_verification);
}

#[test]
fn test_get_biometric_hash() {
    let mut registry = BiometricContract::new();
    let wallet = s("GWALLETADDRESS0001");
    let hash = s("test_hash_123");

    registry.create_did(wallet.clone(), hash.clone(), 0).unwrap();

    let retrieved_hash = registry.get_biometric_hash(&wallet);
    assert_eq!(retrieved_hash, Some(hash));
}

#[test]
fn scenario_create_then_read() {
    let mut registry = BiometricContract::new();
    let w1 = s("w1");
    assert!(registry.create_did(w1.clone(), s("h1"), 10).is_ok());
    assert!(registry.has_did(&w1));
    assert!(!registry.is_verified(&w1));
}

#[test]
fn scenario_verify_then_wrong_hash() {
    let mut registry = BiometricContract::new();
    let w1 = s("w1");
    registry.create_did(w1.clone(), s("h1"), 10).unwrap();
    assert!(registry.verify_biometrics(&w1, &s("h1")));
    assert!(registry.is_verified(&w1));
    assert!(!registry.verify_biometrics(&w1, &s("wrong")));
    assert!(registry.is_verified(&w1));
}

#[test]
fn scenario_update_then_freeze() {
    let mut registry = BiometricContract::new();
    let w1 = s("w1");
    registry.create_did(w1.clone(), s("h1"), 10).unwrap();
    assert!(registry.update_biometric_hash(&w1, s("h2")));
    assert_eq!(registry.get_biometric_hash(&w1), Some(s("h2")));
    assert!(registry.verify_biometrics(&w1, &s("h2")));
    assert!(!registry.update_biometric_hash(&w1, s("h3")));
    assert_eq!(registry.get_biometric_hash(&w1), Some(s("h2")));
}

#[test]
fn scenario_duplicate_create() {
    let mut registry = BiometricContract::new();
    let w1 = s("w1");
    assert!(registry.create_did(w1.clone(), s("h1"), 10).is_ok());
    assert_eq!(registry.create_did(w1.clone(), s("h1"), 11), Err(DidError::AlreadyExists));
    assert_eq!(registry.create_did(w1.clone(), s("other"), 12), Err(DidError::AlreadyExists));
    let record = registry.get_did(&w1).unwrap();
    assert_eq!(record.biometric_hash, s("h1"));
    assert_eq!(record.created_at, 10);
}

#[test]
fn absent_identity_reads_as_absent() {
    let mut registry = BiometricContract::new();
    registry.create_did(s("w1"), s("h1"), 1).unwrap();
    let ghost = s("never");
    assert!(registry.get_did(&ghost).is_none());
    assert!(!registry.has_did(&ghost));
    assert_eq!(registry.get_biometric_hash(&ghost), None);
    assert!(!registry.is_verified(&ghost));
    assert!(!registry.verify_biometrics(&ghost, &s("h1")));
    assert!(!registry.update_biometric_hash(&ghost, s("h2")));
    assert!(!registry.has_did(&ghost));
}

#[test]
fn empty_registry_has_nothing() {
    let registry = BiometricContract::new();
    assert!(!registry.has_did(&s("")));
    assert!(registry.get_did(&s("w1")).is_none());
}

#[test]
fn get_did_returns_full_record() {
    let mut registry = BiometricContract::new();
    registry.create_did(s("w1"), s("h1"), 42).unwrap();
    let record = registry.get_did(&s("w1")).unwrap();
    assert_eq!(record.wallet_address, s("w1"));
    assert_eq!(record.biometric_hash, s("h1"));
    assert_eq!(record.created_at, 42);
    assert!(!record.is_verified);

    registry.verify_biometrics(&s("w1"), &s("h1"));
    let record = registry.get_did(&s("w1")).unwrap();
    assert!(record.is_verified);
    assert_eq!(record.created_at, 42);
}

#[test]
fn verify_twice_is_idempotent() {
    let mut registry = BiometricContract::new();
    registry.create_did(s("w1"), s("h1"), 3).unwrap();
    assert!(registry.verify_biometrics(&s("w1"), &s("h1")));
    assert!(registry.verify_biometrics(&s("w1"), &s("h1")));
    assert!(registry.is_verified(&s("w1")));
    assert_eq!(registry.get_biometric_hash(&s("w1")), Some(s("h1")));
}

#[test]
fn mismatch_leaves_record_unverified() {
    let mut registry = BiometricContract::new();
    registry.create_did(s("w1"), s("h1"), 3).unwrap();
    assert!(!registry.verify_biometrics(&s("w1"), &s("h1 ")));
    assert!(!registry.is_verified(&s("w1")));
    assert!(registry.update_biometric_hash(&s("w1"), s("h9")));
    assert!(!registry.verify_biometrics(&s("w1"), &s("h1")));
    assert!(registry.verify_biometrics(&s("w1"), &s("h9")));
}

#[test]
fn wallets_are_independent() {
    let mut registry = BiometricContract::new();
    registry.create_did(s("w1"), s("same"), 1).unwrap();
    registry.create_did(s("w2"), s("same"), 2).unwrap();
    assert!(registry.verify_biometrics(&s("w1"), &s("same")));
    assert!(registry.is_verified(&s("w1")));
    assert!(!registry.is_verified(&s("w2")));
    assert!(registry.update_biometric_hash(&s("w2"), s("changed")));
    assert_eq!(registry.get_biometric_hash(&s("w1")), Some(s("same")));
    assert_eq!(registry.get_biometric_hash(&s("w2")), Some(s("changed")));
}

#[test]
fn copy_keeps_every_field() {
    let mut registry = BiometricContract::new();
    registry.create_did(s("w1"), s("h1"), 9).unwrap();
    let record = registry.get_did(&s("w1")).unwrap();
    let copied = record.copy();
    assert_eq!(copied.wallet_address, record.wallet_address);
    assert_eq!(copied.biometric_hash, record.biometric_hash);
    assert_eq!(copied.created_at, 9);
    assert_eq!(copied.is_verified, record.is_verified);
}
