use shield_cli::api::{KeyEnvelope, SecretItem, SnapshotResponse};
use shield_cli::crypto::{
    decrypt_snapshot, encrypt_snapshot, generate_device_identity, recipient_usable, sign_manifest,
    try_decrypt_snapshot, verify_manifest,
};
use shield_cli::error::ShieldError;
use shield_cli::sorted_map::SortedMap;
use shield_cli::state::{KnownDevice, StoredDevice};

fn device(id: &str) -> StoredDevice {
    let identity = generate_device_identity();
    StoredDevice {
        id: Some(id.to_string()),
        name: "Laptop".to_string(),
        age_identity: identity.age_identity,
        age_recipient: identity.age_recipient,
        signing_secret_key: identity.signing_secret_key,
        signing_public_key: identity.signing_public_key,
    }
}

fn registry(device: &StoredDevice) -> SortedMap<KnownDevice> {
    let id = device.id.clone().unwrap();
    SortedMap::from_pairs(vec![(
        id.clone(),
        KnownDevice {
            id,
            name: device.name.clone(),
            encryption_public_key: device.age_recipient.clone(),
            signing_public_key: device.signing_public_key.clone(),
        },
    )])
}

fn values() -> SortedMap<String> {
    let mut m = SortedMap::new();
    m.insert("DATABASE_URL".to_string(), "postgres://local".to_string());
    m.insert("API_KEY".to_string(), "k-123".to_string());
    m
}

fn snapshot_of(device: &StoredDevice, values: &SortedMap<String>) -> SnapshotResponse {
    let id = device.id.clone().unwrap();
    let (key_envelopes, secrets, signature) =
        encrypt_snapshot(device, &id, "workspace-1", "development", values).unwrap();
    SnapshotResponse {
        snapshot_id: "snapshot-1".to_string(),
        workspace_id: "workspace-1".to_string(),
        environment: "development".to_string(),
        version: 3,
        created_by_device: id,
        created_at: "2026-03-14T00:00:00Z".to_string(),
        manifest_signature: signature,
        key_envelopes,
        secrets,
    }
}

fn resign(device: &StoredDevice, snapshot: &mut SnapshotResponse) {
    snapshot.manifest_signature = sign_manifest(
        &device.signing_secret_key,
        &snapshot.workspace_id,
        &snapshot.environment,
        &snapshot.created_by_device,
        &snapshot.key_envelopes,
        &snapshot.secrets,
    )
    .unwrap();
}

fn decrypt_error(device: &StoredDevice, snapshot: &SnapshotResponse) -> ShieldError {
    decrypt_snapshot(device, &registry(device), snapshot).unwrap_err()
}

#[test]
fn generated_identity_has_age_and_base64_keys() {
    let identity = generate_device_identity();
    assert!(identity.age_identity.starts_with("AGE-SECRET-KEY-1"));
    assert!(identity.age_recipient.starts_with("age1"));
    assert_eq!(identity.signing_secret_key.len(), 44);
    assert_eq!(identity.signing_public_key.len(), 44);
    assert_ne!(identity.signing_secret_key, identity.signing_public_key);
}

#[test]
fn encrypted_snapshot_lists_secrets_in_name_order_with_hashes() {
    let d = device("device-1");
    let snapshot = snapshot_of(&d, &values());
    assert_eq!(snapshot.secrets.len(), 2);
    assert_eq!(snapshot.secrets[0].name, "API_KEY");
    assert_eq!(snapshot.secrets[1].name, "DATABASE_URL");
    assert_eq!(
        snapshot.secrets[1].aad_hash,
        "a48946c2b7023d6d0ade8cc55cde161130737a88c1a59a5aef853d8aa08a66c1"
    );
    assert_eq!(
        snapshot.secrets[1].value_checksum,
        "6ea09766d39f0b050b67763b6bdbac984d6f91d5e7d5b8e71c2fa4695a91e93e"
    );
    assert_eq!(snapshot.secrets[1].nonce.len(), 32);
    assert_ne!(snapshot.secrets[1].ciphertext, "postgres://local");
    assert_eq!(snapshot.key_envelopes.len(), 1);
    assert_eq!(snapshot.key_envelopes[0].device_id, "device-1");
    assert_eq!(snapshot.key_envelopes[0].recipient, d.age_recipient);
    assert_eq!(snapshot.manifest_signature.len(), 88);
}

#[test]
fn snapshot_decrypts_to_all_its_secrets() {
    let d = device("device-1");
    let snapshot = snapshot_of(&d, &values());
    let decrypted = decrypt_snapshot(&d, &registry(&d), &snapshot).unwrap();
    assert_eq!(decrypted.secrets.to_pairs(), values().to_pairs());
    let again = try_decrypt_snapshot(&d, &registry(&d), &snapshot).unwrap().unwrap();
    assert_eq!(again.secrets.len(), 2);
}

#[test]
fn signed_manifest_verifies_only_under_its_key() {
    let d = device("device-1");
    let other = device("device-2");
    let snapshot = snapshot_of(&d, &values());
    assert!(verify_manifest(&d.signing_public_key, &snapshot).is_ok());
    let error = verify_manifest(&other.signing_public_key, &snapshot).unwrap_err();
    assert!(matches!(error, ShieldError::SignatureMismatch));
}

#[test]
fn malformed_public_keys_and_signatures_are_refused() {
    let d = device("device-1");
    let mut snapshot = snapshot_of(&d, &values());
    assert!(matches!(verify_manifest("%%%", &snapshot), Err(ShieldError::DecodePublicKey)));
    assert!(matches!(verify_manifest("AAAA", &snapshot), Err(ShieldError::PublicKeyLength)));
    snapshot.manifest_signature = "%%%".to_string();
    assert!(matches!(verify_manifest(&d.signing_public_key, &snapshot), Err(ShieldError::DecodeSignature)));
    snapshot.manifest_signature = "AAAA".to_string();
    let error = verify_manifest(&d.signing_public_key, &snapshot).unwrap_err();
    assert!(matches!(error, ShieldError::ParseSignature));
    assert_eq!(error.message(), "failed to parse manifest signature");
}

#[test]
fn malformed_secret_keys_cannot_sign() {
    assert!(matches!(sign_manifest("%%%", "w", "e", "d", &[], &[]), Err(ShieldError::DecodeSecretKey)));
    assert!(matches!(sign_manifest("AAAA", "w", "e", "d", &[], &[]), Err(ShieldError::SecretKeyLength)));
    let mut d = device("device-1");
    d.signing_secret_key = "AAAA".to_string();
    assert!(matches!(
        encrypt_snapshot(&d, "device-1", "w", "e", &values()),
        Err(ShieldError::SecretKeyLength)
    ));
}

#[test]
fn malformed_recipient_cannot_wrap_the_data_key() {
    let mut d = device("device-1");
    d.age_recipient = "not-a-recipient".to_string();
    let error = encrypt_snapshot(&d, "device-1", "w", "e", &values()).unwrap_err();
    assert!(matches!(error, ShieldError::AgeKey(_)));
}

#[test]
fn unknown_signer_is_refused() {
    let d = device("device-1");
    let snapshot = snapshot_of(&d, &values());
    let error = decrypt_snapshot(&d, &SortedMap::new(), &snapshot).unwrap_err();
    assert_eq!(error.message(), "unknown device device-1 for snapshot verification");
}

#[test]
fn no_envelope_for_another_device() {
    let d = device("device-1");
    let other = device("device-2");
    let snapshot = snapshot_of(&d, &values());
    let mut known = registry(&d);
    known.insert(
        "device-2".to_string(),
        KnownDevice {
            id: "device-2".to_string(),
            name: "Other".to_string(),
            encryption_public_key: other.age_recipient.clone(),
            signing_public_key: other.signing_public_key.clone(),
        },
    );
    let error = decrypt_snapshot(&other, &known, &snapshot).unwrap_err();
    assert!(matches!(error, ShieldError::NoKeyEnvelope));
    assert_eq!(error.message(), "no key envelope found for current device");
}

#[test]
fn envelope_found_by_recipient_when_device_has_no_id() {
    let d = device("device-1");
    let snapshot = snapshot_of(&d, &values());
    let mut unregistered = d.clone();
    unregistered.id = None;
    let decrypted = decrypt_snapshot(&unregistered, &registry(&d), &snapshot).unwrap();
    assert_eq!(decrypted.secrets.len(), 2);
}

#[test]
fn bad_wrapped_key_is_refused() {
    let d = device("device-1");
    let mut snapshot = snapshot_of(&d, &values());
    snapshot.key_envelopes[0] = KeyEnvelope {
        device_id: "device-1".to_string(),
        recipient: d.age_recipient.clone(),
        encrypted_key: "%%%".to_string(),
    };
    resign(&d, &mut snapshot);
    assert!(matches!(decrypt_error(&d, &snapshot), ShieldError::DecodeDataKey));
    snapshot.key_envelopes[0].encrypted_key = "AAAA".to_string();
    resign(&d, &mut snapshot);
    assert!(matches!(decrypt_error(&d, &snapshot), ShieldError::UnwrapDataKey));
}

fn with_item(d: &StoredDevice, change: impl Fn(&mut SecretItem)) -> ShieldError {
    let mut snapshot = snapshot_of(d, &values());
    change(&mut snapshot.secrets[1]);
    resign(d, &mut snapshot);
    decrypt_error(d, &snapshot)
}

#[test]
fn each_secret_check_has_its_error() {
    let d = device("device-1");
    let e = with_item(&d, |item| item.aad_hash = "00".to_string());
    assert_eq!(e.message(), "aad hash mismatch for DATABASE_URL");
    let e = with_item(&d, |item| item.nonce = "%%%".to_string());
    assert!(matches!(e, ShieldError::DecodeNonce));
    let e = with_item(&d, |item| item.ciphertext = "%%%".to_string());
    assert!(matches!(e, ShieldError::DecodeCiphertext));
    let e = with_item(&d, |item| item.ciphertext = "AAAA".to_string());
    assert_eq!(e.message(), "failed to decrypt DATABASE_URL");
    let e = with_item(&d, |item| item.value_checksum = "00".to_string());
    assert_eq!(e.message(), "value checksum mismatch for DATABASE_URL");
}

#[test]
fn short_nonce_is_reported_instead_of_decrypted() {
    let d = device("device-1");
    let mut snapshot = snapshot_of(&d, &values());
    snapshot.secrets[0].nonce = "AAAAAAAAAAAAAAAA".to_string();
    resign(&d, &mut snapshot);
    assert!(try_decrypt_snapshot(&d, &registry(&d), &snapshot).is_none());
}

#[test]
fn renamed_secret_fails_its_aad_check() {
    let d = device("device-1");
    let mut snapshot = snapshot_of(&d, &values());
    snapshot.secrets[1].name = "OTHER".to_string();
    resign(&d, &mut snapshot);
    assert!(matches!(decrypt_error(&d, &snapshot), ShieldError::AadMismatch(_)));
}

#[test]
fn small_order_recipients_are_not_usable() {
    assert!(recipient_usable(&generate_device_identity().age_recipient));
    assert!(!recipient_usable("age1qqqqqqqqqqqqqqqqqqqqqqqqqqqqqqqqqqqqqqqqqqqqqqqqqqqq5cu47z"));
    assert!(!recipient_usable("age1ur4h5lpmgxu2u9jku0a0r87ydtdqnr0tnsetrlvxvgz3vh6fhqqqzyt4v9"));
    assert!(recipient_usable("not-a-recipient"));
    assert!(recipient_usable(""));
}

#[test]
fn signing_key_length_error_comes_before_any_other() {
    let mut d = device("device-1");
    d.signing_secret_key = "AAAA".to_string();
    let error = encrypt_snapshot(&d, "device-1", "w", "e", &values()).unwrap_err();
    assert_eq!(error.message(), "signing secret key length mismatch");
}
