use base64::Engine;
use shield_cli::error::ShieldError;
use shield_cli::sorted_map::SortedMap;
use shield_cli::state::{
    decrypt_local_cache, encrypt_local_cache, initial_state, AppState, DecryptedSecrets,
    EncryptedCache, StateStore, StoredDevice,
};

fn state_with_workspaces() -> AppState {
    let mut state = initial_state(None);
    state.upsert_workspace("ws-2", "beta");
    state.upsert_workspace("ws-1", "alpha");
    state.upsert_workspace("ws-3", "alpha");
    state
}

fn secrets(pairs: &[(&str, &str)]) -> SortedMap<String> {
    let mut m = SortedMap::new();
    for (k, v) in pairs {
        m.insert(k.to_string(), v.to_string());
    }
    m
}

#[test]
fn initial_state_uses_given_or_local_address() {
    let s = initial_state(None);
    assert_eq!(s.api_base_url, "http://127.0.0.1:8080");
    assert!(s.token.is_none() && s.device.is_none() && s.local_cache_key.is_none());
    assert!(s.workspaces.is_empty() && s.known_devices.is_empty());
    let s = initial_state(Some("https://api.example".to_string()));
    assert_eq!(s.api_base_url, "https://api.example");
    let d = AppState::default();
    assert_eq!(d.api_base_url, "");
}

#[test]
fn state_file_is_inside_the_root() {
    assert_eq!(StateStore::from_root("/home/u/.envshield".to_string()).state_file(), "/home/u/.envshield/state.json");
    assert_eq!(StateStore::from_root("/tmp/x/".to_string()).state_file(), "/tmp/x/state.json");
    assert_eq!(StateStore::from_root(String::new()).state_file(), "state.json");
    assert_eq!(StateStore::from_root("/r".to_string()).root(), "/r");
}

#[test]
fn resolve_prefers_id_then_first_name_by_id_order() {
    let state = state_with_workspaces();
    assert_eq!(state.resolve_workspace_id(Some("ws-2")).unwrap(), "ws-2");
    assert_eq!(state.resolve_workspace_id(Some("beta")).unwrap(), "ws-2");
    assert_eq!(state.resolve_workspace_id(Some("alpha")).unwrap(), "ws-1");
    let error = state.resolve_workspace_id(Some("gamma")).unwrap_err();
    assert_eq!(error.message(), "workspace gamma not found");
    assert_eq!(state.resolve_workspace_id(None).unwrap(), "ws-3");
}

#[test]
fn resolve_without_current_workspace_fails() {
    let state = initial_state(None);
    let error = state.resolve_workspace_id(None).unwrap_err();
    assert!(matches!(error, ShieldError::NoCurrentWorkspace));
    assert_eq!(error.message(), "no current workspace configured; run `shield init` first");
}

#[test]
fn upserted_workspace_becomes_current_and_resolves() {
    let mut state = initial_state(None);
    state.upsert_workspace("ws-9", "team");
    assert_eq!(state.current_workspace_id.as_deref(), Some("ws-9"));
    assert_eq!(state.resolve_workspace_id(None).unwrap(), "ws-9");
    assert_eq!(state.resolve_workspace_id(Some("ws-9")).unwrap(), "ws-9");
}

#[test]
fn upsert_renames_and_keeps_environments() {
    let mut state = initial_state(None);
    state.upsert_workspace("ws-1", "old");
    state.environment_state_mut("ws-1", "dev").unwrap().version = 5;
    state.upsert_workspace("ws-1", "new");
    let w = state.workspaces.get("ws-1").unwrap();
    assert_eq!(w.name, "new");
    assert_eq!(w.id, "ws-1");
    assert_eq!(w.environments.get("dev").unwrap().version, 5);
    assert_eq!(state.workspaces.len(), 1);
}

#[test]
fn environment_state_is_created_empty() {
    let mut state = initial_state(None);
    state.upsert_workspace("ws-1", "w");
    {
        let e = state.environment_state_mut("ws-1", "dev").unwrap();
        assert_eq!(e.version, 0);
        assert!(!e.dirty && e.cache.is_none() && e.last_snapshot.is_none());
        e.dirty = true;
    }
    assert!(state.environment_state_mut("ws-1", "dev").unwrap().dirty);
    let error = state.environment_state_mut("ws-x", "dev").unwrap_err();
    assert_eq!(error.message(), "workspace ws-x not found in local state");
}

#[test]
fn device_access_needs_initialized_device() {
    let mut state = initial_state(None);
    assert!(matches!(state.device(), Err(ShieldError::DeviceNotInitialized)));
    assert_eq!(
        state.device_mut().unwrap_err().message(),
        "device not initialized; run `shield login` first"
    );
    state.device = Some(StoredDevice {
        id: None,
        name: "laptop".to_string(),
        age_identity: String::new(),
        age_recipient: String::new(),
        signing_secret_key: String::new(),
        signing_public_key: String::new(),
    });
    state.device_mut().unwrap().id = Some("d-1".to_string());
    assert_eq!(state.device().unwrap().id.as_deref(), Some("d-1"));
}

#[test]
fn local_cache_key_is_drawn_once_and_kept() {
    let mut state = initial_state(None);
    let first = state.local_cache_key().unwrap();
    let stored = state.local_cache_key.clone().unwrap();
    assert_eq!(stored.len(), 44);
    assert_eq!(base64::engine::general_purpose::STANDARD.encode(first), stored);
    let second = state.local_cache_key().unwrap();
    assert_eq!(first, second);
    assert_eq!(state.local_cache_key.as_deref(), Some(stored.as_str()));
}

#[test]
fn stored_cache_key_must_be_base64_of_32_bytes() {
    let mut state = initial_state(None);
    state.local_cache_key = Some("not base64!".to_string());
    assert!(matches!(state.local_cache_key(), Err(ShieldError::DecodeCacheKey)));
    state.local_cache_key = Some("AAAA".to_string());
    let error = state.local_cache_key().unwrap_err();
    assert!(matches!(error, ShieldError::CacheKeyLength));
    assert_eq!(error.message(), "local cache key length mismatch");
    state.local_cache_key = Some("AQIDBAUGBwgJCgsMDQ4PEBESExQVFhcYGRobHB0eHyA=".to_string());
    let key = state.local_cache_key().unwrap();
    let expected: Vec<u8> = (1u8..=32).collect();
    assert_eq!(key.to_vec(), expected);
}

#[test]
fn local_cache_roundtrip_gives_back_the_secrets() {
    let key = [7u8; 32];
    let values = secrets(&[("DATABASE_URL", "postgres://local"), ("TOKEN", "a\"b\\c\n")]);
    let cache = encrypt_local_cache(&key, &values).unwrap();
    assert_eq!(cache.nonce.len(), 32);
    assert_ne!(cache.ciphertext, "");
    let back = decrypt_local_cache(&key, &cache).unwrap();
    assert_eq!(back.to_pairs(), values.to_pairs());
}

#[test]
fn local_cache_of_no_secrets_roundtrips() {
    let key = [1u8; 32];
    let cache = encrypt_local_cache(&key, &SortedMap::new()).unwrap();
    let back = decrypt_local_cache(&key, &cache).unwrap();
    assert!(back.is_empty());
}

#[test]
fn local_cache_fails_under_another_key() {
    let cache = encrypt_local_cache(&[7u8; 32], &secrets(&[("A", "1")])).unwrap();
    let error = decrypt_local_cache(&[8u8; 32], &cache).unwrap_err();
    assert!(matches!(error, ShieldError::DecryptCache));
    assert_eq!(error.message(), "failed to decrypt local cache");
}

#[test]
fn local_cache_with_bad_base64_is_refused() {
    let cache = encrypt_local_cache(&[7u8; 32], &secrets(&[("A", "1")])).unwrap();
    let bad_nonce = EncryptedCache { nonce: "%%%".to_string(), ciphertext: cache.ciphertext.clone() };
    assert!(matches!(decrypt_local_cache(&[7u8; 32], &bad_nonce), Err(ShieldError::DecodeCacheNonce)));
    let bad_ciphertext = EncryptedCache { nonce: cache.nonce.clone(), ciphertext: "%%%".to_string() };
    assert!(matches!(
        decrypt_local_cache(&[7u8; 32], &bad_ciphertext),
        Err(ShieldError::DecodeCacheCiphertext)
    ));
}

#[test]
fn decrypted_secrets_hold_their_values() {
    let s = DecryptedSecrets::new(secrets(&[("A", "1")]));
    assert_eq!(s.values.get("A"), Some(&"1".to_string()));
    drop(s);
}

#[test]
fn local_cache_ciphertext_is_payload_and_tag() {
    let engine = base64::engine::general_purpose::STANDARD;
    let values = secrets(&[("B", "2"), ("A", "x\"y")]);
    let cache = encrypt_local_cache(&[3u8; 32], &values).unwrap();
    let payload = "{\"A\":\"x\\\"y\",\"B\":\"2\"}";
    assert_eq!(engine.decode(&cache.nonce).unwrap().len(), 24);
    assert_eq!(engine.decode(&cache.ciphertext).unwrap().len(), payload.len() + 16);
}
