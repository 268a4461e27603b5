use shield_cli::api::{DeviceResponse, DeviceTokenResponse, EnvironmentStatusResponse, SnapshotResponse};
use shield_cli::error::ShieldError;
use shield_cli::sorted_map::SortedMap;
use shield_cli::state::{initial_state, AppState};
use shield_cli::workflow::{
    classify_exchange_error, complete_login, local_version, outdated_warning, poll_action,
    prepare_push, record_pull, record_push, record_registration, record_secret, registration_step,
    require_token, status_report, try_load_environment_values, verify_last_snapshot, ExchangeOutcome,
    PollAction, Registration,
};

fn token() -> DeviceTokenResponse {
    DeviceTokenResponse { token: "tok-1".to_string(), actor_email: "dev@example.com".to_string() }
}

fn logged_in() -> AppState {
    let mut state = initial_state(None);
    complete_login(&mut state, "laptop".to_string(), token());
    state
}

fn response_for(state: &AppState, id: &str) -> DeviceResponse {
    let d = state.device().unwrap();
    DeviceResponse {
        id: id.to_string(),
        name: d.name.clone(),
        encryption_public_key: d.age_recipient.clone(),
        signing_public_key: d.signing_public_key.clone(),
        created_at: "2026-03-14T00:00:00Z".to_string(),
    }
}

fn registered_with_workspace() -> (AppState, DeviceResponse) {
    let mut state = logged_in();
    let response = response_for(&state, "device-1");
    record_registration(&mut state, &response).unwrap();
    state.upsert_workspace("ws-1", "team");
    (state, response)
}

fn one_secret() -> SortedMap<String> {
    let mut m = SortedMap::new();
    m.insert("DATABASE_URL".to_string(), "postgres://local".to_string());
    m
}

fn as_snapshot(state: &AppState, response: &DeviceResponse, values: &SortedMap<String>, version: u64) -> SnapshotResponse {
    let request = prepare_push(state, "ws-1", "dev", response, values).unwrap().unwrap();
    SnapshotResponse {
        snapshot_id: "snap-1".to_string(),
        workspace_id: request.workspace_id,
        environment: request.environment,
        version,
        created_by_device: request.created_by_device,
        created_at: "2026-03-14T00:00:00Z".to_string(),
        manifest_signature: request.manifest_signature,
        key_envelopes: request.key_envelopes,
        secrets: request.secrets,
    }
}

#[test]
fn pending_exchange_is_recognised_by_its_status_code() {
    assert!(matches!(
        classify_exchange_error("control plane request failed (409 Conflict): authorization pending"),
        ExchangeOutcome::Pending
    ));
    assert!(matches!(
        classify_exchange_error("control plane request failed (403 Forbidden): denied"),
        ExchangeOutcome::Failed
    ));
}

#[test]
fn polling_retries_until_the_flow_expires() {
    assert!(matches!(poll_action(ExchangeOutcome::Approved, 999, 0, 10), PollAction::Finish));
    assert!(matches!(poll_action(ExchangeOutcome::Failed, 0, 0, 10), PollAction::Fail));
    assert!(matches!(poll_action(ExchangeOutcome::Pending, 9, 999_999_999, 10), PollAction::Retry));
    assert!(matches!(poll_action(ExchangeOutcome::Pending, 10, 0, 10), PollAction::Retry));
    assert!(matches!(poll_action(ExchangeOutcome::Pending, 10, 1, 10), PollAction::Expire));
    assert!(matches!(poll_action(ExchangeOutcome::Pending, 11, 0, 10), PollAction::Expire));
}

#[test]
fn login_creates_keys_once_and_stores_the_token() {
    let mut state = logged_in();
    let device = state.device().unwrap().clone();
    assert_eq!(device.name, "laptop");
    assert!(device.id.is_none());
    assert!(device.age_recipient.starts_with("age1"));
    assert_eq!(state.token.as_deref(), Some("tok-1"));
    assert_eq!(state.actor_email.as_deref(), Some("dev@example.com"));
    complete_login(
        &mut state,
        "other-name".to_string(),
        DeviceTokenResponse { token: "tok-2".to_string(), actor_email: "b@example.com".to_string() },
    );
    let again = state.device().unwrap();
    assert_eq!(again.name, "laptop");
    assert_eq!(again.signing_public_key, device.signing_public_key);
    assert_eq!(require_token(&state).unwrap(), "tok-2");
}

#[test]
fn token_is_required() {
    let state = initial_state(None);
    let error = require_token(&state).unwrap_err();
    assert_eq!(error.message(), "not logged in; run `shield login` first");
}

#[test]
fn registration_is_needed_then_remembered() {
    let mut state = logged_in();
    match registration_step(&state).unwrap() {
        Registration::Needed(request) => {
            assert_eq!(request.name, "laptop");
            assert_eq!(request.encryption_public_key, state.device().unwrap().age_recipient);
        }
        Registration::Known(_) => panic!("device is not registered yet"),
    }
    let response = response_for(&state, "device-7");
    record_registration(&mut state, &response).unwrap();
    assert_eq!(state.device().unwrap().id.as_deref(), Some("device-7"));
    match registration_step(&state).unwrap() {
        Registration::Known(known) => {
            assert_eq!(known.id, "device-7");
            assert_eq!(known.signing_public_key, response.signing_public_key);
            assert_eq!(known.created_at, "");
        }
        Registration::Needed(_) => panic!("device is registered"),
    }
}

#[test]
fn registration_needs_a_device_and_a_registry_entry() {
    let mut state = initial_state(None);
    assert!(matches!(registration_step(&state), Err(ShieldError::DeviceNotInitialized)));
    let response = DeviceResponse {
        id: "d".to_string(),
        name: "n".to_string(),
        encryption_public_key: String::new(),
        signing_public_key: String::new(),
        created_at: String::new(),
    };
    assert!(matches!(record_registration(&mut state, &response), Err(ShieldError::DeviceNotInitialized)));
    let mut state = logged_in();
    state.device_mut().unwrap().id = Some("ghost".to_string());
    let error = registration_step(&state).unwrap_err();
    assert_eq!(error.message(), "local device registry is missing ghost");
}

#[test]
fn recorded_secret_is_loaded_back() {
    let (mut state, _) = registered_with_workspace();
    let mut secrets = try_load_environment_values(&mut state, "ws-1", "dev").unwrap().unwrap();
    assert!(secrets.is_empty());
    record_secret(&mut state, "ws-1", "dev", &mut secrets, "API_KEY".to_string(), "k-1".to_string()).unwrap();
    let mut secrets = try_load_environment_values(&mut state, "ws-1", "dev").unwrap().unwrap();
    assert_eq!(secrets.get("API_KEY"), Some(&"k-1".to_string()));
    record_secret(&mut state, "ws-1", "dev", &mut secrets, "API_KEY".to_string(), "k-2".to_string()).unwrap();
    let secrets = try_load_environment_values(&mut state, "ws-1", "dev").unwrap().unwrap();
    assert_eq!(secrets.to_pairs(), vec![("API_KEY".to_string(), "k-2".to_string())]);
    let e = state.workspaces.get("ws-1").unwrap().environments.get("dev").unwrap();
    assert!(e.dirty);
    assert_eq!(e.version, 0);
}

#[test]
fn secret_for_unknown_workspace_is_refused() {
    let mut state = logged_in();
    let mut secrets = SortedMap::new();
    let error = record_secret(&mut state, "nope", "dev", &mut secrets, "K".to_string(), "v".to_string()).unwrap_err();
    assert_eq!(error.message(), "workspace nope not found in local state");
    assert_eq!(secrets.get("K"), Some(&"v".to_string()));
}

#[test]
fn push_needs_secrets_and_a_device() {
    let (state, response) = registered_with_workspace();
    let error = prepare_push(&state, "ws-1", "dev", &response, &SortedMap::new()).unwrap().unwrap_err();
    assert_eq!(error.message(), "no secrets found for environment dev");
    let bare = initial_state(None);
    assert!(matches!(
        prepare_push(&bare, "ws-1", "dev", &response, &one_secret()),
        Some(Err(ShieldError::DeviceNotInitialized))
    ));
}

#[test]
fn pushed_snapshot_is_recorded_and_verifies() {
    let (mut state, response) = registered_with_workspace();
    let request = prepare_push(&state, "ws-1", "dev", &response, &one_secret()).unwrap().unwrap();
    assert_eq!(request.workspace_id, "ws-1");
    assert_eq!(request.environment, "dev");
    assert_eq!(request.created_by_device, "device-1");
    assert_eq!(request.secrets.len(), 1);
    let snapshot = as_snapshot(&state, &response, &one_secret(), 4);
    record_push(&mut state, "ws-1", "dev", &response, snapshot).unwrap();
    assert_eq!(local_version(&state, "ws-1", "dev"), 4);
    assert!(verify_last_snapshot(&state, "ws-1", "dev").is_ok());
    let e = state.workspaces.get("ws-1").unwrap().environments.get("dev").unwrap();
    assert!(!e.dirty);
    assert!(state.known_devices.contains_key("device-1"));
}

#[test]
fn push_into_unknown_workspace_is_refused() {
    let (mut state, response) = registered_with_workspace();
    let snapshot = as_snapshot(&state, &response, &one_secret(), 1);
    let error = record_push(&mut state, "ws-x", "dev", &response, snapshot).unwrap_err();
    assert!(matches!(error, ShieldError::WorkspaceNotInLocalState(_)));
}

#[test]
fn last_snapshot_needs_a_known_signer() {
    let (mut state, response) = registered_with_workspace();
    assert!(verify_last_snapshot(&state, "ws-1", "dev").is_ok());
    let mut snapshot = as_snapshot(&state, &response, &one_secret(), 2);
    snapshot.created_by_device = "stranger".to_string();
    record_push(&mut state, "ws-1", "dev", &response, snapshot).unwrap();
    let error = verify_last_snapshot(&state, "ws-1", "dev").unwrap_err();
    assert_eq!(error.message(), "snapshot signer is unknown in local state");
}

#[test]
fn pulled_snapshot_is_loaded_back() {
    let (mut state, response) = registered_with_workspace();
    let mut values = one_secret();
    values.insert("API_KEY".to_string(), "k-9".to_string());
    let snapshot = as_snapshot(&state, &response, &values, 6);
    record_pull(&mut state, "ws-1", "dev", snapshot).unwrap().unwrap();
    assert_eq!(local_version(&state, "ws-1", "dev"), 6);
    let loaded = try_load_environment_values(&mut state, "ws-1", "dev").unwrap().unwrap();
    assert_eq!(loaded.to_pairs(), values.to_pairs());
    assert!(verify_last_snapshot(&state, "ws-1", "dev").is_ok());
}

#[test]
fn pull_with_unknown_signer_changes_nothing() {
    let (mut state, response) = registered_with_workspace();
    let snapshot = as_snapshot(&state, &response, &one_secret(), 6);
    state.known_devices = SortedMap::new();
    let error = record_pull(&mut state, "ws-1", "dev", snapshot).unwrap().unwrap_err();
    assert!(matches!(error, ShieldError::UnknownSigner(_)));
    assert_eq!(local_version(&state, "ws-1", "dev"), 0);
}

#[test]
fn local_version_is_zero_when_unknown() {
    let state = initial_state(None);
    assert_eq!(local_version(&state, "ws-1", "dev"), 0);
}

#[test]
fn status_lines() {
    let behind = EnvironmentStatusResponse {
        workspace_id: "ws-1".to_string(),
        environment: "dev".to_string(),
        latest_version: 5,
        local_version: 3,
        out_of_date: true,
    };
    assert_eq!(status_report(&behind), "Environment dev is behind: local v3, latest v5");
    assert_eq!(
        outdated_warning(&behind, "dev").unwrap(),
        "warning: local snapshot is outdated (local v3, latest v5). Run `shield pull --env dev` to sync."
    );
    let current = EnvironmentStatusResponse {
        workspace_id: "ws-1".to_string(),
        environment: "dev".to_string(),
        latest_version: 5,
        local_version: 5,
        out_of_date: false,
    };
    assert_eq!(status_report(&current), "Environment dev is up to date at v5");
    assert!(outdated_warning(&current, "dev").is_none());
}

#[test]
fn tampered_snapshot_is_not_pulled() {
    let (mut state, response) = registered_with_workspace();
    let mut snapshot = as_snapshot(&state, &response, &one_secret(), 8);
    snapshot.secrets[0].ciphertext = "tampered".to_string();
    let error = record_pull(&mut state, "ws-1", "dev", snapshot).unwrap().unwrap_err();
    assert_eq!(error.message(), "manifest signature verification failed");
    assert_eq!(local_version(&state, "ws-1", "dev"), 0);
    assert!(state.local_cache_key.is_none());
    assert!(state.workspaces.get("ws-1").unwrap().environments.get("dev").is_none());
}

#[test]
fn push_to_a_small_order_recipient_is_declined() {
    let (mut state, response) = registered_with_workspace();
    state.device_mut().unwrap().age_recipient =
        "age1qqqqqqqqqqqqqqqqqqqqqqqqqqqqqqqqqqqqqqqqqqqqqqqqqqqq5cu47z".to_string();
    assert!(prepare_push(&state, "ws-1", "dev", &response, &one_secret()).is_none());
    state.device_mut().unwrap().age_recipient = "not-a-recipient".to_string();
    let error = prepare_push(&state, "ws-1", "dev", &response, &one_secret()).unwrap().unwrap_err();
    assert!(matches!(error, ShieldError::AgeKey(_)));
}
