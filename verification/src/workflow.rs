//! The decisions and state changes of the command-line workflows (login,
//! device registration, setting, pushing, pulling and running secrets); the
//! program around the library performs the network calls and prompts between
//! them and stores the state.
use vstd::prelude::*;
use vstd::utf8::encode_utf8;
use crate::api::{
    CreateSnapshotRequest, DeviceResponse, EnvironmentStatusResponse, DeviceTokenResponse, RegisterDeviceRequest, SnapshotResponse,
};
use crate::codec::{base64_bytes, base64_decode, base64_text};
use crate::crypto::{
    decoded, encrypt_snapshot, recipient_usable, secrets_fit_cipher, encryption_failure, generate_device_identity, keys_cohere, manifest_check, same_failure,
    seals_snapshot, secret_texts, snapshot_contents, try_decrypt_snapshot, verify_manifest,
    DecryptedSnapshot,
};
use crate::error::ShieldError;
use crate::primitives::{age_recipient_parses, age_recipient_usable};
use crate::sorted_map::SortedMap;
use crate::state::{
    cache_contents, cache_key_from_text, cache_payload_fits, cache_nonce_fits, decrypt_local_cache, encrypt_local_cache,
    is_initial_environment, map_of_pairs, seals_cache, AppState, EncryptedCache, EnvironmentState,
    KnownDevice, StoredDevice,
};
use crate::text::{contains_text, decimal, decimal_text, text_contains};
use vstd::string::StringExecFns;

verus! {

/// How one attempt to exchange a device code for a token ended.
#[derive(Debug)]
pub enum ExchangeOutcome {
    /// A token was issued.
    Approved,
    /// The control plane answered that approval is still pending.
    Pending,
    /// Any other failure.
    Failed,
}

/// What the login loop does next.
#[derive(Debug)]
pub enum PollAction {
    /// Take the issued token.
    Finish,
    /// Wait and ask again.
    Retry,
    /// Give up: the flow expired.
    Expire,
    /// Give up with the exchange's own error.
    Fail,
}

/// Classifies a failed exchange by its error text: approval is pending when
/// the text holds the status code 409.
pub fn classify_exchange_error(message: &str) -> (o: ExchangeOutcome)
    ensures
        o is Pending <==> contains_text(message@, "409"@),
        o is Failed <==> !contains_text(message@, "409"@),
{
    if text_contains(message, "409") {
        ExchangeOutcome::Pending
    } else {
        ExchangeOutcome::Failed
    }
}

/// What to do after an exchange attempt, given the time since the flow started
/// (whole seconds and the nanoseconds beyond them) and the flow's lifetime in
/// seconds: a pending flow is retried until more time than its lifetime has passed.
pub fn poll_action(outcome: ExchangeOutcome, elapsed_secs: u64, elapsed_nanos: u32, expires_in: u64) -> (a: PollAction)
    ensures
        outcome is Approved ==> a is Finish,
        outcome is Failed ==> a is Fail,
        outcome is Pending ==> if elapsed_secs > expires_in || (elapsed_secs == expires_in && elapsed_nanos > 0) {
            a is Expire
        } else {
            a is Retry
        },
{
    match outcome {
        ExchangeOutcome::Approved => PollAction::Finish,
        ExchangeOutcome::Failed => PollAction::Fail,
        ExchangeOutcome::Pending => {
            if elapsed_secs > expires_in || (elapsed_secs == expires_in && elapsed_nanos > 0) {
                PollAction::Expire
            } else {
                PollAction::Retry
            }
        },
    }
}

/// Records a completed login: creates the device keys if this machine has none
/// yet, and stores the account and token.
pub fn complete_login(state: &mut AppState, device_name: String, token: DeviceTokenResponse)
    ensures
        old(state).device is Some ==> final(state).device == old(state).device,
        old(state).device is None ==> (final(state).device matches Some(d) && {
            &&& d.id is None
            &&& d.name == device_name
            &&& keys_cohere(d.age_identity@, d.age_recipient@, d.signing_secret_key@, d.signing_public_key@)
        }),
        final(state).actor_email == Some(token.actor_email),
        final(state).token == Some(token.token),
        final(state).api_base_url == old(state).api_base_url,
        final(state).current_workspace_id == old(state).current_workspace_id,
        final(state).local_cache_key == old(state).local_cache_key,
        final(state).known_devices == old(state).known_devices,
        final(state).workspaces == old(state).workspaces,
{
    if state.device.is_none() {
        let identity = generate_device_identity();
        state.device = Some(
            StoredDevice {
                id: None,
                name: device_name,
                age_identity: identity.age_identity,
                age_recipient: identity.age_recipient,
                signing_secret_key: identity.signing_secret_key,
                signing_public_key: identity.signing_public_key,
            },
        );
    }
    state.actor_email = Some(token.actor_email.clone());
    state.token = Some(token.token);
}

/// The login token, which authorizes calls to the control plane.
pub fn require_token(state: &AppState) -> (r: Result<String, ShieldError>)
    ensures
        match state.token {
            Some(t) => r == Ok::<String, ShieldError>(t),
            None => r matches Err(ShieldError::NotLoggedIn),
        },
{
    match &state.token {
        Some(t) => Ok(t.clone()),
        None => Err(ShieldError::NotLoggedIn),
    }
}

/// Whether this device still has to be registered with the control plane.
#[derive(Debug)]
pub enum Registration {
    /// It is registered; its record as the local registry holds it.
    Known(DeviceResponse),
    /// It is not: the request that registers it.
    Needed(RegisterDeviceRequest),
}

/// The device as the local registry knows it, with no creation time.
pub open spec fn known_as_response(k: KnownDevice, r: DeviceResponse) -> bool {
    &&& r.id == k.id
    &&& r.name == k.name
    &&& r.encryption_public_key == k.encryption_public_key
    &&& r.signing_public_key == k.signing_public_key
    &&& r.created_at@ == Seq::<char>::empty()
}

/// What deciding the registration of the device of `state` gives.
pub open spec fn registration_decided(state: AppState, r: Result<Registration, ShieldError>) -> bool {
    match state.device {
        None => r matches Err(ShieldError::DeviceNotInitialized),
        Some(d) => match d.id {
            Some(id) => if state.known_devices@.contains_key(id@) {
                r matches Ok(Registration::Known(resp)) && known_as_response(
                    state.known_devices@[id@],
                    resp,
                )
            } else {
                r == Err::<Registration, ShieldError>(ShieldError::MissingRegistryEntry(id))
            },
            None => r matches Ok(Registration::Needed(req)) && {
                &&& req.name == d.name
                &&& req.encryption_public_key == d.age_recipient
                &&& req.signing_public_key == d.signing_public_key
            },
        },
    }
}

/// Decides whether this device needs registering: a device with an id must be
/// in the local registry, a device without one is registered with its name and
/// public keys.
pub fn registration_step(state: &AppState) -> (r: Result<Registration, ShieldError>)
    ensures
        registration_decided(*state, r),
{
    let device = match state.device() {
        Ok(d) => d,
        Err(e) => return Err(e),
    };
    match &device.id {
        Some(id) => match state.known_devices.get(id.as_str()) {
            Some(k) => Ok(
                Registration::Known(
                    DeviceResponse {
                        id: k.id.clone(),
                        name: k.name.clone(),
                        encryption_public_key: k.encryption_public_key.clone(),
                        signing_public_key: k.signing_public_key.clone(),
                        created_at: String::new(),
                    },
                ),
            ),
            None => Err(ShieldError::MissingRegistryEntry(id.clone())),
        },
        None => Ok(
            Registration::Needed(
                RegisterDeviceRequest {
                    name: device.name.clone(),
                    encryption_public_key: device.age_recipient.clone(),
                    signing_public_key: device.signing_public_key.clone(),
                },
            ),
        ),
    }
}

/// The registry entry of a registered device.
pub open spec fn as_known(r: DeviceResponse) -> KnownDevice {
    KnownDevice {
        id: r.id,
        name: r.name,
        encryption_public_key: r.encryption_public_key,
        signing_public_key: r.signing_public_key,
    }
}

/// `after` is `before` with the registration of its device under `response` recorded.
pub open spec fn registered(before: AppState, after: AppState, response: DeviceResponse, r: Result<(), ShieldError>) -> bool {
    match before.device {
        None => r matches Err(ShieldError::DeviceNotInitialized) && after == before,
        Some(d) => {
            &&& r is Ok
            &&& after.device == Some(StoredDevice { id: Some(response.id), ..d })
            &&& after.known_devices@ == before.known_devices@.insert(
                response.id@,
                as_known(response),
            )
            &&& after.api_base_url == before.api_base_url
            &&& after.actor_email == before.actor_email
            &&& after.token == before.token
            &&& after.current_workspace_id == before.current_workspace_id
            &&& after.local_cache_key == before.local_cache_key
            &&& after.workspaces == before.workspaces
        },
    }
}

/// Records the registration of this device: its id, and its entry in the local registry.
pub fn record_registration(state: &mut AppState, response: &DeviceResponse) -> (r: Result<(), ShieldError>)
    ensures
        registered(*old(state), *final(state), *response, r),
{
    match state.device_mut() {
        Ok(d) => {
            d.id = Some(response.id.clone());
        },
        Err(e) => return Err(e),
    }
    state.known_devices.insert(
        response.id.clone(),
        KnownDevice {
            id: response.id.clone(),
            name: response.name.clone(),
            encryption_public_key: response.encryption_public_key.clone(),
            signing_public_key: response.signing_public_key.clone(),
        },
    );
    Ok(())
}

/// The state of an environment, if the workspace and the environment are known locally.
pub open spec fn environment_of(state: AppState, workspace_id: Seq<char>, environment: Seq<char>) -> Option<EnvironmentState> {
    if state.workspaces@.contains_key(workspace_id) && state.workspaces@[workspace_id].environments@.contains_key(
        environment,
    ) {
        Some(state.workspaces@[workspace_id].environments@[environment])
    } else {
        None
    }
}

fn find_environment<'a>(state: &'a AppState, workspace_id: &str, environment: &str) -> (r: Option<&'a EnvironmentState>)
    ensures
        match environment_of(*state, workspace_id@, environment@) {
            Some(e) => r matches Some(found) && *found == e,
            None => r is None,
        },
{
    match state.workspaces.get(workspace_id) {
        Some(w) => w.environments.get(environment),
        None => None,
    }
}

/// The snapshot version of an environment known locally; 0 when none is.
pub fn local_version(state: &AppState, workspace_id: &str, environment: &str) -> (v: u64)
    ensures
        v == match environment_of(*state, workspace_id@, environment@) {
            Some(e) => e.version,
            None => 0,
        },
{
    match find_environment(state, workspace_id, environment) {
        Some(e) => e.version,
        None => 0,
    }
}

/// What checking the last snapshot of an environment gives: nothing to check
/// where there is none, else the check of its signature against the signer's
/// locally known key.
pub open spec fn last_snapshot_check(state: AppState, workspace_id: Seq<char>, environment: Seq<char>) -> Result<(), ShieldError> {
    match environment_of(state, workspace_id, environment) {
        Some(e) => match e.last_snapshot {
            Some(s) => if state.known_devices@.contains_key(s.created_by_device@) {
                manifest_check(state.known_devices@[s.created_by_device@].signing_public_key@, s)
            } else {
                Err(ShieldError::UnknownSnapshotSigner)
            },
            None => Ok(()),
        },
        None => Ok(()),
    }
}

/// Checks the last pulled or pushed snapshot of an environment, if there is
/// one, against the locally known key of the device that signed it.
pub fn verify_last_snapshot(state: &AppState, workspace_id: &str, environment: &str) -> (r: Result<(), ShieldError>)
    ensures
        r == last_snapshot_check(*state, workspace_id@, environment@),
{
    let e = match find_environment(state, workspace_id, environment) {
        Some(e) => e,
        None => return Ok(()),
    };
    match &e.last_snapshot {
        Some(snapshot) => match state.known_devices.get(snapshot.created_by_device.as_str()) {
            Some(k) => verify_manifest(k.signing_public_key.as_str(), snapshot),
            None => Err(ShieldError::UnknownSnapshotSigner),
        },
        None => Ok(()),
    }
}

} // verus!

verus! {

/// The cache of an environment, if it has one.
pub open spec fn cache_of(state: AppState, workspace_id: Seq<char>, environment: Seq<char>) -> Option<EncryptedCache> {
    match environment_of(state, workspace_id, environment) {
        Some(e) => e.cache,
        None => None,
    }
}

/// The stored cache key, if any, stands for 32 bytes.
pub open spec fn cache_key_ready(state: AppState) -> bool {
    match state.local_cache_key {
        Some(t) => cache_key_from_text(t@) is Ok,
        None => true,
    }
}

/// Loading an environment's secrets panics only where its cache would make the
/// decryption panic; this excludes exactly that.
pub open spec fn load_fits(state: AppState, workspace_id: Seq<char>, environment: Seq<char>) -> bool {
    match cache_of(state, workspace_id, environment) {
        Some(c) => cache_key_ready(state) ==> cache_nonce_fits(c),
        None => true,
    }
}

/// `after` is `before` with the local cache key kept, or drawn at random where
/// there was none.
pub open spec fn cache_key_kept_or_drawn(before: AppState, after: AppState) -> bool {
    &&& after.api_base_url == before.api_base_url
    &&& after.actor_email == before.actor_email
    &&& after.token == before.token
    &&& after.current_workspace_id == before.current_workspace_id
    &&& after.device == before.device
    &&& after.known_devices == before.known_devices
    &&& after.local_cache_key matches Some(t) && match before.local_cache_key {
        Some(t0) => t == t0,
        None => exists|b: Seq<u8>| b.len() == 32 && t@ == base64_text(b),
    }
}

/// The key the state's cache key text stands for.
pub open spec fn stored_cache_key(state: AppState) -> Result<Seq<u8>, ShieldError> {
    cache_key_from_text(state.local_cache_key.unwrap()@)
}

/// What loading the secrets of an environment gives, from the state before and after.
pub open spec fn loaded(
    before: AppState,
    after: AppState,
    workspace_id: Seq<char>,
    environment: Seq<char>,
    r: Result<SortedMap<String>, ShieldError>,
) -> bool {
    match cache_of(before, workspace_id, environment) {
        None => (r matches Ok(m) && m@ == Map::<Seq<char>, String>::empty()) && after == before,
        Some(c) => {
            &&& cache_key_kept_or_drawn(before, after)
            &&& after.workspaces == before.workspaces
            &&& match stored_cache_key(after) {
                Err(e) => r == Err::<SortedMap<String>, ShieldError>(e),
                Ok(k) => match cache_contents(k, c) {
                    Ok(members) => r matches Ok(m) && m@.map_values(|v: String| v@) == map_of_pairs(members),
                    Err(e) => r == Err::<SortedMap<String>, ShieldError>(e),
                },
            }
        },
    }
}

fn copy_cache(c: &EncryptedCache) -> (r: EncryptedCache)
    ensures
        r == *c,
{
    EncryptedCache { nonce: c.nonce.clone(), ciphertext: c.ciphertext.clone() }
}

fn find_cache(state: &AppState, workspace_id: &str, environment: &str) -> (r: Option<EncryptedCache>)
    ensures
        r == cache_of(*state, workspace_id@, environment@),
{
    match find_environment(state, workspace_id, environment) {
        Some(e) => match &e.cache {
            Some(c) => Some(copy_cache(c)),
            None => None,
        },
        None => None,
    }
}

/// The secrets of an environment from its local cache; none where it has no cache.
pub fn load_environment_values(state: &mut AppState, workspace_id: &str, environment: &str) -> (r: Result<
    SortedMap<String>,
    ShieldError,
>)
    requires
        load_fits(*old(state), workspace_id@, environment@),
    ensures
        loaded(*old(state), *final(state), workspace_id@, environment@, r),
{
    match find_cache(state, workspace_id, environment) {
        None => Ok(SortedMap::new()),
        Some(c) => {
            let key = match state.local_cache_key() {
                Ok(k) => k,
                Err(e) => return Err(e),
            };
            decrypt_local_cache(&key, &c)
        },
    }
}

fn load_fits_exec(state: &AppState, workspace_id: &str, environment: &str) -> (b: bool)
    ensures
        b == load_fits(*state, workspace_id@, environment@),
{
    let c = match find_cache(state, workspace_id, environment) {
        Some(c) => c,
        None => return true,
    };
    let ready = match &state.local_cache_key {
        None => true,
        Some(t) => match base64_decode(t.as_str().as_bytes()) {
            Some(b) => b.len() == 32,
            None => false,
        },
    };
    if !ready {
        return true;
    }
    match (base64_decode(c.nonce.as_str().as_bytes()), base64_decode(c.ciphertext.as_str().as_bytes())) {
        (Some(n), Some(_)) => n.len() == 24,
        _ => true,
    }
}

/// Loads the secrets of an environment as `load_environment_values` does where
/// that does not panic, and gives `None` (changing nothing) where it would.
pub fn try_load_environment_values(state: &mut AppState, workspace_id: &str, environment: &str) -> (r: Option<
    Result<SortedMap<String>, ShieldError>,
>)
    ensures
        match r {
            None => !load_fits(*old(state), workspace_id@, environment@) && *final(state) == *old(state),
            Some(x) => load_fits(*old(state), workspace_id@, environment@) && loaded(
                *old(state),
                *final(state),
                workspace_id@,
                environment@,
                x,
            ),
        },
{
    if !load_fits_exec(state, workspace_id, environment) {
        return None;
    }
    Some(load_environment_values(state, workspace_id, environment))
}

/// The state an environment had before a change: the known one, or the one a
/// new environment starts with.
pub open spec fn prior_environment(state: AppState, workspace_id: Seq<char>, environment: Seq<char>) -> EnvironmentState {
    match environment_of(state, workspace_id, environment) {
        Some(known) => known,
        None => EnvironmentState { version: 0, dirty: false, cache: None, last_snapshot: None },
    }
}

/// `after` is `before` with the environment of a known workspace set to `e`.
pub open spec fn workspaces_with_environment(
    before: Map<Seq<char>, crate::state::WorkspaceState>,
    after: Map<Seq<char>, crate::state::WorkspaceState>,
    workspace_id: Seq<char>,
    environment: Seq<char>,
    e: EnvironmentState,
) -> bool {
    &&& before.contains_key(workspace_id)
    &&& after[workspace_id].id == before[workspace_id].id
    &&& after[workspace_id].name == before[workspace_id].name
    &&& after[workspace_id].environments@ == before[workspace_id].environments@.insert(environment, e)
    &&& after == before.insert(workspace_id, after[workspace_id])
}

/// The environment state after a change of its cache to `cache`, marked as
/// changed since its last snapshot.
pub open spec fn with_cache(prior: EnvironmentState, cache: EncryptedCache) -> EnvironmentState {
    EnvironmentState { cache: Some(cache), dirty: true, ..prior }
}

/// `after` is `before` with `secrets` stored in the local cache of the
/// environment, as recording a secret leaves it, with result `r`.
pub open spec fn secret_recorded(
    before: AppState,
    after: AppState,
    workspace_id: Seq<char>,
    environment: Seq<char>,
    secrets: SortedMap<String>,
    r: Result<(), ShieldError>,
) -> bool {
    &&& cache_key_kept_or_drawn(before, after)
    &&& match stored_cache_key(after) {
        Err(e) => r == Err::<(), ShieldError>(e) && after.workspaces == before.workspaces,
        Ok(k) => match r {
            Err(e) => {
                &&& after.workspaces == before.workspaces
                &&& ((e is EncryptCache && !cache_payload_fits(secrets)) || (e matches ShieldError::WorkspaceNotInLocalState(w)
                    && w@ == workspace_id && !before.workspaces@.contains_key(workspace_id)))
            },
            Ok(_) => environment_of(after, workspace_id, environment) matches Some(e) && {
                &&& e.cache matches Some(c) && seals_cache(k, secrets, c)
                &&& e == with_cache(prior_environment(before, workspace_id, environment), e.cache.unwrap())
                &&& workspaces_with_environment(before.workspaces@, after.workspaces@, workspace_id, environment, e)
            },
        },
    }
    &&& !before.workspaces@.contains_key(workspace_id) ==> r is Err
    &&& (stored_cache_key(after) is Ok && before.workspaces@.contains_key(workspace_id) && cache_payload_fits(secrets))
        ==> r is Ok
}

/// Stores a secret in the local cache of an environment: `key` is set to
/// `value` in `secrets`, which are then encrypted under the local cache key,
/// and the environment is marked as changed since its last snapshot.
pub fn record_secret(
    state: &mut AppState,
    workspace_id: &str,
    environment: &str,
    secrets: &mut SortedMap<String>,
    key: String,
    value: String,
) -> (r: Result<(), ShieldError>)
    ensures
        final(secrets)@ == old(secrets)@.insert(key@, value),
        secret_recorded(*old(state), *final(state), workspace_id@, environment@, *final(secrets), r),
{
    secrets.insert(key, value);
    let cache_key = match state.local_cache_key() {
        Ok(k) => k,
        Err(e) => return Err(e),
    };
    let encrypted = match encrypt_local_cache(&cache_key, secrets) {
        Ok(c) => c,
        Err(e) => return Err(e),
    };
    match state.environment_state_mut(workspace_id, environment) {
        Ok(e) => {
            e.cache = Some(encrypted);
            e.dirty = true;
        },
        Err(e) => return Err(e),
    }
    Ok(())
}

/// Builds the snapshot upload of an environment's secrets, encrypted and signed
/// by this device, which is registered under `device.id`. Gives `None` where
/// the device's age recipient is a key of small order, on which age panics.
pub fn prepare_push(
    state: &AppState,
    workspace_id: &str,
    environment: &str,
    device: &DeviceResponse,
    values: &SortedMap<String>,
) -> (r: Option<Result<CreateSnapshotRequest, ShieldError>>)
    ensures
        values@.is_empty() ==> (r matches Some(Err(ShieldError::NoSecrets(e))) && e@ == environment@),
        !values@.is_empty() ==> match state.device {
            None => r matches Some(Err(ShieldError::DeviceNotInitialized)),
            Some(d) => if !age_recipient_usable(d.age_recipient@) {
                r is None
            } else {
                &&& r is Some
                &&& match r->Some_0 {
                    Ok(req) => {
                        &&& req.workspace_id@ == workspace_id@
                        &&& req.environment@ == environment@
                        &&& req.created_by_device == device.id
                        &&& seals_snapshot(
                            d,
                            device.id@,
                            workspace_id@,
                            environment@,
                            *values,
                            req.key_envelopes@,
                            req.secrets@,
                            req.manifest_signature@,
                        )
                    },
                    Err(e) => encryption_failure(d, *values, e),
                }
                &&& !age_recipient_parses(d.age_recipient@) ==> r->Some_0 is Err
                &&& !(decoded(d.signing_secret_key@) matches Some(k) && k.len() == 32) ==> r->Some_0 is Err
                &&& secrets_fit_cipher(*values) && age_recipient_parses(d.age_recipient@) && (decoded(
                    d.signing_secret_key@,
                ) matches Some(k) && k.len() == 32) ==> r->Some_0 is Ok
            },
        },
{
    if values.is_empty() {
        return Some(Err(ShieldError::NoSecrets(environment.to_owned())));
    }
    let stored = match state.device() {
        Ok(d) => d,
        Err(e) => return Some(Err(e)),
    };
    if !recipient_usable(stored.age_recipient.as_str()) {
        return None;
    }
    match encrypt_snapshot(stored, device.id.as_str(), workspace_id, environment, values) {
        Ok((key_envelopes, secrets, manifest_signature)) => Some(
            Ok(
                CreateSnapshotRequest {
                    workspace_id: workspace_id.to_owned(),
                    environment: environment.to_owned(),
                    created_by_device: device.id.clone(),
                    manifest_signature,
                    key_envelopes,
                    secrets,
                },
            ),
        ),
        Err(e) => Some(Err(e)),
    }
}

/// The state of an environment after a push that stored `snapshot`.
pub open spec fn after_push(prior: EnvironmentState, snapshot: SnapshotResponse) -> EnvironmentState {
    EnvironmentState { version: snapshot.version, dirty: false, last_snapshot: Some(snapshot), ..prior }
}

/// `after` is `before` with the push of `snapshot` by `device` recorded, with result `r`.
pub open spec fn pushed(
    before: AppState,
    after: AppState,
    workspace_id: Seq<char>,
    environment: Seq<char>,
    device: DeviceResponse,
    snapshot: SnapshotResponse,
    r: Result<(), ShieldError>,
) -> bool {
    &&& after.known_devices@ == before.known_devices@.insert(device.id@, as_known(device))
    &&& after.api_base_url == before.api_base_url
    &&& after.actor_email == before.actor_email
    &&& after.token == before.token
    &&& after.current_workspace_id == before.current_workspace_id
    &&& after.local_cache_key == before.local_cache_key
    &&& after.device == before.device
    &&& !before.workspaces@.contains_key(workspace_id) ==> {
        &&& (r matches Err(ShieldError::WorkspaceNotInLocalState(w)) && w@ == workspace_id)
        &&& after.workspaces == before.workspaces
    }
    &&& before.workspaces@.contains_key(workspace_id) ==> {
        &&& r is Ok
        &&& workspaces_with_environment(
            before.workspaces@,
            after.workspaces@,
            workspace_id,
            environment,
            after_push(prior_environment(before, workspace_id, environment), snapshot),
        )
    }
}

/// Records a pushed snapshot: this device joins the local registry, and the
/// environment takes the snapshot's version and is no longer marked as changed.
pub fn record_push(state: &mut AppState, workspace_id: &str, environment: &str, device: &DeviceResponse, snapshot: SnapshotResponse) -> (r: Result<(), ShieldError>)
    ensures
        pushed(*old(state), *final(state), workspace_id@, environment@, *device, snapshot, r),
{
    state.known_devices.insert(
        device.id.clone(),
        KnownDevice {
            id: device.id.clone(),
            name: device.name.clone(),
            encryption_public_key: device.encryption_public_key.clone(),
            signing_public_key: device.signing_public_key.clone(),
        },
    );
    match state.environment_state_mut(workspace_id, environment) {
        Ok(e) => {
            e.version = snapshot.version;
            e.last_snapshot = Some(snapshot);
            e.dirty = false;
        },
        Err(e) => return Err(e),
    }
    Ok(())
}

/// The state of an environment after a pull of `snapshot` into `cache`.
pub open spec fn after_pull(snapshot: SnapshotResponse, cache: EncryptedCache) -> EnvironmentState {
    EnvironmentState { version: snapshot.version, dirty: false, cache: Some(cache), last_snapshot: Some(snapshot) }
}

/// Secrets with the given texts are short enough for the local cache: every
/// sorted map that holds them has a JSON text that fits the cipher.
pub open spec fn secrets_payload_fits(texts: Map<Seq<char>, Seq<char>>) -> bool {
    forall|m: SortedMap<String>| m@.map_values(|v: String| v@) == texts ==> #[trigger] cache_payload_fits(m)
}

/// `after` is `before` with the pull of `snapshot` recorded, with result `r`.
pub open spec fn pulled(
    before: AppState,
    after: AppState,
    workspace_id: Seq<char>,
    environment: Seq<char>,
    snapshot: SnapshotResponse,
    r: Option<Result<(), ShieldError>>,
) -> bool {
    match before.device {
        None => r == Some(Err::<(), ShieldError>(ShieldError::DeviceNotInitialized)) && after == before,
        Some(d) => match snapshot_contents(d, before.known_devices, snapshot) {
            None => r is None && after == before,
            Some(Err(e)) => (r matches Some(Err(a)) && same_failure(a, e)) && after == before,
            Some(Ok(pairs)) => {
                &&& cache_key_kept_or_drawn(before, after)
                &&& match stored_cache_key(after) {
                    Err(e) => r == Some(Err::<(), ShieldError>(e)) && after.workspaces == before.workspaces,
                    Ok(k) => match r {
                        Some(Ok(_)) => environment_of(after, workspace_id, environment) matches Some(e) && {
                            &&& e.cache matches Some(c) && {
                                &&& cache_nonce_fits(c)
                                &&& cache_contents(k, c) matches Ok(members) && map_of_pairs(members) == map_of_pairs(pairs)
                            }
                            &&& e == after_pull(snapshot, e.cache.unwrap())
                            &&& workspaces_with_environment(
                                before.workspaces@,
                                after.workspaces@,
                                workspace_id,
                                environment,
                                e,
                            )
                        },
                        Some(Err(e)) => {
                            &&& after.workspaces == before.workspaces
                            &&& ((e is EncryptCache && !secrets_payload_fits(map_of_pairs(pairs))) || (
                            e matches ShieldError::WorkspaceNotInLocalState(w) && w@ == workspace_id
                                && !before.workspaces@.contains_key(workspace_id)))
                        },
                        None => false,
                    },
                }
                &&& !before.workspaces@.contains_key(workspace_id) ==> (r matches Some(Err(_)))
                &&& (stored_cache_key(after) is Ok && before.workspaces@.contains_key(workspace_id)
                    && secrets_payload_fits(map_of_pairs(pairs))) ==> r == Some(Ok::<(), ShieldError>(()))
            },
        },
    }
}

/// Records a pulled snapshot: its secrets are decrypted with this device's keys
/// (after its signature is checked against the signer's known key), re-encrypted
/// into the local cache, and the environment takes the snapshot's version. Gives
/// `None`, changing nothing, where decrypting the snapshot would panic.
pub fn record_pull(state: &mut AppState, workspace_id: &str, environment: &str, snapshot: SnapshotResponse) -> (r: Option<
    Result<(), ShieldError>,
>)
    ensures
        pulled(*old(state), *final(state), workspace_id@, environment@, snapshot, r),
{
    let decrypted = match state.device() {
        Ok(device) => match try_decrypt_snapshot(device, &state.known_devices, &snapshot) {
            None => return None,
            Some(Ok(d)) => d,
            Some(Err(e)) => return Some(Err(e)),
        },
        Err(e) => return Some(Err(e)),
    };
    let cache_key = match state.local_cache_key() {
        Ok(k) => k,
        Err(e) => return Some(Err(e)),
    };
    let encrypted = match encrypt_local_cache(&cache_key, &decrypted.secrets) {
        Ok(c) => c,
        Err(e) => return Some(Err(e)),
    };
    proof {
        crate::state::law_local_cache_roundtrip(cache_key@, decrypted.secrets, encrypted);
    }
    match state.environment_state_mut(workspace_id, environment) {
        Ok(e) => {
            e.version = snapshot.version;
            e.last_snapshot = Some(snapshot);
            e.cache = Some(encrypted);
            e.dirty = false;
        },
        Err(e) => return Some(Err(e)),
    }
    Some(Ok(()))
}

/// A secret stored in the local cache of an environment is loaded back: after
/// recording, loading the environment succeeds with exactly the stored secrets.
pub proof fn law_recorded_secret_loads(
    before: AppState,
    after: AppState,
    workspace_id: Seq<char>,
    environment: Seq<char>,
    secrets: SortedMap<String>,
    later: AppState,
    r: Result<SortedMap<String>, ShieldError>,
)
    requires
        secret_recorded(before, after, workspace_id, environment, secrets, Ok(())),
        loaded(after, later, workspace_id, environment, r),
    ensures
        load_fits(after, workspace_id, environment),
        r matches Ok(m) && m@.map_values(|v: String| v@) == secrets@.map_values(|v: String| v@),
{
    let k = stored_cache_key(after)->Ok_0;
    let e = environment_of(after, workspace_id, environment)->Some_0;
    let c = e.cache->Some_0;
    crate::state::law_local_cache_roundtrip(k, secrets, c);
}

/// The secrets of a pulled snapshot are loaded back: after a pull, loading the
/// environment succeeds with exactly the snapshot's secrets.
pub proof fn law_pulled_secrets_load(
    before: AppState,
    after: AppState,
    workspace_id: Seq<char>,
    environment: Seq<char>,
    snapshot: SnapshotResponse,
    pairs: Seq<(Seq<char>, Seq<char>)>,
    later: AppState,
    r: Result<SortedMap<String>, ShieldError>,
)
    requires
        pulled(before, after, workspace_id, environment, snapshot, Some(Ok(()))),
        before.device matches Some(d) && snapshot_contents(d, before.known_devices, snapshot) == Some(
            Ok::<Seq<(Seq<char>, Seq<char>)>, ShieldError>(pairs),
        ),
        loaded(after, later, workspace_id, environment, r),
    ensures
        load_fits(after, workspace_id, environment),
        r matches Ok(m) && m@.map_values(|v: String| v@) == map_of_pairs(pairs),
{
}

/// A snapshot whose signature does not check out under its signer's known key
/// is not pulled: the state stays as it was and the check's error is reported.
pub proof fn law_unverified_snapshot_not_pulled(
    before: AppState,
    after: AppState,
    workspace_id: Seq<char>,
    environment: Seq<char>,
    snapshot: SnapshotResponse,
    r: Option<Result<(), ShieldError>>,
)
    requires
        pulled(before, after, workspace_id, environment, snapshot, r),
        before.device is Some,
        before.known_devices@.contains_key(snapshot.created_by_device@),
        manifest_check(before.known_devices@[snapshot.created_by_device@].signing_public_key@, snapshot) is Err,
    ensures
        after == before,
        r == Some(
            Err::<(), ShieldError>(
                manifest_check(before.known_devices@[snapshot.created_by_device@].signing_public_key@, snapshot)->Err_0,
            ),
        ),
{
}

/// A snapshot that this device pushed passes the check of the last snapshot:
/// the device is then in the local registry under the id that signed it.
pub proof fn law_pushed_snapshot_verifies(
    before: AppState,
    after: AppState,
    workspace_id: Seq<char>,
    environment: Seq<char>,
    device: DeviceResponse,
    stored: StoredDevice,
    values: SortedMap<String>,
    snapshot: SnapshotResponse,
)
    requires
        pushed(before, after, workspace_id, environment, device, snapshot, Ok(())),
        keys_cohere(
            stored.age_identity@,
            stored.age_recipient@,
            stored.signing_secret_key@,
            stored.signing_public_key@,
        ),
        seals_snapshot(
            stored,
            snapshot.created_by_device@,
            snapshot.workspace_id@,
            snapshot.environment@,
            values,
            snapshot.key_envelopes@,
            snapshot.secrets@,
            snapshot.manifest_signature@,
        ),
        snapshot.created_by_device@ == device.id@,
        device.signing_public_key@ == stored.signing_public_key@,
    ensures
        last_snapshot_check(after, workspace_id, environment) == Ok::<(), ShieldError>(()),
{
    crate::crypto::law_signed_snapshot_verifies(stored, values, snapshot);
}

/// Once its registration is recorded, the device is known: deciding its
/// registration again gives its record, with the registered id and keys.
pub proof fn law_registration_remembered(
    before: AppState,
    after: AppState,
    response: DeviceResponse,
    r: Result<Registration, ShieldError>,
)
    requires
        registered(before, after, response, Ok(())),
        registration_decided(after, r),
    ensures
        r matches Ok(Registration::Known(known)) && {
            &&& known.id == response.id
            &&& known.name == response.name
            &&& known.encryption_public_key == response.encryption_public_key
            &&& known.signing_public_key == response.signing_public_key
        },
{
}

/// The line that reports how an environment compares with its latest snapshot.
pub fn status_report(response: &EnvironmentStatusResponse) -> (m: String)
    ensures
        m@ == if response.out_of_date {
            "Environment "@ + response.environment@ + " is behind: local v"@ + decimal(response.local_version as nat)
                + ", latest v"@ + decimal(response.latest_version as nat)
        } else {
            "Environment "@ + response.environment@ + " is up to date at v"@ + decimal(
                response.latest_version as nat,
            )
        },
{
    let mut m = "Environment ".to_owned();
    m.append(response.environment.as_str());
    if response.out_of_date {
        m.append(" is behind: local v");
        let local = decimal_text(response.local_version);
        m.append(local.as_str());
        m.append(", latest v");
    } else {
        m.append(" is up to date at v");
    }
    let latest = decimal_text(response.latest_version);
    m.append(latest.as_str());
    m
}

/// The warning given before running a command with an environment whose local
/// snapshot is older than the latest one; none where it is current.
pub fn outdated_warning(response: &EnvironmentStatusResponse, environment: &str) -> (w: Option<String>)
    ensures
        !response.out_of_date ==> w is None,
        response.out_of_date ==> (w matches Some(m) && m@ == "warning: local snapshot is outdated (local v"@
            + decimal(response.local_version as nat) + ", latest v"@ + decimal(response.latest_version as nat)
            + "). Run `shield pull --env "@ + environment@ + "` to sync."@),
{
    if !response.out_of_date {
        return None;
    }
    let mut m = "warning: local snapshot is outdated (local v".to_owned();
    let local = decimal_text(response.local_version);
    m.append(local.as_str());
    m.append(", latest v");
    let latest = decimal_text(response.latest_version);
    m.append(latest.as_str());
    m.append("). Run `shield pull --env ");
    m.append(environment);
    m.append("` to sync.");
    Some(m)
}

} // verus!
