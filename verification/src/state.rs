//! The local state of the tool: the device keys, the known devices, the
//! workspaces with their environments, and the encrypted local cache of secrets.
use vstd::prelude::*;
use vstd::utf8::encode_utf8;
use crate::api::SnapshotResponse;
use crate::codec::{
    base64_bytes, base64_decode, base64_encode, base64_text, json_decode_pairs, json_encode_pairs,
    json_object_members, pair_keys, pairs_view,
};
use crate::error::ShieldError;
use crate::json::json_string_map;
use crate::primitives::{fill_random, xchacha_open, xchacha_opened, xchacha_seal, xchacha_sealed};
use crate::sorted_map::{
    ascending, fold_inserts, lemma_fold_lookup, lemma_fold_update, lemma_fold_views, same_text,
    text_pairs, SortedMap,
};

verus! {

/// The whole local state, as stored between runs.
#[derive(Debug, Clone)]
pub struct AppState {
    pub api_base_url: String,
    pub actor_email: Option<String>,
    pub token: Option<String>,
    pub current_workspace_id: Option<String>,
    pub local_cache_key: Option<String>,
    pub device: Option<StoredDevice>,
    pub known_devices: SortedMap<KnownDevice>,
    pub workspaces: SortedMap<WorkspaceState>,
}

/// This machine's device: its keys and, once registered, its id.
#[derive(Debug, Clone)]
pub struct StoredDevice {
    pub id: Option<String>,
    pub name: String,
    pub age_identity: String,
    pub age_recipient: String,
    pub signing_secret_key: String,
    pub signing_public_key: String,
}

/// A device whose public keys are known locally.
#[derive(Debug, Clone)]
pub struct KnownDevice {
    pub id: String,
    pub name: String,
    pub encryption_public_key: String,
    pub signing_public_key: String,
}

/// A workspace and its environments.
#[derive(Debug, Clone)]
pub struct WorkspaceState {
    pub id: String,
    pub name: String,
    pub environments: SortedMap<EnvironmentState>,
}

/// What is known locally of one environment of a workspace.
#[derive(Debug, Clone)]
pub struct EnvironmentState {
    pub version: u64,
    pub dirty: bool,
    pub cache: Option<EncryptedCache>,
    pub last_snapshot: Option<SnapshotResponse>,
}

/// The secrets of an environment, encrypted under the local cache key.
#[derive(Debug, Clone)]
pub struct EncryptedCache {
    pub nonce: String,
    pub ciphertext: String,
}

/// Where the state is kept: a directory.
pub struct StateStore {
    root: String,
}

/// Whether an environment state is the one a new environment starts with.
pub open spec fn is_initial_environment(e: EnvironmentState) -> bool {
    &&& e.version == 0
    &&& !e.dirty
    &&& e.cache is None
    &&& e.last_snapshot is None
}

impl Default for EnvironmentState {
    fn default() -> (e: Self)
        ensures
            is_initial_environment(e),
    {
        EnvironmentState { version: 0, dirty: false, cache: None, last_snapshot: None }
    }
}

impl Default for AppState {
    fn default() -> (s: Self)
        ensures
            s.api_base_url@ == Seq::<char>::empty(),
            s.actor_email is None,
            s.token is None,
            s.current_workspace_id is None,
            s.local_cache_key is None,
            s.device is None,
            s.known_devices@ == Map::<Seq<char>, KnownDevice>::empty(),
            s.workspaces@ == Map::<Seq<char>, WorkspaceState>::empty(),
    {
        AppState {
            api_base_url: String::new(),
            actor_email: None,
            token: None,
            current_workspace_id: None,
            local_cache_key: None,
            device: None,
            known_devices: SortedMap::new(),
            workspaces: SortedMap::new(),
        }
    }
}

/// The state of a machine that has no state file yet: the configured control
/// plane address, or the local default one, and nothing else.
pub fn initial_state(api_url: Option<String>) -> (s: AppState)
    ensures
        s.api_base_url@ == match api_url {
            Some(u) => u@,
            None => "http://127.0.0.1:8080"@,
        },
        s.actor_email is None,
        s.token is None,
        s.current_workspace_id is None,
        s.local_cache_key is None,
        s.device is None,
        s.known_devices@ == Map::<Seq<char>, KnownDevice>::empty(),
        s.workspaces@ == Map::<Seq<char>, WorkspaceState>::empty(),
{
    let mut s = AppState::default();
    s.api_base_url = match api_url {
        Some(u) => u,
        None => "http://127.0.0.1:8080".to_owned(),
    };
    s
}

impl StateStore {
    /// A store kept in the directory `root`.
    pub fn from_root(root: String) -> (store: Self)
        ensures
            store.root_view() == root@,
    {
        StateStore { root }
    }

    pub closed spec fn root_view(&self) -> Seq<char> {
        self.root@
    }

    /// The directory of the store.
    pub fn root(&self) -> (root: &String)
        ensures
            root@ == self.root_view(),
    {
        &self.root
    }

    /// The path of the state file: `state.json` in the store's directory, with a
    /// separator between them unless the directory is empty or ends in one.
    pub fn state_file(&self) -> (path: String)
        ensures
            path@ == if self.root_view().len() == 0 || self.root_view().last() == '/' {
                self.root_view() + "state.json"@
            } else {
                self.root_view() + "/state.json"@
            },
    {
        let mut path = self.root.clone();
        let n = self.root.as_str().unicode_len();
        if n == 0 || self.root.as_str().get_char(n - 1) == '/' {
            path.append("state.json");
        } else {
            path.append("/state.json");
        }
        path
    }
}

/// Position `i` holds a workspace named `name`.
pub open spec fn names_workspace(workspaces: Seq<WorkspaceState>, i: int, name: Seq<char>) -> bool {
    0 <= i < workspaces.len() && workspaces[i].name@ == name
}

/// Position `i` holds the first workspace named `name`.
pub open spec fn first_named(workspaces: Seq<WorkspaceState>, i: int, name: Seq<char>) -> bool {
    &&& names_workspace(workspaces, i, name)
    &&& forall|j: int| 0 <= j < i ==> workspaces[j].name@ != name
}

/// The local cache key that a stored text stands for.
pub open spec fn cache_key_from_text(text: Seq<char>) -> Result<Seq<u8>, ShieldError> {
    match base64_bytes(encode_utf8(text)) {
        None => Err(ShieldError::DecodeCacheKey),
        Some(b) => if b.len() == 32 {
            Ok(b)
        } else {
            Err(ShieldError::CacheKeyLength)
        },
    }
}

/// Everything but the workspaces and the current workspace is as before.
pub open spec fn same_except_workspaces(a: AppState, b: AppState) -> bool {
    &&& a.api_base_url == b.api_base_url
    &&& a.actor_email == b.actor_email
    &&& a.token == b.token
    &&& a.local_cache_key == b.local_cache_key
    &&& a.device == b.device
    &&& a.known_devices == b.known_devices
}

/// What resolving the workspace to work on gives: the given one, matched by id
/// first and then by name (the first by id order), or else the current one.
pub open spec fn resolves_to(state: AppState, workspace: Option<Seq<char>>, r: Result<String, ShieldError>) -> bool {
    match workspace {
        Some(w) => if state.workspaces@.contains_key(w) {
            r matches Ok(id) && id@ == w
        } else if exists|i: int| #[trigger] names_workspace(state.workspaces.values(), i, w) {
            r matches Ok(id) && exists|i: int|
                #[trigger] first_named(state.workspaces.values(), i, w) && id@ == state.workspaces.key_views()[i]
        } else {
            r matches Err(ShieldError::WorkspaceNotFound(n)) && n@ == w
        },
        None => match state.current_workspace_id {
            Some(c) => r == Ok::<String, ShieldError>(c),
            None => r matches Err(ShieldError::NoCurrentWorkspace),
        },
    }
}

/// `after` is `before` with the workspace recorded under its id and name and
/// made the current one.
pub open spec fn upserted(before: AppState, after: AppState, workspace_id: Seq<char>, name: Seq<char>) -> bool {
    &&& after.workspaces@ == before.workspaces@.insert(workspace_id, after.workspaces@[workspace_id])
    &&& after.workspaces@[workspace_id].name@ == name
    &&& before.workspaces@.contains_key(workspace_id) ==> {
        &&& after.workspaces@[workspace_id].id == before.workspaces@[workspace_id].id
        &&& after.workspaces@[workspace_id].environments == before.workspaces@[workspace_id].environments
    }
    &&& !before.workspaces@.contains_key(workspace_id) ==> {
        &&& after.workspaces@[workspace_id].id@ == workspace_id
        &&& after.workspaces@[workspace_id].environments@ == Map::<Seq<char>, EnvironmentState>::empty()
    }
    &&& after.current_workspace_id matches Some(c) && c@ == workspace_id
    &&& same_except_workspaces(after, before)
}

/// A workspace that was just recorded is the one worked on: resolving with no
/// workspace given, or with its id, gives its id.
pub proof fn law_upserted_workspace_resolves(
    before: AppState,
    after: AppState,
    workspace_id: Seq<char>,
    name: Seq<char>,
    current: Result<String, ShieldError>,
    by_id: Result<String, ShieldError>,
)
    requires
        upserted(before, after, workspace_id, name),
        resolves_to(after, None, current),
        resolves_to(after, Some(workspace_id), by_id),
    ensures
        current matches Ok(id) && id@ == workspace_id,
        by_id matches Ok(id) && id@ == workspace_id,
{
    assert(after.workspaces@.contains_key(workspace_id));
}

/// `after` and `r` are what taking the local cache key from `before` gives: the
/// stored key text is kept, or the base64 text of 32 random bytes is stored where
/// there was none; the result is the key the text stands for, whose base64 text
/// it is, or why it stands for none; nothing else changes.
pub open spec fn cache_key_taken(before: AppState, after: AppState, r: Result<[u8; 32], ShieldError>) -> bool {
    &&& after.local_cache_key matches Some(t) && match before.local_cache_key {
        Some(t0) => t == t0,
        None => exists|b: Seq<u8>| b.len() == 32 && t@ == base64_text(b),
    }
    &&& match cache_key_from_text(after.local_cache_key.unwrap()@) {
        Ok(b) => r matches Ok(k) && k@ == b,
        Err(e) => r == Err::<[u8; 32], ShieldError>(e),
    }
    &&& r matches Ok(k) ==> after.local_cache_key.unwrap()@ == base64_text(k@)
    &&& before.local_cache_key is None ==> r is Ok
    &&& after.api_base_url == before.api_base_url
    &&& after.actor_email == before.actor_email
    &&& after.token == before.token
    &&& after.current_workspace_id == before.current_workspace_id
    &&& after.device == before.device
    &&& after.known_devices == before.known_devices
    &&& after.workspaces == before.workspaces
}

/// Taking the local cache key is stable: once a key was returned, taking it
/// again returns the same key, changes nothing, and the stored text is the
/// base64 text of that key.
pub proof fn law_local_cache_key_stable(
    first: AppState,
    second: AppState,
    r1: Result<[u8; 32], ShieldError>,
    third: AppState,
    r2: Result<[u8; 32], ShieldError>,
)
    requires
        cache_key_taken(first, second, r1),
        cache_key_taken(second, third, r2),
        r1 is Ok,
    ensures
        r2 == r1,
        third == second,
        second.local_cache_key matches Some(t) && t@ == base64_text(r1->Ok_0@),
{
    let k1 = r1->Ok_0;
    let k2 = r2->Ok_0;
    assert(k1@ =~= k2@);
    assert(k1 == k2) by {
        assert(k1@ == k2@);
    }
}

impl AppState {
    /// The id of the workspace to work on: the given one, matched by id first
    /// and then by name (the first by id order), or else the current one.
    pub fn resolve_workspace_id(&self, workspace: Option<&str>) -> (r: Result<String, ShieldError>)
        ensures
            resolves_to(
                *self,
                match workspace {
                    Some(w) => Some(w@),
                    None => None,
                },
                r,
            ),
    {
        match workspace {
            Some(w) => {
                if self.workspaces.contains_key(w) {
                    return Ok(w.to_owned());
                }
                let n = self.workspaces.len();
                let mut i: usize = 0;
                while i < n
                    invariant
                        n == self.workspaces.values().len(),
                        n == self.workspaces.key_views().len(),
                        !self.workspaces@.contains_key(w@),
                        workspace == Some(w),
                        0 <= i <= n,
                        forall|j: int| 0 <= j < i ==> self.workspaces.values()[j].name@ != w@,
                    decreases n - i,
                {
                    let item = self.workspaces.value_at(i);
                    if same_text(item.name.as_str(), w) {
                        let id = self.workspaces.key_at(i).clone();
                        proof {
                            assert(first_named(self.workspaces.values(), i as int, w@));
                            assert(names_workspace(self.workspaces.values(), i as int, w@));
                        }
                        return Ok(id);
                    }
                    i = i + 1;
                }
                Err(ShieldError::WorkspaceNotFound(w.to_owned()))
            },
            None => match &self.current_workspace_id {
                Some(c) => Ok(c.clone()),
                None => Err(ShieldError::NoCurrentWorkspace),
            },
        }
    }

    /// This machine's device.
    pub fn device(&self) -> (r: Result<&StoredDevice, ShieldError>)
        ensures
            match self.device {
                Some(d) => r matches Ok(found) && *found == d,
                None => r matches Err(ShieldError::DeviceNotInitialized),
            },
    {
        match &self.device {
            Some(d) => Ok(d),
            None => Err(ShieldError::DeviceNotInitialized),
        }
    }

    /// This machine's device, for changing in place.
    pub fn device_mut(&mut self) -> (r: Result<&mut StoredDevice, ShieldError>)
        ensures
            match old(self).device {
                Some(d) => r matches Ok(found) && *found == d && final(self).device == Some(*final(found)),
                None => r matches Err(ShieldError::DeviceNotInitialized) && final(self).device is None,
            },
            final(self).api_base_url == old(self).api_base_url,
            final(self).actor_email == old(self).actor_email,
            final(self).token == old(self).token,
            final(self).current_workspace_id == old(self).current_workspace_id,
            final(self).local_cache_key == old(self).local_cache_key,
            final(self).known_devices == old(self).known_devices,
            final(self).workspaces == old(self).workspaces,
    {
        match &mut self.device {
            Some(d) => Ok(d),
            None => Err(ShieldError::DeviceNotInitialized),
        }
    }

    /// The key of the local cache, drawn at random and stored as base64 the
    /// first time it is needed.
    pub fn local_cache_key(&mut self) -> (r: Result<[u8; 32], ShieldError>)
        ensures
            cache_key_taken(*old(self), *final(self), r),
    {
        if self.local_cache_key.is_none() {
            let mut key: Vec<u8> = vec![0u8; 32];
            fill_random(&mut key);
            let text = base64_encode(key.as_slice());
            self.local_cache_key = Some(text);
        }
        let encoded = match &self.local_cache_key {
            Some(t) => t,
            None => {
                proof {
                    assert(false);
                }
                return Err(ShieldError::DecodeCacheKey);
            },
        };
        let decoded = match base64_decode(encoded.as_str().as_bytes()) {
            Some(d) => d,
            None => return Err(ShieldError::DecodeCacheKey),
        };
        if decoded.len() != 32 {
            return Err(ShieldError::CacheKeyLength);
        }
        proof {
            crate::sorted_map::lemma_encoding_injective(encoded@, base64_text(decoded@));
        }
        Ok(crate::crypto::array32(&decoded))
    }

    /// Records a workspace under its id, renaming it if it is already known, and
    /// makes it the current workspace.
    pub fn upsert_workspace(&mut self, workspace_id: &str, name: &str)
        ensures
            upserted(*old(self), *final(self), workspace_id@, name@),
    {
        match self.workspaces.position(workspace_id) {
            Some(i) => {
                let _ = self.workspaces.len();
                let ghost keys = self.workspaces.key_views();
                let ghost vals = self.workspaces.values();
                let w = self.workspaces.value_at_mut(i);
                w.name = name.to_owned();
                proof {
                    lemma_fold_update(keys, vals, i as int, *final(w));
                    lemma_fold_lookup(keys, vals);
                }
            },
            None => {
                self.workspaces.insert(
                    workspace_id.to_owned(),
                    WorkspaceState {
                        id: workspace_id.to_owned(),
                        name: name.to_owned(),
                        environments: SortedMap::new(),
                    },
                );
            },
        }
        self.current_workspace_id = Some(workspace_id.to_owned());
    }

    /// The state of an environment of a known workspace, created empty if the
    /// workspace has no such environment yet.
    pub fn environment_state_mut(&mut self, workspace_id: &str, environment: &str) -> (r: Result<
        &mut EnvironmentState,
        ShieldError,
    >)
        ensures
            !old(self).workspaces@.contains_key(workspace_id@) ==> {
                &&& (r matches Err(ShieldError::WorkspaceNotInLocalState(w)) && w@ == workspace_id@)
                &&& *final(self) == *old(self)
            },
            old(self).workspaces@.contains_key(workspace_id@) ==> {
                let before = old(self).workspaces@[workspace_id@];
                let after = final(self).workspaces@[workspace_id@];
                &&& r matches Ok(e) && {
                    &&& (if before.environments@.contains_key(environment@) {
                        *e == before.environments@[environment@]
                    } else {
                        is_initial_environment(*e)
                    })
                    &&& after.environments@ == before.environments@.insert(environment@, *final(e))
                }
                &&& after.id == before.id
                &&& after.name == before.name
                &&& final(self).workspaces@ == old(self).workspaces@.insert(workspace_id@, after)
                &&& final(self).current_workspace_id == old(self).current_workspace_id
                &&& same_except_workspaces(*final(self), *old(self))
            },
    {
        let i = match self.workspaces.position(workspace_id) {
            Some(i) => i,
            None => return Err(ShieldError::WorkspaceNotInLocalState(workspace_id.to_owned())),
        };
        let _ = self.workspaces.len();
        let ghost keys = self.workspaces.key_views();
        let ghost vals = self.workspaces.values();
        proof {
            lemma_fold_lookup(keys, vals);
        }
        let w = self.workspaces.value_at_mut(i);
        proof {
            lemma_fold_update(keys, vals, i as int, *final(w));
        }
        let ghost present = w.environments@.contains_key(environment@);
        if !w.environments.contains_key(environment) {
            let fresh = EnvironmentState::default();
            w.environments.insert(environment.to_owned(), fresh);
        }
        proof {
            assert(!present ==> is_initial_environment(w.environments@[environment@]));
        }
        let j = match w.environments.position(environment) {
            Some(j) => j,
            None => {
                proof {
                    assert(false);
                }
                return Err(ShieldError::WorkspaceNotInLocalState(workspace_id.to_owned()));
            },
        };
        let _ = w.environments.len();
        let ghost ekeys = w.environments.key_views();
        let ghost evals = w.environments.values();
        proof {
            lemma_fold_lookup(ekeys, evals);
        }
        let e = w.environments.value_at_mut(j);
        proof {
            lemma_fold_update(ekeys, evals, j as int, *final(e));
            assert(*e == evals[j as int]);
            assert(ekeys[j as int] == environment@);
        }
        Ok(e)
    }
}

} // verus!

verus! {

/// No byte of associated data.
pub open spec fn no_aad() -> Seq<u8> {
    Seq::empty()
}

/// Decrypting a cache panics in the `XNonce` conversion where both fields decode
/// and the nonce is not 24 bytes long; every other cache can be decrypted or refused.
pub open spec fn cache_nonce_fits(cache: EncryptedCache) -> bool {
    match (base64_bytes(encode_utf8(cache.nonce@)), base64_bytes(encode_utf8(cache.ciphertext@))) {
        (Some(n), Some(_)) => n.len() == 24,
        _ => true,
    }
}

/// What decrypting `cache` under `key` gives: the members of the stored map in
/// ascending key order, or the first step that fails.
pub open spec fn cache_contents(key: Seq<u8>, cache: EncryptedCache) -> Result<Seq<(Seq<char>, Seq<char>)>, ShieldError> {
    match base64_bytes(encode_utf8(cache.nonce@)) {
        None => Err(ShieldError::DecodeCacheNonce),
        Some(nonce) => match base64_bytes(encode_utf8(cache.ciphertext@)) {
            None => Err(ShieldError::DecodeCacheCiphertext),
            Some(ciphertext) => match xchacha_opened(key, nonce, no_aad(), ciphertext) {
                None => Err(ShieldError::DecryptCache),
                Some(plaintext) => match json_object_members(plaintext) {
                    None => Err(ShieldError::DecodeCachePayload),
                    Some(members) => Ok(members),
                },
            },
        },
    }
}

/// The map that holds the given members.
pub open spec fn map_of_pairs(members: Seq<(Seq<char>, Seq<char>)>) -> Map<Seq<char>, Seq<char>> {
    fold_inserts(pair_keys(members), members.map_values(|p: (Seq<char>, Seq<char>)| p.1))
}

/// The texts of a map of strings, as a map of views.
pub open spec fn text_map(m: SortedMap<String>) -> Map<Seq<char>, Seq<char>> {
    map_of_pairs(text_pairs(m.key_views(), m.values()))
}

/// The JSON text of the secrets, as the local cache stores it encrypted, is short
/// enough for the cipher: it spans fewer than `u32::MAX` blocks of 64 bytes.
pub open spec fn cache_payload_fits(values: SortedMap<String>) -> bool {
    json_string_map(text_pairs(values.key_views(), values.values())).len() / 64 < 4294967295
}

/// `cache` is what encrypting `values` under `key` with some 24-byte nonce gives:
/// the ciphertext is the JSON text of the secrets followed by a 16-byte tag.
pub open spec fn seals_cache(key: Seq<u8>, values: SortedMap<String>, cache: EncryptedCache) -> bool {
    &&& values.key_views().len() == values.values().len()
    &&& json_object_members(json_string_map(text_pairs(values.key_views(), values.values())))
        == Some(text_pairs(values.key_views(), values.values()))
    &&& exists|nonce: Seq<u8>|
        {
            &&& nonce.len() == 24
            &&& #[trigger] base64_text(nonce) == cache.nonce@
            &&& base64_bytes(encode_utf8(cache.nonce@)) == Some(nonce)
            &&& base64_bytes(encode_utf8(cache.ciphertext@)) == Some(
                xchacha_sealed(key, nonce, no_aad(), json_string_map(text_pairs(values.key_views(), values.values()))),
            )
            &&& cache.ciphertext@ == base64_text(
                xchacha_sealed(key, nonce, no_aad(), json_string_map(text_pairs(values.key_views(), values.values()))),
            )
            &&& xchacha_sealed(key, nonce, no_aad(), json_string_map(text_pairs(values.key_views(), values.values()))).len()
                == json_string_map(text_pairs(values.key_views(), values.values())).len() + 16
            &&& xchacha_opened(
                key,
                nonce,
                no_aad(),
                xchacha_sealed(key, nonce, no_aad(), json_string_map(text_pairs(values.key_views(), values.values()))),
            ) == Some(json_string_map(text_pairs(values.key_views(), values.values())))
        }
}

/// Builds the map of strings that holds the given pairs.
fn map_from_text_pairs(pairs: Vec<(String, String)>) -> (m: SortedMap<String>)
    ensures
        m@.map_values(|v: String| v@) == map_of_pairs(pairs_view(pairs@)),
{
    let ghost pv = pairs_view(pairs@);
    let m = SortedMap::from_pairs(pairs);
    proof {
        lemma_fold_views(
            pairs@.map_values(|p: (String, String)| p.0@),
            pairs@.map_values(|p: (String, String)| p.1),
        );
        assert(pairs@.map_values(|p: (String, String)| p.0@) =~= pair_keys(pv));
        assert(pairs@.map_values(|p: (String, String)| p.1).map_values(|v: String| v@) =~= pv.map_values(
            |p: (Seq<char>, Seq<char>)| p.1,
        ));
    }
    m
}

/// Decrypts the local cache of an environment into its map of secrets.
pub fn decrypt_local_cache(key_bytes: &[u8; 32], cache: &EncryptedCache) -> (r: Result<SortedMap<String>, ShieldError>)
    requires
        cache_nonce_fits(*cache),
    ensures
        match cache_contents(key_bytes@, *cache) {
            Ok(members) => r matches Ok(m) && m@.map_values(|v: String| v@) == map_of_pairs(members),
            Err(e) => r == Err::<SortedMap<String>, ShieldError>(e),
        },
{
    let nonce = match base64_decode(cache.nonce.as_str().as_bytes()) {
        Some(n) => n,
        None => return Err(ShieldError::DecodeCacheNonce),
    };
    let ciphertext = match base64_decode(cache.ciphertext.as_str().as_bytes()) {
        Some(c) => c,
        None => return Err(ShieldError::DecodeCacheCiphertext),
    };
    let aad: Vec<u8> = Vec::new();
    proof {
        assert(aad@ =~= no_aad());
    }
    let plaintext = match xchacha_open(key_bytes, nonce.as_slice(), aad.as_slice(), ciphertext.as_slice()) {
        Some(p) => p,
        None => return Err(ShieldError::DecryptCache),
    };
    let pairs = match json_decode_pairs(plaintext.as_slice()) {
        Some(p) => p,
        None => return Err(ShieldError::DecodeCachePayload),
    };
    Ok(map_from_text_pairs(pairs))
}

/// Encrypts the secrets of an environment for the local cache, under a fresh
/// random nonce.
pub fn encrypt_local_cache(key_bytes: &[u8; 32], values: &SortedMap<String>) -> (r: Result<EncryptedCache, ShieldError>)
    ensures
        r matches Ok(cache) ==> seals_cache(key_bytes@, *values, cache),
        r matches Err(e) ==> e is EncryptCache && !cache_payload_fits(*values),
        cache_payload_fits(*values) ==> r is Ok,
{
    let pairs = values.to_pairs();
    let plaintext = match json_encode_pairs(&pairs) {
        Some(p) => p,
        None => return Err(ShieldError::EncodeCachePayload),
    };
    let mut nonce: Vec<u8> = vec![0u8; 24];
    fill_random(&mut nonce);
    let aad: Vec<u8> = Vec::new();
    proof {
        assert(aad@ =~= no_aad());
    }
    let ciphertext = match xchacha_seal(key_bytes, nonce.as_slice(), aad.as_slice(), plaintext.as_slice()) {
        Some(c) => c,
        None => return Err(ShieldError::EncryptCache),
    };
    let cache = EncryptedCache {
        nonce: base64_encode(nonce.as_slice()),
        ciphertext: base64_encode(ciphertext.as_slice()),
    };
    proof {
        assert(pairs_view(pairs@) == text_pairs(values.key_views(), values.values()));
        assert(base64_text(nonce@) == cache.nonce@);
    }
    Ok(cache)
}

/// Decrypting a local cache gives back, under the same key, the secrets that
/// encrypting them produced it from.
pub proof fn law_local_cache_roundtrip(key: Seq<u8>, values: SortedMap<String>, cache: EncryptedCache)
    requires
        seals_cache(key, values, cache),
    ensures
        cache_nonce_fits(cache),
        cache_contents(key, cache) == Ok::<Seq<(Seq<char>, Seq<char>)>, ShieldError>(
            text_pairs(values.key_views(), values.values()),
        ),
        map_of_pairs(text_pairs(values.key_views(), values.values())) == values@.map_values(
            |v: String| v@,
        ),
{
    let nonce = choose|nonce: Seq<u8>|
        {
            &&& nonce.len() == 24
            &&& #[trigger] base64_text(nonce) == cache.nonce@
            &&& base64_bytes(encode_utf8(cache.nonce@)) == Some(nonce)
            &&& base64_bytes(encode_utf8(cache.ciphertext@)) == Some(
                xchacha_sealed(key, nonce, no_aad(), json_string_map(text_pairs(values.key_views(), values.values()))),
            )
            &&& cache.ciphertext@ == base64_text(
                xchacha_sealed(key, nonce, no_aad(), json_string_map(text_pairs(values.key_views(), values.values()))),
            )
            &&& xchacha_sealed(key, nonce, no_aad(), json_string_map(text_pairs(values.key_views(), values.values()))).len()
                == json_string_map(text_pairs(values.key_views(), values.values())).len() + 16
            &&& xchacha_opened(
                key,
                nonce,
                no_aad(),
                xchacha_sealed(key, nonce, no_aad(), json_string_map(text_pairs(values.key_views(), values.values()))),
            ) == Some(json_string_map(text_pairs(values.key_views(), values.values())))
        };
    let pairs = text_pairs(values.key_views(), values.values());
    assert(pair_keys(pairs) =~= values.key_views());
    assert(pairs.map_values(|p: (Seq<char>, Seq<char>)| p.1) =~= values.values().map_values(
        |v: String| v@,
    ));
    lemma_fold_views(values.key_views(), values.values());
}

/// The local cache is sealed without associated data: its ciphertext decodes to
/// the XChaCha20-Poly1305 encryption, under the cache key, some 24-byte nonce
/// and empty associated data, of the JSON text of the secrets.
pub proof fn law_local_cache_sealed_without_associated_data(key: Seq<u8>, values: SortedMap<String>, cache: EncryptedCache)
    requires
        seals_cache(key, values, cache),
    ensures
        exists|nonce: Seq<u8>|
            {
                &&& nonce.len() == 24
                &&& base64_bytes(encode_utf8(cache.nonce@)) == Some(nonce)
                &&& base64_bytes(encode_utf8(cache.ciphertext@)) == Some(
                    #[trigger] xchacha_sealed(
                        key,
                        nonce,
                        Seq::<u8>::empty(),
                        json_string_map(text_pairs(values.key_views(), values.values())),
                    ),
                )
            },
{
}

/// A cache is opened without associated data: where its nonce and ciphertext
/// decode and the ciphertext opens under the key and empty associated data to
/// the JSON text of a map of strings, decrypting the cache gives that map's
/// members.
pub proof fn law_local_cache_opened_without_associated_data(
    key: Seq<u8>,
    cache: EncryptedCache,
    nonce: Seq<u8>,
    ciphertext: Seq<u8>,
    payload: Seq<u8>,
    members: Seq<(Seq<char>, Seq<char>)>,
)
    requires
        base64_bytes(encode_utf8(cache.nonce@)) == Some(nonce),
        base64_bytes(encode_utf8(cache.ciphertext@)) == Some(ciphertext),
        xchacha_opened(key, nonce, Seq::<u8>::empty(), ciphertext) == Some(payload),
        json_object_members(payload) == Some(members),
    ensures
        cache_contents(key, cache) == Ok::<Seq<(Seq<char>, Seq<char>)>, ShieldError>(members),
{
}

/// Decrypted secrets, overwritten with zeros when dropped.
pub struct DecryptedSecrets {
    pub values: SortedMap<String>,
}

impl DecryptedSecrets {
    /// Holds the given secrets.
    pub fn new(values: SortedMap<String>) -> (s: Self)
        ensures
            s.values == values,
    {
        DecryptedSecrets { values }
    }
}

impl Drop for DecryptedSecrets {
    fn drop(&mut self)
        ensures
            final(self).values.key_views() == old(self).values.key_views(),
            final(self).values.values().len() == old(self).values.values().len(),
            forall|i: int|
                0 <= i < final(self).values.values().len() ==> (#[trigger] final(self).values.values()[i])@
                    == Seq::<char>::empty(),
        opens_invariants none
        no_unwind
    {
        self.values.wipe_values();
    }
}

} // verus!
