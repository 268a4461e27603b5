//! Snapshots: encrypting the secrets of an environment for this device,
//! signing the manifest, and checking and decrypting a snapshot again.
//!
//! Each secret value is encrypted with XChaCha20-Poly1305 under a random data key
//! and bound to its workspace, environment and name as associated data; the data
//! key is wrapped with age for the device; the manifest is signed with the
//! device's Ed25519 key.
use vstd::prelude::*;
use vstd::utf8::{decode_utf8, encode_utf8, valid_utf8};
use crate::api::{KeyEnvelope, SecretItem, SnapshotResponse};
use crate::codec::{pair_keys, base64_bytes, base64_decode, base64_encode, base64_text, hex_encode, hex_lower, string_from_utf8};
use crate::error::ShieldError;
use crate::json::{aad_bytes, aad_text, manifest_json, manifest_payload};
use crate::primitives::{
    age_decrypt, age_encrypt, age_generate, age_identity_parses, age_opened, age_recipient_key,
    age_recipient_of, age_recipient_parses, age_recipient_usable, bech32_decode, bech32_decoded, probe_scalar,
    x25519, x25519_contributory, x25519_shared, zero_bytes, ed25519_check_public_key, ed25519_generate_secret, ed25519_key_valid,
    ed25519_public, ed25519_public_key, ed25519_sign, ed25519_signature, ed25519_signature_from_slice,
    ed25519_verifies, ed25519_verify, fill_random, sha256, sha256_digest, xchacha_open, xchacha_opened,
    xchacha_seal, xchacha_sealed, AgeFailure,
};
use crate::sorted_map::{lemma_fold_push, same_text, text_pairs, SortedMap};
use crate::state::{map_of_pairs, KnownDevice, StoredDevice};

verus! {

/// The bytes a stored base64 text stands for.
pub open spec fn decoded(text: Seq<char>) -> Option<Seq<u8>> {
    base64_bytes(encode_utf8(text))
}

/// The keys of a new device: an age identity and its recipient, and an Ed25519
/// key pair, the secret and public keys written in base64.
#[derive(Debug, Clone)]
pub struct DeviceIdentity {
    pub age_identity: String,
    pub age_recipient: String,
    pub signing_secret_key: String,
    pub signing_public_key: String,
}

/// The secrets of a decrypted snapshot.
#[derive(Debug, Clone)]
pub struct DecryptedSnapshot {
    pub secrets: SortedMap<String>,
}

/// The four key texts belong together: the recipient is the identity's and age
/// can encrypt to it, and the public key is the one of the secret key.
pub open spec fn keys_cohere(
    age_identity: Seq<char>,
    age_recipient: Seq<char>,
    signing_secret_key: Seq<char>,
    signing_public_key: Seq<char>,
) -> bool {
    &&& age_identity_parses(age_identity)
    &&& age_recipient_parses(age_recipient)
    &&& age_recipient_usable(age_recipient)
    &&& age_recipient == age_recipient_of(age_identity)
    &&& decoded(signing_secret_key) matches Some(secret) && {
        &&& secret.len() == 32
        &&& signing_public_key == base64_text(ed25519_public(secret))
        &&& decoded(signing_public_key) == Some(ed25519_public(secret))
        &&& ed25519_public(secret).len() == 32
        &&& ed25519_key_valid(ed25519_public(secret))
    }
}

/// Generates the keys of a new device from the operating system's random source.
pub fn generate_device_identity() -> (identity: DeviceIdentity)
    ensures
        keys_cohere(
            identity.age_identity@,
            identity.age_recipient@,
            identity.signing_secret_key@,
            identity.signing_public_key@,
        ),
{
    let (age_identity, age_recipient) = age_generate();
    let secret = ed25519_generate_secret();
    let public = ed25519_public_key(&secret);
    DeviceIdentity {
        age_identity,
        age_recipient,
        signing_secret_key: base64_encode(&secret),
        signing_public_key: base64_encode(&public),
    }
}

/// What signing a manifest with a stored secret key gives: the base64 text of
/// the signature, or why the key is unusable.
pub open spec fn manifest_signature(signing_secret_key: Seq<char>, manifest: Seq<u8>) -> Result<Seq<char>, ShieldError> {
    match decoded(signing_secret_key) {
        None => Err(ShieldError::DecodeSecretKey),
        Some(secret) => if secret.len() != 32 {
            Err(ShieldError::SecretKeyLength)
        } else {
            Ok(base64_text(ed25519_signature(secret, manifest)))
        },
    }
}

/// A signature text made by `signing_secret_key` over `manifest` stands for a
/// 64-byte signature that verifies under the key's public key.
pub open spec fn signature_checks(signing_secret_key: Seq<char>, manifest: Seq<u8>, signature: Seq<char>) -> bool {
    decoded(signing_secret_key) matches Some(secret) && {
        let sig = ed25519_signature(secret, manifest);
        &&& decoded(signature) == Some(sig)
        &&& sig.len() == 64
        &&& ed25519_verifies(ed25519_public(secret), manifest, sig)
    }
}

pub(crate) fn array32(v: &Vec<u8>) -> (a: [u8; 32])
    requires
        v@.len() == 32,
    ensures
        a@ == v@,
{
    let mut a = [0u8; 32];
    let mut i: usize = 0;
    while i < 32
        invariant
            v@.len() == 32,
            0 <= i <= 32,
            forall|j: int| 0 <= j < i ==> a@[j] == v@[j],
        decreases 32 - i,
    {
        a[i] = v[i];
        i = i + 1;
    }
    assert(a@ =~= v@);
    a
}

/// Signs the manifest of a snapshot with the stored base64 secret key.
pub fn sign_manifest(
    signing_secret_key: &str,
    workspace_id: &str,
    environment: &str,
    created_by_device: &str,
    key_envelopes: &[KeyEnvelope],
    secrets: &[SecretItem],
) -> (r: Result<String, ShieldError>)
    ensures
        match manifest_signature(
            signing_secret_key@,
            manifest_json(workspace_id@, environment@, created_by_device@, key_envelopes@, secrets@),
        ) {
            Ok(t) => r matches Ok(s) && s@ == t,
            Err(e) => r == Err::<String, ShieldError>(e),
        },
        r is Ok ==> signature_checks(
            signing_secret_key@,
            manifest_json(workspace_id@, environment@, created_by_device@, key_envelopes@, secrets@),
            r->Ok_0@,
        ),
{
    let key_bytes = match base64_decode(signing_secret_key.as_bytes()) {
        Some(k) => k,
        None => return Err(ShieldError::DecodeSecretKey),
    };
    if key_bytes.len() != 32 {
        return Err(ShieldError::SecretKeyLength);
    }
    let secret = array32(&key_bytes);
    let payload = manifest_payload(workspace_id, environment, created_by_device, key_envelopes, secrets);
    let signature = ed25519_sign(&secret, payload.as_slice());
    Ok(base64_encode(&signature))
}

/// Whether the manifest of `snapshot` carries a valid signature by the base64
/// public key, or the first reason it does not.
pub open spec fn manifest_check(signing_public_key: Seq<char>, snapshot: SnapshotResponse) -> Result<(), ShieldError> {
    match decoded(signing_public_key) {
        None => Err(ShieldError::DecodePublicKey),
        Some(public) => if public.len() != 32 {
            Err(ShieldError::PublicKeyLength)
        } else if !ed25519_key_valid(public) {
            Err(ShieldError::ParsePublicKey)
        } else {
            match decoded(snapshot.manifest_signature@) {
                None => Err(ShieldError::DecodeSignature),
                Some(signature) => if signature.len() != 64 {
                    Err(ShieldError::ParseSignature)
                } else if ed25519_verifies(
                    public,
                    manifest_json(
                        snapshot.workspace_id@,
                        snapshot.environment@,
                        snapshot.created_by_device@,
                        snapshot.key_envelopes@,
                        snapshot.secrets@,
                    ),
                    signature,
                ) {
                    Ok(())
                } else {
                    Err(ShieldError::SignatureMismatch)
                },
            }
        },
    }
}

/// Checks the signature of a snapshot's manifest against the base64 public key
/// of the device that signed it.
pub fn verify_manifest(signing_public_key: &str, snapshot: &SnapshotResponse) -> (r: Result<(), ShieldError>)
    ensures
        r == manifest_check(signing_public_key@, *snapshot),
{
    let key_bytes = match base64_decode(signing_public_key.as_bytes()) {
        Some(k) => k,
        None => return Err(ShieldError::DecodePublicKey),
    };
    if key_bytes.len() != 32 {
        return Err(ShieldError::PublicKeyLength);
    }
    let public = array32(&key_bytes);
    if !ed25519_check_public_key(&public) {
        return Err(ShieldError::ParsePublicKey);
    }
    let signature_bytes = match base64_decode(snapshot.manifest_signature.as_str().as_bytes()) {
        Some(s) => s,
        None => return Err(ShieldError::DecodeSignature),
    };
    let signature = match ed25519_signature_from_slice(signature_bytes.as_slice()) {
        Some(s) => s,
        None => return Err(ShieldError::ParseSignature),
    };
    let payload = manifest_payload(
        snapshot.workspace_id.as_str(),
        snapshot.environment.as_str(),
        snapshot.created_by_device.as_str(),
        snapshot.key_envelopes.as_slice(),
        snapshot.secrets.as_slice(),
    );
    if ed25519_verify(&public, payload.as_slice(), &signature) {
        Ok(())
    } else {
        Err(ShieldError::SignatureMismatch)
    }
}

/// `item` is the encryption of `value` under the data key and nonce, stored
/// under `name` of the given workspace and environment.
pub open spec fn seals_secret(
    data_key: Seq<u8>,
    nonce: Seq<u8>,
    workspace_id: Seq<char>,
    environment: Seq<char>,
    name: Seq<char>,
    value: Seq<char>,
    item: SecretItem,
) -> bool {
    let aad = aad_text(workspace_id, environment, name);
    let ciphertext = xchacha_sealed(data_key, nonce, aad, encode_utf8(value));
    &&& nonce.len() == 24
    &&& item.name@ == name
    &&& item.ciphertext@ == base64_text(ciphertext)
    &&& decoded(item.ciphertext@) == Some(ciphertext)
    &&& item.nonce@ == base64_text(nonce)
    &&& decoded(item.nonce@) == Some(nonce)
    &&& item.aad_hash@ == hex_lower(sha256_digest(aad))
    &&& item.value_checksum@ == hex_lower(sha256_digest(encode_utf8(value)))
    &&& xchacha_opened(data_key, nonce, aad, ciphertext) == Some(encode_utf8(value))
}

/// The envelopes, secrets and signature of a snapshot are what encrypting
/// `values` with the given data key, nonces and wrapped key produces.
pub open spec fn seals_snapshot_with(
    device: StoredDevice,
    device_id: Seq<char>,
    workspace_id: Seq<char>,
    environment: Seq<char>,
    values: SortedMap<String>,
    key_envelopes: Seq<KeyEnvelope>,
    secrets: Seq<SecretItem>,
    signature: Seq<char>,
    data_key: Seq<u8>,
    nonces: Seq<Seq<u8>>,
    wrapped_key: Seq<u8>,
) -> bool {
    let manifest = manifest_json(workspace_id, environment, device_id, key_envelopes, secrets);
    &&& data_key.len() == 32
    &&& values.key_views().len() == values.values().len()
    &&& secrets.len() == values.key_views().len()
    &&& nonces.len() == secrets.len()
    &&& forall|i: int|
        0 <= i < secrets.len() ==> #[trigger] seals_secret(
            data_key,
            nonces[i],
            workspace_id,
            environment,
            values.key_views()[i],
            values.values()[i]@,
            secrets[i],
        )
    &&& key_envelopes.len() == 1
    &&& key_envelopes[0].device_id@ == device_id
    &&& key_envelopes[0].recipient@ == device.age_recipient@
    &&& key_envelopes[0].encrypted_key@ == base64_text(wrapped_key)
    &&& decoded(key_envelopes[0].encrypted_key@) == Some(wrapped_key)
    &&& forall|identity: Seq<char>|
        age_identity_parses(identity) && age_recipient_of(identity) == device.age_recipient@
            ==> #[trigger] age_opened(identity, wrapped_key) == Some(data_key)
    &&& manifest_signature(device.signing_secret_key@, manifest) == Ok::<Seq<char>, ShieldError>(signature)
    &&& signature_checks(device.signing_secret_key@, manifest, signature)
}

/// The envelopes, secrets and signature of a snapshot are what encrypting
/// `values` for the device produces, for some random data key and nonces.
pub open spec fn seals_snapshot(
    device: StoredDevice,
    device_id: Seq<char>,
    workspace_id: Seq<char>,
    environment: Seq<char>,
    values: SortedMap<String>,
    key_envelopes: Seq<KeyEnvelope>,
    secrets: Seq<SecretItem>,
    signature: Seq<char>,
) -> bool {
    exists|data_key: Seq<u8>, nonces: Seq<Seq<u8>>, wrapped_key: Seq<u8>|
        #[trigger] seals_snapshot_with(
            device,
            device_id,
            workspace_id,
            environment,
            values,
            key_envelopes,
            secrets,
            signature,
            data_key,
            nonces,
            wrapped_key,
        )
}

fn is_zero(bytes: &[u8; 32]) -> (b: bool)
    ensures
        b == (bytes@ == zero_bytes()),
{
    let mut i: usize = 0;
    while i < 32
        invariant
            0 <= i <= 32,
            forall|j: int| 0 <= j < i ==> bytes@[j] == 0u8,
        decreases 32 - i,
    {
        if bytes[i] != 0 {
            proof {
                assert(bytes@[i as int] != zero_bytes()[i as int]);
            }
            return false;
        }
        i = i + 1;
    }
    assert(bytes@ =~= zero_bytes());
    true
}

/// Whether age can encrypt to the recipient text: it does not parse, or its key
/// is not of small order (where age would panic).
pub fn recipient_usable(recipient: &str) -> (b: bool)
    ensures
        b == age_recipient_usable(recipient@),
{
    let (hrp, bech32, bytes) = match bech32_decode(recipient) {
        Some(parts) => parts,
        None => return true,
    };
    proof {
        reveal_strlit("age");
    }
    if !(same_text(hrp.as_str(), "age") && bech32 && bytes.len() == 32) {
        return true;
    }
    let key = array32(&bytes);
    let probe: [u8; 32] = [1u8; 32];
    proof {
        assert(probe@ =~= probe_scalar());
    }
    let shared = x25519(&probe, &key);
    !is_zero(&shared)
}

/// Every value is short enough for the cipher: its UTF-8 bytes span fewer than
/// `u32::MAX` blocks of 64 bytes.
pub open spec fn secrets_fit_cipher(values: SortedMap<String>) -> bool {
    forall|name: Seq<char>| #[trigger] values@.contains_key(name) ==> encode_utf8(values@[name]@).len() / 64 < 4294967295
}

/// Why encrypting a snapshot can fail: a secret is too long for the cipher, the
/// device's recipient does not parse, or its signing key is not a base64 text of
/// 32 bytes.
pub open spec fn encryption_failure(device: StoredDevice, values: SortedMap<String>, e: ShieldError) -> bool {
    match e {
        ShieldError::EncryptSecret(name) => values@.contains_key(name@) && encode_utf8(values@[name@]@).len() / 64
            >= 4294967295,
        ShieldError::AgeKey(_) => !age_recipient_parses(device.age_recipient@),
        ShieldError::EncryptDataKey => false,
        ShieldError::DecodeSecretKey => decoded(device.signing_secret_key@) is None,
        ShieldError::SecretKeyLength => decoded(device.signing_secret_key@) matches Some(k) && k.len() != 32,
        _ => false,
    }
}

/// Encrypts one secret value.
fn seal_secret(
    data_key: &[u8; 32],
    workspace_id: &str,
    environment: &str,
    name: &String,
    value: &String,
) -> (r: Option<(SecretItem, Ghost<Seq<u8>>)>)
    ensures
        encode_utf8(value@).len() / 64 < 4294967295 ==> r is Some,
        r matches Some((item, nonce)) ==> seals_secret(
            data_key@,
            nonce@,
            workspace_id@,
            environment@,
            name@,
            value@,
            item,
        ),
{
    let mut nonce: Vec<u8> = vec![0u8; 24];
    fill_random(&mut nonce);
    let aad = aad_bytes(workspace_id, environment, name.as_str());
    let plaintext = value.as_str().as_bytes();
    let ciphertext = match xchacha_seal(data_key, nonce.as_slice(), aad.as_slice(), plaintext) {
        Some(c) => c,
        None => return None,
    };
    let aad_digest = sha256(aad.as_slice());
    let value_digest = sha256(plaintext);
    let item = SecretItem {
        name: name.clone(),
        ciphertext: base64_encode(ciphertext.as_slice()),
        nonce: base64_encode(nonce.as_slice()),
        aad_hash: hex_encode(aad_digest.as_slice()),
        value_checksum: hex_encode(value_digest.as_slice()),
    };
    Some((item, Ghost(nonce@)))
}

/// Encrypts the secrets of an environment into a snapshot for this device: the
/// key envelope, the encrypted secrets in ascending name order, and the base64
/// signature of the manifest.
pub fn encrypt_snapshot(
    device: &StoredDevice,
    device_id: &str,
    workspace_id: &str,
    environment: &str,
    values: &SortedMap<String>,
) -> (r: Result<(Vec<KeyEnvelope>, Vec<SecretItem>, String), ShieldError>)
    requires
        age_recipient_usable(device.age_recipient@),
    ensures
        r matches Ok((key_envelopes, secrets, signature)) ==> seals_snapshot(
            *device,
            device_id@,
            workspace_id@,
            environment@,
            *values,
            key_envelopes@,
            secrets@,
            signature@,
        ),
        r matches Err(e) ==> encryption_failure(*device, *values, e),
        !age_recipient_parses(device.age_recipient@) ==> r is Err,
        !(decoded(device.signing_secret_key@) matches Some(k) && k.len() == 32) ==> r is Err,
        secrets_fit_cipher(*values) && age_recipient_parses(device.age_recipient@) && (decoded(
            device.signing_secret_key@,
        ) matches Some(k) && k.len() == 32) ==> r is Ok,
{
    let mut key_bytes: Vec<u8> = vec![0u8; 32];
    fill_random(&mut key_bytes);
    let data_key = array32(&key_bytes);
    let n = values.len();
    let mut secrets: Vec<SecretItem> = Vec::new();
    let ghost mut nonces: Seq<Seq<u8>> = Seq::empty();
    let mut i: usize = 0;
    while i < n
        invariant
            n == values.key_views().len(),
            n == values.values().len(),
            0 <= i <= n,
            secrets@.len() == i,
            nonces.len() == i,
            forall|j: int|
                0 <= j < i ==> #[trigger] seals_secret(
                    data_key@,
                    nonces[j],
                    workspace_id@,
                    environment@,
                    values.key_views()[j],
                    values.values()[j]@,
                    secrets@[j],
                ),
        decreases n - i,
    {
        let name = values.key_at(i);
        let value = values.value_at(i);
        match seal_secret(&data_key, workspace_id, environment, name, value) {
            Some((item, nonce)) => {
                secrets.push(item);
                proof {
                    nonces = nonces.push(nonce@);
                }
            },
            None => {
                return Err(ShieldError::EncryptSecret(name.clone()));
            },
        }
        i = i + 1;
    }
    let wrapped = match age_encrypt(device.age_recipient.as_str(), &key_bytes) {
        Ok(w) => w,
        Err(AgeFailure::Key(message)) => return Err(ShieldError::AgeKey(message)),
        Err(AgeFailure::Crypto) => return Err(ShieldError::EncryptDataKey),
    };
    let mut key_envelopes: Vec<KeyEnvelope> = Vec::new();
    key_envelopes.push(
        KeyEnvelope {
            device_id: device_id.to_owned(),
            recipient: device.age_recipient.clone(),
            encrypted_key: base64_encode(wrapped.as_slice()),
        },
    );
    let signature = match sign_manifest(
        device.signing_secret_key.as_str(),
        workspace_id,
        environment,
        device_id,
        key_envelopes.as_slice(),
        secrets.as_slice(),
    ) {
        Ok(s) => s,
        Err(e) => return Err(e),
    };
    proof {
        assert(seals_snapshot_with(
            *device,
            device_id@,
            workspace_id@,
            environment@,
            *values,
            key_envelopes@,
            secrets@,
            signature@,
            data_key@,
            nonces,
            wrapped@,
        ));
    }
    Ok((key_envelopes, secrets, signature))
}

/// The id of a device as it is matched against envelopes: empty when it has none.
pub open spec fn id_or_empty(id: Option<String>) -> Seq<char> {
    match id {
        Some(i) => i@,
        None => Seq::empty(),
    }
}

/// The envelope is meant for the device: it names the device's id or its recipient.
pub open spec fn envelope_for(device: StoredDevice, envelope: KeyEnvelope) -> bool {
    envelope.device_id@ == id_or_empty(device.id) || envelope.recipient@ == device.age_recipient@
}

/// Position `i` holds the first envelope meant for the device.
pub open spec fn first_envelope_at(device: StoredDevice, envelopes: Seq<KeyEnvelope>, i: int) -> bool {
    &&& 0 <= i < envelopes.len()
    &&& envelope_for(device, envelopes[i])
    &&& forall|j: int| 0 <= j < i ==> !envelope_for(device, #[trigger] envelopes[j])
}

/// The data key of a snapshot as the device unwraps it from its first envelope,
/// or the first step that fails.
pub open spec fn unwrapped_data_key(device: StoredDevice, snapshot: SnapshotResponse) -> Result<Seq<u8>, ShieldError> {
    if exists|i: int| #[trigger] first_envelope_at(device, snapshot.key_envelopes@, i) {
        let i = choose|i: int| #[trigger] first_envelope_at(device, snapshot.key_envelopes@, i);
        match decoded(snapshot.key_envelopes@[i].encrypted_key@) {
            None => Err(ShieldError::DecodeDataKey),
            Some(wrapped) => if !age_identity_parses(device.age_identity@) {
                Err(ShieldError::AgeKey(vstd::pervasive::arbitrary()))
            } else {
                match age_opened(device.age_identity@, wrapped) {
                    None => Err(ShieldError::UnwrapDataKey),
                    Some(key) => if key.len() != 32 {
                        Err(ShieldError::DataKeyLength)
                    } else {
                        Ok(key)
                    },
                }
            },
        }
    } else {
        Err(ShieldError::NoKeyEnvelope)
    }
}

/// What decrypting one secret item gives: its value, the first check that
/// fails, or `None` where the `XNonce` conversion panics on a nonce that is not
/// 24 bytes long.
pub open spec fn open_secret(
    data_key: Seq<u8>,
    workspace_id: Seq<char>,
    environment: Seq<char>,
    item: SecretItem,
) -> Option<Result<Seq<char>, ShieldError>> {
    let aad = aad_text(workspace_id, environment, item.name@);
    if hex_lower(sha256_digest(aad)) != item.aad_hash@ {
        Some(Err(ShieldError::AadMismatch(item.name)))
    } else {
        match decoded(item.nonce@) {
            None => Some(Err(ShieldError::DecodeNonce)),
            Some(nonce) => match decoded(item.ciphertext@) {
                None => Some(Err(ShieldError::DecodeCiphertext)),
                Some(ciphertext) => if nonce.len() != 24 {
                    None
                } else {
                    match xchacha_opened(data_key, nonce, aad, ciphertext) {
                        None => Some(Err(ShieldError::DecryptSecret(item.name))),
                        Some(plaintext) => if hex_lower(sha256_digest(plaintext)) != item.value_checksum@ {
                            Some(Err(ShieldError::ChecksumMismatch(item.name)))
                        } else if !valid_utf8(plaintext) {
                            Some(Err(ShieldError::InvalidUtf8))
                        } else {
                            Some(Ok(decode_utf8(plaintext)))
                        },
                    }
                },
            },
        }
    }
}

/// What decrypting the items in order gives: the names with their values, the
/// first failure, or `None` where a nonce makes the decryption panic.
pub open spec fn open_secrets(
    data_key: Seq<u8>,
    workspace_id: Seq<char>,
    environment: Seq<char>,
    items: Seq<SecretItem>,
) -> Option<Result<Seq<(Seq<char>, Seq<char>)>, ShieldError>>
    decreases items.len(),
{
    if items.len() == 0 {
        Some(Ok(Seq::empty()))
    } else {
        match open_secrets(data_key, workspace_id, environment, items.drop_last()) {
            None => None,
            Some(Err(e)) => Some(Err(e)),
            Some(Ok(pairs)) => match open_secret(data_key, workspace_id, environment, items.last()) {
                None => None,
                Some(Err(e)) => Some(Err(e)),
                Some(Ok(value)) => Some(Ok(pairs.push((items.last().name@, value)))),
            },
        }
    }
}

/// What decrypting a snapshot with the device's keys gives: its secrets in
/// order, the first failure, or `None` where the decryption panics.
pub open spec fn snapshot_contents(
    device: StoredDevice,
    known_devices: SortedMap<KnownDevice>,
    snapshot: SnapshotResponse,
) -> Option<Result<Seq<(Seq<char>, Seq<char>)>, ShieldError>> {
    if !known_devices@.contains_key(snapshot.created_by_device@) {
        Some(Err(ShieldError::UnknownSigner(snapshot.created_by_device)))
    } else {
        match manifest_check(known_devices@[snapshot.created_by_device@].signing_public_key@, snapshot) {
            Err(e) => Some(Err(e)),
            Ok(_) => match unwrapped_data_key(device, snapshot) {
                Err(e) => Some(Err(e)),
                Ok(key) => open_secrets(key, snapshot.workspace_id@, snapshot.environment@, snapshot.secrets@),
            },
        }
    }
}

/// The error is the expected one; of an age key error only the kind is fixed,
/// its text being age's own.
pub open spec fn same_failure(actual: ShieldError, expected: ShieldError) -> bool {
    match expected {
        ShieldError::AgeKey(_) => actual is AgeKey,
        _ => actual == expected,
    }
}

/// The texts of a decrypted snapshot's secrets.
pub open spec fn secret_texts(d: DecryptedSnapshot) -> Map<Seq<char>, Seq<char>> {
    d.secrets@.map_values(|v: String| v@)
}

fn find_envelope(device: &StoredDevice, envelopes: &Vec<KeyEnvelope>) -> (r: Option<usize>)
    ensures
        match r {
            Some(i) => first_envelope_at(*device, envelopes@, i as int),
            None => !exists|i: int| #[trigger] first_envelope_at(*device, envelopes@, i),
        },
{
    let id: &str = match &device.id {
        Some(i) => i.as_str(),
        None => "",
    };
    proof {
        reveal_strlit("");
        assert(id@ == id_or_empty(device.id));
    }
    let n = envelopes.len();
    let mut i: usize = 0;
    while i < n
        invariant
            n == envelopes@.len(),
            id@ == id_or_empty(device.id),
            0 <= i <= n,
            forall|j: int| 0 <= j < i ==> !envelope_for(*device, #[trigger] envelopes@[j]),
        decreases n - i,
    {
        let e = &envelopes[i];
        if same_text(e.device_id.as_str(), id) || same_text(e.recipient.as_str(), device.age_recipient.as_str()) {
            return Some(i);
        }
        i = i + 1;
    }
    proof {
        assert forall|k: int| !#[trigger] first_envelope_at(*device, envelopes@, k) by {
            if 0 <= k < n {
                assert(!envelope_for(*device, envelopes@[k]));
            }
        }
    }
    None
}

fn open_one(data_key: &[u8; 32], workspace_id: &str, environment: &str, item: &SecretItem) -> (r: Option<
    Result<String, ShieldError>,
>)
    ensures
        match open_secret(data_key@, workspace_id@, environment@, *item) {
            None => r is None,
            Some(Ok(v)) => r matches Some(Ok(s)) && s@ == v,
            Some(Err(e)) => r == Some(Err::<String, ShieldError>(e)),
        },
{
    let aad = aad_bytes(workspace_id, environment, item.name.as_str());
    let expected_aad_hash = hex_encode(sha256(aad.as_slice()).as_slice());
    if expected_aad_hash != item.aad_hash {
        return Some(Err(ShieldError::AadMismatch(item.name.clone())));
    }
    let nonce = match base64_decode(item.nonce.as_str().as_bytes()) {
        Some(n) => n,
        None => return Some(Err(ShieldError::DecodeNonce)),
    };
    let ciphertext = match base64_decode(item.ciphertext.as_str().as_bytes()) {
        Some(c) => c,
        None => return Some(Err(ShieldError::DecodeCiphertext)),
    };
    if nonce.len() != 24 {
        return None;
    }
    let plaintext = match xchacha_open(data_key, nonce.as_slice(), aad.as_slice(), ciphertext.as_slice()) {
        Some(p) => p,
        None => return Some(Err(ShieldError::DecryptSecret(item.name.clone()))),
    };
    let checksum = hex_encode(sha256(plaintext.as_slice()).as_slice());
    if checksum != item.value_checksum {
        return Some(Err(ShieldError::ChecksumMismatch(item.name.clone())));
    }
    match string_from_utf8(plaintext) {
        Some(text) => Some(Ok(text)),
        None => Some(Err(ShieldError::InvalidUtf8)),
    }
}

fn decrypt_core(
    device: &StoredDevice,
    known_devices: &SortedMap<KnownDevice>,
    snapshot: &SnapshotResponse,
) -> (r: Option<Result<DecryptedSnapshot, ShieldError>>)
    ensures
        match snapshot_contents(*device, *known_devices, *snapshot) {
            None => r is None,
            Some(Ok(pairs)) => r matches Some(Ok(d)) && secret_texts(d) == map_of_pairs(pairs),
            Some(Err(e)) => r matches Some(Err(a)) && same_failure(a, e),
        },
{
    let known_device = match known_devices.get(snapshot.created_by_device.as_str()) {
        Some(k) => k,
        None => return Some(Err(ShieldError::UnknownSigner(snapshot.created_by_device.clone()))),
    };
    match verify_manifest(known_device.signing_public_key.as_str(), snapshot) {
        Ok(()) => {},
        Err(e) => return Some(Err(e)),
    }
    let i = match find_envelope(device, &snapshot.key_envelopes) {
        Some(i) => i,
        None => return Some(Err(ShieldError::NoKeyEnvelope)),
    };
    proof {
        let c = choose|k: int| #[trigger] first_envelope_at(*device, snapshot.key_envelopes@, k);
        assert(first_envelope_at(*device, snapshot.key_envelopes@, c));
        if c < i {
            assert(!envelope_for(*device, snapshot.key_envelopes@[c]));
        } else if c > i {
            assert(!envelope_for(*device, snapshot.key_envelopes@[i as int]));
        }
    }
    let envelope = &snapshot.key_envelopes[i];
    let encrypted_key = match base64_decode(envelope.encrypted_key.as_str().as_bytes()) {
        Some(k) => k,
        None => return Some(Err(ShieldError::DecodeDataKey)),
    };
    let key_bytes = match age_decrypt(device.age_identity.as_str(), encrypted_key.as_slice()) {
        Ok(k) => k,
        Err(AgeFailure::Key(message)) => return Some(Err(ShieldError::AgeKey(message))),
        Err(AgeFailure::Crypto) => return Some(Err(ShieldError::UnwrapDataKey)),
    };
    if key_bytes.len() != 32 {
        return Some(Err(ShieldError::DataKeyLength));
    }
    let data_key = array32(&key_bytes);
    match open_all(&data_key, snapshot.workspace_id.as_str(), snapshot.environment.as_str(), &snapshot.secrets) {
        None => None,
        Some(Err(e)) => Some(Err(e)),
        Some(Ok(values)) => Some(Ok(DecryptedSnapshot { secrets: values })),
    }
}

proof fn lemma_open_step(
    data_key: Seq<u8>,
    workspace_id: Seq<char>,
    environment: Seq<char>,
    items: Seq<SecretItem>,
    k: int,
)
    requires
        0 <= k < items.len(),
    ensures
        open_secrets(data_key, workspace_id, environment, items.take(k + 1)) == match open_secrets(
            data_key,
            workspace_id,
            environment,
            items.take(k),
        ) {
            None => None,
            Some(Err(e)) => Some(Err(e)),
            Some(Ok(pairs)) => match open_secret(data_key, workspace_id, environment, items[k]) {
                None => None,
                Some(Err(e)) => Some(Err(e)),
                Some(Ok(value)) => Some(Ok(pairs.push((items[k].name@, value)))),
            },
        },
{
    let t = items.take(k + 1);
    assert(t.drop_last() =~= items.take(k));
    assert(t.last() == items[k]);
}

proof fn lemma_open_failure_stays(
    data_key: Seq<u8>,
    workspace_id: Seq<char>,
    environment: Seq<char>,
    items: Seq<SecretItem>,
    k: int,
)
    requires
        0 <= k <= items.len(),
        !(open_secrets(data_key, workspace_id, environment, items.take(k)) matches Some(Ok(_))),
    ensures
        open_secrets(data_key, workspace_id, environment, items) == open_secrets(
            data_key,
            workspace_id,
            environment,
            items.take(k),
        ),
    decreases items.len() - k,
{
    if k == items.len() {
        assert(items.take(k) =~= items);
    } else {
        lemma_open_step(data_key, workspace_id, environment, items, k);
        lemma_open_failure_stays(data_key, workspace_id, environment, items, k + 1);
    }
}

proof fn lemma_pairs_push(pairs: Seq<(Seq<char>, Seq<char>)>, key: Seq<char>, value: Seq<char>)
    ensures
        map_of_pairs(pairs.push((key, value))) == map_of_pairs(pairs).insert(key, value),
{
    lemma_fold_push(pair_keys(pairs), pairs.map_values(|p: (Seq<char>, Seq<char>)| p.1), key, value);
    let np = pairs.push((key, value));
    assert(pair_keys(np) =~= pair_keys(pairs).push(key));
    assert(np.map_values(|p: (Seq<char>, Seq<char>)| p.1) =~= pairs.map_values(
        |p: (Seq<char>, Seq<char>)| p.1,
    ).push(value));
}

fn open_all(data_key: &[u8; 32], workspace_id: &str, environment: &str, items: &Vec<SecretItem>) -> (r: Option<
    Result<SortedMap<String>, ShieldError>,
>)
    ensures
        match open_secrets(data_key@, workspace_id@, environment@, items@) {
            None => r is None,
            Some(Ok(pairs)) => r matches Some(Ok(m)) && m@.map_values(|v: String| v@) == map_of_pairs(pairs),
            Some(Err(e)) => r == Some(Err::<SortedMap<String>, ShieldError>(e)),
        },
{
    let mut values: SortedMap<String> = SortedMap::new();
    let ghost mut pairs: Seq<(Seq<char>, Seq<char>)> = Seq::empty();
    let n = items.len();
    let mut k: usize = 0;
    proof {
        assert(items@.take(0) =~= Seq::<SecretItem>::empty());
        assert(values@.map_values(|v: String| v@) =~= map_of_pairs(pairs));
    }
    while k < n
        invariant
            n == items@.len(),
            0 <= k <= n,
            open_secrets(data_key@, workspace_id@, environment@, items@.take(k as int)) == Some(
                Ok::<Seq<(Seq<char>, Seq<char>)>, ShieldError>(pairs),
            ),
            values@.map_values(|v: String| v@) == map_of_pairs(pairs),
        decreases n - k,
    {
        let item = &items[k];
        proof {
            lemma_open_step(data_key@, workspace_id@, environment@, items@, k as int);
        }
        match open_one(data_key, workspace_id, environment, item) {
            None => {
                proof {
                    lemma_open_failure_stays(data_key@, workspace_id@, environment@, items@, k + 1);
                }
                return None;
            },
            Some(Err(e)) => {
                proof {
                    lemma_open_failure_stays(data_key@, workspace_id@, environment@, items@, k + 1);
                }
                return Some(Err(e));
            },
            Some(Ok(value)) => {
                let ghost v = value@;
                values.insert(item.name.clone(), value);
                proof {
                    lemma_pairs_push(pairs, item.name@, v);
                    assert(values@.map_values(|v: String| v@) =~= map_of_pairs(pairs.push((item.name@, v))));
                    pairs = pairs.push((item.name@, v));
                }
            },
        }
        k = k + 1;
    }
    proof {
        assert(items@.take(n as int) =~= items@);
    }
    Some(Ok(values))
}

/// Checks a snapshot's signature against its signer's known public key, unwraps
/// its data key with this device's identity and decrypts its secrets.
pub fn decrypt_snapshot(
    device: &StoredDevice,
    known_devices: &SortedMap<KnownDevice>,
    snapshot: &SnapshotResponse,
) -> (r: Result<DecryptedSnapshot, ShieldError>)
    requires
        snapshot_contents(*device, *known_devices, *snapshot) is Some,
    ensures
        match snapshot_contents(*device, *known_devices, *snapshot) {
            Some(Ok(pairs)) => r matches Ok(d) && secret_texts(d) == map_of_pairs(pairs),
            Some(Err(e)) => r matches Err(a) && same_failure(a, e),
            None => false,
        },
{
    match decrypt_core(device, known_devices, snapshot) {
        Some(r) => r,
        None => {
            proof {
                assert(false);
            }
            Err(ShieldError::NoKeyEnvelope)
        },
    }
}

/// Decrypts a snapshot as `decrypt_snapshot` does where that does not panic, and
/// gives `None` where it would (a secret whose nonce is not 24 bytes long).
pub fn try_decrypt_snapshot(
    device: &StoredDevice,
    known_devices: &SortedMap<KnownDevice>,
    snapshot: &SnapshotResponse,
) -> (r: Option<Result<DecryptedSnapshot, ShieldError>>)
    ensures
        match snapshot_contents(*device, *known_devices, *snapshot) {
            None => r is None,
            Some(Ok(pairs)) => r matches Some(Ok(d)) && secret_texts(d) == map_of_pairs(pairs),
            Some(Err(e)) => r matches Some(Err(a)) && same_failure(a, e),
        },
{
    decrypt_core(device, known_devices, snapshot)
}

proof fn lemma_open_sealed_item(
    data_key: Seq<u8>,
    nonce: Seq<u8>,
    workspace_id: Seq<char>,
    environment: Seq<char>,
    name: Seq<char>,
    value: Seq<char>,
    item: SecretItem,
)
    requires
        seals_secret(data_key, nonce, workspace_id, environment, name, value, item),
    ensures
        open_secret(data_key, workspace_id, environment, item) == Some(
            Ok::<Seq<char>, ShieldError>(value),
        ),
{
    vstd::utf8::encode_utf8_valid_utf8(value);
    vstd::utf8::encode_utf8_decode_utf8(value);
}

proof fn lemma_open_sealed(
    device: StoredDevice,
    device_id: Seq<char>,
    workspace_id: Seq<char>,
    environment: Seq<char>,
    values: SortedMap<String>,
    key_envelopes: Seq<KeyEnvelope>,
    secrets: Seq<SecretItem>,
    signature: Seq<char>,
    data_key: Seq<u8>,
    nonces: Seq<Seq<u8>>,
    wrapped_key: Seq<u8>,
    i: int,
)
    requires
        seals_snapshot_with(
            device,
            device_id,
            workspace_id,
            environment,
            values,
            key_envelopes,
            secrets,
            signature,
            data_key,
            nonces,
            wrapped_key,
        ),
        0 <= i <= secrets.len(),
    ensures
        open_secrets(data_key, workspace_id, environment, secrets.take(i)) == Some(
            Ok::<Seq<(Seq<char>, Seq<char>)>, ShieldError>(
                text_pairs(values.key_views().take(i), values.values().take(i)),
            ),
        ),
    decreases i,
{
    if i == 0 {
        assert(secrets.take(0) =~= Seq::<SecretItem>::empty());
        assert(text_pairs(values.key_views().take(0), values.values().take(0)) =~= Seq::<
            (Seq<char>, Seq<char>),
        >::empty());
    } else {
        lemma_open_sealed(
            device,
            device_id,
            workspace_id,
            environment,
            values,
            key_envelopes,
            secrets,
            signature,
            data_key,
            nonces,
            wrapped_key,
            i - 1,
        );
        lemma_open_step(data_key, workspace_id, environment, secrets, i - 1);
        assert(seals_secret(
            data_key,
            nonces[i - 1],
            workspace_id,
            environment,
            values.key_views()[i - 1],
            values.values()[i - 1]@,
            secrets[i - 1],
        ));
        lemma_open_sealed_item(
            data_key,
            nonces[i - 1],
            workspace_id,
            environment,
            values.key_views()[i - 1],
            values.values()[i - 1]@,
            secrets[i - 1],
        );
        assert(text_pairs(values.key_views().take(i), values.values().take(i)) =~= text_pairs(
            values.key_views().take(i - 1),
            values.values().take(i - 1),
        ).push((values.key_views()[i - 1], values.values()[i - 1]@)));
    }
}

/// The data key is unwrapped from the first envelope meant for the device (by
/// its id, or by its recipient), whatever position that envelope has: where that
/// envelope's key decodes and opens with the device's identity to 32 bytes,
/// those bytes are the data key, and a correctly signed snapshot from a known
/// signer decrypts its secrets with them.
pub proof fn law_own_envelope_unwrapped(
    device: StoredDevice,
    known_devices: SortedMap<KnownDevice>,
    snapshot: SnapshotResponse,
    k: int,
    wrapped: Seq<u8>,
    data_key: Seq<u8>,
)
    requires
        0 <= k < snapshot.key_envelopes@.len(),
        snapshot.key_envelopes@[k].device_id@ == (match device.id {
            Some(id) => id@,
            None => Seq::<char>::empty(),
        }) || snapshot.key_envelopes@[k].recipient@ == device.age_recipient@,
        forall|j: int|
            0 <= j < k ==> (#[trigger] snapshot.key_envelopes@[j]).device_id@ != (match device.id {
                Some(id) => id@,
                None => Seq::<char>::empty(),
            }) && snapshot.key_envelopes@[j].recipient@ != device.age_recipient@,
        base64_bytes(encode_utf8(snapshot.key_envelopes@[k].encrypted_key@)) == Some(wrapped),
        age_identity_parses(device.age_identity@),
        age_opened(device.age_identity@, wrapped) == Some(data_key),
        data_key.len() == 32,
    ensures
        unwrapped_data_key(device, snapshot) == Ok::<Seq<u8>, ShieldError>(data_key),
        known_devices@.contains_key(snapshot.created_by_device@) && manifest_check(
            known_devices@[snapshot.created_by_device@].signing_public_key@,
            snapshot,
        ) is Ok ==> snapshot_contents(device, known_devices, snapshot) == open_secrets(
            data_key,
            snapshot.workspace_id@,
            snapshot.environment@,
            snapshot.secrets@,
        ),
{
    let envs = snapshot.key_envelopes@;
    assert(first_envelope_at(device, envs, k));
    let c = choose|c: int| #[trigger] first_envelope_at(device, envs, c);
    assert(first_envelope_at(device, envs, c));
    if c < k {
        assert(envelope_for(device, envs[c]));
        assert(!envelope_for(device, envs[c]));
    } else if c > k {
        assert(!envelope_for(device, envs[k]));
    }
}

/// Secrets come out of a snapshot only after its checks: its signer is known
/// locally, its signature checks out under the signer's key, and one of its key
/// envelopes is meant for the device.
pub proof fn law_decrypted_snapshot_was_checked(
    device: StoredDevice,
    known_devices: SortedMap<KnownDevice>,
    snapshot: SnapshotResponse,
    pairs: Seq<(Seq<char>, Seq<char>)>,
)
    requires
        snapshot_contents(device, known_devices, snapshot) == Some(
            Ok::<Seq<(Seq<char>, Seq<char>)>, ShieldError>(pairs),
        ),
    ensures
        known_devices@.contains_key(snapshot.created_by_device@),
        manifest_check(known_devices@[snapshot.created_by_device@].signing_public_key@, snapshot) is Ok,
        exists|i: int| 0 <= i < snapshot.key_envelopes@.len() && envelope_for(device, #[trigger] snapshot.key_envelopes@[i]),
{
    let i = choose|i: int| #[trigger] first_envelope_at(device, snapshot.key_envelopes@, i);
    assert(envelope_for(device, snapshot.key_envelopes@[i]));
}

/// A device for which no key envelope of a correctly signed snapshot is meant
/// gets none of its secrets: decryption reports that no envelope was found.
pub proof fn law_no_envelope_no_secrets(
    device: StoredDevice,
    known_devices: SortedMap<KnownDevice>,
    snapshot: SnapshotResponse,
)
    requires
        known_devices@.contains_key(snapshot.created_by_device@),
        manifest_check(known_devices@[snapshot.created_by_device@].signing_public_key@, snapshot) is Ok,
        forall|i: int| 0 <= i < snapshot.key_envelopes@.len() ==> !envelope_for(device, #[trigger] snapshot.key_envelopes@[i]),
    ensures
        snapshot_contents(device, known_devices, snapshot) == Some(
            Err::<Seq<(Seq<char>, Seq<char>)>, ShieldError>(ShieldError::NoKeyEnvelope),
        ),
{
    assert(!exists|i: int| #[trigger] first_envelope_at(device, snapshot.key_envelopes@, i));
}

/// A snapshot that a device encrypted and signed passes the signature check
/// under that device's public signing key.
pub proof fn law_signed_snapshot_verifies(
    device: StoredDevice,
    values: SortedMap<String>,
    snapshot: SnapshotResponse,
)
    requires
        keys_cohere(
            device.age_identity@,
            device.age_recipient@,
            device.signing_secret_key@,
            device.signing_public_key@,
        ),
        seals_snapshot(
            device,
            snapshot.created_by_device@,
            snapshot.workspace_id@,
            snapshot.environment@,
            values,
            snapshot.key_envelopes@,
            snapshot.secrets@,
            snapshot.manifest_signature@,
        ),
    ensures
        manifest_check(device.signing_public_key@, snapshot) == Ok::<(), ShieldError>(()),
{
    let (data_key, nonces, wrapped_key) = choose|data_key: Seq<u8>, nonces: Seq<Seq<u8>>, wrapped_key: Seq<u8>|
        #[trigger] seals_snapshot_with(
            device,
            snapshot.created_by_device@,
            snapshot.workspace_id@,
            snapshot.environment@,
            values,
            snapshot.key_envelopes@,
            snapshot.secrets@,
            snapshot.manifest_signature@,
            data_key,
            nonces,
            wrapped_key,
        );
    let secret = decoded(device.signing_secret_key@).unwrap();
    let public = ed25519_public(secret);
    assert(decoded(device.signing_public_key@) == Some(public));
}

/// The device that encrypted a snapshot gets back exactly the secrets it
/// encrypted when it decrypts the snapshot, provided the signer's public key is
/// known under the snapshot's signing device.
pub proof fn law_snapshot_roundtrip(
    device: StoredDevice,
    device_id: Seq<char>,
    values: SortedMap<String>,
    known_devices: SortedMap<KnownDevice>,
    snapshot: SnapshotResponse,
)
    requires
        keys_cohere(
            device.age_identity@,
            device.age_recipient@,
            device.signing_secret_key@,
            device.signing_public_key@,
        ),
        seals_snapshot(
            device,
            device_id,
            snapshot.workspace_id@,
            snapshot.environment@,
            values,
            snapshot.key_envelopes@,
            snapshot.secrets@,
            snapshot.manifest_signature@,
        ),
        snapshot.created_by_device@ == device_id,
        known_devices@.contains_key(device_id),
        known_devices@[device_id].signing_public_key@ == device.signing_public_key@,
    ensures
        snapshot_contents(device, known_devices, snapshot) == Some(
            Ok::<Seq<(Seq<char>, Seq<char>)>, ShieldError>(
                text_pairs(values.key_views(), values.values()),
            ),
        ),
        map_of_pairs(text_pairs(values.key_views(), values.values())) == values@.map_values(
            |v: String| v@,
        ),
{
    let ws = snapshot.workspace_id@;
    let env = snapshot.environment@;
    let envs = snapshot.key_envelopes@;
    let secrets = snapshot.secrets@;
    let sig = snapshot.manifest_signature@;
    let (data_key, nonces, wrapped_key) = choose|data_key: Seq<u8>, nonces: Seq<Seq<u8>>, wrapped_key: Seq<u8>|
        #[trigger] seals_snapshot_with(
            device,
            device_id,
            ws,
            env,
            values,
            envs,
            secrets,
            sig,
            data_key,
            nonces,
            wrapped_key,
        );
    assert(seals_snapshot_with(device, device_id, ws, env, values, envs, secrets, sig, data_key, nonces, wrapped_key));
    let secret = decoded(device.signing_secret_key@).unwrap();
    let public = ed25519_public(secret);
    assert(decoded(known_devices@[device_id].signing_public_key@) == Some(public));
    assert(manifest_check(known_devices@[snapshot.created_by_device@].signing_public_key@, snapshot) == Ok::<
        (),
        ShieldError,
    >(()));
    assert(first_envelope_at(device, envs, 0));
    let c = choose|k: int| #[trigger] first_envelope_at(device, envs, k);
    assert(first_envelope_at(device, envs, c));
    if c > 0 {
        assert(!envelope_for(device, envs[0]));
    }
    assert(age_opened(device.age_identity@, wrapped_key) == Some(data_key));
    assert(unwrapped_data_key(device, snapshot) == Ok::<Seq<u8>, ShieldError>(data_key));
    lemma_open_sealed(
        device,
        device_id,
        ws,
        env,
        values,
        envs,
        secrets,
        sig,
        data_key,
        nonces,
        wrapped_key,
        secrets.len() as int,
    );
    assert(secrets.take(secrets.len() as int) =~= secrets);
    assert(values.key_views().take(secrets.len() as int) =~= values.key_views());
    assert(values.values().take(secrets.len() as int) =~= values.values());
    let pairs = text_pairs(values.key_views(), values.values());
    assert(crate::codec::pair_keys(pairs) =~= values.key_views());
    assert(pairs.map_values(|p: (Seq<char>, Seq<char>)| p.1) =~= values.values().map_values(
        |v: String| v@,
    ));
    crate::sorted_map::lemma_fold_views(values.key_views(), values.values());
}

} // verus!
