//! The errors of the library, one variant for each way an operation can fail.
use vstd::prelude::*;
use vstd::string::StringExecFns;

verus! {

/// Why an operation failed.
#[derive(Debug)]
pub enum ShieldError {
    /// Encrypting the value of the named secret failed.
    EncryptSecret(String),
    /// An age key did not parse; the text is the parser's own message.
    AgeKey(String),
    /// Wrapping the snapshot's data key for a recipient failed.
    EncryptDataKey,
    /// The snapshot names a signing device that is not known locally.
    UnknownSigner(String),
    /// No key envelope of the snapshot is meant for this device.
    NoKeyEnvelope,
    /// The wrapped data key is not valid base64.
    DecodeDataKey,
    /// The data key could not be unwrapped with this device's identity.
    UnwrapDataKey,
    /// The unwrapped data key is not 32 bytes long.
    DataKeyLength,
    /// The associated-data hash of the named secret does not match.
    AadMismatch(String),
    /// A secret's nonce is not valid base64.
    DecodeNonce,
    /// A secret's ciphertext is not valid base64.
    DecodeCiphertext,
    /// The named secret failed to decrypt.
    DecryptSecret(String),
    /// The checksum of the named secret's value does not match.
    ChecksumMismatch(String),
    /// A decrypted secret is not valid UTF-8.
    InvalidUtf8,
    /// The signing public key is not valid base64.
    DecodePublicKey,
    /// The signing public key is not 32 bytes long.
    PublicKeyLength,
    /// The signing public key is not a valid Ed25519 point.
    ParsePublicKey,
    /// The manifest signature is not valid base64.
    DecodeSignature,
    /// The manifest signature is not 64 bytes long.
    ParseSignature,
    /// The manifest signature does not verify.
    SignatureMismatch,
    /// The signing secret key is not valid base64.
    DecodeSecretKey,
    /// The signing secret key is not 32 bytes long.
    SecretKeyLength,
    /// No local workspace has the given id or name.
    WorkspaceNotFound(String),
    /// No workspace was given and none is current.
    NoCurrentWorkspace,
    /// This machine has no device keys yet.
    DeviceNotInitialized,
    /// The stored local cache key is not valid base64.
    DecodeCacheKey,
    /// The stored local cache key is not 32 bytes long.
    CacheKeyLength,
    /// The given workspace id is not in the local state.
    WorkspaceNotInLocalState(String),
    /// The local cache nonce is not valid base64.
    DecodeCacheNonce,
    /// The local cache ciphertext is not valid base64.
    DecodeCacheCiphertext,
    /// The local cache failed to decrypt.
    DecryptCache,
    /// The decrypted local cache is not a JSON object of strings.
    DecodeCachePayload,
    /// The local cache payload could not be encoded.
    EncodeCachePayload,
    /// The local cache payload could not be encrypted.
    EncryptCache,
    /// There is no login token.
    NotLoggedIn,
    /// The local device registry lacks the device with the given id.
    MissingRegistryEntry(String),
    /// The signer of the last snapshot is not known locally.
    UnknownSnapshotSigner,
    /// The environment holds no secrets to push.
    NoSecrets(String),
    /// The device authorization flow expired before approval.
    AuthExpired,
    /// No command was given to run.
    NoCommand,
}

fn text(s: &str) -> (r: String)
    ensures
        r@ == s@,
{
    s.to_owned()
}

fn prefixed(before: &str, middle: &String) -> (r: String)
    ensures
        r@ == before@ + middle@,
{
    let mut r = text(before);
    r.append(middle.as_str());
    r
}

fn around(before: &str, middle: &String, after: &str) -> (r: String)
    ensures
        r@ == before@ + middle@ + after@,
{
    let mut r = text(before);
    r.append(middle.as_str());
    r.append(after);
    r
}

/// The message that describes an error to a user.
pub open spec fn message_text(e: ShieldError) -> Seq<char> {
    match e {
        ShieldError::EncryptSecret(name) => "failed to encrypt secret "@ + name@,
        ShieldError::AgeKey(reason) => reason@,
        ShieldError::EncryptDataKey => "failed to encrypt data key"@,
        ShieldError::UnknownSigner(id) => "unknown device "@ + id@ + " for snapshot verification"@,
        ShieldError::NoKeyEnvelope => "no key envelope found for current device"@,
        ShieldError::DecodeDataKey => "failed to decode encrypted data key"@,
        ShieldError::UnwrapDataKey => "failed to unwrap data key"@,
        ShieldError::DataKeyLength => "unexpected data key length"@,
        ShieldError::AadMismatch(name) => "aad hash mismatch for "@ + name@,
        ShieldError::DecodeNonce => "failed to decode secret nonce"@,
        ShieldError::DecodeCiphertext => "failed to decode secret ciphertext"@,
        ShieldError::DecryptSecret(name) => "failed to decrypt "@ + name@,
        ShieldError::ChecksumMismatch(name) => "value checksum mismatch for "@ + name@,
        ShieldError::InvalidUtf8 => "secret payload was not valid UTF-8"@,
        ShieldError::DecodePublicKey => "failed to decode signing public key"@,
        ShieldError::PublicKeyLength => "signing public key length mismatch"@,
        ShieldError::ParsePublicKey => "failed to parse signing public key"@,
        ShieldError::DecodeSignature => "failed to decode manifest signature"@,
        ShieldError::ParseSignature => "failed to parse manifest signature"@,
        ShieldError::SignatureMismatch => "manifest signature verification failed"@,
        ShieldError::DecodeSecretKey => "failed to decode signing secret key"@,
        ShieldError::SecretKeyLength => "signing secret key length mismatch"@,
        ShieldError::WorkspaceNotFound(name) => "workspace "@ + name@ + " not found"@,
        ShieldError::NoCurrentWorkspace => "no current workspace configured; run `shield init` first"@,
        ShieldError::DeviceNotInitialized => "device not initialized; run `shield login` first"@,
        ShieldError::DecodeCacheKey => "failed to decode local cache key"@,
        ShieldError::CacheKeyLength => "local cache key length mismatch"@,
        ShieldError::WorkspaceNotInLocalState(id) => "workspace "@ + id@ + " not found in local state"@,
        ShieldError::DecodeCacheNonce => "failed to decode local cache nonce"@,
        ShieldError::DecodeCacheCiphertext => "failed to decode local cache ciphertext"@,
        ShieldError::DecryptCache => "failed to decrypt local cache"@,
        ShieldError::DecodeCachePayload => "failed to decode local cache payload"@,
        ShieldError::EncodeCachePayload => "failed to encode local cache payload"@,
        ShieldError::EncryptCache => "failed to encrypt local cache"@,
        ShieldError::NotLoggedIn => "not logged in; run `shield login` first"@,
        ShieldError::MissingRegistryEntry(id) => "local device registry is missing "@ + id@,
        ShieldError::UnknownSnapshotSigner => "snapshot signer is unknown in local state"@,
        ShieldError::NoSecrets(env) => "no secrets found for environment "@ + env@,
        ShieldError::AuthExpired => "device auth flow expired"@,
        ShieldError::NoCommand => "no command provided"@,
    }
}

impl ShieldError {
    /// The message that describes this error to a user.
    pub fn message(&self) -> (m: String)
        ensures
            m@ == message_text(*self),
    {
        match self {
            ShieldError::EncryptSecret(name) => prefixed("failed to encrypt secret ", name),
            ShieldError::AgeKey(reason) => text(reason.as_str()),
            ShieldError::EncryptDataKey => text("failed to encrypt data key"),
            ShieldError::UnknownSigner(id) => around(
                "unknown device ",
                id,
                " for snapshot verification",
            ),
            ShieldError::NoKeyEnvelope => text("no key envelope found for current device"),
            ShieldError::DecodeDataKey => text("failed to decode encrypted data key"),
            ShieldError::UnwrapDataKey => text("failed to unwrap data key"),
            ShieldError::DataKeyLength => text("unexpected data key length"),
            ShieldError::AadMismatch(name) => prefixed("aad hash mismatch for ", name),
            ShieldError::DecodeNonce => text("failed to decode secret nonce"),
            ShieldError::DecodeCiphertext => text("failed to decode secret ciphertext"),
            ShieldError::DecryptSecret(name) => prefixed("failed to decrypt ", name),
            ShieldError::ChecksumMismatch(name) => prefixed("value checksum mismatch for ", name),
            ShieldError::InvalidUtf8 => text("secret payload was not valid UTF-8"),
            ShieldError::DecodePublicKey => text("failed to decode signing public key"),
            ShieldError::PublicKeyLength => text("signing public key length mismatch"),
            ShieldError::ParsePublicKey => text("failed to parse signing public key"),
            ShieldError::DecodeSignature => text("failed to decode manifest signature"),
            ShieldError::ParseSignature => text("failed to parse manifest signature"),
            ShieldError::SignatureMismatch => text("manifest signature verification failed"),
            ShieldError::DecodeSecretKey => text("failed to decode signing secret key"),
            ShieldError::SecretKeyLength => text("signing secret key length mismatch"),
            ShieldError::WorkspaceNotFound(name) => around("workspace ", name, " not found"),
            ShieldError::NoCurrentWorkspace => text(
                "no current workspace configured; run `shield init` first",
            ),
            ShieldError::DeviceNotInitialized => text(
                "device not initialized; run `shield login` first",
            ),
            ShieldError::DecodeCacheKey => text("failed to decode local cache key"),
            ShieldError::CacheKeyLength => text("local cache key length mismatch"),
            ShieldError::WorkspaceNotInLocalState(id) => around(
                "workspace ",
                id,
                " not found in local state",
            ),
            ShieldError::DecodeCacheNonce => text("failed to decode local cache nonce"),
            ShieldError::DecodeCacheCiphertext => text("failed to decode local cache ciphertext"),
            ShieldError::DecryptCache => text("failed to decrypt local cache"),
            ShieldError::DecodeCachePayload => text("failed to decode local cache payload"),
            ShieldError::EncodeCachePayload => text("failed to encode local cache payload"),
            ShieldError::EncryptCache => text("failed to encrypt local cache"),
            ShieldError::NotLoggedIn => text("not logged in; run `shield login` first"),
            ShieldError::MissingRegistryEntry(id) => prefixed("local device registry is missing ", id),
            ShieldError::UnknownSnapshotSigner => text("snapshot signer is unknown in local state"),
            ShieldError::NoSecrets(env) => prefixed("no secrets found for environment ", env),
            ShieldError::AuthExpired => text("device auth flow expired"),
            ShieldError::NoCommand => text("no command provided"),
        }
    }
}

} // verus!
