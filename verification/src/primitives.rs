//! The cryptographic primitives the library builds on, each reached through the
//! crate that implements it: the operating system's random source, SHA-256,
//! XChaCha20-Poly1305, Ed25519, age's X25519 recipients, and the Bech32 and
//! X25519 functions that tell which recipients age can encrypt to.
use vstd::prelude::*;
use rand::RngCore;
use sha2::Digest;
use chacha20poly1305::aead::{Aead, KeyInit};
use ed25519_dalek::{Signer, Verifier};
use age::secrecy::ExposeSecret;

verus! {

/// Calls `RngCore::fill_bytes` of `rand::rngs::OsRng`. The bytes are random; the
/// contract only claims that the buffer keeps its length.
#[verifier::external_body]
pub(crate) fn fill_random(buf: &mut Vec<u8>)
    ensures
        final(buf)@.len() == old(buf)@.len(),
{
    rand::rngs::OsRng.fill_bytes(buf.as_mut_slice());
}

/// The SHA-256 digest of `data`.
pub uninterp spec fn sha256_digest(data: Seq<u8>) -> Seq<u8>;

/// Calls `sha2::Sha256::digest`. The contract claims the result is the named
/// digest, 32 bytes long.
#[verifier::external_body]
pub(crate) fn sha256(data: &[u8]) -> (digest: Vec<u8>)
    ensures
        digest@ == sha256_digest(data@),
        digest@.len() == 32,
{
    sha2::Sha256::digest(data).to_vec()
}

/// The XChaCha20-Poly1305 ciphertext (tag appended) of `plaintext` under
/// `key`, `nonce` and associated data `aad`.
pub uninterp spec fn xchacha_sealed(key: Seq<u8>, nonce: Seq<u8>, aad: Seq<u8>, plaintext: Seq<u8>) -> Seq<u8>;

/// What XChaCha20-Poly1305 decryption of `ciphertext` under `key`, `nonce` and
/// `aad` gives; `None` where authentication fails.
pub uninterp spec fn xchacha_opened(key: Seq<u8>, nonce: Seq<u8>, aad: Seq<u8>, ciphertext: Seq<u8>) -> Option<Seq<u8>>;

/// Calls `Aead::encrypt` of `chacha20poly1305::XChaCha20Poly1305` with a payload
/// of `plaintext` and `aad`. The contract claims that a ciphertext is the named
/// one, the plaintext followed by a 16-byte tag, that decrypting it with the same key, nonce and associated data gives
/// the plaintext back, and that encryption fails only where the crate's guard
/// refuses the plaintext: when it spans `u32::MAX` or more 64-byte blocks.
#[verifier::external_body]
pub(crate) fn xchacha_seal(key: &[u8; 32], nonce: &[u8], aad: &[u8], plaintext: &[u8]) -> (ciphertext: Option<Vec<u8>>)
    requires
        nonce@.len() == 24,
    ensures
        plaintext@.len() / 64 < 4294967295 ==> ciphertext is Some,
        ciphertext matches Some(c) ==> c@ == xchacha_sealed(key@, nonce@, aad@, plaintext@)
            && c@.len() == plaintext@.len() + 16 && xchacha_opened(key@, nonce@, aad@, c@) == Some(plaintext@),
{
    chacha20poly1305::XChaCha20Poly1305::new(chacha20poly1305::Key::from_slice(key))
        .encrypt(chacha20poly1305::XNonce::from_slice(nonce), chacha20poly1305::aead::Payload { msg: plaintext, aad })
        .ok()
}

/// Calls `Aead::decrypt` of `chacha20poly1305::XChaCha20Poly1305` with a payload
/// of `ciphertext` and `aad`. The contract claims the result is the named
/// decryption, `None` exactly where the crate reports an error.
#[verifier::external_body]
pub(crate) fn xchacha_open(key: &[u8; 32], nonce: &[u8], aad: &[u8], ciphertext: &[u8]) -> (plaintext: Option<Vec<u8>>)
    requires
        nonce@.len() == 24,
    ensures
        match plaintext {
            Some(p) => xchacha_opened(key@, nonce@, aad@, ciphertext@) == Some(p@),
            None => xchacha_opened(key@, nonce@, aad@, ciphertext@) is None,
        },
{
    chacha20poly1305::XChaCha20Poly1305::new(chacha20poly1305::Key::from_slice(key))
        .decrypt(chacha20poly1305::XNonce::from_slice(nonce), chacha20poly1305::aead::Payload { msg: ciphertext, aad })
        .ok()
}

/// The Ed25519 public key of the 32-byte secret key `secret`.
pub uninterp spec fn ed25519_public(secret: Seq<u8>) -> Seq<u8>;

/// The Ed25519 signature of `message` under the 32-byte secret key `secret`.
pub uninterp spec fn ed25519_signature(secret: Seq<u8>, message: Seq<u8>) -> Seq<u8>;

/// Whether the 32 bytes `public` decompress to a point (accepted by `VerifyingKey::from_bytes`).
pub uninterp spec fn ed25519_key_valid(public: Seq<u8>) -> bool;

/// Whether `signature` is a valid Ed25519 signature of `message` under `public`.
pub uninterp spec fn ed25519_verifies(public: Seq<u8>, message: Seq<u8>, signature: Seq<u8>) -> bool;

/// Calls `ed25519_dalek::SigningKey::generate` with `OsRng` and returns the
/// secret key's bytes. The key is random; the contract claims nothing about it.
#[verifier::external_body]
pub(crate) fn ed25519_generate_secret() -> (secret: [u8; 32]) {
    ed25519_dalek::SigningKey::generate(&mut rand::rngs::OsRng).to_bytes()
}

/// Calls `SigningKey::verifying_key` on the signing key with the given bytes and
/// returns the public key's bytes. The contract claims the result is the named
/// public key, and that it is a valid point.
#[verifier::external_body]
pub(crate) fn ed25519_public_key(secret: &[u8; 32]) -> (public: [u8; 32])
    ensures
        public@ == ed25519_public(secret@),
        ed25519_key_valid(public@),
{
    ed25519_dalek::SigningKey::from_bytes(secret).verifying_key().to_bytes()
}

/// Calls `Signer::sign` of the signing key with the given bytes and returns the
/// signature's bytes. The contract claims the result is the named signature and
/// that it verifies under the key's public key.
#[verifier::external_body]
pub(crate) fn ed25519_sign(secret: &[u8; 32], message: &[u8]) -> (signature: [u8; 64])
    ensures
        signature@ == ed25519_signature(secret@, message@),
        ed25519_verifies(ed25519_public(secret@), message@, signature@),
{
    ed25519_dalek::SigningKey::from_bytes(secret).sign(message).to_bytes()
}

/// Calls `ed25519_dalek::VerifyingKey::from_bytes` and reports whether it
/// accepts the bytes; the contract claims that is the named validity.
#[verifier::external_body]
pub(crate) fn ed25519_check_public_key(public: &[u8; 32]) -> (valid: bool)
    ensures
        valid == ed25519_key_valid(public@),
{
    ed25519_dalek::VerifyingKey::from_bytes(public).is_ok()
}

/// Calls `ed25519_dalek::Signature::from_slice`, which accepts exactly the
/// 64-byte slices, and returns the signature's bytes; the contract states that.
#[verifier::external_body]
pub(crate) fn ed25519_signature_from_slice(bytes: &[u8]) -> (signature: Option<[u8; 64]>)
    ensures
        signature is Some <==> bytes@.len() == 64,
        signature matches Some(s) ==> s@ == bytes@,
{
    ed25519_dalek::Signature::from_slice(bytes).ok().map(|s| s.to_bytes())
}

/// Calls `Verifier::verify` of the verifying key with the given bytes. The
/// contract claims the result is the named validity of the signature.
#[verifier::external_body]
pub(crate) fn ed25519_verify(public: &[u8; 32], message: &[u8], signature: &[u8; 64]) -> (valid: bool)
    requires
        ed25519_key_valid(public@),
    ensures
        valid == ed25519_verifies(public@, message@, signature@),
{
    match ed25519_dalek::VerifyingKey::from_bytes(public) {
        Ok(key) => key.verify(message, &ed25519_dalek::Signature::from_bytes(signature)).is_ok(),
        Err(_) => false,
    }
}

/// Whether `text` parses as an age X25519 identity.
pub uninterp spec fn age_identity_parses(text: Seq<char>) -> bool;

/// Whether `text` parses as an age X25519 recipient.
pub uninterp spec fn age_recipient_parses(text: Seq<char>) -> bool;

/// The text of the recipient of the age identity written as `identity`.
pub uninterp spec fn age_recipient_of(identity: Seq<char>) -> Seq<char>;

/// What `age::decrypt` gives for `ciphertext` with the identity written as
/// `identity`; `None` where it reports an error.
pub uninterp spec fn age_opened(identity: Seq<char>, ciphertext: Seq<u8>) -> Option<Seq<u8>>;

/// Why an age operation failed.
#[derive(Debug)]
pub enum AgeFailure {
    /// The key text did not parse; the parser's message.
    Key(String),
    /// Encryption or decryption failed.
    Crypto,
}

/// Calls `age::x25519::Identity::generate` and returns the identity's text and
/// the text of its recipient (`to_public`). The key is random; the contract
/// claims that both texts parse, that the second is the recipient of the first,
/// and that age can encrypt to it: the recipient is the base point times a
/// clamped scalar, a point of the prime-order subgroup, never of small order.
#[verifier::external_body]
pub(crate) fn age_generate() -> (keys: (String, String))
    ensures
        age_identity_parses(keys.0@),
        age_recipient_parses(keys.1@),
        keys.1@ == age_recipient_of(keys.0@),
        age_recipient_usable(keys.1@),
{
    let identity = age::x25519::Identity::generate();
    (identity.to_string().expose_secret().to_owned(), identity.to_public().to_string())
}

/// What `bech32::decode` gives for `text`, with its data turned into bytes by
/// `FromBase32`: the human-readable part (in lowercase), whether the checksum is
/// of the original Bech32 variant, and the bytes; `None` where either step
/// reports an error.
pub uninterp spec fn bech32_decoded(text: Seq<char>) -> Option<(Seq<char>, bool, Seq<u8>)>;

/// Calls `bech32::decode` and `FromBase32::from_base32` on its data. The
/// contract claims the result is the named decoding.
#[verifier::external_body]
pub(crate) fn bech32_decode(text: &str) -> (r: Option<(String, bool, Vec<u8>)>)
    ensures
        match r {
            Some((hrp, bech32, bytes)) => bech32_decoded(text@) == Some((hrp@, bech32, bytes@)),
            None => bech32_decoded(text@) is None,
        },
{
    let (hrp, data, variant) = match bech32::decode(text) {
        Ok(d) => d,
        Err(_) => return None,
    };
    let bytes: Vec<u8> = match bech32::FromBase32::from_base32(&data) {
        Ok(b) => b,
        Err(_) => return None,
    };
    Some((hrp, matches!(variant, bech32::Variant::Bech32), bytes))
}

/// The X25519 function of RFC 7748 on the scalar `k` (clamped) and the
/// u-coordinate `u`.
pub uninterp spec fn x25519_shared(k: Seq<u8>, u: Seq<u8>) -> Seq<u8>;

/// Calls `x25519_dalek::x25519`. The contract claims the result is the named
/// X25519 output.
#[verifier::external_body]
pub(crate) fn x25519(k: &[u8; 32], u: &[u8; 32]) -> (shared: [u8; 32])
    ensures
        shared@ == x25519_shared(k@, u@),
{
    x25519_dalek::x25519(*k, *u)
}

/// The key an age X25519 recipient text carries, read as age's parser reads it:
/// a Bech32 text with the human-readable part `age` and 32 bytes of data.
pub open spec fn age_recipient_key(text: Seq<char>) -> Option<Seq<u8>> {
    match bech32_decoded(text) {
        Some((hrp, bech32, bytes)) => if hrp == "age"@ && bech32 && bytes.len() == 32 {
            Some(bytes)
        } else {
            None
        },
        None => None,
    }
}

/// The scalar with which a point is tried. X25519 clamps every scalar to a
/// multiple of the cofactor that is smaller than the order of either prime
/// subgroup, so every scalar gives the all-zero output for the same points:
/// those of small order.
pub open spec fn probe_scalar() -> Seq<u8> {
    Seq::new(32, |i: int| 1u8)
}

/// The 32 zero bytes.
pub open spec fn zero_bytes() -> Seq<u8> {
    Seq::new(32, |i: int| 0u8)
}

/// The X25519 point `u` is not of small order: X25519 with it does not give the
/// all-zero output.
pub open spec fn x25519_contributory(u: Seq<u8>) -> bool {
    x25519_shared(probe_scalar(), u) != zero_bytes()
}

/// age can encrypt to the recipient text: where it parses, its key is not of
/// small order.
pub open spec fn age_recipient_usable(text: Seq<char>) -> bool {
    age_recipient_key(text) matches Some(u) ==> x25519_contributory(u)
}

/// Calls `age::encrypt` to the X25519 recipient parsed from `recipient`. The
/// output is randomized. age panics when the shared secret with the recipient's
/// key is all zeros, which happens exactly for keys of small order; `requires`
/// leaves those out. The contract claims that the text parses exactly where
/// `age_recipient_key` reads a key from it, that a key error happens exactly when
/// it does not parse and no other error happens (age reports none for an X25519
/// recipient and an in-memory output), and that any identity whose recipient is
/// this text decrypts the output to `plaintext`.
#[verifier::external_body]
pub(crate) fn age_encrypt(recipient: &str, plaintext: &[u8]) -> (ciphertext: Result<Vec<u8>, AgeFailure>)
    requires
        age_recipient_usable(recipient@),
    ensures
        (ciphertext matches Err(AgeFailure::Key(_))) <==> !age_recipient_parses(recipient@),
        (ciphertext matches Err(AgeFailure::Key(_))) <==> age_recipient_key(recipient@) is None,
        ciphertext is Err ==> (ciphertext matches Err(AgeFailure::Key(_))),
        ciphertext matches Ok(c) ==> forall|identity: Seq<char>|
            age_identity_parses(identity) && age_recipient_of(identity) == recipient@ ==> #[trigger] age_opened(
                identity,
                c@,
            ) == Some(plaintext@),
{
    let parsed: age::x25519::Recipient = match recipient.parse() {
        Ok(r) => r,
        Err(message) => return Err(AgeFailure::Key(String::from(message))),
    };
    age::encrypt(&parsed, plaintext).map_err(|_| AgeFailure::Crypto)
}

/// Calls `age::decrypt` with the X25519 identity parsed from `identity`. The
/// contract claims that a key error happens exactly when the text does not parse,
/// and that otherwise the result is the named decryption.
#[verifier::external_body]
pub(crate) fn age_decrypt(identity: &str, ciphertext: &[u8]) -> (plaintext: Result<Vec<u8>, AgeFailure>)
    ensures
        (plaintext matches Err(AgeFailure::Key(_))) <==> !age_identity_parses(identity@),
        age_identity_parses(identity@) ==> match plaintext {
            Ok(p) => age_opened(identity@, ciphertext@) == Some(p@),
            Err(_) => age_opened(identity@, ciphertext@) is None,
        },
{
    let parsed: age::x25519::Identity = match identity.parse() {
        Ok(i) => i,
        Err(message) => return Err(AgeFailure::Key(String::from(message))),
    };
    age::decrypt(&parsed, ciphertext).map_err(|_| AgeFailure::Crypto)
}

} // verus!
