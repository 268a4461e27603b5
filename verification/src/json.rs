//! The compact JSON text of the values the library signs and stores.
//!
//! Strings are written as `serde_json` writes them: the UTF-8 bytes of the text
//! between double quotes, with `"` and `\` escaped by a backslash, the control
//! characters with a short form (`\b`, `\t`, `\n`, `\f`, `\r`) escaped that way,
//! the other control characters as `\u00XX` with lowercase hex digits, and every
//! other byte written as it is.
use vstd::prelude::*;
use vstd::utf8::encode_utf8;
use crate::api::{KeyEnvelope, SecretItem};

verus! {

/// The ASCII code of the lowercase hexadecimal digit for a value below 16.
pub open spec fn hex_digit_byte(n: u8) -> u8 {
    if n < 10 {
        (48 + n) as u8
    } else {
        (87 + n) as u8
    }
}

/// How one byte of a string's UTF-8 encoding is written inside a JSON string.
pub open spec fn escape_byte(b: u8) -> Seq<u8> {
    if b == 0x22 {
        seq![0x5cu8, 0x22u8]
    } else if b == 0x5c {
        seq![0x5cu8, 0x5cu8]
    } else if b == 0x08 {
        seq![0x5cu8, 0x62u8]
    } else if b == 0x09 {
        seq![0x5cu8, 0x74u8]
    } else if b == 0x0a {
        seq![0x5cu8, 0x6eu8]
    } else if b == 0x0c {
        seq![0x5cu8, 0x66u8]
    } else if b == 0x0d {
        seq![0x5cu8, 0x72u8]
    } else if b < 0x20 {
        seq![0x5cu8, 0x75u8, 0x30u8, 0x30u8, hex_digit_byte(b / 16), hex_digit_byte(b % 16)]
    } else {
        seq![b]
    }
}

/// The escaped form of a byte string.
pub open spec fn escaped(bytes: Seq<u8>) -> Seq<u8>
    decreases bytes.len(),
{
    if bytes.len() == 0 {
        Seq::empty()
    } else {
        escaped(bytes.drop_last()) + escape_byte(bytes.last())
    }
}

/// A text written as a JSON string, quotes included.
pub open spec fn json_string(s: Seq<char>) -> Seq<u8> {
    seq![0x22u8] + escaped(encode_utf8(s)) + seq![0x22u8]
}

/// The parts joined by commas.
pub open spec fn comma_joined(parts: Seq<Seq<u8>>) -> Seq<u8>
    decreases parts.len(),
{
    if parts.len() == 0 {
        Seq::empty()
    } else if parts.len() == 1 {
        parts[0]
    } else {
        comma_joined(parts.drop_last()) + seq![0x2cu8] + parts.last()
    }
}

/// A JSON object whose members are the given `"name":value` texts.
pub open spec fn json_object(members: Seq<Seq<u8>>) -> Seq<u8> {
    seq![0x7bu8] + comma_joined(members) + seq![0x7du8]
}

/// A JSON array of the given element texts.
pub open spec fn json_array(items: Seq<Seq<u8>>) -> Seq<u8> {
    seq![0x5bu8] + comma_joined(items) + seq![0x5du8]
}

/// One `"name":value` member.
pub open spec fn json_member(name: Seq<char>, value: Seq<u8>) -> Seq<u8> {
    json_string(name) + seq![0x3au8] + value
}

/// The JSON object of a map of strings given by its members in order.
pub open spec fn json_string_map(pairs: Seq<(Seq<char>, Seq<char>)>) -> Seq<u8> {
    json_object(pairs.map_values(|p: (Seq<char>, Seq<char>)| json_member(p.0, json_string(p.1))))
}

/// A key envelope as it appears in a signed manifest.
pub open spec fn envelope_json(e: KeyEnvelope) -> Seq<u8> {
    json_object(
        seq![
            json_member("deviceId"@, json_string(e.device_id@)),
            json_member("recipient"@, json_string(e.recipient@)),
            json_member("encryptedKey"@, json_string(e.encrypted_key@)),
        ],
    )
}

/// A secret item as it appears in a signed manifest.
pub open spec fn secret_json(s: SecretItem) -> Seq<u8> {
    json_object(
        seq![
            json_member("name"@, json_string(s.name@)),
            json_member("ciphertext"@, json_string(s.ciphertext@)),
            json_member("nonce"@, json_string(s.nonce@)),
            json_member("aadHash"@, json_string(s.aad_hash@)),
            json_member("valueChecksum"@, json_string(s.value_checksum@)),
        ],
    )
}

/// The signed manifest of a snapshot: the bytes over which its signature is made.
pub open spec fn manifest_json(
    workspace_id: Seq<char>,
    environment: Seq<char>,
    created_by_device: Seq<char>,
    key_envelopes: Seq<KeyEnvelope>,
    secrets: Seq<SecretItem>,
) -> Seq<u8> {
    json_object(
        seq![
            json_member("workspace_id"@, json_string(workspace_id)),
            json_member("environment"@, json_string(environment)),
            json_member("created_by_device"@, json_string(created_by_device)),
            json_member("key_envelopes"@, json_array(key_envelopes.map_values(|e: KeyEnvelope| envelope_json(e)))),
            json_member("secrets"@, json_array(secrets.map_values(|s: SecretItem| secret_json(s)))),
        ],
    )
}

/// The associated data that binds a secret's ciphertext to its workspace,
/// environment and name: `workspace:environment:name` in UTF-8.
pub open spec fn aad_text(workspace_id: Seq<char>, environment: Seq<char>, name: Seq<char>) -> Seq<u8> {
    encode_utf8(workspace_id) + seq![0x3au8] + encode_utf8(environment) + seq![0x3au8] + encode_utf8(name)
}

proof fn lemma_comma_joined_push(parts: Seq<Seq<u8>>, item: Seq<u8>)
    ensures
        comma_joined(parts.push(item)) == if parts.len() == 0 {
            item
        } else {
            comma_joined(parts) + seq![0x2cu8] + item
        },
{
    assert(parts.push(item).drop_last() =~= parts);
    if parts.len() == 0 {
        assert(parts.push(item)[0] == item);
    }
}

proof fn lemma_encode_utf8_concat(a: Seq<char>, b: Seq<char>)
    ensures
        encode_utf8(a + b) == encode_utf8(a) + encode_utf8(b),
    decreases a.len(),
{
    if a.len() == 0 {
        assert(a + b =~= b);
    } else {
        assert((a + b).drop_first() =~= a.drop_first() + b);
        lemma_encode_utf8_concat(a.drop_first(), b);
        assert((a + b)[0] == a[0]);
        assert(encode_utf8(a + b) =~= encode_utf8(a) + encode_utf8(b));
    }
}

proof fn lemma_encode_colon()
    ensures
        encode_utf8(seq![':']) == seq![0x3au8],
{
    let c = seq![':'];
    assert(vstd::utf8::is_ascii_chars(c));
    vstd::utf8::is_ascii_chars_encode_utf8(c);
    assert(encode_utf8(c)[0] == c[0] as u8);
    assert(encode_utf8(c) =~= seq![0x3au8]);
}

/// The associated data of a secret is exactly the UTF-8 text
/// `workspace:environment:name`, each part as given.
pub proof fn law_aad_is_joined_text(workspace_id: Seq<char>, environment: Seq<char>, name: Seq<char>)
    ensures
        aad_text(workspace_id, environment, name) == encode_utf8(
            workspace_id + seq![':'] + environment + seq![':'] + name,
        ),
{
    let colon = seq![':'];
    lemma_encode_colon();
    lemma_encode_utf8_concat(workspace_id, colon);
    lemma_encode_utf8_concat(workspace_id + colon, environment);
    lemma_encode_utf8_concat(workspace_id + colon + environment, colon);
    lemma_encode_utf8_concat(workspace_id + colon + environment + colon, name);
    assert(aad_text(workspace_id, environment, name) =~= encode_utf8(
        workspace_id + colon + environment + colon + name,
    ));
}

proof fn lemma_array_tail(head: Seq<u8>, items: Seq<Seq<u8>>, item: Seq<u8>)
    ensures
        (head + json_array(items) + seq![0x7du8]).len() >= 2,
        head + json_array(items.push(item)) + seq![0x7du8] == (head + json_array(items) + seq![0x7du8]).take(
            (head + json_array(items) + seq![0x7du8]).len() - 2,
        ) + (if items.len() == 0 {
            Seq::<u8>::empty()
        } else {
            seq![0x2cu8]
        }) + item + seq![0x5du8, 0x7du8],
{
    lemma_comma_joined_push(items, item);
    let m1 = head + json_array(items) + seq![0x7du8];
    assert(m1 =~= head + seq![0x5bu8] + comma_joined(items) + seq![0x5du8, 0x7du8]);
    assert(m1.take(m1.len() - 2) =~= head + seq![0x5bu8] + comma_joined(items));
    if items.len() == 0 {
        assert(head + json_array(items.push(item)) + seq![0x7du8] =~= m1.take(m1.len() - 2) + Seq::<u8>::empty() + item
            + seq![0x5du8, 0x7du8]);
    } else {
        assert(head + json_array(items.push(item)) + seq![0x7du8] =~= m1.take(m1.len() - 2) + seq![0x2cu8] + item + seq![
            0x5du8,
            0x7du8,
        ]);
    }
}

proof fn lemma_manifest_shape(
    workspace_id: Seq<char>,
    environment: Seq<char>,
    created_by_device: Seq<char>,
    key_envelopes: Seq<KeyEnvelope>,
    secrets: Seq<SecretItem>,
)
    ensures
        manifest_json(workspace_id, environment, created_by_device, key_envelopes, secrets) == manifest_head(
            workspace_id,
            environment,
            created_by_device,
            key_envelopes,
        ) + json_array(secrets.map_values(|s: SecretItem| secret_json(s))) + seq![0x7du8],
{
    let a = json_member("workspace_id"@, json_string(workspace_id));
    let b = json_member("environment"@, json_string(environment));
    let c = json_member("created_by_device"@, json_string(created_by_device));
    let d = json_member("key_envelopes"@, json_array(key_envelopes.map_values(|e: KeyEnvelope| envelope_json(e))));
    let e = json_member("secrets"@, json_array(secrets.map_values(|s: SecretItem| secret_json(s))));
    lemma_object_of_five(a, b, c, d, e);
    assert(manifest_json(workspace_id, environment, created_by_device, key_envelopes, secrets) =~= manifest_head(
        workspace_id,
        environment,
        created_by_device,
        key_envelopes,
    ) + json_array(secrets.map_values(|s: SecretItem| secret_json(s))) + seq![0x7du8]);
}

/// The bytes of a manifest before its list of secrets.
spec fn manifest_head(
    workspace_id: Seq<char>,
    environment: Seq<char>,
    created_by_device: Seq<char>,
    key_envelopes: Seq<KeyEnvelope>,
) -> Seq<u8> {
    seq![0x7bu8] + json_member("workspace_id"@, json_string(workspace_id)) + seq![0x2cu8] + json_member(
        "environment"@,
        json_string(environment),
    ) + seq![0x2cu8] + json_member("created_by_device"@, json_string(created_by_device)) + seq![0x2cu8] + json_member(
        "key_envelopes"@,
        json_array(key_envelopes.map_values(|e: KeyEnvelope| envelope_json(e))),
    ) + seq![0x2cu8] + json_string("secrets"@) + seq![0x3au8]
}

/// Signing covers every secret item: the manifest of a list with one more
/// secret is the manifest of the list with that secret's JSON (after a comma
/// where the list was not empty) inserted before the closing `]}`.
pub proof fn law_manifest_covers_appended_secret(
    workspace_id: Seq<char>,
    environment: Seq<char>,
    created_by_device: Seq<char>,
    key_envelopes: Seq<KeyEnvelope>,
    secrets: Seq<SecretItem>,
    added: SecretItem,
)
    ensures
        manifest_json(workspace_id, environment, created_by_device, key_envelopes, secrets).len() >= 2,
        manifest_json(workspace_id, environment, created_by_device, key_envelopes, secrets.push(added)) == manifest_json(
            workspace_id,
            environment,
            created_by_device,
            key_envelopes,
            secrets,
        ).take(manifest_json(workspace_id, environment, created_by_device, key_envelopes, secrets).len() - 2) + (if secrets.len()
            == 0 {
            Seq::<u8>::empty()
        } else {
            seq![0x2cu8]
        }) + secret_json(added) + seq![0x5du8, 0x7du8],
{
    let head = manifest_head(workspace_id, environment, created_by_device, key_envelopes);
    let items = secrets.map_values(|s: SecretItem| secret_json(s));
    assert(secrets.push(added).map_values(|s: SecretItem| secret_json(s)) =~= items.push(secret_json(added)));
    lemma_manifest_shape(workspace_id, environment, created_by_device, key_envelopes, secrets);
    lemma_manifest_shape(workspace_id, environment, created_by_device, key_envelopes, secrets.push(added));
    lemma_array_tail(head, items, secret_json(added));
}

/// `part` occurs in `bytes` at position `at`.
pub open spec fn bytes_at(bytes: Seq<u8>, part: Seq<u8>, at: int) -> bool {
    0 <= at && at + part.len() <= bytes.len() && bytes.subrange(at, at + part.len()) == part
}

proof fn lemma_comma_joined_holds(parts: Seq<Seq<u8>>, i: int) -> (at: int)
    requires
        0 <= i < parts.len(),
    ensures
        bytes_at(comma_joined(parts), parts[i], at),
    decreases parts.len(),
{
    let n = parts.len();
    if n == 1 {
        assert(comma_joined(parts).subrange(0, parts[0].len() as int) =~= parts[0]);
        0
    } else {
        let rest = comma_joined(parts.drop_last());
        let whole = rest + seq![0x2cu8] + parts.last();
        assert(comma_joined(parts) == whole);
        if i == n - 1 {
            let at: int = rest.len() as int + 1;
            assert(whole.subrange(at, at + parts.last().len()) =~= parts.last());
            at
        } else {
            let at = lemma_comma_joined_holds(parts.drop_last(), i);
            assert(parts.drop_last()[i] == parts[i]);
            assert(whole.subrange(at, at + parts[i].len()) =~= rest.subrange(at, at + parts[i].len()));
            at
        }
    }
}

/// Signing covers every secret item: the JSON text of each secret of the list
/// occurs in the manifest bytes.
pub proof fn law_manifest_holds_every_secret(
    workspace_id: Seq<char>,
    environment: Seq<char>,
    created_by_device: Seq<char>,
    key_envelopes: Seq<KeyEnvelope>,
    secrets: Seq<SecretItem>,
    i: int,
) -> (at: int)
    requires
        0 <= i < secrets.len(),
    ensures
        bytes_at(
            manifest_json(workspace_id, environment, created_by_device, key_envelopes, secrets),
            secret_json(secrets[i]),
            at,
        ),
{
    let head = manifest_head(workspace_id, environment, created_by_device, key_envelopes);
    let items = secrets.map_values(|s: SecretItem| secret_json(s));
    lemma_manifest_shape(workspace_id, environment, created_by_device, key_envelopes, secrets);
    let inner = lemma_comma_joined_holds(items, i);
    let m = manifest_json(workspace_id, environment, created_by_device, key_envelopes, secrets);
    assert(m =~= head + seq![0x5bu8] + comma_joined(items) + seq![0x5du8, 0x7du8]);
    let at: int = head.len() as int + 1 + inner;
    assert(m.subrange(at, at + items[i].len()) =~= comma_joined(items).subrange(inner, inner + items[i].len()));
    at
}

/// Appends `bytes` to `out`.
pub fn push_bytes(out: &mut Vec<u8>, bytes: &[u8])
    ensures
        final(out)@ == old(out)@ + bytes@,
{
    let n = bytes.len();
    let mut i: usize = 0;
    while i < n
        invariant
            n == bytes@.len(),
            0 <= i <= n,
            out@ == old(out)@ + bytes@.take(i as int),
        decreases n - i,
    {
        out.push(bytes[i]);
        i = i + 1;
        proof {
            assert(bytes@.take(i as int) =~= bytes@.take(i - 1).push(bytes@[i - 1]));
        }
    }
    assert(bytes@.take(n as int) =~= bytes@);
}

fn hex_digit_exec(n: u8) -> (d: u8)
    requires
        n < 16,
    ensures
        d == hex_digit_byte(n),
{
    if n < 10 {
        48 + n
    } else {
        87 + n
    }
}

/// Appends the escaped form of one byte.
fn push_escaped_byte(out: &mut Vec<u8>, b: u8)
    ensures
        final(out)@ == old(out)@ + escape_byte(b),
{
    let ghost start = out@;
    if b == 0x22 {
        out.push(0x5c);
        out.push(0x22);
    } else if b == 0x5c {
        out.push(0x5c);
        out.push(0x5c);
    } else if b == 0x08 {
        out.push(0x5c);
        out.push(0x62);
    } else if b == 0x09 {
        out.push(0x5c);
        out.push(0x74);
    } else if b == 0x0a {
        out.push(0x5c);
        out.push(0x6e);
    } else if b == 0x0c {
        out.push(0x5c);
        out.push(0x66);
    } else if b == 0x0d {
        out.push(0x5c);
        out.push(0x72);
    } else if b < 0x20 {
        out.push(0x5c);
        out.push(0x75);
        out.push(0x30);
        out.push(0x30);
        out.push(hex_digit_exec(b / 16));
        out.push(hex_digit_exec(b % 16));
    } else {
        out.push(b);
    }
    assert(out@ =~= start + escape_byte(b));
}

/// Appends a text written as a JSON string.
pub fn push_json_string(out: &mut Vec<u8>, s: &str)
    ensures
        final(out)@ == old(out)@ + json_string(s@),
{
    let bytes = s.as_bytes();
    let ghost start = out@;
    out.push(0x22);
    let n = bytes.len();
    let mut i: usize = 0;
    while i < n
        invariant
            n == bytes@.len(),
            0 <= i <= n,
            out@ == start + seq![0x22u8] + escaped(bytes@.take(i as int)),
        decreases n - i,
    {
        let ghost before = out@;
        push_escaped_byte(out, bytes[i]);
        proof {
            let t = bytes@.take(i + 1);
            assert(t.drop_last() =~= bytes@.take(i as int));
            assert(t.last() == bytes@[i as int]);
            assert(escaped(t) == escaped(bytes@.take(i as int)) + escape_byte(bytes@[i as int]));
            assert(out@ =~= start + seq![0x22u8] + escaped(t));
        }
        i = i + 1;
    }
    out.push(0x22);
    proof {
        assert(bytes@.take(n as int) =~= bytes@);
        assert(out@ =~= start + json_string(s@));
    }
}

/// Appends a `"name":` prefix of a member.
fn push_member_name(out: &mut Vec<u8>, name: &str)
    ensures
        final(out)@ == old(out)@ + json_string(name@) + seq![0x3au8],
{
    push_json_string(out, name);
    out.push(0x3a);
}

/// Appends a `"name":"value"` member.
fn push_string_member(out: &mut Vec<u8>, name: &str, value: &str)
    ensures
        final(out)@ == old(out)@ + json_member(name@, json_string(value@)),
{
    let ghost start = out@;
    push_member_name(out, name);
    push_json_string(out, value);
    assert(out@ =~= start + json_member(name@, json_string(value@)));
}

proof fn lemma_object_of_three(a: Seq<u8>, b: Seq<u8>, c: Seq<u8>)
    ensures
        json_object(seq![a, b, c]) == seq![0x7bu8] + a + seq![0x2cu8] + b + seq![0x2cu8] + c
            + seq![0x7du8],
{
    lemma_comma_joined_push(seq![a], b);
    lemma_comma_joined_push(seq![a, b], c);
    assert(seq![a].push(b) =~= seq![a, b]);
    assert(seq![a, b].push(c) =~= seq![a, b, c]);
    lemma_comma_joined_push(Seq::<Seq<u8>>::empty(), a);
    assert(Seq::<Seq<u8>>::empty().push(a) =~= seq![a]);
    assert(json_object(seq![a, b, c]) =~= seq![0x7bu8] + a + seq![0x2cu8] + b + seq![0x2cu8] + c
        + seq![0x7du8]);
}

proof fn lemma_object_of_five(a: Seq<u8>, b: Seq<u8>, c: Seq<u8>, d: Seq<u8>, e: Seq<u8>)
    ensures
        json_object(seq![a, b, c, d, e]) == seq![0x7bu8] + a + seq![0x2cu8] + b + seq![0x2cu8] + c
            + seq![0x2cu8] + d + seq![0x2cu8] + e + seq![0x7du8],
{
    lemma_comma_joined_push(Seq::<Seq<u8>>::empty(), a);
    assert(Seq::<Seq<u8>>::empty().push(a) =~= seq![a]);
    lemma_comma_joined_push(seq![a], b);
    assert(seq![a].push(b) =~= seq![a, b]);
    lemma_comma_joined_push(seq![a, b], c);
    assert(seq![a, b].push(c) =~= seq![a, b, c]);
    lemma_comma_joined_push(seq![a, b, c], d);
    assert(seq![a, b, c].push(d) =~= seq![a, b, c, d]);
    lemma_comma_joined_push(seq![a, b, c, d], e);
    assert(seq![a, b, c, d].push(e) =~= seq![a, b, c, d, e]);
    assert(json_object(seq![a, b, c, d, e]) =~= seq![0x7bu8] + a + seq![0x2cu8] + b + seq![0x2cu8]
        + c + seq![0x2cu8] + d + seq![0x2cu8] + e + seq![0x7du8]);
}

/// Appends a key envelope as a JSON object.
fn push_envelope(out: &mut Vec<u8>, e: &KeyEnvelope)
    ensures
        final(out)@ == old(out)@ + envelope_json(*e),
{
    let ghost start = out@;
    out.push(0x7b);
    push_string_member(out, "deviceId", e.device_id.as_str());
    out.push(0x2c);
    push_string_member(out, "recipient", e.recipient.as_str());
    out.push(0x2c);
    push_string_member(out, "encryptedKey", e.encrypted_key.as_str());
    out.push(0x7d);
    proof {
        lemma_object_of_three(
            json_member("deviceId"@, json_string(e.device_id@)),
            json_member("recipient"@, json_string(e.recipient@)),
            json_member("encryptedKey"@, json_string(e.encrypted_key@)),
        );
        assert(out@ =~= start + envelope_json(*e));
    }
}

/// Appends a secret item as a JSON object.
fn push_secret(out: &mut Vec<u8>, s: &SecretItem)
    ensures
        final(out)@ == old(out)@ + secret_json(*s),
{
    let ghost start = out@;
    out.push(0x7b);
    push_string_member(out, "name", s.name.as_str());
    out.push(0x2c);
    push_string_member(out, "ciphertext", s.ciphertext.as_str());
    out.push(0x2c);
    push_string_member(out, "nonce", s.nonce.as_str());
    out.push(0x2c);
    push_string_member(out, "aadHash", s.aad_hash.as_str());
    out.push(0x2c);
    push_string_member(out, "valueChecksum", s.value_checksum.as_str());
    out.push(0x7d);
    proof {
        lemma_object_of_five(
            json_member("name"@, json_string(s.name@)),
            json_member("ciphertext"@, json_string(s.ciphertext@)),
            json_member("nonce"@, json_string(s.nonce@)),
            json_member("aadHash"@, json_string(s.aad_hash@)),
            json_member("valueChecksum"@, json_string(s.value_checksum@)),
        );
        assert(out@ =~= start + secret_json(*s));
    }
}

/// Appends the key envelopes as a JSON array.
fn push_envelope_array(out: &mut Vec<u8>, items: &[KeyEnvelope])
    ensures
        final(out)@ == old(out)@ + json_array(items@.map_values(|e: KeyEnvelope| envelope_json(e))),
{
    let ghost start = out@;
    let ghost parts = items@.map_values(|e: KeyEnvelope| envelope_json(e));
    out.push(0x5b);
    let n = items.len();
    let mut i: usize = 0;
    while i < n
        invariant
            n == items@.len(),
            parts == items@.map_values(|e: KeyEnvelope| envelope_json(e)),
            0 <= i <= n,
            out@ == start + seq![0x5bu8] + comma_joined(parts.take(i as int)),
        decreases n - i,
    {
        if i > 0 {
            out.push(0x2c);
        }
        push_envelope(out, &items[i]);
        proof {
            assert(parts.take(i + 1) =~= parts.take(i as int).push(parts[i as int]));
            lemma_comma_joined_push(parts.take(i as int), parts[i as int]);
            assert(out@ =~= start + seq![0x5bu8] + comma_joined(parts.take(i + 1)));
        }
        i = i + 1;
    }
    out.push(0x5d);
    proof {
        assert(parts.take(n as int) =~= parts);
        assert(out@ =~= start + json_array(parts));
    }
}

/// Appends the secret items as a JSON array.
fn push_secret_array(out: &mut Vec<u8>, items: &[SecretItem])
    ensures
        final(out)@ == old(out)@ + json_array(items@.map_values(|s: SecretItem| secret_json(s))),
{
    let ghost start = out@;
    let ghost parts = items@.map_values(|s: SecretItem| secret_json(s));
    out.push(0x5b);
    let n = items.len();
    let mut i: usize = 0;
    while i < n
        invariant
            n == items@.len(),
            parts == items@.map_values(|s: SecretItem| secret_json(s)),
            0 <= i <= n,
            out@ == start + seq![0x5bu8] + comma_joined(parts.take(i as int)),
        decreases n - i,
    {
        if i > 0 {
            out.push(0x2c);
        }
        push_secret(out, &items[i]);
        proof {
            assert(parts.take(i + 1) =~= parts.take(i as int).push(parts[i as int]));
            lemma_comma_joined_push(parts.take(i as int), parts[i as int]);
            assert(out@ =~= start + seq![0x5bu8] + comma_joined(parts.take(i + 1)));
        }
        i = i + 1;
    }
    out.push(0x5d);
    proof {
        assert(parts.take(n as int) =~= parts);
        assert(out@ =~= start + json_array(parts));
    }
}

/// The manifest bytes of a snapshot, the JSON object of its workspace, environment,
/// signing device, key envelopes and secrets, over which the snapshot is signed.
pub fn manifest_payload(
    workspace_id: &str,
    environment: &str,
    created_by_device: &str,
    key_envelopes: &[KeyEnvelope],
    secrets: &[SecretItem],
) -> (out: Vec<u8>)
    ensures
        out@ == manifest_json(workspace_id@, environment@, created_by_device@, key_envelopes@, secrets@),
{
    let mut out: Vec<u8> = Vec::new();
    out.push(0x7b);
    push_string_member(&mut out, "workspace_id", workspace_id);
    out.push(0x2c);
    push_string_member(&mut out, "environment", environment);
    out.push(0x2c);
    push_string_member(&mut out, "created_by_device", created_by_device);
    out.push(0x2c);
    push_member_name(&mut out, "key_envelopes");
    push_envelope_array(&mut out, key_envelopes);
    out.push(0x2c);
    push_member_name(&mut out, "secrets");
    push_secret_array(&mut out, secrets);
    out.push(0x7d);
    proof {
        let envs = json_array(key_envelopes@.map_values(|e: KeyEnvelope| envelope_json(e)));
        let secs = json_array(secrets@.map_values(|s: SecretItem| secret_json(s)));
        lemma_object_of_five(
            json_member("workspace_id"@, json_string(workspace_id@)),
            json_member("environment"@, json_string(environment@)),
            json_member("created_by_device"@, json_string(created_by_device@)),
            json_member("key_envelopes"@, envs),
            json_member("secrets"@, secs),
        );
        assert(out@ =~= manifest_json(
            workspace_id@,
            environment@,
            created_by_device@,
            key_envelopes@,
            secrets@,
        ));
    }
    out
}

/// `workspace:environment:name` in UTF-8, the associated data of a secret.
pub fn aad_bytes(workspace_id: &str, environment: &str, name: &str) -> (out: Vec<u8>)
    ensures
        out@ == aad_text(workspace_id@, environment@, name@),
{
    let mut out: Vec<u8> = Vec::new();
    push_bytes(&mut out, workspace_id.as_bytes());
    out.push(0x3a);
    push_bytes(&mut out, environment.as_bytes());
    out.push(0x3a);
    push_bytes(&mut out, name.as_bytes());
    assert(out@ =~= aad_text(workspace_id@, environment@, name@));
    out
}

} // verus!
