//! Text encodings the library relies on: base64, lowercase hex, UTF-8 and the
//! JSON form of a string map, each reached through the crate that implements it.
use vstd::prelude::*;
use vstd::utf8::{decode_utf8, encode_utf8, valid_utf8};
use base64::Engine;
use zeroize::Zeroize;
use crate::sorted_map::ascending;
use crate::json::json_string_map;

verus! {

/// The character of the standard base64 alphabet for a value below 64.
pub open spec fn base64_digit(n: int) -> char {
    if n < 26 {
        (65 + n) as char
    } else if n < 52 {
        (71 + n) as char
    } else if n < 62 {
        (n - 4) as char
    } else if n == 62 {
        '+'
    } else {
        '/'
    }
}

/// The text that standard padded base64 (`base64::engine::general_purpose::STANDARD`)
/// gives for `bytes`: each group of three bytes as four characters of six bits
/// each, high bits first, and a last group of one or two bytes padded with `=`.
pub open spec fn base64_text(bytes: Seq<u8>) -> Seq<char>
    decreases bytes.len(),
{
    if bytes.len() == 0 {
        Seq::empty()
    } else if bytes.len() == 1 {
        seq![base64_digit(bytes[0] as int / 4), base64_digit((bytes[0] as int % 4) * 16), '=', '=']
    } else if bytes.len() == 2 {
        seq![
            base64_digit(bytes[0] as int / 4),
            base64_digit((bytes[0] as int % 4) * 16 + bytes[1] as int / 16),
            base64_digit((bytes[1] as int % 16) * 4),
            '=',
        ]
    } else {
        seq![
            base64_digit(bytes[0] as int / 4),
            base64_digit((bytes[0] as int % 4) * 16 + bytes[1] as int / 16),
            base64_digit((bytes[1] as int % 16) * 4 + bytes[2] as int / 64),
            base64_digit(bytes[2] as int % 64),
        ] + base64_text(bytes.skip(3))
    }
}

/// What standard padded base64 decoding gives for the text whose UTF-8 bytes are
/// `text`; `None` where the decoder rejects it.
pub uninterp spec fn base64_bytes(text: Seq<u8>) -> Option<Seq<u8>>;

/// Calls `STANDARD.encode` of the `base64` crate. The contract states the
/// base64 text of the bytes, and claims that decoding it gives the bytes back.
#[verifier::external_body]
pub(crate) fn base64_encode(bytes: &[u8]) -> (text: String)
    ensures
        text@ == base64_text(bytes@),
        base64_bytes(encode_utf8(text@)) == Some(bytes@),
{
    base64::engine::general_purpose::STANDARD.encode(bytes)
}

/// Calls `STANDARD.decode` of the `base64` crate on the UTF-8 bytes of a text.
/// The contract claims that the result is the named decoding, `None` exactly
/// where the decoder reports an error, and that a text it accepts is the
/// encoding of what it decodes to: the engine requires canonical padding and no
/// trailing bits.
#[verifier::external_body]
pub(crate) fn base64_decode(text: &[u8]) -> (bytes: Option<Vec<u8>>)
    ensures
        match bytes {
            Some(b) => base64_bytes(text@) == Some(b@) && text@ == encode_utf8(base64_text(b@)),
            None => base64_bytes(text@) is None,
        },
{
    base64::engine::general_purpose::STANDARD.decode(text).ok()
}

/// The lowercase hexadecimal digit for a value below 16.
pub open spec fn hex_digit(n: int) -> char {
    if n < 10 {
        (48 + n) as char
    } else {
        (87 + n) as char
    }
}

/// Two lowercase hexadecimal digits per byte, high half first.
pub open spec fn hex_lower(bytes: Seq<u8>) -> Seq<char>
    decreases bytes.len(),
{
    if bytes.len() == 0 {
        Seq::empty()
    } else {
        hex_lower(bytes.drop_last()) + seq![
            hex_digit(bytes.last() as int / 16),
            hex_digit(bytes.last() as int % 16),
        ]
    }
}

/// Calls `hex::encode`, which writes each byte as two lowercase hexadecimal
/// digits; the contract states exactly that.
#[verifier::external_body]
pub(crate) fn hex_encode(bytes: &[u8]) -> (text: String)
    ensures
        text@ == hex_lower(bytes@),
{
    hex::encode(bytes)
}

/// Calls `String::from_utf8`, which accepts exactly the valid UTF-8 byte
/// strings and decodes them; the contract states that.
#[verifier::external_body]
pub(crate) fn string_from_utf8(bytes: Vec<u8>) -> (s: Option<String>)
    ensures
        s is Some <==> valid_utf8(bytes@),
        s matches Some(t) ==> t@ == decode_utf8(bytes@),
{
    String::from_utf8(bytes).ok()
}

/// Calls `Zeroize::zeroize` of the `zeroize` crate on the strings of a vector
/// (through its mutable iterator), which overwrites each string's bytes with
/// zeros and leaves it empty; the vector keeps its length.
#[verifier::external_body]
pub(crate) fn wipe_texts(texts: &mut Vec<String>)
    ensures
        final(texts)@.len() == old(texts)@.len(),
        forall|i: int| 0 <= i < final(texts)@.len() ==> (#[trigger] final(texts)@[i])@ == Seq::<char>::empty(),
    opens_invariants none
    no_unwind
{
    texts.iter_mut().zeroize();
}

/// The keys of a list of string pairs.
pub open spec fn pair_keys(pairs: Seq<(Seq<char>, Seq<char>)>) -> Seq<Seq<char>> {
    pairs.map_values(|p: (Seq<char>, Seq<char>)| p.0)
}

/// The members, in ascending key order, of the map of strings that `serde_json`
/// reads from `bytes`; `None` where it reports an error.
pub uninterp spec fn json_object_members(bytes: Seq<u8>) -> Option<Seq<(Seq<char>, Seq<char>)>>;

/// The views of a list of string pairs.
pub open spec fn pairs_view(pairs: Seq<(String, String)>) -> Seq<(Seq<char>, Seq<char>)> {
    pairs.map_values(|p: (String, String)| (p.0@, p.1@))
}

/// Calls `serde_json::to_vec` on the `BTreeMap<String, String>` that holds the
/// given pairs (their keys ascending, so the map holds each pair once and in this
/// order). The contract states the compact JSON text that `serde_json` writes,
/// claims that `serde_json` reads it back as the same pairs, and that writing
/// succeeds: string keys and values into a `Vec` give `serde_json` no error.
#[verifier::external_body]
pub(crate) fn json_encode_pairs(pairs: &Vec<(String, String)>) -> (bytes: Option<Vec<u8>>)
    requires
        ascending(pair_keys(pairs_view(pairs@))),
    ensures
        bytes is Some,
        bytes matches Some(b) ==> b@ == json_string_map(pairs_view(pairs@)) && json_object_members(
            b@,
        ) == Some(pairs_view(pairs@)),
{
    let map: std::collections::BTreeMap<&String, &String> = pairs.iter().map(|p| (&p.0, &p.1)).collect();
    serde_json::to_vec(&map).ok()
}

/// Calls `serde_json::from_slice` into a `BTreeMap<String, String>` and lists its
/// members in the map's order, which is ascending by key. The contract claims
/// that the result is the named reading of the bytes.
#[verifier::external_body]
pub(crate) fn json_decode_pairs(bytes: &[u8]) -> (pairs: Option<Vec<(String, String)>>)
    ensures
        match pairs {
            Some(p) => json_object_members(bytes@) == Some(pairs_view(p@)) && ascending(
                pair_keys(pairs_view(p@)),
            ),
            None => json_object_members(bytes@) is None,
        },
{
    let map: Option<std::collections::BTreeMap<String, String>> = serde_json::from_slice(bytes).ok();
    map.map(|m| m.into_iter().collect())
}

} // verus!
