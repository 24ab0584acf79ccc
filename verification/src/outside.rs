//! The calls into other crates and into unspecified parts of std.
//!
//! Every function here has a contract that the verifier takes as given. A doc comment names
//! the function that is called and says what is claimed of it.

use crate::models::Timestamp;
use crate::text::{opt_text, Outcome};
use aes_gcm::aead::{Aead, KeyInit, Payload};
use base64::Engine;
use rand::Rng;
use serde::ser::SerializeStruct;
use serde::Serializer;
use sha2::Digest;
use vstd::prelude::*;
use vstd::utf8::{decode_utf8, valid_utf8};

verus! {

/// The string members, the unsigned members and the members read as `i64` of a JSON object.
pub type JsonMembers = (
    Map<Seq<char>, Seq<char>>,
    Map<Seq<char>, u64>,
    Map<Seq<char>, Outcome<i64>>,
);

// ---- digests and key derivation ----

/// The longest input in bytes for which the digests below are stated: with it the length in
/// bits still fits in 64 bits.
pub const MAX_HASH_INPUT: u64 = 0x0fff_ffff_ffff_ffff;

/// The SHA-256 digest of a byte string.
pub uninterp spec fn sha256_digest(data: Seq<u8>) -> Seq<u8>;

/// `sha2::Sha256::digest`: the digest is a function of the data alone and has 32 bytes.
#[verifier::external_body]
pub(crate) fn sha256(data: &[u8]) -> (r: Vec<u8>)
    requires
        data@.len() <= MAX_HASH_INPUT,
    ensures
        r@ == sha256_digest(data@),
        r@.len() == 32,
{
    sha2::Sha256::digest(data).to_vec()
}

/// The first `len` bytes of HKDF-SHA256 output for a salt, key material and a purpose.
pub uninterp spec fn hkdf_sha256_output(salt: Seq<u8>, ikm: Seq<u8>, info: Seq<u8>, len: nat) -> Seq<
    u8,
>;

/// `hkdf::Hkdf::<Sha256>::new` and `expand`: the output is a function of the arguments alone
/// and has the length asked for. `expand` fails exactly when more than 255 blocks of 32
/// bytes are asked for.
#[verifier::external_body]
pub(crate) fn hkdf_sha256(salt: &[u8], ikm: &[u8], info: &[u8], len: usize) -> (r: Option<Vec<u8>>)
    requires
        salt@.len() <= MAX_HASH_INPUT,
        ikm@.len() <= MAX_HASH_INPUT,
        info@.len() <= MAX_HASH_INPUT,
        len <= 65536,
    ensures
        r is Some <==> len <= 8160,
        r matches Some(okm) ==> okm@ == hkdf_sha256_output(salt@, ikm@, info@, len as nat)
            && okm@.len() == len,
{
    let kdf = hkdf::Hkdf::<sha2::Sha256>::new(Some(salt), ikm);
    let mut okm: Vec<u8> = vec![0u8; len];
    match kdf.expand(info, okm.as_mut_slice()) {
        Ok(()) => Some(okm),
        Err(_) => None,
    }
}

// ---- authenticated encryption ----

/// The longest plaintext that AES-GCM takes, in bytes.
pub const GCM_MAX_PLAINTEXT: u64 = 68_719_476_704;

/// The longest associated data that AES-GCM takes, in bytes.
pub const GCM_MAX_ASSOCIATED: u64 = 2_305_843_009_213_693_951;

/// The AES-256-GCM ciphertext of `msg`, followed by its tag.
pub uninterp spec fn gcm_sealed(key: Seq<u8>, nonce: Seq<u8>, aad: Seq<u8>, msg: Seq<u8>) -> Seq<u8>;

/// The plaintext of an AES-256-GCM ciphertext with its tag, where the tag is right.
pub uninterp spec fn gcm_opened(key: Seq<u8>, nonce: Seq<u8>, aad: Seq<u8>, ct: Seq<u8>) -> Option<
    Seq<u8>,
>;

/// `Aes256Gcm::encrypt`: fails exactly on a plaintext or associated data over the limits of
/// GCM; else the result is a function of the arguments, is 16 bytes longer than the
/// plaintext, and decrypts to it under the same key, nonce and associated data.
#[verifier::external_body]
pub(crate) fn gcm_seal(key: &[u8], nonce: &[u8], aad: &[u8], msg: &[u8]) -> (r: Option<Vec<u8>>)
    requires
        key@.len() == 32,
        nonce@.len() == 12,
        msg@.len() + 16 <= isize::MAX,
    ensures
        r is Some <==> (msg@.len() <= GCM_MAX_PLAINTEXT && aad@.len() <= GCM_MAX_ASSOCIATED),
        r matches Some(ct) ==> ct@ == gcm_sealed(key@, nonce@, aad@, msg@) && ct@.len()
            == msg@.len() + 16 && gcm_opened(key@, nonce@, aad@, ct@) == Some(msg@),
{
    let cipher = aes_gcm::Aes256Gcm::new_from_slice(key).ok()?;
    let nonce = aes_gcm::aead::array::Array::try_from(nonce).ok()?;
    cipher.encrypt(&nonce, Payload { msg, aad }).ok()
}

/// `Aes256Gcm::decrypt`: whether it succeeds, and with what, is a function of the arguments.
/// The plaintext is 16 bytes shorter than the ciphertext with its tag.
#[verifier::external_body]
pub(crate) fn gcm_open(key: &[u8], nonce: &[u8], aad: &[u8], ct: &[u8]) -> (r: Option<Vec<u8>>)
    requires
        key@.len() == 32,
        nonce@.len() == 12,
    ensures
        match r {
            Some(msg) => gcm_opened(key@, nonce@, aad@, ct@) == Some(msg@) && msg@.len() + 16
                == ct@.len(),
            None => gcm_opened(key@, nonce@, aad@, ct@) is None,
        },
{
    let cipher = aes_gcm::Aes256Gcm::new_from_slice(key).ok()?;
    let nonce = aes_gcm::aead::array::Array::try_from(nonce).ok()?;
    cipher.decrypt(&nonce, Payload { msg: ct, aad }).ok()
}

// ---- base64 ----

/// The padded standard base64 form of a byte string.
pub uninterp spec fn base64_text(data: Seq<u8>) -> Seq<char>;

/// The bytes that a text in standard base64 stands for, or what is wrong with it.
pub uninterp spec fn base64_bytes(text: Seq<char>) -> Outcome<Seq<u8>>;

/// `STANDARD.encode` of base64: the text is a function of the data, decodes to it, and has four
/// characters for every three bytes begun.
#[verifier::external_body]
pub(crate) fn base64_encode(data: &[u8]) -> (r: String)
    requires
        data@.len() <= isize::MAX / 4 * 3,
    ensures
        r@ == base64_text(data@),
        base64_bytes(r@) == Outcome::<Seq<u8>>::Ok(data@),
        r@.len() == (data@.len() + 2) / 3 * 4,
{
    base64::engine::general_purpose::STANDARD.encode(data)
}

/// `STANDARD.decode` of base64, with the `Display` text of its error: a function of the text.
#[verifier::external_body]
pub(crate) fn base64_decode(text: &str) -> (r: Result<Vec<u8>, String>)
    ensures
        match r {
            Ok(data) => base64_bytes(text@) == Outcome::<Seq<u8>>::Ok(data@),
            Err(e) => base64_bytes(text@) == Outcome::<Seq<u8>>::Err(e@),
        },
{
    base64::engine::general_purpose::STANDARD.decode(text).map_err(|e| e.to_string())
}

// ---- chance and time ----

/// `rand::thread_rng` and `Rng::fill`: some bytes, as many as asked for. Nothing is said of
/// their values.
#[verifier::external_body]
pub(crate) fn random_bytes(n: usize) -> (r: Vec<u8>)
    requires
        n <= 65536,
    ensures
        r@.len() == n,
{
    let mut bytes: Vec<u8> = vec![0u8; n];
    rand::thread_rng().fill(bytes.as_mut_slice());
    bytes
}

/// `chrono::Utc::now`: the time of the system clock. Nothing is said of the value.
#[verifier::external_body]
pub(crate) fn clock() -> Timestamp {
    let now = chrono::Utc::now();
    Timestamp { secs: now.timestamp(), nanos: now.timestamp_subsec_nanos() }
}

/// The RFC 3339 text of a point in time in UTC; none where the calendar of `chrono` does not
/// reach.
pub uninterp spec fn rfc3339_text(secs: i64, nanos: u32) -> Option<Seq<char>>;

/// Whether a time lies in the years 0 to 9999, leap seconds aside.
pub open spec fn in_calendar(t: Timestamp) -> bool {
    -62_167_219_200 <= t.secs <= 253_402_300_799 && t.nanos < 1_000_000_000
}

/// The point in time that an RFC 3339 text gives.
pub uninterp spec fn rfc3339_time(text: Seq<char>) -> Option<(i64, u32)>;

/// `DateTime::from_timestamp` and `DateTime::to_rfc3339` of chrono: whether there is a text, and
/// which, is a function of the time. In the years 0 to 9999, leap seconds aside, there is one,
/// and it reads back as the same time.
#[verifier::external_body]
pub(crate) fn rfc3339_format(t: &Timestamp) -> (r: Option<String>)
    ensures
        opt_text(r) == rfc3339_text(t.secs, t.nanos),
        in_calendar(*t) ==> r is Some && rfc3339_time(r->0@) == Some((t.secs, t.nanos)),
{
    Some(chrono::DateTime::from_timestamp(t.secs, t.nanos)?.to_rfc3339())
}

/// `DateTime::parse_from_rfc3339` of chrono, taken to UTC: a function of the text.
#[verifier::external_body]
pub(crate) fn rfc3339_parse(text: &str) -> (r: Option<Timestamp>)
    ensures
        match r {
            Some(t) => rfc3339_time(text@) == Some((t.secs, t.nanos)),
            None => rfc3339_time(text@) is None,
        },
{
    let time = chrono::DateTime::parse_from_rfc3339(text).ok()?;
    Some(Timestamp { secs: time.timestamp(), nanos: time.timestamp_subsec_nanos() })
}

// ---- JSON ----

/// A JSON value of `serde_json`.
#[verifier::external_type_specification]
#[verifier::external_body]
pub struct ExJsonValue(serde_json::Value);

/// The members of a JSON object that are strings.
pub uninterp spec fn json_texts(v: serde_json::Value) -> Map<Seq<char>, Seq<char>>;

/// The members of a JSON object that are integers from 0 to `u64::MAX`.
pub uninterp spec fn json_unsigned(v: serde_json::Value) -> Map<Seq<char>, u64>;

/// The members of a JSON object, each read as an `i64`, with the reason where it is none.
pub uninterp spec fn json_signed(v: serde_json::Value) -> Map<Seq<char>, Outcome<i64>>;

/// What a JSON text holds at its top level, or what is wrong with the text.
pub uninterp spec fn json_document(raw: Seq<char>) -> Outcome<JsonMembers>;

/// `serde_json::from_str::<Value>`, with the `Display` text of its error: a function of the
/// text.
#[verifier::external_body]
pub(crate) fn json_parse(raw: &str) -> (r: Result<serde_json::Value, String>)
    ensures
        match r {
            Ok(v) => json_document(raw@) == Outcome::<JsonMembers>::Ok((json_texts(v), json_unsigned(v), json_signed(v))),
            Err(e) => json_document(raw@) == Outcome::<JsonMembers>::Err(e@),
        },
{
    serde_json::from_str::<serde_json::Value>(raw).map_err(|e| e.to_string())
}

/// `Value::get` and `Value::as_str`: the member `key`, where it is a string.
#[verifier::external_body]
pub(crate) fn json_text(v: &serde_json::Value, key: &str) -> (r: Option<String>)
    ensures
        match r {
            Some(s) => json_texts(*v).contains_key(key@) && json_texts(*v)[key@] == s@,
            None => !json_texts(*v).contains_key(key@),
        },
{
    v.get(key)?.as_str().map(str::to_string)
}

/// `Value::get` and `Value::as_u64`: the member `key`, where it is an integer in `u64`.
#[verifier::external_body]
pub(crate) fn json_u64(v: &serde_json::Value, key: &str) -> (r: Option<u64>)
    ensures
        match r {
            Some(n) => json_unsigned(*v).contains_key(key@) && json_unsigned(*v)[key@] == n,
            None => !json_unsigned(*v).contains_key(key@),
        },
{
    v.get(key)?.as_u64()
}

/// `Value::get` and `serde_json::from_value::<i64>`: the member `key` read as an `i64`, or
/// the `Display` text of the error where it is none.
#[verifier::external_body]
pub(crate) fn json_i64(v: &serde_json::Value, key: &str) -> (r: Option<Result<i64, String>>)
    ensures
        match r {
            Some(Ok(n)) => json_signed(*v).contains_key(key@) && json_signed(*v)[key@] == Outcome::<i64>::Ok(n),
            Some(Err(e)) => json_signed(*v).contains_key(key@) && json_signed(*v)[key@] == Outcome::<i64>::Err(e@),
            None => !json_signed(*v).contains_key(key@),
        },
{
    let member = v.get(key)?.clone();
    Some(serde_json::from_value::<i64>(member).map_err(|e| e.to_string()))
}

/// The JSON text of an object with the members `v`, `kid`, `ts`, `n` and `ct`, in that order.
pub uninterp spec fn json_envelope(
    v: u8,
    kid: Seq<char>,
    ts: i64,
    n: Seq<char>,
    ct: Seq<char>,
) -> Seq<char>;

/// Whether a JSON text holds an envelope's five members: `kid`, `n` and `ct` as its strings,
/// `v` and `ts` as numbers.
pub open spec fn is_envelope_text(
    text: Seq<char>,
    v: u8,
    kid: Seq<char>,
    ts: i64,
    n: Seq<char>,
    ct: Seq<char>,
) -> bool {
    &&& json_document(text) matches Ok(doc)
    &&& doc.0 == map!["kid"@ => kid, "n"@ => n, "ct"@ => ct]
    &&& doc.1.contains_pair("v"@, v as u64)
    &&& doc.2.contains_pair("ts"@, Outcome::<i64>::Ok(ts))
}

/// The `serde_json::Serializer`, writing an object of five members: writing integers and
/// strings into memory succeeds, the text is a function of the members, parsing it gives them
/// back, and it is at least as long as the member `ct`, since a string is written out with
/// every character or its escape.
#[verifier::external_body]
pub(crate) fn json_write_envelope(v: u8, kid: &str, ts: i64, n: &str, ct: &str) -> (r: Result<
    String,
    serde_json::Error,
>)
    ensures
        r is Ok,
        r matches Ok(text) ==> text@ == json_envelope(v, kid@, ts, n@, ct@) && is_envelope_text(
            text@,
            v,
            kid@,
            ts,
            n@,
            ct@,
        ) && text@.len() >= ct@.len(),
{
    let mut out: Vec<u8> = Vec::new();
    let mut writer = serde_json::Serializer::new(&mut out);
    let mut fields = writer.serialize_struct("Envelope", 5)?;
    fields.serialize_field("v", &v)?;
    fields.serialize_field("kid", kid)?;
    fields.serialize_field("ts", &ts)?;
    fields.serialize_field("n", n)?;
    fields.serialize_field("ct", ct)?;
    fields.end()?;
    Ok(String::from_utf8_lossy(&out).into_owned())
}

/// An error of `serde_json`.
#[verifier::external_type_specification]
#[verifier::external_body]
pub struct ExJsonError(serde_json::Error);

// ---- text of std ----

/// `String::from_utf8`: succeeds exactly on valid UTF-8, with the text that it encodes.
#[verifier::external_body]
pub(crate) fn utf8_text(bytes: Vec<u8>) -> (r: Option<String>)
    ensures
        match r {
            Some(s) => valid_utf8(bytes@) && s@ == decode_utf8(bytes@),
            None => !valid_utf8(bytes@),
        },
{
    String::from_utf8(bytes).ok()
}

/// The text of UTF-16 code units, with replacement characters for what is no text.
pub uninterp spec fn utf16_text(units: Seq<u16>) -> Seq<char>;

/// `String::from_utf16_lossy`: a function of the code units.
#[verifier::external_body]
pub(crate) fn utf16_lossy(units: &[u16]) -> (r: String)
    ensures
        r@ == utf16_text(units@),
{
    String::from_utf16_lossy(units)
}

} // verus!
