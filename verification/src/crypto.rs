//! Envelope encryption of message bodies.
//!
//! Two paired devices share a secret of 32 bytes. A sealed body is a JSON object
//! `{v, kid, ts, n, ct}`: the key is derived from the secret for one interface path, and the
//! path, the sender `kid` and the time `ts` are authenticated with the ciphertext. A receiver
//! takes an envelope once, and only within a window of time around `ts`.

use vstd::prelude::*;
use vstd::string::*;
use vstd::utf8::{decode_utf8, encode_utf8, encode_utf8_decode_utf8, encode_utf8_valid_utf8, is_ascii_chars, is_ascii_chars_encode_utf8, valid_utf8};

use crate::outside::{base64_bytes, base64_decode, base64_encode, base64_text, clock, gcm_open, gcm_opened, gcm_seal, gcm_sealed, hkdf_sha256, hkdf_sha256_output, is_envelope_text, json_document, json_envelope, json_i64, json_parse, json_signed, json_text, json_texts, json_u64, json_unsigned, json_write_envelope, random_bytes, sha256, sha256_digest, utf8_text, JsonMembers, GCM_MAX_ASSOCIATED, GCM_MAX_PLAINTEXT, MAX_HASH_INPUT};
use crate::stamps::{within_age, Stamps};
use crate::text::{Outcome, bytes_outcome, chars_of, decimal, hex_digit_value, hex_text, hex_value, is_lower_hex, is_upper_hex, law_decimal_injective, le, lemma_hex_text_alphabet, lemma_text_le_antisymmetric, lemma_text_le_total, lemma_upper_hex_alphabet, opt_str, opt_text, push_decimal, text_le, text_outcome, to_hex, to_upper_hex, upper_hex_text};

verus! {

/// Length of a shared secret in bytes.
pub const SECRET_BYTES: usize = 32;

/// Version of the envelope format.
pub const ENVELOPE_V: u8 = 1;

/// Length of a nonce in bytes.
pub const NONCE_BYTES: usize = 12;

/// Length of the authentication tag in bytes.
pub const TAG_BYTES: usize = 16;

/// How far a timestamp may lie from the receiver's clock, in seconds.
pub const TS_WINDOW_SECS: i64 = 300;

/// How many nonces are remembered before old ones are dropped.
pub const SEEN_LIMIT: usize = 4096;

/// Salt of the key derivation.
pub const DOMAIN: &'static str = "aw-sync/1";

/// Salt of the derivation of safety codes.
pub const FINGERPRINT_DOMAIN: &'static str = "aw-sync/fp/1";

/// Path of the push interface.
pub const PATH_PUSH: &'static str = "/api/0/sync/push";

/// Path of the snapshot interface.
pub const PATH_SNAPSHOT: &'static str = "/api/0/sync/snapshot";

// ---- secrets ----

/// A usable secret: 64 lower-case hexadecimal digits.
pub open spec fn is_secret(s: Seq<char>) -> bool {
    &&& s.len() == 2 * SECRET_BYTES
    &&& forall|i: int| 0 <= i < s.len() ==> is_lower_hex(#[trigger] s[i])
}

/// Whether a secret is usable.
pub fn secret_ok(secret: &str) -> (r: bool)
    ensures
        r == is_secret(secret@),
{
    let chars: Vec<char> = chars_of(secret);
    if chars.len() != 2 * SECRET_BYTES {
        return false;
    }
    let mut i: usize = 0;
    while i < chars.len()
        invariant
            i <= chars.len(),
            chars@ == secret@,
            forall|j: int| 0 <= j < i ==> is_lower_hex(#[trigger] secret@[j]),
        decreases chars.len() - i,
    {
        let c: char = chars[i];
        if !(('0' <= c && c <= '9') || ('a' <= c && c <= 'f')) {
            return false;
        }
        i = i + 1;
    }
    true
}

/// A fresh secret. Which one is left to chance.
pub fn generate_secret() -> (r: String)
    ensures
        is_secret(r@),
{
    let bytes: Vec<u8> = random_bytes(SECRET_BYTES);
    proof {
        lemma_hex_text_alphabet(bytes@);
    }
    to_hex(bytes.as_slice())
}

/// The bytes that hexadecimal digits, given as ASCII bytes, stand for.
pub open spec fn hex_decoded(b: Seq<u8>) -> Outcome<Seq<u8>> {
    if b.len() % 2 != 0 {
        Err("密钥 hex 长度非法"@)
    } else if exists|i: int| 0 <= i < b.len() && hex_value(#[trigger] b[i]) is None {
        Err("密钥含非 hex 字符"@)
    } else {
        Ok(
            Seq::new(
                b.len() / 2,
                |i: int| (16 * hex_value(b[2 * i])->0 + hex_value(b[2 * i + 1])->0) as u8,
            ),
        )
    }
}

/// Reads hexadecimal digits of either case.
pub fn from_hex(s: &str) -> (r: Result<Vec<u8>, String>)
    ensures
        bytes_outcome(r) == hex_decoded(encode_utf8(s@)),
{
    let b: &[u8] = s.as_bytes();
    if b.len() % 2 != 0 {
        return Err("密钥 hex 长度非法".to_string());
    }
    let mut out: Vec<u8> = Vec::new();
    let mut i: usize = 0;
    while i < b.len()
        invariant
            i <= b.len(),
            i % 2 == 0,
            b.len() % 2 == 0,
            b@ == encode_utf8(s@),
            out.len() == i / 2,
            forall|j: int| 0 <= j < i ==> hex_value(#[trigger] b@[j]) is Some,
            forall|j: int|
                0 <= j < i / 2 ==> #[trigger] out@[j] == (16 * hex_value(b@[2 * j])->0 + hex_value(
                    b@[2 * j + 1],
                )->0) as u8,
        decreases b.len() - i,
    {
        let hi: u8 = match hex_digit_value(b[i]) {
            Some(v) => v,
            None => {
                assert(hex_value(b@[i as int]) is None);
                return Err("密钥含非 hex 字符".to_string());
            },
        };
        let lo: u8 = match hex_digit_value(b[i + 1]) {
            Some(v) => v,
            None => {
                assert(hex_value(b@[i + 1]) is None);
                return Err("密钥含非 hex 字符".to_string());
            },
        };
        out.push(16 * hi + lo);
        i = i + 2;
    }
    assert(out@ =~= hex_decoded(b@)->Ok_0);
    Ok(out)
}

/// A usable secret reads as its 32 bytes.
proof fn lemma_secret_decodes(s: Seq<char>)
    requires
        is_secret(s),
    ensures
        hex_decoded(encode_utf8(s)) matches Ok(b) && b.len() == SECRET_BYTES,
{
    assert(is_ascii_chars(s));
    is_ascii_chars_encode_utf8(s);
    let b = encode_utf8(s);
    assert forall|i: int| 0 <= i < b.len() implies hex_value(#[trigger] b[i]) is Some by {
        assert(is_lower_hex(s[i]));
    }
}

/// The key for one path, or why there is none.
pub open spec fn derived_key(secret: Seq<char>, path: Seq<char>) -> Outcome<Seq<u8>> {
    match hex_decoded(encode_utf8(secret)) {
        Err(e) => Err(e),
        Ok(ikm) => if ikm.len() != SECRET_BYTES {
            Err("密钥长度不符"@)
        } else if encode_utf8(path).len() > MAX_HASH_INPUT {
            Err("HKDF 扩展失败: invalid number of blocks, too large output"@)
        } else {
            Ok(hkdf_sha256_output(encode_utf8(DOMAIN@), ikm, encode_utf8(path), 32))
        },
    }
}

/// Derives the key for one path.
pub fn derive_key(secret: &str, path: &str) -> (r: Result<Vec<u8>, String>)
    ensures
        bytes_outcome(r) == derived_key(secret@, path@),
        r matches Ok(key) ==> key@.len() == 32,
{
    let ikm: Vec<u8> = match from_hex(secret) {
        Ok(v) => v,
        Err(e) => {
            return Err(e);
        },
    };
    if ikm.len() != SECRET_BYTES {
        return Err("密钥长度不符".to_string());
    }
    let info: &[u8] = path.as_bytes();
    if info.len() as u64 > MAX_HASH_INPUT {
        return Err("HKDF 扩展失败: invalid number of blocks, too large output".to_string());
    }
    proof {
        lemma_domain_lengths();
    }
    match hkdf_sha256(DOMAIN.as_bytes(), ikm.as_slice(), info, 32) {
        Some(okm) => Ok(okm),
        None => Err("HKDF 扩展失败: invalid number of blocks, too large output".to_string()),
    }
}

proof fn lemma_domain_lengths()
    ensures
        encode_utf8(DOMAIN@).len() == 9,
        encode_utf8(FINGERPRINT_DOMAIN@).len() == 12,
{
    reveal_strlit("aw-sync/1");
    reveal_strlit("aw-sync/fp/1");
    assert(is_ascii_chars("aw-sync/1"@));
    assert(is_ascii_chars("aw-sync/fp/1"@));
    is_ascii_chars_encode_utf8("aw-sync/1"@);
    is_ascii_chars_encode_utf8("aw-sync/fp/1"@);
}


/// What is authenticated beside the ciphertext.
pub open spec fn aad_text(path: Seq<char>, kid: Seq<char>, ts: int) -> Seq<char> {
    DOMAIN@ + "\n"@ + path + "\n"@ + kid + "\n"@ + decimal(ts)
}

/// The associated data for a path, a sender and a time.
pub fn aad(path: &str, kid: &str, ts: i64) -> (r: String)
    ensures
        r@ == aad_text(path@, kid@, ts as int),
{
    let mut s: String = DOMAIN.to_string();
    s.append("\n");
    s.append(path);
    s.append("\n");
    s.append(kid);
    s.append("\n");
    push_decimal(&mut s, ts as i128);
    s
}

// ---- envelopes ----

/// A sealed message.
#[derive(Debug)]
pub struct Envelope {
    /// Format version.
    pub v: u8,
    /// Device id of the sender.
    pub kid: String,
    /// Unix seconds.
    pub ts: i64,
    /// Nonce, in base64.
    pub n: String,
    /// Ciphertext with its tag, in base64.
    pub ct: String,
}

/// The contents of an [`Envelope`].
pub struct EnvelopeV {
    pub v: u8,
    pub kid: Seq<char>,
    pub ts: i64,
    pub n: Seq<char>,
    pub ct: Seq<char>,
}

impl View for Envelope {
    type V = EnvelopeV;

    open spec fn view(&self) -> EnvelopeV {
        EnvelopeV { v: self.v, kid: self.kid@, ts: self.ts, n: self.n@, ct: self.ct@ }
    }
}

impl Clone for Envelope {
    fn clone(&self) -> (r: Envelope)
        ensures
            r@ == self@,
    {
        Envelope {
            v: self.v,
            kid: self.kid.clone(),
            ts: self.ts,
            n: self.n.clone(),
            ct: self.ct.clone(),
        }
    }
}

/// The outcome of a step that gives an envelope.
pub open spec fn envelope_outcome(r: Result<Envelope, String>) -> Outcome<EnvelopeV> {
    match r {
        Ok(env) => Ok(env@),
        Err(e) => Err(e@),
    }
}

/// Whether the members of a JSON value are those of an envelope of this version.
pub open spec fn envelope_like(doc: JsonMembers) -> bool {
    &&& doc.1.contains_key("v"@)
    &&& doc.1["v"@] == ENVELOPE_V
    &&& doc.0.contains_key("kid"@)
    &&& doc.0["kid"@].len() > 0
    &&& doc.0.contains_key("n"@)
    &&& doc.0.contains_key("ct"@)
}

/// The envelope that the members of a JSON value make up, where they are those of one.
pub open spec fn envelope_of(doc: JsonMembers) -> Outcome<EnvelopeV> {
    if !doc.2.contains_key("ts"@) {
        Err("missing field `ts`"@)
    } else {
        match doc.2["ts"@] {
            Ok(ts) => Ok(
                EnvelopeV {
                    v: ENVELOPE_V,
                    kid: doc.0["kid"@],
                    ts,
                    n: doc.0["n"@],
                    ct: doc.0["ct"@],
                },
            ),
            Err(e) => Err(e),
        }
    }
}

impl Envelope {
    /// Whether a JSON value is an envelope, judged without reading all of it.
    pub fn looks_like(json: &serde_json::Value) -> (r: bool)
        ensures
            r == envelope_like((json_texts(*json), json_unsigned(*json), json_signed(*json))),
    {
        match json_u64(json, "v") {
            Some(v) => if v != ENVELOPE_V as u64 {
                return false;
            },
            None => {
                return false;
            },
        }
        match json_text(json, "kid") {
            Some(kid) => if kid.as_str().as_bytes().len() == 0 {
                proof {
                    lemma_no_bytes(kid@);
                }
                return false;
            } else {
                proof {
                    lemma_no_bytes(kid@);
                }
            },
            None => {
                return false;
            },
        }
        json_text(json, "n").is_some() && json_text(json, "ct").is_some()
    }

    /// The envelope as a JSON text.
    pub fn to_json_string(&self) -> (r: String)
        ensures
            r@ == json_envelope(self.v, self.kid@, self.ts, self.n@, self.ct@),
            is_envelope_text(r@, self.v, self.kid@, self.ts, self.n@, self.ct@),
            r@.len() >= self.ct@.len(),
    {
        match json_write_envelope(
            self.v,
            self.kid.as_str(),
            self.ts,
            self.n.as_str(),
            self.ct.as_str(),
        ) {
            Ok(text) => text,
            Err(_) => String::new(),
        }
    }
}

/// A text has at least as many bytes as characters.
proof fn lemma_bytes_cover(s: Seq<char>)
    ensures
        encode_utf8(s).len() >= s.len(),
    decreases s.len(),
{
    if s.len() > 0 {
        lemma_bytes_cover(s.drop_first());
    }
}

/// Only the empty text has no bytes.
proof fn lemma_no_bytes(s: Seq<char>)
    ensures
        encode_utf8(s).len() == 0 <==> s.len() == 0,
{
    encode_utf8_decode_utf8(s);
    if encode_utf8(s).len() == 0 {
        assert(encode_utf8(s) =~= encode_utf8(Seq::<char>::empty()));
        encode_utf8_decode_utf8(Seq::<char>::empty());
    }
}

// ---- sealing ----

/// Whether a plaintext is too long to be sealed: over the limit of GCM, or so long that its
/// envelope would not fit in memory.
pub open spec fn too_long(len: nat) -> bool {
    len > GCM_MAX_PLAINTEXT || len + TAG_BYTES > isize::MAX / 4 * 3
}

/// The envelope of a plaintext for a nonce and a time, or why there is none.
pub open spec fn sealed(
    secret: Seq<char>,
    path: Seq<char>,
    self_id: Seq<char>,
    plaintext: Seq<u8>,
    nonce: Seq<u8>,
    ts: i64,
) -> Outcome<EnvelopeV> {
    let associated = encode_utf8(aad_text(path, self_id, ts as int));
    match derived_key(secret, path) {
        Err(e) => Err(e),
        Ok(key) => if too_long(plaintext.len()) || associated.len() > GCM_MAX_ASSOCIATED {
            Err("加密失败: aead::Error"@)
        } else {
            Ok(
                EnvelopeV {
                    v: ENVELOPE_V,
                    kid: self_id,
                    ts,
                    n: base64_text(nonce),
                    ct: base64_text(gcm_sealed(key, nonce, associated, plaintext)),
                },
            )
        },
    }
}

/// Whether an envelope gives back the plaintext: whoever holds the secret, opens it for the
/// same path, within the time window, and has not seen its nonce, gets the plaintext.
pub open spec fn opens_to(
    secret: Seq<char>,
    path: Seq<char>,
    env: EnvelopeV,
    plaintext: Seq<u8>,
) -> bool {
    forall|seen: Map<Seq<char>, i64>, now: i64|
        in_window(now as int, env.ts as int) && !seen.contains_key(nonce_key(env.kid, env.n))
            ==> #[trigger] opened(secret, path, env, seen, now).0 == Outcome::<Seq<u8>>::Ok(
            plaintext,
        )
}

/// Whether the texts in an envelope stand for a nonce, and for a ciphertext as long as the
/// plaintext with the tag. The text of the ciphertext is longer than the plaintext.
pub open spec fn well_sized(env: EnvelopeV, plaintext_len: nat) -> bool {
    &&& base64_bytes(env.n) matches Ok(n) && n.len() == NONCE_BYTES
    &&& base64_bytes(env.ct) matches Ok(ct) && ct.len() == plaintext_len + TAG_BYTES
    &&& env.ct.len() > plaintext_len
}

/// Seals a plaintext with a given nonce and time.
pub fn seal_with(
    secret: &str,
    path: &str,
    self_id: &str,
    plaintext: &[u8],
    nonce: &[u8],
    ts: i64,
) -> (r: Result<Envelope, String>)
    requires
        nonce@.len() == NONCE_BYTES,
    ensures
        envelope_outcome(r) == sealed(secret@, path@, self_id@, plaintext@, nonce@, ts),
        r matches Ok(env) ==> opens_to(secret@, path@, env@, plaintext@) && well_sized(
            env@,
            plaintext@.len(),
        ),
{
    let key: Vec<u8> = match derive_key(secret, path) {
        Ok(k) => k,
        Err(e) => {
            return Err(e);
        },
    };
    if plaintext.len() as u64 > GCM_MAX_PLAINTEXT || plaintext.len() > (isize::MAX as usize) / 4 * 3
        - TAG_BYTES {
        return Err("加密失败: aead::Error".to_string());
    }
    let associated: String = aad(path, self_id, ts);
    let bytes: &[u8] = associated.as_str().as_bytes();
    match gcm_seal(key.as_slice(), nonce, bytes, plaintext) {
        Some(ct) => {
            let env: Envelope = Envelope {
                v: ENVELOPE_V,
                kid: self_id.to_string(),
                ts,
                n: base64_encode(nonce),
                ct: base64_encode(ct.as_slice()),
            };
            assert(opens_to(secret@, path@, env@, plaintext@)) by {
                assert forall|seen: Map<Seq<char>, i64>, now: i64|
                    in_window(now as int, env@.ts as int) && !seen.contains_key(
                        nonce_key(env@.kid, env@.n),
                    ) implies #[trigger] opened(secret@, path@, env@, seen, now).0 == Outcome::<
                    Seq<u8>,
                >::Ok(plaintext@) by {
                    assert(!replayed(env@.kid, env@.n, seen, now as int));
                }
            }
            Ok(env)
        },
        None => Err("加密失败: aead::Error".to_string()),
    }
}

/// Seals a plaintext with a nonce left to chance, stamped with the system clock.
pub fn seal(secret: &str, path: &str, self_id: &str, plaintext: &[u8]) -> (r: Result<
    Envelope,
    String,
>)
    ensures
        exists|nonce: Seq<u8>, ts: i64|
            nonce.len() == NONCE_BYTES && envelope_outcome(r) == #[trigger] sealed(
                secret@,
                path@,
                self_id@,
                plaintext@,
                nonce,
                ts,
            ),
        r matches Ok(env) ==> opens_to(secret@, path@, env@, plaintext@) && well_sized(
            env@,
            plaintext@.len(),
        ),
{
    let nonce: Vec<u8> = random_bytes(NONCE_BYTES);
    let ts: i64 = clock().secs;
    seal_with(secret, path, self_id, plaintext, nonce.as_slice(), ts)
}

// ---- opening ----

/// Whether a timestamp lies within the window around the clock.
pub open spec fn in_window(now: int, ts: int) -> bool {
    -TS_WINDOW_SECS <= now - ts <= TS_WINDOW_SECS
}

/// Under what a sender's nonce is remembered.
pub open spec fn nonce_key(kid: Seq<char>, nonce: Seq<char>) -> Seq<char> {
    kid + "\n"@ + nonce
}

/// The nonces that are looked at when a message comes: once there are many, those that are
/// out of the window are dropped first.
pub open spec fn still_seen(seen: Map<Seq<char>, i64>, now: int) -> Map<Seq<char>, i64> {
    if seen.dom().len() > SEEN_LIMIT {
        within_age(seen, now, TS_WINDOW_SECS as int)
    } else {
        seen
    }
}

/// Whether a sender's nonce was seen before.
pub open spec fn replayed(
    kid: Seq<char>,
    nonce: Seq<char>,
    seen: Map<Seq<char>, i64>,
    now: int,
) -> bool {
    still_seen(seen, now).contains_key(nonce_key(kid, nonce))
}

/// The nonces remembered after a message with this one.
pub open spec fn seen_after(
    kid: Seq<char>,
    nonce: Seq<char>,
    ts: i64,
    seen: Map<Seq<char>, i64>,
    now: int,
) -> Map<Seq<char>, i64> {
    if replayed(kid, nonce, seen, now) {
        still_seen(seen, now)
    } else {
        still_seen(seen, now).insert(nonce_key(kid, nonce), ts)
    }
}

/// Notes a sender's nonce; tells whether it was noted before.
pub fn seen_recently(seen: &mut Stamps, kid: &str, nonce: &str, ts: i64, now: i64) -> (r: bool)
    ensures
        r == replayed(kid@, nonce@, old(seen)@, now as int),
        final(seen)@ == seen_after(kid@, nonce@, ts, old(seen)@, now as int),
{
    if seen.len() > SEEN_LIMIT {
        seen.keep_within(now, TS_WINDOW_SECS);
    }
    let mut key: String = kid.to_string();
    key.append("\n");
    key.append(nonce);
    if seen.get(key.as_str()).is_some() {
        return true;
    }
    seen.insert(key.as_str(), ts);
    false
}

/// What opening an envelope comes to, and the nonces remembered after it.
pub open spec fn opened(
    secret: Seq<char>,
    path: Seq<char>,
    env: EnvelopeV,
    seen: Map<Seq<char>, i64>,
    now: i64,
) -> (Outcome<Seq<u8>>, Map<Seq<char>, i64>) {
    if env.v != ENVELOPE_V {
        (Err("不支持的信封版本: "@ + decimal(env.v as int)), seen)
    } else if !in_window(now as int, env.ts as int) {
        (
            Err(
                "时间戳超出容忍窗口 "@ + decimal(TS_WINDOW_SECS as int) + "s（偏差 "@ + decimal(
                    now - env.ts,
                ) + "s），拒收"@,
            ),
            seen,
        )
    } else {
        let after = seen_after(env.kid, env.n, env.ts, seen, now as int);
        if replayed(env.kid, env.n, seen, now as int) {
            (Err("检测到重放：相同 nonce 在时间窗内已出现过"@), after)
        } else {
            (deciphered(secret, path, env), after)
        }
    }
}

/// What the ciphertext of an envelope comes to.
pub open spec fn deciphered(secret: Seq<char>, path: Seq<char>, env: EnvelopeV) -> Outcome<Seq<u8>> {
    match derived_key(secret, path) {
        Err(e) => Err(e),
        Ok(key) => match base64_bytes(env.n) {
            Err(e) => Err("base64 解码失败: "@ + e),
            Ok(nonce) => if nonce.len() != NONCE_BYTES {
                Err(
                    "nonce 长度应为 "@ + decimal(NONCE_BYTES as int) + " 字节，实际 "@ + decimal(
                        nonce.len() as int,
                    ),
                )
            } else {
                match base64_bytes(env.ct) {
                    Err(e) => Err("base64 解码失败: "@ + e),
                    Ok(ct) => if ct.len() < TAG_BYTES {
                        Err("密文过短，不足以容纳认证标签"@)
                    } else {
                        match gcm_opened(
                            key,
                            nonce,
                            encode_utf8(aad_text(path, env.kid, env.ts as int)),
                            ct,
                        ) {
                            Some(plain) => Ok(plain),
                            None => Err("解密失败：密钥不匹配或报文被篡改"@),
                        }
                    },
                }
            },
        },
    }
}

fn unb64(s: &str) -> (r: Result<Vec<u8>, String>)
    ensures
        match base64_bytes(s@) {
            Ok(b) => bytes_outcome(r) == Outcome::<Seq<u8>>::Ok(b),
            Err(e) => bytes_outcome(r) == Outcome::<Seq<u8>>::Err("base64 解码失败: "@ + e),
        },
{
    match base64_decode(s) {
        Ok(b) => Ok(b),
        Err(e) => {
            let mut m: String = "base64 解码失败: ".to_string();
            m.append(e.as_str());
            Err(m)
        },
    }
}

fn decipher(secret: &str, path: &str, env: &Envelope) -> (r: Result<Vec<u8>, String>)
    ensures
        bytes_outcome(r) == deciphered(secret@, path@, env@),
{
    let key: Vec<u8> = match derive_key(secret, path) {
        Ok(k) => k,
        Err(e) => {
            return Err(e);
        },
    };
    let nonce: Vec<u8> = match unb64(env.n.as_str()) {
        Ok(b) => b,
        Err(e) => {
            return Err(e);
        },
    };
    if nonce.len() != NONCE_BYTES {
        let mut m: String = "nonce 长度应为 ".to_string();
        push_decimal(&mut m, NONCE_BYTES as i128);
        m.append(" 字节，实际 ");
        push_decimal(&mut m, nonce.len() as i128);
        return Err(m);
    }
    let ct: Vec<u8> = match unb64(env.ct.as_str()) {
        Ok(b) => b,
        Err(e) => {
            return Err(e);
        },
    };
    if ct.len() < TAG_BYTES {
        return Err("密文过短，不足以容纳认证标签".to_string());
    }
    let associated: String = aad(path, env.kid.as_str(), env.ts);
    match gcm_open(
        key.as_slice(),
        nonce.as_slice(),
        associated.as_str().as_bytes(),
        ct.as_slice(),
    ) {
        Some(plain) => Ok(plain),
        None => Err("解密失败：密钥不匹配或报文被篡改".to_string()),
    }
}

/// Opens an envelope at a given time: checks its version, the time window and that its nonce
/// is new, and deciphers it.
pub fn open_at(secret: &str, path: &str, env: &Envelope, seen: &mut Stamps, now: i64) -> (r: Result<
    Vec<u8>,
    String,
>)
    ensures
        bytes_outcome(r) == opened(secret@, path@, env@, old(seen)@, now).0,
        final(seen)@ == opened(secret@, path@, env@, old(seen)@, now).1,
{
    if env.v != ENVELOPE_V {
        let mut m: String = "不支持的信封版本: ".to_string();
        push_decimal(&mut m, env.v as i128);
        return Err(m);
    }
    let off: i128 = (now as i128) - (env.ts as i128);
    if off > TS_WINDOW_SECS as i128 || off < -(TS_WINDOW_SECS as i128) {
        let mut m: String = "时间戳超出容忍窗口 ".to_string();
        push_decimal(&mut m, TS_WINDOW_SECS as i128);
        m.append("s（偏差 ");
        push_decimal(&mut m, off);
        m.append("s），拒收");
        return Err(m);
    }
    if seen_recently(seen, env.kid.as_str(), env.n.as_str(), env.ts, now) {
        return Err("检测到重放：相同 nonce 在时间窗内已出现过".to_string());
    }
    decipher(secret, path, env)
}

/// Opens an envelope at the time of the system clock.
pub fn open(secret: &str, path: &str, env: &Envelope, seen: &mut Stamps) -> (r: Result<
    Vec<u8>,
    String,
>)
    ensures
        exists|now: i64|
            #![trigger opened(secret@, path@, env@, old(seen)@, now)]
            bytes_outcome(r) == opened(secret@, path@, env@, old(seen)@, now).0 && final(seen)@
                == opened(secret@, path@, env@, old(seen)@, now).1,
{
    let now: i64 = clock().secs;
    open_at(secret, path, env, seen, now)
}


// ---- message bodies ----

/// The body to send for a plaintext: an envelope where there is a usable secret, else the
/// plaintext as it is.
pub open spec fn sealed_body(
    secret: Option<Seq<char>>,
    path: Seq<char>,
    self_id: Seq<char>,
    plaintext: Seq<char>,
    nonce: Seq<u8>,
    ts: i64,
) -> Outcome<Seq<char>> {
    match secret {
        Some(s) if is_secret(s) => match sealed(s, path, self_id, encode_utf8(plaintext), nonce, ts) {
            Ok(env) => Ok(json_envelope(env.v, env.kid, env.ts, env.n, env.ct)),
            Err(e) => Err(e),
        },
        _ => Ok(plaintext),
    }
}

/// Whether a plaintext, a path and an id are short enough for a body to be sealed at any time.
pub open spec fn within_limits(path: Seq<char>, self_id: Seq<char>, plaintext: Seq<char>) -> bool {
    &&& encode_utf8(path).len() <= MAX_HASH_INPUT
    &&& !too_long(encode_utf8(plaintext).len())
    &&& forall|ts: i64|
        encode_utf8(#[trigger] aad_text(path, self_id, ts as int)).len() <= GCM_MAX_ASSOCIATED
}

/// Whether a body is an envelope within the time window whose nonce is new.
pub open spec fn fresh_body(body: Seq<char>, seen: Map<Seq<char>, i64>, now: i64) -> bool {
    &&& json_document(body) matches Ok(doc)
    &&& envelope_of(doc) matches Ok(env)
    &&& in_window(now as int, env.ts as int)
    &&& !seen.contains_key(nonce_key(env.kid, env.n))
}

/// Whether a body gives back the plaintext to whoever holds the secret and opens it fresh.
pub open spec fn body_opens_to(
    secret: Seq<char>,
    path: Seq<char>,
    body: Seq<char>,
    plaintext: Seq<char>,
) -> bool {
    forall|seen: Map<Seq<char>, i64>, now: i64|
        fresh_body(body, seen, now) ==> #[trigger] opened_body(
            Some(secret),
            path,
            body,
            seen,
            now,
        ).0 == Outcome::<Seq<char>>::Ok(plaintext)
}

/// Prepares a body with a given nonce and time.
pub fn seal_body_with(
    secret: Option<&str>,
    path: &str,
    self_id: &str,
    plaintext_json: &str,
    nonce: &[u8],
    ts: i64,
) -> (r: Result<String, String>)
    requires
        nonce@.len() == NONCE_BYTES,
    ensures
        text_outcome(r) == sealed_body(
            opt_str(secret),
            path@,
            self_id@,
            plaintext_json@,
            nonce@,
            ts,
        ),
        !(secret is Some && is_secret(secret->0@)) ==> text_outcome(r) == Outcome::<
            Seq<char>,
        >::Ok(plaintext_json@),
        within_limits(path@, self_id@, plaintext_json@) ==> r is Ok,
        (secret is Some && is_secret(secret->0@) && r is Ok) ==> r->Ok_0@.len()
            > plaintext_json@.len() && r->Ok_0@ != plaintext_json@,
        (secret is Some && is_secret(secret->0@) && self_id@.len() > 0 && r is Ok)
            ==> body_opens_to(secret->0@, path@, r->Ok_0@, plaintext_json@) && body_sender(
            r->Ok_0@,
        ) == Some(self_id@),
{
    match secret {
        Some(s) => if secret_ok(s) {
            proof {
                lemma_secret_decodes(s@);
                assert(within_limits(path@, self_id@, plaintext_json@) ==> encode_utf8(
                    aad_text(path@, self_id@, ts as int),
                ).len() <= GCM_MAX_ASSOCIATED);
            }
            match seal_with(s, path, self_id, plaintext_json.as_bytes(), nonce, ts) {
                Ok(env) => {
                    let body: String = env.to_json_string();
                    proof {
                        lemma_bytes_cover(plaintext_json@);
                        if self_id@.len() > 0 {
                            lemma_body_opens(s@, path@, env@, body@, plaintext_json@);
                        }
                    }
                    Ok(body)
                },
                Err(e) => Err(e),
            }
        } else {
            Ok(plaintext_json.to_string())
        },
        None => Ok(plaintext_json.to_string()),
    }
}

proof fn lemma_body_opens(
    secret: Seq<char>,
    path: Seq<char>,
    env: EnvelopeV,
    body: Seq<char>,
    plaintext: Seq<char>,
)
    requires
        is_envelope_text(body, env.v, env.kid, env.ts, env.n, env.ct),
        env.v == ENVELOPE_V,
        env.kid.len() > 0,
        opens_to(secret, path, env, encode_utf8(plaintext)),
    ensures
        body_opens_to(secret, path, body, plaintext),
        body_sender(body) == Some(env.kid),
{
    reveal_strlit("kid");
    reveal_strlit("n");
    reveal_strlit("ct");
    assert("kid"@.len() == 3 && "n"@.len() == 1 && "ct"@.len() == 2);
    let doc = json_document(body)->Ok_0;
    assert(envelope_like(doc));
    assert(envelope_of(doc) == Outcome::<EnvelopeV>::Ok(env));
    encode_utf8_valid_utf8(plaintext);
    encode_utf8_decode_utf8(plaintext);
    assert forall|seen: Map<Seq<char>, i64>, now: i64|
        fresh_body(body, seen, now) implies #[trigger] opened_body(
        Some(secret),
        path,
        body,
        seen,
        now,
    ).0 == Outcome::<Seq<char>>::Ok(plaintext) by {
        assert(opened(secret, path, env, seen, now).0 == Outcome::<Seq<u8>>::Ok(
            encode_utf8(plaintext),
        ));
    }
}

/// Prepares a body: an envelope where there is a usable secret, else the plaintext.
pub fn seal_body(secret: Option<&str>, path: &str, self_id: &str, plaintext_json: &str) -> (r:
    Result<String, String>)
    ensures
        exists|nonce: Seq<u8>, ts: i64|
            nonce.len() == NONCE_BYTES && text_outcome(r) == #[trigger] sealed_body(
                opt_str(secret),
                path@,
                self_id@,
                plaintext_json@,
                nonce,
                ts,
            ),
        !(secret is Some && is_secret(secret->0@)) ==> text_outcome(r) == Outcome::<
            Seq<char>,
        >::Ok(plaintext_json@),
        within_limits(path@, self_id@, plaintext_json@) ==> r is Ok,
        (secret is Some && is_secret(secret->0@) && r is Ok) ==> r->Ok_0@.len()
            > plaintext_json@.len() && r->Ok_0@ != plaintext_json@,
        (secret is Some && is_secret(secret->0@) && self_id@.len() > 0 && r is Ok)
            ==> body_opens_to(secret->0@, path@, r->Ok_0@, plaintext_json@) && body_sender(
            r->Ok_0@,
        ) == Some(self_id@),
{
    let nonce: Vec<u8> = random_bytes(NONCE_BYTES);
    let ts: i64 = clock().secs;
    seal_body_with(secret, path, self_id, plaintext_json, nonce.as_slice(), ts)
}

/// What a received body comes to, and the nonces remembered after it.
pub open spec fn opened_body(
    secret: Option<Seq<char>>,
    path: Seq<char>,
    raw: Seq<char>,
    seen: Map<Seq<char>, i64>,
    now: i64,
) -> (Outcome<Seq<char>>, Map<Seq<char>, i64>) {
    match json_document(raw) {
        Err(e) => (Err("body 不是合法 JSON: "@ + e), seen),
        Ok(doc) => if !envelope_like(doc) {
            if secret is Some && is_secret(secret->0) {
                (Err("该对端已协商加密密钥，拒收明文报文（疑似降级/重放攻击）"@), seen)
            } else {
                (Ok(raw), seen)
            }
        } else {
            match envelope_of(doc) {
                Err(e) => (Err("信封结构非法: "@ + e), seen),
                Ok(env) => match secret {
                    None => (
                        Err("收到 "@ + env.kid + " 的加密报文，但本机没有与之交换过密钥"@),
                        seen,
                    ),
                    Some(s) => {
                        let (plain, after) = opened(s, path, env, seen, now);
                        match plain {
                            Err(e) => (Err(e), after),
                            Ok(bytes) => if valid_utf8(bytes) {
                                (Ok(decode_utf8(bytes)), after)
                            } else {
                                (Err("解密结果不是 UTF-8 JSON"@), after)
                            },
                        }
                    },
                },
            }
        },
    }
}

fn read_envelope(value: &serde_json::Value) -> (r: Result<Envelope, String>)
    requires
        envelope_like((json_texts(*value), json_unsigned(*value), json_signed(*value))),
    ensures
        envelope_outcome(r) == envelope_of(
            (json_texts(*value), json_unsigned(*value), json_signed(*value)),
        ),
{
    let ts: i64 = match json_i64(value, "ts") {
        Some(Ok(ts)) => ts,
        Some(Err(e)) => {
            return Err(e);
        },
        None => {
            return Err("missing field `ts`".to_string());
        },
    };
    match (json_text(value, "kid"), json_text(value, "n"), json_text(value, "ct")) {
        (Some(kid), Some(n), Some(ct)) => Ok(Envelope { v: ENVELOPE_V, kid, ts, n, ct }),
        _ => Err("missing field `ct`".to_string()),
    }
}

/// Reads a body at a given time. An envelope needs the secret shared with its sender; a plain
/// body is taken only where no usable secret is shared.
pub fn open_body_at(
    secret: Option<&str>,
    path: &str,
    raw: &str,
    seen: &mut Stamps,
    now: i64,
) -> (r: Result<String, String>)
    ensures
        text_outcome(r) == opened_body(opt_str(secret), path@, raw@, old(seen)@, now).0,
        final(seen)@ == opened_body(opt_str(secret), path@, raw@, old(seen)@, now).1,
{
    let value: serde_json::Value = match json_parse(raw) {
        Ok(v) => v,
        Err(e) => {
            let mut m: String = "body 不是合法 JSON: ".to_string();
            m.append(e.as_str());
            return Err(m);
        },
    };
    if !Envelope::looks_like(&value) {
        match secret {
            Some(s) => if secret_ok(s) {
                return Err(
                    "该对端已协商加密密钥，拒收明文报文（疑似降级/重放攻击）".to_string(),
                );
            },
            None => {},
        }
        return Ok(raw.to_string());
    }
    let env: Envelope = match read_envelope(&value) {
        Ok(env) => env,
        Err(e) => {
            let mut m: String = "信封结构非法: ".to_string();
            m.append(e.as_str());
            return Err(m);
        },
    };
    match secret {
        None => {
            let mut m: String = "收到 ".to_string();
            m.append(env.kid.as_str());
            m.append(" 的加密报文，但本机没有与之交换过密钥");
            Err(m)
        },
        Some(s) => match open_at(s, path, &env, seen, now) {
            Ok(plain) => match utf8_text(plain) {
                Some(text) => Ok(text),
                None => Err("解密结果不是 UTF-8 JSON".to_string()),
            },
            Err(e) => Err(e),
        },
    }
}

/// Reads a body at the time of the system clock.
pub fn open_body(secret: Option<&str>, path: &str, raw: &str, seen: &mut Stamps) -> (r: Result<
    String,
    String,
>)
    ensures
        exists|now: i64|
            #![trigger opened_body(opt_str(secret), path@, raw@, old(seen)@, now)]
            text_outcome(r) == opened_body(opt_str(secret), path@, raw@, old(seen)@, now).0
                && final(seen)@ == opened_body(opt_str(secret), path@, raw@, old(seen)@, now).1,
{
    let now: i64 = clock().secs;
    open_body_at(secret, path, raw, seen, now)
}

/// The sender of a body that is an envelope.
pub open spec fn body_sender(raw: Seq<char>) -> Option<Seq<char>> {
    match json_document(raw) {
        Ok(doc) => if envelope_like(doc) {
            Some(doc.0["kid"@])
        } else {
            None
        },
        Err(_) => None,
    }
}

/// The sender of a body that is an envelope, by which the receiver finds the secret.
pub fn envelope_kid(raw: &str) -> (r: Option<String>)
    ensures
        opt_text(r) == body_sender(raw@),
{
    match json_parse(raw) {
        Ok(value) => if Envelope::looks_like(&value) {
            json_text(&value, "kid")
        } else {
            None
        },
        Err(_) => None,
    }
}

// ---- safety codes and aliases ----

/// The input of the derivation of a safety code: both ids, the smaller one first.
pub open spec fn fingerprint_info(id_a: Seq<char>, id_b: Seq<char>) -> Seq<char> {
    if text_le(id_a, id_b) {
        id_a + "\n"@ + id_b
    } else {
        id_b + "\n"@ + id_a
    }
}

/// The safety code of two devices that share a secret: four upper-case hexadecimal digits.
pub open spec fn fingerprint_text(secret: Seq<char>, id_a: Seq<char>, id_b: Seq<char>) -> Option<
    Seq<char>,
> {
    let info = encode_utf8(fingerprint_info(id_a, id_b));
    if !is_secret(secret) || id_a.len() == 0 || id_b.len() == 0 || info.len() > MAX_HASH_INPUT {
        None
    } else {
        Some(
            upper_hex_text(
                hkdf_sha256_output(
                    encode_utf8(FINGERPRINT_DOMAIN@),
                    hex_decoded(encode_utf8(secret))->Ok_0,
                    info,
                    4,
                ).take(2),
            ),
        )
    }
}

/// The safety code of two devices that share a secret, to be compared by eye.
pub fn fingerprint(secret: &str, id_a: &str, id_b: &str) -> (r: Option<String>)
    ensures
        opt_text(r) == fingerprint_text(secret@, id_a@, id_b@),
        r matches Some(code) ==> code@.len() == 4 && forall|i: int|
            0 <= i < code@.len() ==> is_upper_hex(#[trigger] code@[i]),
{
    proof {
        lemma_no_bytes(id_a@);
        lemma_no_bytes(id_b@);
        lemma_domain_lengths();
    }
    if !secret_ok(secret) || id_a.as_bytes().len() == 0 || id_b.as_bytes().len() == 0 {
        return None;
    }
    proof {
        lemma_secret_decodes(secret@);
    }
    let first: &str = if le(id_a, id_b) { id_a } else { id_b };
    let second: &str = if le(id_a, id_b) { id_b } else { id_a };
    let ikm: Vec<u8> = match from_hex(secret) {
        Ok(b) => b,
        Err(_) => {
            return None;
        },
    };
    let mut info: String = first.to_string();
    info.append("\n");
    info.append(second);
    let info_bytes: &[u8] = info.as_str().as_bytes();
    if info_bytes.len() as u64 > MAX_HASH_INPUT {
        return None;
    }
    match hkdf_sha256(FINGERPRINT_DOMAIN.as_bytes(), ikm.as_slice(), info_bytes, 4) {
        Some(okm) => {
            assert(okm@.subrange(0, 2) =~= okm@.take(2));
            proof {
                lemma_upper_hex_alphabet(okm@.take(2));
            }
            Some(to_upper_hex(&okm.as_slice()[0..2]))
        },
        None => None,
    }
}

/// The name under which an unpaired device announces itself: eight hexadecimal digits that
/// depend on its id alone.
pub open spec fn alias_text(device_id: Seq<char>) -> Seq<char> {
    hex_text(sha256_digest(encode_utf8("aw-sync/alias/1\n"@ + device_id)).take(4))
}

/// The alias of a device, which does not show its host name.
pub fn hashed_alias(device_id: &str) -> (r: String)
    requires
        encode_utf8("aw-sync/alias/1\n"@ + device_id@).len() <= MAX_HASH_INPUT,
    ensures
        r@ == alias_text(device_id@),
        r@.len() == 8,
        forall|i: int| 0 <= i < r@.len() ==> is_lower_hex(#[trigger] r@[i]),
{
    let mut s: String = "aw-sync/alias/1\n".to_string();
    s.append(device_id);
    let digest: Vec<u8> = sha256(s.as_str().as_bytes());
    assert(digest@.subrange(0, 4) =~= digest@.take(4));
    proof {
        lemma_hex_text_alphabet(digest@.take(4));
    }
    to_hex(&digest.as_slice()[0..4])
}

/// The alias of a device; none where its id is too long to be hashed.
pub fn checked_alias(device_id: &str) -> (r: Option<String>)
    ensures
        opt_text(r) == (if encode_utf8("aw-sync/alias/1\n"@ + device_id@).len() <= MAX_HASH_INPUT {
            Some(alias_text(device_id@))
        } else {
            None
        }),
{
    let mut s: String = "aw-sync/alias/1\n".to_string();
    s.append(device_id);
    if s.as_str().as_bytes().len() as u64 <= MAX_HASH_INPUT {
        Some(hashed_alias(device_id))
    } else {
        None
    }
}

// ---- laws ----

/// Both devices compute the same safety code, whichever id comes first.
pub proof fn law_fingerprint_symmetric(secret: Seq<char>, id_a: Seq<char>, id_b: Seq<char>)
    ensures
        fingerprint_text(secret, id_a, id_b) == fingerprint_text(secret, id_b, id_a),
{
    lemma_text_le_total(id_a, id_b);
    if text_le(id_a, id_b) && text_le(id_b, id_a) {
        lemma_text_le_antisymmetric(id_a, id_b);
    }
}

/// A safety code is missing exactly without a usable secret or without an id, as long as the ids
/// are short enough to be hashed; else it is made of upper-case hexadecimal digits.
pub proof fn law_safety_code_exists(secret: Seq<char>, id_a: Seq<char>, id_b: Seq<char>)
    ensures
        encode_utf8(fingerprint_info(id_a, id_b)).len() <= MAX_HASH_INPUT ==> (fingerprint_text(
            secret,
            id_a,
            id_b,
        ) is None <==> !is_secret(secret) || id_a.len() == 0 || id_b.len() == 0),
        fingerprint_text(secret, id_a, id_b) matches Some(code) ==> forall|i: int|
            0 <= i < code.len() ==> is_upper_hex(#[trigger] code[i]),
{
    let info = encode_utf8(fingerprint_info(id_a, id_b));
    lemma_upper_hex_alphabet(
        hkdf_sha256_output(
            encode_utf8(FINGERPRINT_DOMAIN@),
            hex_decoded(encode_utf8(secret))->Ok_0,
            info,
            4,
        ).take(2),
    );
}

/// A body is always prepared within the limits: as it is without a usable secret, and else as
/// an envelope.
pub proof fn law_body_is_prepared(
    secret: Option<Seq<char>>,
    path: Seq<char>,
    self_id: Seq<char>,
    plaintext: Seq<char>,
    nonce: Seq<u8>,
    ts: i64,
)
    ensures
        within_limits(path, self_id, plaintext) ==> sealed_body(
            secret,
            path,
            self_id,
            plaintext,
            nonce,
            ts,
        ) is Ok,
        !(secret is Some && is_secret(secret->0)) ==> sealed_body(
            secret,
            path,
            self_id,
            plaintext,
            nonce,
            ts,
        ) == Outcome::<Seq<char>>::Ok(plaintext),
{
    if secret is Some && is_secret(secret->0) {
        lemma_secret_decodes(secret->0);
        assert(within_limits(path, self_id, plaintext) ==> encode_utf8(
            aad_text(path, self_id, ts as int),
        ).len() <= GCM_MAX_ASSOCIATED);
    }
}

/// A body that is no envelope is refused from a peer with whom a usable secret is shared.
pub proof fn law_downgrade_refused(
    secret: Seq<char>,
    path: Seq<char>,
    raw: Seq<char>,
    seen: Map<Seq<char>, i64>,
    now: i64,
)
    requires
        is_secret(secret),
        body_sender(raw) is None,
    ensures
        opened_body(Some(secret), path, raw, seen, now).0 is Err,
        opened_body(Some(secret), path, raw, seen, now).1 == seen,
{
}

/// Without a secret a plain body passes unchanged, and an envelope is refused.
pub proof fn law_without_secret(
    path: Seq<char>,
    raw: Seq<char>,
    seen: Map<Seq<char>, i64>,
    now: i64,
)
    requires
        json_document(raw) is Ok,
    ensures
        body_sender(raw) is None ==> opened_body(None, path, raw, seen, now) == (
            Outcome::<Seq<char>>::Ok(raw),
            seen,
        ),
        body_sender(raw) is Some ==> opened_body(None, path, raw, seen, now).0 is Err,
{
}

/// An envelope out of the time window, or of another version, is refused and leaves no trace.
pub proof fn law_stale_refused(
    secret: Seq<char>,
    path: Seq<char>,
    env: EnvelopeV,
    seen: Map<Seq<char>, i64>,
    now: i64,
)
    requires
        env.v != ENVELOPE_V || !in_window(now as int, env.ts as int),
    ensures
        opened(secret, path, env, seen, now).0 is Err,
        opened(secret, path, env, seen, now).1 == seen,
{
}

/// An envelope whose nonce was new within the window is refused whenever one of the same sender,
/// nonce and time comes again, whatever secret and path it is opened with: within the window as
/// a replay, outside it as stale.
pub proof fn law_replay_refused(
    secret: Seq<char>,
    path: Seq<char>,
    env: EnvelopeV,
    seen: Map<Seq<char>, i64>,
    now: i64,
    again_secret: Seq<char>,
    again_path: Seq<char>,
    again: EnvelopeV,
    later: i64,
)
    requires
        env.v == ENVELOPE_V,
        in_window(now as int, env.ts as int),
        !replayed(env.kid, env.n, seen, now as int),
        again.kid == env.kid,
        again.n == env.n,
        again.ts == env.ts,
    ensures
        opened(
            again_secret,
            again_path,
            again,
            opened(secret, path, env, seen, now).1,
            later,
        ).0 is Err,
{
}

/// A nonce stays remembered through every message that comes until its window is over.
pub proof fn law_nonces_kept(
    secret: Seq<char>,
    path: Seq<char>,
    env: EnvelopeV,
    seen: Map<Seq<char>, i64>,
    now: i64,
    key: Seq<char>,
)
    requires
        seen.contains_key(key),
        now - seen[key] <= TS_WINDOW_SECS,
    ensures
        opened(secret, path, env, seen, now).1.contains_pair(key, seen[key]),
{
}

/// A message that comes: the secret and path it is opened with, its envelope, and when it comes.
pub struct ArrivalV {
    pub secret: Seq<char>,
    pub path: Seq<char>,
    pub env: EnvelopeV,
    pub at: i64,
}

/// The nonces remembered after some messages.
pub open spec fn seen_through(seen: Map<Seq<char>, i64>, list: Seq<ArrivalV>) -> Map<Seq<char>, i64>
    decreases list.len(),
{
    if list.len() == 0 {
        seen
    } else {
        let m = list.last();
        opened(m.secret, m.path, m.env, seen_through(seen, list.drop_last()), m.at).1
    }
}

/// Whether a nonce of a time stays remembered through some messages: while any of them comes,
/// its window is not over, or there are too few nonces for old ones to be dropped.
pub open spec fn stays_remembered(seen: Map<Seq<char>, i64>, list: Seq<ArrivalV>, ts: i64) -> bool {
    forall|i: int|
        0 <= i < list.len() ==> (#[trigger] list[i]).at - ts <= TS_WINDOW_SECS || seen_through(
            seen,
            list.take(i),
        ).dom().len() <= SEEN_LIMIT
}

proof fn lemma_kept_through(seen: Map<Seq<char>, i64>, list: Seq<ArrivalV>, key: Seq<char>)
    requires
        seen.contains_key(key),
        stays_remembered(seen, list, seen[key]),
    ensures
        seen_through(seen, list).contains_pair(key, seen[key]),
    decreases list.len(),
{
    if list.len() > 0 {
        let rest = list.drop_last();
        assert forall|i: int| 0 <= i < rest.len() implies (#[trigger] rest[i]).at - seen[key]
            <= TS_WINDOW_SECS || seen_through(seen, rest.take(i)).dom().len() <= SEEN_LIMIT by {
            assert(rest[i] == list[i]);
            assert(rest.take(i) =~= list.take(i));
        }
        lemma_kept_through(seen, rest, key);
        let m = list.last();
        assert(list[list.len() - 1] == m);
        assert(list.take(list.len() - 1) =~= rest);
    }
}

/// An envelope is taken once: however many messages come in between, one of the same sender,
/// nonce and time is refused. Left out is only that it comes within its window although the
/// clock, set back since, was past the window before, when so many nonces were remembered that
/// old ones were dropped.
pub proof fn law_taken_once(
    first: ArrivalV,
    seen: Map<Seq<char>, i64>,
    between: Seq<ArrivalV>,
    again: ArrivalV,
)
    requires
        opened(first.secret, first.path, first.env, seen, first.at).0 is Ok,
        again.env.kid == first.env.kid,
        again.env.n == first.env.n,
        again.env.ts == first.env.ts,
        in_window(again.at as int, again.env.ts as int) ==> stays_remembered(
            opened(first.secret, first.path, first.env, seen, first.at).1,
            between,
            first.env.ts,
        ),
    ensures
        ({
            let after = opened(first.secret, first.path, first.env, seen, first.at).1;
            opened(
                again.secret,
                again.path,
                again.env,
                seen_through(after, between),
                again.at,
            ).0 is Err
        }),
{
    let after = opened(first.secret, first.path, first.env, seen, first.at).1;
    if in_window(again.at as int, again.env.ts as int) {
        lemma_kept_through(after, between, nonce_key(first.env.kid, first.env.n));
    }
}

/// Whether a text is a single line.
pub open spec fn one_line(s: Seq<char>) -> bool {
    !s.contains('\n')
}

proof fn lemma_first_line(a: Seq<char>, rest_a: Seq<char>, b: Seq<char>, rest_b: Seq<char>)
    requires
        one_line(a),
        one_line(b),
        a + "\n"@ + rest_a == b + "\n"@ + rest_b,
    ensures
        a == b,
        rest_a == rest_b,
{
    reveal_strlit("\n");
    assert("\n"@.len() == 1 && "\n"@[0] == '\n');
    let s = a + "\n"@ + rest_a;
    let t = b + "\n"@ + rest_b;
    assert(s[a.len() as int] == '\n');
    assert(t[b.len() as int] == '\n');
    if a.len() < b.len() {
        assert(t[a.len() as int] == b[a.len() as int]);
        assert(b.contains('\n'));
    }
    if b.len() < a.len() {
        assert(s[b.len() as int] == a[b.len() as int]);
        assert(a.contains('\n'));
    }
    assert(a =~= s.take(a.len() as int));
    assert(b =~= t.take(b.len() as int));
    assert(rest_a =~= s.skip(a.len() as int + 1));
    assert(rest_b =~= t.skip(b.len() as int + 1));
}

/// The data that is authenticated with a message tells path, sender and time apart: where any
/// of them differs, so does it. Paths and ids are single lines.
pub proof fn law_context_is_bound(
    path_a: Seq<char>,
    kid_a: Seq<char>,
    ts_a: int,
    path_b: Seq<char>,
    kid_b: Seq<char>,
    ts_b: int,
)
    requires
        one_line(path_a),
        one_line(path_b),
        one_line(kid_a),
        one_line(kid_b),
        aad_text(path_a, kid_a, ts_a) == aad_text(path_b, kid_b, ts_b),
    ensures
        path_a == path_b,
        kid_a == kid_b,
        ts_a == ts_b,
{
    let head = DOMAIN@ + "\n"@;
    let tail_a = path_a + "\n"@ + (kid_a + "\n"@ + decimal(ts_a));
    let tail_b = path_b + "\n"@ + (kid_b + "\n"@ + decimal(ts_b));
    assert(aad_text(path_a, kid_a, ts_a) =~= head + tail_a);
    assert(aad_text(path_b, kid_b, ts_b) =~= head + tail_b);
    assert(tail_a =~= (head + tail_a).skip(head.len() as int));
    assert(tail_b =~= (head + tail_b).skip(head.len() as int));
    lemma_first_line(
        path_a,
        kid_a + "\n"@ + decimal(ts_a),
        path_b,
        kid_b + "\n"@ + decimal(ts_b),
    );
    lemma_first_line(kid_a, decimal(ts_a), kid_b, decimal(ts_b));
    law_decimal_injective(ts_a, ts_b);
}

/// Bytes read back from their hexadecimal digits of either case. Digits of an odd number are
/// refused, and so is what is no digit.
pub proof fn law_hex_reads_back(bytes: Seq<u8>, b: Seq<u8>)
    ensures
        hex_decoded(encode_utf8(hex_text(bytes))) == Outcome::<Seq<u8>>::Ok(bytes),
        hex_decoded(encode_utf8(upper_hex_text(bytes))) == Outcome::<Seq<u8>>::Ok(bytes),
        b.len() % 2 != 0 ==> hex_decoded(b) is Err,
        (exists|i: int| 0 <= i < b.len() && hex_value(#[trigger] b[i]) is None) ==> hex_decoded(b)
            is Err,
{
    lemma_hex_digits(bytes, hex_text(bytes));
    lemma_hex_digits(bytes, upper_hex_text(bytes));
}

proof fn lemma_hex_digits(bytes: Seq<u8>, s: Seq<char>)
    requires
        s == hex_text(bytes) || s == upper_hex_text(bytes),
    ensures
        hex_decoded(encode_utf8(s)) == Outcome::<Seq<u8>>::Ok(bytes),
{
    assert forall|i: int| 0 <= i < s.len() implies (#[trigger] s[i] as int) < 128 by {}
    assert(is_ascii_chars(s));
    is_ascii_chars_encode_utf8(s);
    let b = encode_utf8(s);
    assert(b.len() == 2 * bytes.len());
    assert forall|i: int| 0 <= i < b.len() implies hex_value(#[trigger] b[i]) is Some by {
        assert(b[i] == s[i] as u8);
    }
    assert forall|i: int| 0 <= i < bytes.len() implies (16 * hex_value(b[2 * i])->0 + hex_value(
        b[2 * i + 1],
    )->0) as u8 == #[trigger] bytes[i] by {
        assert(b[2 * i] == s[2 * i] as u8);
        assert(b[2 * i + 1] == s[2 * i + 1] as u8);
        assert((2 * i) / 2 == i && (2 * i + 1) / 2 == i);
        assert((2 * i) % 2 == 0 && (2 * i + 1) % 2 == 1);
        assert(hex_value(b[2 * i]) == Some(bytes[i] as int / 16));
        assert(hex_value(b[2 * i + 1]) == Some(bytes[i] as int % 16));
    }
    assert(hex_decoded(b)->Ok_0 =~= bytes);
}

/// A secret is usable where it is sixty-four digits, each of which is a lower-case hexadecimal
/// one; and the digits of thirty-two bytes are usable.
pub proof fn law_usable_secrets(s: Seq<char>, bytes: Seq<u8>)
    ensures
        s.len() != 64 ==> !is_secret(s),
        (exists|i: int|
            0 <= i < s.len() && !('0' <= #[trigger] s[i] <= '9' || 'a' <= s[i] <= 'f'))
            ==> !is_secret(s),
        bytes.len() == 32 ==> is_secret(hex_text(bytes)),
{
    lemma_hex_text_alphabet(bytes);
}

/// A time counts as close where it lies no more than five minutes before or after the clock.
pub proof fn law_window_is_five_minutes(now: int, ts: int)
    ensures
        in_window(now, ts) <==> now - 300 <= ts <= now + 300,
{
}

/// An envelope that is sealed tells its sender, its time, its version and its nonce; and its
/// ciphertext is that of the plaintext under the key for the path, bound to path, sender and
/// time.
pub proof fn law_envelope_tells_its_origin(
    secret: Seq<char>,
    path: Seq<char>,
    self_id: Seq<char>,
    plaintext: Seq<u8>,
    nonce: Seq<u8>,
    ts: i64,
)
    ensures
        sealed(secret, path, self_id, plaintext, nonce, ts) matches Ok(env) ==> {
            &&& env.v == 1
            &&& env.kid == self_id
            &&& env.ts == ts
            &&& env.n == base64_text(nonce)
            &&& derived_key(secret, path) is Ok
            &&& env.ct == base64_text(
                gcm_sealed(
                    derived_key(secret, path)->Ok_0,
                    nonce,
                    encode_utf8(
                        "aw-sync/1"@ + "\n"@ + path + "\n"@ + self_id + "\n"@ + decimal(ts as int),
                    ),
                    plaintext,
                ),
            )
        },
        derived_key(secret, path) is Err ==> sealed(secret, path, self_id, plaintext, nonce, ts)
            is Err,
{
}

/// The key for a path is derived from the bytes of the secret and from the path; a usable secret
/// has one for every path that is short enough.
pub proof fn law_key_is_derived_for_the_path(secret: Seq<char>, path: Seq<char>)
    ensures
        derived_key(secret, path) matches Ok(key) ==> {
            &&& hex_decoded(encode_utf8(secret)) is Ok
            &&& (hex_decoded(encode_utf8(secret))->Ok_0).len() == 32
            &&& key == hkdf_sha256_output(
                encode_utf8("aw-sync/1"@),
                hex_decoded(encode_utf8(secret))->Ok_0,
                encode_utf8(path),
                32,
            )
        },
        is_secret(secret) && encode_utf8(path).len() <= MAX_HASH_INPUT ==> derived_key(
            secret,
            path,
        ) is Ok,
{
    if is_secret(secret) {
        lemma_secret_decodes(secret);
    }
}

/// An envelope is opened only where it is of this version, close to the clock, with a nonce that
/// was not seen, and where its ciphertext is authentic under the key for the path, for its path,
/// sender and time; and what comes out is what that ciphertext holds.
pub proof fn law_only_authentic_envelopes_open(
    secret: Seq<char>,
    path: Seq<char>,
    env: EnvelopeV,
    seen: Map<Seq<char>, i64>,
    now: i64,
)
    ensures
        opened(secret, path, env, seen, now).0 matches Ok(plain) ==> {
            &&& env.v == 1
            &&& now - 300 <= env.ts <= now + 300
            &&& seen.dom().len() <= SEEN_LIMIT ==> !seen.contains_key(env.kid + "\n"@ + env.n)
            &&& derived_key(secret, path) is Ok
            &&& base64_bytes(env.n) is Ok
            &&& (base64_bytes(env.n)->Ok_0).len() == 12
            &&& base64_bytes(env.ct) is Ok
            &&& gcm_opened(
                derived_key(secret, path)->Ok_0,
                base64_bytes(env.n)->Ok_0,
                encode_utf8(
                    "aw-sync/1"@ + "\n"@ + path + "\n"@ + env.kid + "\n"@ + decimal(env.ts as int),
                ),
                base64_bytes(env.ct)->Ok_0,
            ) == Some(plain)
            &&& opened(secret, path, env, seen, now).1.contains_pair(
                env.kid + "\n"@ + env.n,
                env.ts,
            )
        },
{
}

/// A nonce is taken for a replay where it was noted for the same sender; one of another sender,
/// or another one of the same sender, is not. Ids are single lines.
pub proof fn law_replay_is_of_the_same_sender(
    kid: Seq<char>,
    nonce: Seq<char>,
    ts: i64,
    seen: Map<Seq<char>, i64>,
    now: int,
    other_kid: Seq<char>,
    other_nonce: Seq<char>,
)
    requires
        one_line(kid),
        one_line(other_kid),
        seen.dom().finite(),
        seen.dom().len() < SEEN_LIMIT,
    ensures
        replayed(kid, nonce, seen_after(kid, nonce, ts, seen, now), now),
        kid != other_kid || nonce != other_nonce ==> (replayed(
            other_kid,
            other_nonce,
            seen_after(kid, nonce, ts, seen, now),
            now,
        ) <==> replayed(other_kid, other_nonce, seen, now)),
        !seen.contains_key(kid + "\n"@ + nonce) ==> !replayed(kid, nonce, seen, now),
{
    if nonce_key(kid, nonce) == nonce_key(other_kid, other_nonce) {
        lemma_first_line(kid, nonce, other_kid, other_nonce);
    }
}

/// Once so many nonces are remembered that old ones are dropped, those that stay are of messages
/// that are not past their window.
pub proof fn law_old_nonces_are_dropped(
    kid: Seq<char>,
    nonce: Seq<char>,
    ts: i64,
    seen: Map<Seq<char>, i64>,
    now: int,
    key: Seq<char>,
)
    requires
        seen.dom().len() > SEEN_LIMIT,
        key != kid + "\n"@ + nonce,
    ensures
        seen_after(kid, nonce, ts, seen, now).contains_key(key) <==> seen.contains_key(key) && now
            - seen[key] <= 300,
{
}

/// The members that make up an envelope: its version, a sender that is not empty, a nonce and a
/// ciphertext; what lacks one of them is no envelope. Its parts are these members, and its time
/// is the whole number under its key, without which it is refused.
pub proof fn law_members_make_up_an_envelope(doc: JsonMembers)
    ensures
        envelope_like(doc) <==> doc.1.contains_key("v"@) && doc.1["v"@] == 1 && doc.0.contains_key(
            "kid"@,
        ) && doc.0["kid"@].len() > 0 && doc.0.contains_key("n"@) && doc.0.contains_key("ct"@),
        envelope_of(doc) matches Ok(env) ==> {
            &&& env.v == 1
            &&& env.kid == doc.0["kid"@]
            &&& env.n == doc.0["n"@]
            &&& env.ct == doc.0["ct"@]
            &&& doc.2.contains_key("ts"@)
            &&& doc.2["ts"@] == Ok::<i64, Seq<char>>(env.ts)
        },
        !doc.2.contains_key("ts"@) ==> envelope_of(doc) is Err,
{
}

/// The sender of a body is the one that its envelope names; a body that is none has no sender.
pub proof fn law_sender_is_named_in_the_envelope(raw: Seq<char>)
    ensures
        json_document(raw) is Err ==> body_sender(raw) is None,
        json_document(raw) matches Ok(doc) ==> {
            &&& envelope_like(doc) ==> body_sender(raw) == Some(doc.0["kid"@])
            &&& !envelope_like(doc) ==> body_sender(raw) is None
        },
{
}

/// With a usable secret a body is never sent as it is: what is sent is the envelope of it, sealed
/// with that secret for the path, from this device and at that time.
pub proof fn law_body_is_sealed_with_the_secret(
    secret: Seq<char>,
    path: Seq<char>,
    self_id: Seq<char>,
    plaintext: Seq<char>,
    nonce: Seq<u8>,
    ts: i64,
)
    requires
        is_secret(secret),
    ensures
        sealed_body(Some(secret), path, self_id, plaintext, nonce, ts) matches Ok(body) ==> {
            &&& sealed(secret, path, self_id, encode_utf8(plaintext), nonce, ts) matches Ok(env)
            &&& body == json_envelope(1, self_id, ts, env.n, env.ct)
        },
        sealed_body(Some(secret), path, self_id, plaintext, nonce, ts) is Err <==> sealed(
            secret,
            path,
            self_id,
            encode_utf8(plaintext),
            nonce,
            ts,
        ) is Err,
{
}

/// A received envelope that is opened gives the text that its ciphertext holds; what is no
/// text is refused, and what fails to open is.
pub proof fn law_received_envelope_gives_its_text(
    secret: Seq<char>,
    path: Seq<char>,
    raw: Seq<char>,
    seen: Map<Seq<char>, i64>,
    now: i64,
)
    requires
        body_sender(raw) is Some,
    ensures
        opened_body(Some(secret), path, raw, seen, now).0 matches Ok(text) ==> {
            &&& envelope_of(json_document(raw)->Ok_0) matches Ok(env)
            &&& opened(secret, path, env, seen, now).0 matches Ok(bytes)
            &&& valid_utf8(bytes)
            &&& text == decode_utf8(bytes)
        },
        envelope_of(json_document(raw)->Ok_0) matches Ok(env) ==> opened_body(
            Some(secret),
            path,
            raw,
            seen,
            now,
        ).1 == opened(secret, path, env, seen, now).1,
{
}

/// A safety code comes of the secret and of both ids, the lesser one first, each on a line.
pub proof fn law_safety_code_is_of_both(secret: Seq<char>, id_a: Seq<char>, id_b: Seq<char>)
    ensures
        text_le(id_a, id_b) ==> (fingerprint_text(secret, id_a, id_b) matches Some(code) ==> code
            == upper_hex_text(
            hkdf_sha256_output(
                encode_utf8("aw-sync/fp/1"@),
                hex_decoded(encode_utf8(secret))->Ok_0,
                encode_utf8(id_a + "\n"@ + id_b),
                4,
            ).take(2),
        )),
        text_le(id_a, id_b) ==> fingerprint_info(id_b, id_a) == id_a + "\n"@ + id_b,
{
    law_fingerprint_symmetric(secret, id_a, id_b);
    if text_le(id_b, id_a) && text_le(id_a, id_b) {
        lemma_text_le_antisymmetric(id_a, id_b);
    }
}

/// What a safety code comes of tells every two pairs of ids apart. Ids are single lines.
pub proof fn law_pairs_of_ids_differ(a: Seq<char>, b: Seq<char>, c: Seq<char>, d: Seq<char>)
    requires
        one_line(a) && one_line(b) && one_line(c) && one_line(d),
        fingerprint_info(a, b) == fingerprint_info(c, d),
    ensures
        (a == c && b == d) || (a == d && b == c),
{
    let (x, y) = if text_le(a, b) {
        (a, b)
    } else {
        (b, a)
    };
    let (z, w) = if text_le(c, d) {
        (c, d)
    } else {
        (d, c)
    };
    lemma_first_line(x, y, z, w);
}

/// An envelope that comes in its window with a nonce that was not seen uses up that nonce, also
/// where it does not open.
pub proof fn law_nonce_is_used_up(
    secret: Seq<char>,
    path: Seq<char>,
    env: EnvelopeV,
    seen: Map<Seq<char>, i64>,
    now: i64,
)
    requires
        env.v == 1,
        now - 300 <= env.ts <= now + 300,
        !seen.contains_key(env.kid + "\n"@ + env.n),
    ensures
        opened(secret, path, env, seen, now).1.contains_pair(env.kid + "\n"@ + env.n, env.ts),
        opened(secret, path, env, seen, now).0 == deciphered(secret, path, env),
{
}

/// What the ciphertext of an envelope comes to: without a key, a nonce of twelve bytes or a
/// ciphertext that holds a tag it does not open, and else it opens exactly where it is authentic.
pub proof fn law_deciphering(secret: Seq<char>, path: Seq<char>, env: EnvelopeV)
    ensures
        derived_key(secret, path) is Err ==> deciphered(secret, path, env) is Err,
        base64_bytes(env.n) is Err ==> deciphered(secret, path, env) is Err,
        (base64_bytes(env.n) matches Ok(n) && n.len() != 12) ==> deciphered(secret, path, env)
            is Err,
        base64_bytes(env.ct) is Err ==> deciphered(secret, path, env) is Err,
        (base64_bytes(env.ct) matches Ok(ct) && ct.len() < 16) ==> deciphered(secret, path, env)
            is Err,
        (derived_key(secret, path) is Ok && (base64_bytes(env.n) matches Ok(n) && n.len() == 12) && (
        base64_bytes(env.ct) matches Ok(ct) && ct.len() >= 16)) ==> ({
            let plain = gcm_opened(
                derived_key(secret, path)->Ok_0,
                base64_bytes(env.n)->Ok_0,
                encode_utf8(
                    "aw-sync/1"@ + "\n"@ + path + "\n"@ + env.kid + "\n"@ + decimal(env.ts as int),
                ),
                base64_bytes(env.ct)->Ok_0,
            );
            &&& plain is None ==> deciphered(secret, path, env) is Err
            &&& plain is Some ==> deciphered(secret, path, env) == Outcome::<Seq<u8>>::Ok(plain->0)
        }),
{
}

} // verus!
