//! Sealing and opening of messages.

use aw_sync::crypto::{
    aad, checked_alias, derive_key, envelope_kid, fingerprint, from_hex, generate_secret,
    hashed_alias, open, open_at, open_body, open_body_at, seal, seal_body, seal_body_with,
    seal_with, secret_ok, Envelope, PATH_PUSH, PATH_SNAPSHOT, SEEN_LIMIT, TS_WINDOW_SECS,
};
use aw_sync::stamps::{Stamps, Table};
use base64::Engine;

/// The bytes 0 to 31 in hexadecimal notation.
const SECRET: &str = "000102030405060708090a0b0c0d0e0f101112131415161718191a1b1c1d1e1f";
const NONCE: [u8; 12] = [0, 1, 2, 3, 4, 5, 6, 7, 8, 9, 10, 11];
const TS: i64 = 1_700_000_000;

fn dev_id(tag: &str) -> String {
    format!("device-{tag}")
}

fn nothing_seen() -> Stamps {
    Table::new()
}

fn b64(bytes: &[u8]) -> String {
    base64::engine::general_purpose::STANDARD.encode(bytes)
}

fn json(text: &str) -> serde_json::Value {
    serde_json::from_str(text).unwrap()
}

#[test]
fn seal_open_roundtrip() {
    let secret = generate_secret();
    assert!(secret_ok(&secret));
    let msg = b"{\"activity\":\"hello\"}";
    let env = seal(&secret, PATH_PUSH, "a", msg).unwrap();
    assert!(Envelope::looks_like(&json(&env.to_json_string())));
    let out = open(&secret, PATH_PUSH, &env, &mut nothing_seen()).unwrap();
    assert_eq!(out, msg);
}

#[test]
fn wrong_secret_or_wrong_path_fails() {
    let mut seen = nothing_seen();
    let secret = generate_secret();
    let other = generate_secret();
    let env = seal(&secret, PATH_PUSH, "a", b"x".as_slice()).unwrap();
    assert!(open(&other, PATH_PUSH, &env, &mut seen).is_err());
    assert!(open(&secret, PATH_SNAPSHOT, &env, &mut seen).is_err());
    // Not only because the nonce was used up.
    assert!(open(&secret, PATH_SNAPSHOT, &env, &mut nothing_seen()).is_err());
    assert!(open(&secret, PATH_PUSH, &env, &mut nothing_seen()).is_ok());
}

#[test]
fn tampered_ciphertext_and_kid_rejected() {
    let mut seen = nothing_seen();
    let secret = generate_secret();
    let mut env = seal(&secret, PATH_PUSH, "a", b"payload".as_slice()).unwrap();
    env.ct = b64(&[0u8; 16]);
    let good = seal(&secret, PATH_PUSH, "b", b"payload".as_slice()).unwrap();
    assert!(open(&secret, PATH_PUSH, &env, &mut seen).is_err(), "篡改密文必须失败");
    let mut rerouted = seal(&secret, PATH_PUSH, "c", b"payload".as_slice()).unwrap();
    rerouted.kid = dev_id("spoofed");
    assert!(open(&secret, PATH_PUSH, &rerouted, &mut seen).is_err(), "改写 kid 必须失败");
    assert!(open(&secret, PATH_PUSH, &good, &mut seen).is_ok());
}

#[test]
fn replay_within_window_rejected() {
    let mut seen = nothing_seen();
    let secret = generate_secret();
    let env = seal(&secret, PATH_PUSH, "replay-a", b"one-shot".as_slice()).unwrap();
    assert!(open(&secret, PATH_PUSH, &env, &mut seen).is_ok());
    assert!(
        open(&secret, PATH_PUSH, &env, &mut seen).is_err(),
        "同一 nonce 在时间窗内重放必须被拒"
    );
}

#[test]
fn stale_timestamp_rejected() {
    let secret = generate_secret();
    let mut env = seal(&secret, PATH_PUSH, "stale-a", b"x".as_slice()).unwrap();
    env.ts -= TS_WINDOW_SECS * 2;
    assert!(
        open(&secret, PATH_PUSH, &env, &mut nothing_seen()).is_err(),
        "过期时间戳必须失败"
    );
}

#[test]
fn fingerprint_is_symmetric_and_short() {
    let secret = generate_secret();
    let a = dev_id("aaa");
    let b = dev_id("bbb");
    let fa = fingerprint(&secret, &a, &b).unwrap();
    let fb = fingerprint(&secret, &b, &a).unwrap();
    assert_eq!(fa, fb, "两端必须算出同一个安全码");
    assert_eq!(fa.len(), 4);
    assert!(fa.chars().all(|c| c.is_ascii_hexdigit() && !c.is_ascii_lowercase()));
    assert_ne!(fa, fingerprint(&generate_secret(), &a, &b).unwrap());
    assert!(fingerprint("tooshort", &a, &b).is_none());
}

#[test]
fn hashed_alias_hides_hostname() {
    let alias = hashed_alias("some-device-id");
    assert_eq!(alias.len(), 8);
    assert_eq!(alias, hashed_alias("some-device-id"));
    assert_ne!(alias, hashed_alias("other-device-id"));
}

#[test]
fn body_fallback_and_downgrade_rejected() {
    let mut seen = nothing_seen();
    let secret = generate_secret();
    let plain = "{\"activity\":\"{}\"}";
    assert_eq!(seal_body(None, PATH_PUSH, "a", plain).unwrap(), plain);
    let sealed = seal_body(Some(&secret), PATH_PUSH, "a", plain).unwrap();
    assert_ne!(sealed, plain);
    assert!(!sealed.contains("activity"));
    assert_eq!(open_body(Some(&secret), PATH_PUSH, &sealed, &mut seen).unwrap(), plain);
    assert!(open_body(Some(&secret), PATH_PUSH, plain, &mut seen).is_err());
    assert_eq!(open_body(None, PATH_PUSH, plain, &mut seen).unwrap(), plain);
    assert!(
        open_body(None, PATH_PUSH, &sealed, &mut seen).is_err(),
        "没有密钥却收到信封，解不开"
    );
}

#[test]
fn envelope_detection_does_not_match_snapshot_json() {
    let snap = json(r#"{"source_device": {"id": "x"}, "inbox": "{}"}"#);
    assert!(!Envelope::looks_like(&snap));
    let bad = json(r#"{"v": 1, "kid": "x", "n": "eA==", "ct": "eA==", "ts": 1}"#);
    assert!(Envelope::looks_like(&bad));
    assert!(!Envelope::looks_like(&json(r#"{"v": 2, "kid": "x"}"#)));
}

#[test]
fn sealing_is_the_agreed_construction() {
    // HKDF-SHA256 with the salt "aw-sync/1" and the path, then AES-256-GCM.
    let key = derive_key(SECRET, PATH_PUSH).unwrap();
    assert_eq!(
        key,
        from_hex("b69c003bd08499600b249ad5f52f6ee1daf67e4923d7acfc7dcb81c2b90560fc").unwrap()
    );
    let env = seal_with(SECRET, PATH_PUSH, "device-a", b"{\"a\":1}", &NONCE, TS).unwrap();
    assert_eq!(env.v, 1);
    assert_eq!(env.kid, "device-a");
    assert_eq!(env.ts, TS);
    assert_eq!(env.n, "AAECAwQFBgcICQoL");
    assert_eq!(env.ct, "sr7g2s2WhhIW2Bc6tM4OG1deno1rY8Y=");
    assert_eq!(
        env.to_json_string(),
        "{\"v\":1,\"kid\":\"device-a\",\"ts\":1700000000,\"n\":\"AAECAwQFBgcICQoL\",\
         \"ct\":\"sr7g2s2WhhIW2Bc6tM4OG1deno1rY8Y=\"}"
    );
    let back = open_at(SECRET, PATH_PUSH, &env, &mut nothing_seen(), TS).unwrap();
    assert_eq!(back, b"{\"a\":1}");
}

#[test]
fn authenticated_data_names_path_sender_and_time() {
    assert_eq!(
        aad(PATH_PUSH, "device-a", TS),
        "aw-sync/1\n/api/0/sync/push\ndevice-a\n1700000000"
    );
    assert_eq!(aad("/p", "k", -5), "aw-sync/1\n/p\nk\n-5");
}

#[test]
fn safety_code_and_alias_have_fixed_values() {
    assert_eq!(fingerprint(SECRET, "device-a", "device-b").unwrap(), "9975");
    assert_eq!(fingerprint(SECRET, "device-b", "device-a").unwrap(), "9975");
    assert_eq!(hashed_alias("some-device-id"), "eb88851d");
    assert_eq!(checked_alias("some-device-id").unwrap(), "eb88851d");
    assert!(fingerprint(SECRET, "", "device-b").is_none());
}

#[test]
fn secrets_are_sixty_four_lower_hex_digits() {
    assert!(secret_ok(SECRET));
    assert!(!secret_ok(&SECRET.to_uppercase()));
    assert!(!secret_ok(&SECRET[1..]));
    assert!(!secret_ok(""));
    assert!(!secret_ok(&"g".repeat(64)));
    assert_ne!(generate_secret(), generate_secret());
}

#[test]
fn hex_errors_are_told_apart() {
    assert_eq!(from_hex("0aFf").unwrap(), vec![0x0a, 0xff]);
    assert_eq!(from_hex("abc").unwrap_err(), "密钥 hex 长度非法");
    assert_eq!(from_hex("zz").unwrap_err(), "密钥含非 hex 字符");
    assert_eq!(derive_key("abcd", PATH_PUSH).unwrap_err(), "密钥长度不符");
}

#[test]
fn window_is_three_hundred_seconds_either_way() {
    let env = seal_with(SECRET, PATH_PUSH, "a", b"x", &NONCE, TS).unwrap();
    for now in [TS - 300, TS, TS + 300] {
        assert!(open_at(SECRET, PATH_PUSH, &env, &mut nothing_seen(), now).is_ok());
    }
    for now in [TS - 301, TS + 301] {
        assert!(open_at(SECRET, PATH_PUSH, &env, &mut nothing_seen(), now).is_err());
    }
}

#[test]
fn replay_is_refused_until_the_window_has_passed() {
    let env = seal_with(SECRET, PATH_PUSH, "a", b"x", &NONCE, TS).unwrap();
    let mut seen = nothing_seen();
    assert!(open_at(SECRET, PATH_PUSH, &env, &mut seen, TS).is_ok());
    assert!(open_at(SECRET, PATH_PUSH, &env, &mut seen, TS + 299).is_err());
    // The same nonce of another sender is another message.
    let other = seal_with(SECRET, PATH_PUSH, "b", b"x", &NONCE, TS).unwrap();
    assert!(open_at(SECRET, PATH_PUSH, &other, &mut seen, TS + 1).is_ok());
    // Messages in between do not make it forgotten.
    assert!(open_at(SECRET, PATH_PUSH, &env, &mut seen, TS + 2).is_err());
}

#[test]
fn full_memory_keeps_nonces_to_the_end_of_the_window() {
    let env = seal_with(SECRET, PATH_PUSH, "a", b"x", &NONCE, TS).unwrap();
    let mut seen = nothing_seen();
    for i in 0..=SEEN_LIMIT {
        seen.insert(&format!("old\n{i}"), TS - 1);
    }
    assert!(open_at(SECRET, PATH_PUSH, &env, &mut seen, TS).is_ok());
    assert_eq!(seen.len(), SEEN_LIMIT + 2);
    let again = open_at(SECRET, PATH_PUSH, &env, &mut seen, TS + 300).unwrap_err();
    assert_eq!(again, "检测到重放：相同 nonce 在时间窗内已出现过");
    // What is out of the window was dropped, the envelope's own nonce was not.
    assert_eq!(seen.len(), 1);
    assert!(open_at(SECRET, PATH_PUSH, &env, &mut seen, TS + 301).is_err());
}

#[test]
fn envelopes_are_taken_once_whatever_comes_between() {
    let env = seal_with(SECRET, PATH_PUSH, "a", b"x", &NONCE, TS).unwrap();
    let mut seen = nothing_seen();
    assert!(open_at(SECRET, PATH_PUSH, &env, &mut seen, TS - 300).is_ok());
    for i in 0..20u8 {
        let other = seal_with(SECRET, PATH_PUSH, "a", b"y", &[i + 100; 12], TS).unwrap();
        assert!(open_at(SECRET, PATH_PUSH, &other, &mut seen, TS).is_ok());
    }
    // A clock that is ahead and set back makes no difference while few nonces are remembered.
    let late = seal_with(SECRET, PATH_PUSH, "a", b"z", &[7; 12], TS + 600).unwrap();
    assert!(open_at(SECRET, PATH_PUSH, &late, &mut seen, TS + 600).is_ok());
    let mut changed = env.clone();
    changed.ct = b64(&[0; 17]);
    for now in [TS - 300, TS, TS + 300, TS + 301] {
        assert!(open_at(SECRET, PATH_PUSH, &env, &mut seen, now).is_err());
        assert!(open_at(SECRET, PATH_PUSH, &changed, &mut seen, now).is_err());
    }
}

#[test]
fn ciphertext_is_longer_by_the_tag() {
    let plain = "{\"名\":\"值\"}";
    let env = seal(SECRET, PATH_PUSH, "a", plain.as_bytes()).unwrap();
    let ct = base64::engine::general_purpose::STANDARD.decode(&env.ct).unwrap();
    assert_eq!(ct.len(), plain.len() + 16);
    assert_eq!(env.ct.len(), (ct.len() + 2) / 3 * 4);
    let body = seal_body(Some(SECRET), PATH_PUSH, "a", plain).unwrap();
    assert!(body.chars().count() > plain.chars().count());
    // An envelope that is sealed again is another text.
    let twice = seal_body(Some(SECRET), PATH_PUSH, "a", &body).unwrap();
    assert_ne!(twice, body);
    assert_eq!(envelope_kid(&twice).as_deref(), Some("a"));
}

#[test]
fn other_versions_and_broken_fields_are_refused() {
    let good = seal_with(SECRET, PATH_PUSH, "a", b"x", &NONCE, TS).unwrap();
    let mut v2 = good.clone();
    v2.v = 2;
    assert!(open_at(SECRET, PATH_PUSH, &v2, &mut nothing_seen(), TS).is_err());
    let mut n = good.clone();
    n.n = "!".to_string();
    assert!(open_at(SECRET, PATH_PUSH, &n, &mut nothing_seen(), TS).is_err());
    let mut short = good.clone();
    short.n = b64(&[1, 2, 3]);
    assert!(open_at(SECRET, PATH_PUSH, &short, &mut nothing_seen(), TS).is_err());
    let mut ct = good;
    ct.ct = b64(&[1, 2, 3]);
    assert!(open_at(SECRET, PATH_PUSH, &ct, &mut nothing_seen(), TS).is_err());
}

#[test]
fn bodies_are_sealed_only_with_a_usable_secret() {
    let plain = "{\"inbox\":\"x\"}";
    assert_eq!(seal_body_with(Some("bad"), PATH_PUSH, "a", plain, &NONCE, TS).unwrap(), plain);
    let sealed = seal_body_with(Some(SECRET), PATH_PUSH, "a", plain, &NONCE, TS).unwrap();
    assert_eq!(envelope_kid(&sealed).unwrap(), "a");
    assert_eq!(envelope_kid(plain), None);
    assert_eq!(envelope_kid("no json"), None);
    let mut seen = nothing_seen();
    let opened = open_body_at(Some(SECRET), PATH_PUSH, &sealed, &mut seen, TS);
    assert_eq!(opened.unwrap(), plain);
    let again = open_body_at(Some(SECRET), PATH_PUSH, &sealed, &mut seen, TS);
    assert!(again.is_err());
}

#[test]
fn body_errors_name_what_is_wrong() {
    let mut seen = nothing_seen();
    let e = open_body_at(None, PATH_PUSH, "{", &mut seen, TS).unwrap_err();
    assert!(e.starts_with("body 不是合法 JSON: "));
    let no_ts = r#"{"v":1,"kid":"a","n":"eA==","ct":"eA=="}"#;
    let e = open_body_at(Some(SECRET), PATH_PUSH, no_ts, &mut seen, TS).unwrap_err();
    assert_eq!(e, "信封结构非法: missing field `ts`");
    let text_ts = r#"{"v":1,"kid":"a","n":"eA==","ct":"eA==","ts":"soon"}"#;
    let e = open_body_at(Some(SECRET), PATH_PUSH, text_ts, &mut seen, TS).unwrap_err();
    assert!(e.starts_with("信封结构非法: "));
    let e = open_body_at(Some(SECRET), PATH_PUSH, "{}", &mut seen, TS).unwrap_err();
    assert_eq!(e, "该对端已协商加密密钥，拒收明文报文（疑似降级/重放攻击）");
    let foreign = seal_body_with(Some(SECRET), PATH_PUSH, "peer", "{}", &NONCE, TS).unwrap();
    let e = open_body_at(None, PATH_PUSH, &foreign, &mut seen, TS).unwrap_err();
    assert_eq!(e, "收到 peer 的加密报文，但本机没有与之交换过密钥");
}

#[test]
fn plaintext_that_is_no_text_is_refused() {
    let env = seal_with(SECRET, PATH_PUSH, "a", &[0xff, 0xfe], &NONCE, TS).unwrap();
    let body = env.to_json_string();
    let e = open_body_at(Some(SECRET), PATH_PUSH, &body, &mut nothing_seen(), TS).unwrap_err();
    assert_eq!(e, "解密结果不是 UTF-8 JSON");
}
