//! Pairing of two devices and the messages that they exchange.

use aw_sync::crypto::{generate_secret, secret_ok, PATH_PUSH, PATH_SNAPSHOT};
use aw_sync::endpoints::{
    add_device, body_text, config_save, d1_log_filter, device_alias, device_delete, device_merge,
    devices, devices_clear_all, devices_purge, discovery_burst, join, log_clear, logs, pair_confirm,
    pair_request, push, push_to, stale_days, DeviceItem, LogQuery, PushTo,
};
use aw_sync::manager::own::Host;
use aw_sync::manager::pairing::PairError;
use aw_sync::manager::SyncManager;
use aw_sync::models::{
    ApplyResult, Device, DeviceKind, PairCode, SyncDirection, SyncEventType, SyncProtocol,
    Timestamp,
};
use aw_sync::storage::{parse_device_kind, SyncDb};

fn now() -> Timestamp {
    let t = chrono::Utc::now();
    Timestamp { secs: t.timestamp(), nanos: t.timestamp_subsec_nanos() }
}

fn later(t: &Timestamp, secs: i64) -> Timestamp {
    Timestamp { secs: t.secs + secs, nanos: t.nanos }
}

fn manager(id: &str) -> SyncManager {
    SyncManager::new(SyncDb::new(), id.into())
}

fn host(name: &str) -> Host {
    Host { name: name.into(), kind: DeviceKind::Linux, ip: "127.0.0.1".into() }
}

fn json(text: &str) -> serde_json::Value {
    serde_json::from_str(text).unwrap()
}

/// An answer as it travels, as far as the secret is concerned.
fn answer(secret: &str) -> serde_json::Value {
    json(&format!("{{\"device_secret\":\"{secret}\"}}"))
}

fn phone(id: &str) -> Device {
    Device {
        id: id.into(),
        name: "Phone B".into(),
        device_kind: DeviceKind::Android,
        ip: "127.0.0.1".into(),
        port: 56001,
        paired_at: now(),
        last_sync_at: None,
        last_seen_at: None,
        is_online: true,
        is_self: false,
        paired: false,
        alias: None,
        device_secret: None,
        machine_uid: None,
    }
}

/// A code that is valid for some minutes.
fn code_at(m: &mut SyncManager, code: &str) {
    let t = now();
    m.create_pair_code(&PairCode {
        code: code.into(),
        created_at: t,
        expires_at: later(&t, 300),
    });
}

fn row<'a>(list: &'a [DeviceItem], id: &str) -> Option<&'a DeviceItem> {
    list.iter().find(|i| i.device.id == id)
}

/// The joining device brings the code of a host to that host.
fn pair_by_code(joiner: &mut SyncManager, owner: &mut SyncManager, code: &str, uid: &str) {
    let t = now();
    let uid = Some(uid.to_string());
    let mut seen = owner.self_device_info_at(&host("h"), &t);
    seen.is_self = false;
    add_device(joiner, seen);
    let me = joiner.self_device_info_at(&host("j"), &t);
    let owner_id = owner.self_id().to_string();
    let (msg, code) = joiner.join_remote(&owner_id, code, &me, &uid, &t).unwrap();
    let mut arriving = msg.me;
    assert!(arriving.is_self);
    let offered = arriving.device_secret.take();
    let tried = owner.join_with_code(&code, arriving);
    let got = join(owner, tried, &offered, generate_secret(), &host("h"), &uid, &t).unwrap();
    joiner.join_answered(&owner_id, &answer(&got.device_secret), &vec![got.peer], &t);
}

/// Reads a device as the front end sends it; the time of pairing has to be one.
fn device_in(payload: &serde_json::Value) -> Option<Device> {
    let d = payload.get("device")?;
    let text = |key: &str| d.get(key).and_then(|v| v.as_str()).map(str::to_string);
    let paired_at = parse_rfc3339(&text("paired_at")?)?;
    Some(Device {
        id: text("id")?,
        name: text("name")?,
        device_kind: parse_device_kind(&text("device_kind")?),
        ip: text("ip")?,
        port: d.get("port")?.as_u64()? as u16,
        paired_at,
        last_sync_at: None,
        last_seen_at: None,
        is_online: d.get("is_online")?.as_bool()?,
        is_self: d.get("is_self")?.as_bool()?,
        paired: false,
        alias: None,
        device_secret: None,
        machine_uid: None,
    })
}

fn parse_rfc3339(text: &str) -> Option<Timestamp> {
    let t = chrono::DateTime::parse_from_rfc3339(text).ok()?;
    Some(Timestamp { secs: t.timestamp(), nanos: t.timestamp_subsec_nanos() })
}

fn front_end_payload(code: &str, paired_at: &str) -> serde_json::Value {
    json(&format!(
        "{{\"code\":\"{code}\",\"device\":{{\"id\":\"phone-b\",\"name\":\"Phone B\",\
         \"device_kind\":\"android\",\"ip\":\"192.168.1.23\",\"port\":56001,\
         \"paired_at\":{paired_at},\"last_sync_at\":null,\"is_online\":true,\"is_self\":false}}}}"
    ))
}

#[test]
fn join_accepts_frontend_payload_and_rejects_null_paired_at() {
    let mut a = manager("machine-A");
    let t = now();
    code_at(&mut a, "123456");

    // Without a time of pairing it is no device, and the code is not spent.
    assert!(device_in(&front_end_payload("123456", "null")).is_none());
    assert!(a.db.validate_pair_code("123456"));

    let good = front_end_payload("123456", &format!("\"{}\"", chrono::Utc::now().to_rfc3339()));
    let code = good.get("code").unwrap().as_str().unwrap();
    let tried = a.join_with_code(code, device_in(&good).unwrap());
    let got = join(&mut a, tried, &None, generate_secret(), &host("a"), &None, &t).unwrap();
    assert_eq!(got.device.id, "phone-b");
    assert_eq!(got.peer.id, "machine-A");
    assert!(row(&devices(&a, &now()), "phone-b").is_some());
}

#[test]
fn join_with_foreign_code_returns_400_not_500() {
    let mut a = manager("machine-A");
    let mut b = manager("machine-B");
    let t = now();
    code_at(&mut a, "123456");

    // The code is known to its owner only.
    let dev_b = b.self_device_info(&host("b"));
    let tried = b.join_with_code("123456", dev_b);
    let wrong = join(&mut b, tried, &None, generate_secret(), &host("b"), &None, &t).unwrap_err();
    assert_eq!(wrong.status, 400);
    assert_eq!(wrong.error, "invalid_or_expired_code");

    let tried = a.join_with_code("123456", phone("phone-b"));
    assert!(join(&mut a, tried, &None, generate_secret(), &host("a"), &None, &t).is_ok());
}

#[test]
fn codes_let_one_device_join() {
    let mut a = manager("machine-A");
    let t = now();
    code_at(&mut a, "123456");
    let tried = a.join_with_code("123456", phone("phone-b"));
    let fresh = generate_secret();
    let got = join(&mut a, tried, &None, fresh.clone(), &host("a"), &None, &t).unwrap();
    assert_eq!(got.device.id, "phone-b");
    assert_eq!(got.peer.id, "machine-A");
    assert_eq!(got.device_secret, fresh);
    assert!(a.get_device("phone-b").unwrap().paired);
    let again = a.join_with_code("123456", phone("phone-b"));
    assert_eq!(again.unwrap_err(), PairError::InvalidOrExpiredCode);
    let failed = join(&mut a, Err(PairError::Db), &None, fresh, &host("a"), &None, &t).unwrap_err();
    assert_eq!((failed.status, failed.error, failed.message), (500, "internal", None));
}

#[test]
fn reinstall_offers_an_explicit_merge_but_changes_nothing_by_itself() {
    let uid = "0123456789abcdef";
    let mut a = manager("host-A");
    let mut old = manager("tablet-old");
    let mut new = manager("tablet-new");

    code_at(&mut a, "111111");
    pair_by_code(&mut old, &mut a, "111111", uid);
    code_at(&mut a, "222222");
    pair_by_code(&mut new, &mut a, "222222", uid);

    let list = devices(&a, &now());
    assert!(row(&list, "tablet-old").is_some() && row(&list, "tablet-new").is_some(), "系统不得自动折叠任何一行");
    assert_eq!(list.iter().filter(|i| !i.device.is_self).count(), 2);
    let cand = row(&list, "tablet-new").unwrap().merge_candidate.as_ref().unwrap();
    assert_eq!(cand.id, "tablet-old", "换了 id 的那行应被提示为同一台机器的重装");
    assert_eq!(cand.uid_hint, &uid[..8], "提示只给 8 个 hex，不给完整机器标识");
    assert!(row(&list, "tablet-old").unwrap().merge_candidate.is_none());

    // What anyone can read carries no fingerprint; the answer to a pairing message does.
    assert!(a.self_device_info(&host("a")).machine_uid.is_none());
    assert!(list.iter().all(|i| i.device.machine_uid.is_none() && i.device.device_secret.is_none()));
    code_at(&mut a, "333333");
    let mut probe = old.self_device_info(&host("old"));
    probe.id = "probe-x".into();
    probe.is_self = false;
    let tried = a.join_with_code("333333", probe);
    let got = join(&mut a, tried, &None, generate_secret(), &host("a"), &Some(uid.into()), &now()).unwrap();
    assert_eq!(
        got.peer.machine_uid.as_deref(),
        Some(uid),
        "配对响应必须回上本机指纹（四个配对方向都要记得到对方的指纹）"
    );

    let before = row(&list, "tablet-new").unwrap().fingerprint.clone();
    assert!(before.is_some());
    device_merge(&mut a, "tablet-old", "tablet-new", &now()).unwrap();
    let list = devices(&a, &now());
    assert!(row(&list, "tablet-old").is_none(), "旧行应从列表退场");
    let kept = row(&list, "tablet-new").expect("活着的这一行必须留下");
    assert!(kept.device.paired);
    assert_eq!(kept.fingerprint, before, "归并不动密钥：安全码得跟合并前一致");
    assert!(kept.merge_candidate.is_none(), "合并完不该还挂着提示");

    let why = device_merge(&mut a, "tablet-new", "tablet-old", &now()).unwrap_err();
    assert!(!why.is_empty(), "归并拒绝应带可读原因");

    let (discovered, paired) = devices_purge(&mut a, &json(r#"{"stale_days": 30}"#), now().secs);
    assert_eq!(discovered, 0);
    assert_eq!(paired, 0, "刚配好的设备不得被一键清理误删");
}

#[test]
fn request_and_confirmation_pair_both_sides() {
    let mut a = manager("pair-A");
    let mut b = manager("pair-B");
    let t = now();
    let mut b_seen = b.self_device_info_at(&host("b"), &t);
    b_seen.is_self = false;
    add_device(&mut a, b_seen);
    let mut a_seen = a.self_device_info_at(&host("a"), &t);
    a_seen.is_self = false;
    add_device(&mut b, a_seen);

    // A asks.
    let me = a.self_device_info_at(&host("a"), &t);
    let msg = a.initiate_pair("pair-B", &me, &None, "{}", &t).unwrap();
    assert_eq!(msg.url, "http://127.0.0.1:5600/api/0/sync/pair/request");
    let got = pair_request(&mut b, msg.me, generate_secret(), &host("b"), &None, &t);
    assert!(secret_ok(&got.device_secret));
    a.pair_answered("pair-B", &answer(&got.device_secret), &vec![got.me], &t);
    assert!(row(&devices(&b, &t), "pair-A").unwrap().incoming_pair_request);
    assert_eq!(b.inbound_pair_device_ids(), ["pair-A"]);

    // B accepts.
    let me = b.self_device_info_at(&host("b"), &t);
    let msg = b.confirm_pair_with("pair-A", &me, &None, "{}", &t).unwrap();
    assert_eq!(msg.url, "http://127.0.0.1:5600/api/0/sync/pair/confirm");
    let got = pair_confirm(&mut a, msg.me, generate_secret(), &host("a"), &None, &t);
    let code = b.confirmation_answered("pair-A", &answer(&got.device_secret), &vec![got.me], &t);

    let (list_a, list_b) = (devices(&a, &t), devices(&b, &t));
    let (b_at_a, a_at_b) = (row(&list_a, "pair-B").unwrap(), row(&list_b, "pair-A").unwrap());
    assert!(b_at_a.device.paired, "A 侧应将 B 标记为已配对");
    assert!(a_at_b.device.paired, "B 侧应将 A 标记为已配对");
    assert!(!a_at_b.incoming_pair_request);
    assert_eq!(b_at_a.fingerprint.as_ref().unwrap().len(), 4);
    assert_eq!(b_at_a.fingerprint, a_at_b.fingerprint, "两端安全码必须相同");
    assert_eq!(code, a_at_b.fingerprint);
    assert!(b_at_a.encrypted);

    // Snapshots travel sealed now, and plain ones are refused.
    let plain = r#"{"inbox":"note-pair-A"}"#;
    let body = a.encode_snapshot_body(Some("pair-B"), PATH_PUSH, plain).unwrap();
    assert!(!body.contains("note"));
    let unread = Err("no snapshot".to_string());
    assert_eq!(b.decode_snapshot_body(&body, PATH_PUSH, &unread).unwrap(), plain);
    let replay = b.decode_snapshot_body(&body, PATH_PUSH, &unread).unwrap_err();
    assert!(replay.starts_with("信封报文处理失败: "));
    let sender = Ok(Some("pair-A".to_string()));
    assert_eq!(
        b.decode_snapshot_body(plain, PATH_PUSH, &sender).unwrap_err(),
        "已与 pair-A 协商加密密钥，拒收明文报文（防止中间人降级）"
    );
    let stranger = Ok(Some("other".to_string()));
    assert_eq!(b.decode_snapshot_body(plain, PATH_PUSH, &stranger).unwrap(), plain);
    assert_eq!(
        b.decode_snapshot_body(plain, PATH_PUSH, &unread).unwrap_err(),
        "快照 JSON 解析失败: no snapshot"
    );
    assert_eq!(a.encode_snapshot_body(None, PATH_SNAPSHOT, plain).unwrap(), plain);

    let target = PushTo {
        ip: "127.0.0.1".into(),
        port: 5600,
        device_id: Some("pair-B".into()),
        name: None,
    };
    let (device, secret) = push_to(&a, &target, &t).unwrap();
    assert_eq!((device.id.as_str(), device.name.as_str()), ("pair-B", "127.0.0.1"));
    assert!(secret.is_some(), "已配对 → /push-to 必须信封化");
}

#[test]
fn unknown_targets_are_named() {
    let mut a = manager("pair-A");
    let t = now();
    let me = a.self_device_info_at(&host("a"), &t);
    assert_eq!(a.initiate_pair("x", &me, &None, "{}", &t).unwrap_err(), "未找到目标设备");
    assert_eq!(a.confirm_pair_with("x", &me, &None, "{}", &t).unwrap_err(), "未找到目标设备");
    assert_eq!(
        a.join_remote("x", "1", &me, &None, &t).unwrap_err(),
        "未找到目标设备，请先在局域网中让它出现在设备列表里"
    );
    assert_eq!(a.log_count(), 0);
}

#[test]
fn offered_secrets_are_adopted_or_replaced() {
    let mut a = manager("pair-A");
    let offered = "ab".repeat(32);
    assert_eq!(a.adopt_incoming_secret("p", Some(&offered)), offered);
    let fresh = a.adopt_incoming_secret("p", Some("short"));
    assert!(secret_ok(&fresh) && fresh != offered);
    assert_eq!(a.device_secret("p").unwrap(), fresh);
    a.absorb_secret_from("p", &answer("short"));
    assert_eq!(a.device_secret("p").unwrap(), fresh);
    a.absorb_secret_from("p", &answer(&offered));
    assert_eq!(a.device_secret("p").unwrap(), offered);
    assert_eq!(a.security_fingerprints().len(), 1);
}

#[test]
fn handshakes_keep_what_is_known_here() {
    let mut a = manager("pair-A");
    let mut known = phone("p");
    known.paired = true;
    known.alias = Some("mine".into());
    known.paired_at = Timestamp { secs: 1_700_000_000, nanos: 0 };
    known.last_sync_at = Some(Timestamp { secs: 1_700_000_060, nanos: 0 });
    a.save_device(&known);
    let mut report = phone("p");
    report.last_sync_at = Some(Timestamp { secs: 1_800_000_000, nanos: 0 });
    report.name = "new name".into();
    report.device_secret = Some("x".into());
    a.refresh_peer_from_handshake(&report);
    let d = a.get_device("p").unwrap();
    assert_eq!((d.name.as_str(), d.alias.as_deref(), d.paired), ("new name", Some("mine"), true));
    assert_eq!((d.paired_at, d.last_sync_at), (known.paired_at, known.last_sync_at));
    a.absorb_peer_from(&vec![phone(""), phone("pair-A"), phone("q")]);
    assert_eq!(a.list_devices().len(), 2);
}

#[test]
fn devices_by_hand_bring_no_identity() {
    let mut a = manager("pair-A");
    let mut d = phone("p");
    d.is_self = true;
    d.machine_uid = Some("ffffffffffffffff".into());
    add_device(&mut a, d);
    assert!(!a.get_device("p").unwrap().is_self);
    assert_eq!(a.db.machine_uid_of("p"), None);
}

#[test]
fn changes_by_hand_are_logged() {
    let mut a = manager("pair-A");
    let t = now();
    a.save_device(&phone("p"));
    device_alias(&mut a, "p", Some("desk"), &t).unwrap();
    device_alias(&mut a, "p", Some(""), &t).unwrap();
    assert_eq!(device_alias(&mut a, "x", None, &t).unwrap_err(), "设备不存在: x");
    assert!(device_delete(&mut a, "p", &t));
    assert!(!device_delete(&mut a, "p", &t));
    a.save_device(&phone("q"));
    a.record_inbound_pair_request(phone("r"));
    assert!(a.has_inbound_pair_request("r"));
    assert_eq!(devices_clear_all(&mut a, &t), 1);
    assert!(!a.has_inbound_pair_request("r"));
    assert_eq!(device_merge(&mut a, "", "q", &t).unwrap_err(), "需要 from 与 to 两个设备 id");
    let all = LogQuery { direction: None, protocol: None, event_type: None, limit: None, offset: None };
    let (list, total) = logs(&a, &all, &t);
    let texts: Vec<&str> = list.iter().filter_map(|e| e.message.as_deref()).collect();
    assert_eq!(total, 6);
    assert_eq!(
        texts,
        [
            "已清空所有配对信息（移除 1 台设备）",
            "本机(pair-A) 收到配对请求: Phone B(r:127.0.0.1 - 56001)",
            "已删除设备 p",
            "已删除设备 p",
            "已为设备 p 清空别名",
            "已为设备 p 设置别名: desk",
        ]
    );
    log_clear(&mut a);
    assert_eq!(a.log_count(), 0);
}

#[test]
fn log_queries_treat_empty_as_missing() {
    let q = LogQuery {
        direction: Some("".into()),
        protocol: Some("d1".into()),
        event_type: Some("anything".into()),
        limit: Some(3),
        offset: None,
    };
    let f = aw_sync::endpoints::log_filter(&q);
    assert_eq!(f.direction, None);
    assert_eq!(f.protocol, Some(SyncProtocol::D1));
    assert_eq!(f.event_type, Some(SyncEventType::Sync));
    assert_eq!((f.limit, f.offset), (3, 0));
    let out = LogQuery { direction: Some("out".into()), protocol: None, event_type: None, limit: None, offset: Some(-1) };
    let f = aw_sync::endpoints::log_filter(&out);
    assert_eq!(f.direction, Some(SyncDirection::Out));
    assert_eq!((f.limit, f.offset), (200, u64::MAX));
    assert_eq!(d1_log_filter(Some(500), None).limit, 100);
    assert_eq!(d1_log_filter(Some(-3), None).limit, 1);
    assert_eq!(d1_log_filter(None, None).limit, 20);
}

#[test]
fn requests_are_read_with_defaults() {
    let body = json(r#"{"device_id": "p", "stale_days": 7, "n": 1}"#);
    assert_eq!(body_text(&body, "device_id"), "p");
    assert_eq!(body_text(&body, "n"), "");
    assert_eq!(body_text(&body, "missing"), "");
    assert_eq!(stale_days(&body), 7);
    assert_eq!(stale_days(&json("{}")), 30);
    assert_eq!(stale_days(&json(r#"{"stale_days": "x"}"#)), 30);
    assert_eq!(stale_days(&json(r#"{"stale_days": 1.5}"#)), 30);
}

#[test]
fn saving_settings_switches_discovery_on_where_it_stays_on() {
    let mut a = manager("pair-A");
    let mut cfg = a.get_config();
    cfg.enabled = true;
    assert!(config_save(&mut a, &cfg, DeviceKind::Android, false).is_none());
    assert!(!a.discovery.active);
    assert!(config_save(&mut a, &cfg, DeviceKind::Linux, false).is_some());
    assert!(a.discovery.active);
    assert_eq!(discovery_burst(&mut a, None, false, 0).0, 5);
    assert_eq!(discovery_burst(&mut a, Some(99), false, 0).0, 30);
    assert_eq!(a.discovery.burst_until_ms, 30_000);
    assert_eq!(discovery_burst(&mut a, Some(0), false, 0).0, 0);
    assert_eq!(a.discovery.burst_until_ms, 0);
}

#[test]
fn pushes_register_unknown_senders() {
    let mut a = manager("pair-A");
    let t = now();
    let none = ApplyResult {
        applied: 3,
        created: 3,
        updated: 0,
        deleted: 0,
        ignored: 0,
        conflicts: 0,
        archived: 0,
        errors: vec![],
        records: vec![],
    };
    let mut sender = phone("p");
    sender.is_self = true;
    sender.paired = true;
    sender.machine_uid = Some("ffffffffffffffff".into());
    push(&mut a, Some(&sender), &none, 9, "[]", &t);
    let p = a.get_device("p").unwrap();
    assert!(!p.is_self && !p.paired);
    assert_eq!(a.db.machine_uid_of("p"), None);
    assert!(a.get_device("p").is_some());
    push(&mut a, None, &none, 9, "[]", &t);
    aw_sync::endpoints::apply(&mut a, None, &none, 9, "[]", &t);
    aw_sync::endpoints::apply(&mut a, Some(&phone("q")), &none, 9, "[]", &t);
    assert!(a.get_device("q").is_some());
    let all = LogQuery { direction: None, protocol: None, event_type: None, limit: None, offset: None };
    let (list, _) = logs(&a, &all, &t);
    let texts: Vec<&str> = list.iter().filter_map(|e| e.message.as_deref()).collect();
    assert_eq!(
        texts,
        [
            "WiFi 传输：本机(pair-A) 已合并来自 Phone B(q) 的数据，应用记录数: 3",
            "WiFi 传输：本机(pair-A) 已合并来自 未知设备() 的数据，应用记录数: 3",
            "本机(pair-A) 收到来自 () 的同步，应用记录数: 3",
            "本机(pair-A) 收到来自 Phone B(p) 的同步，应用记录数: 3",
        ]
    );
    assert_eq!(list[1].peer_id.as_deref(), Some(""));
    assert_eq!(list[2].peer_id, None);
}

#[test]
fn pushes_to_nowhere_are_refused() {
    let a = manager("pair-A");
    let to = |ip: &str, port: u16| PushTo { ip: ip.into(), port, device_id: None, name: Some("".into()) };
    assert_eq!(push_to(&a, &to(" ", 5600), &now()).unwrap_err(), 400);
    assert_eq!(push_to(&a, &to("10.0.0.2", 0), &now()).unwrap_err(), 400);
    let (d, secret) = push_to(&a, &to("10.0.0.2", 5600), &now()).unwrap();
    assert_eq!((d.id.as_str(), d.name.as_str()), ("hotspot-10.0.0.2", "10.0.0.2"));
    assert_eq!(secret, None);
}
