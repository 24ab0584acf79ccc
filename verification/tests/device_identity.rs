//! Online state, expiry of discoveries, fingerprints and mergers.

use aw_sync::crypto::hashed_alias;
use aw_sync::discovery::{announce_payload, announced_device, parse_device, record_peer, unframe, PeerSource};
use aw_sync::manager::SyncManager;
use aw_sync::models::{Device, DeviceKind, Timestamp};
use aw_sync::stamps::{Stamps, Table};
use aw_sync::storage::{parse_device_kind, SyncDb, DISCOVERED_KEEP, DISCOVERED_MAX_AGE_DAYS, ONLINE_GRACE_SECS};
use chrono::{Duration, Utc};

fn stamp(t: chrono::DateTime<Utc>) -> Timestamp {
    Timestamp { secs: t.timestamp(), nanos: t.timestamp_subsec_nanos() }
}

fn now() -> Timestamp {
    stamp(Utc::now())
}

fn ago(d: Duration) -> Timestamp {
    stamp(Utc::now() - d)
}

fn dev(id: &str) -> Device {
    Device {
        id: id.into(),
        name: format!("{id}-主机名"),
        device_kind: DeviceKind::Windows,
        ip: "192.168.5.40".into(),
        port: 56001,
        paired_at: now(),
        last_sync_at: None,
        last_seen_at: Some(now()),
        is_online: true,
        is_self: false,
        paired: false,
        alias: None,
        device_secret: None,
        machine_uid: None,
    }
}

fn ids(list: &[Device]) -> Vec<String> {
    let mut v: Vec<String> = list.iter().map(|d| d.id.clone()).collect();
    v.sort();
    v
}

fn secret(tag: &str) -> String {
    format!("{tag}{tag}").repeat(32 / 2)
}

/// The JSON text of a device: a secret and a fingerprint only where they are set.
fn json_of(d: &Device) -> String {
    let mut m = serde_json::Map::new();
    m.insert("id".into(), d.id.clone().into());
    m.insert("name".into(), d.name.clone().into());
    m.insert("device_kind".into(), d.device_kind.as_str().into());
    m.insert("ip".into(), d.ip.clone().into());
    if let Some(s) = &d.device_secret {
        m.insert("device_secret".into(), s.clone().into());
    }
    if let Some(s) = &d.machine_uid {
        m.insert("machine_uid".into(), s.clone().into());
    }
    serde_json::Value::Object(m).to_string()
}

fn parse_text(text: &str) -> Option<Device> {
    let json: serde_json::Value = serde_json::from_str(&unframe(text)?).ok()?;
    let get = |key: &str| json.get(key).and_then(|v| v.as_str()).map(str::to_string);
    let mut d = dev(&get("id")?);
    d.name = get("name")?;
    d.ip = get("ip")?;
    d.device_kind = parse_device_kind(&get("device_kind")?);
    d.device_secret = get("device_secret");
    d.machine_uid = get("machine_uid");
    parse_device(d)
}

#[test]
fn online_flag_follows_real_time_not_string_order() {
    let mut db = SyncDb::new();

    db.upsert_device(&dev("fresh"));
    db.touch_online("fresh", false);
    assert!(
        db.get_device("fresh").unwrap().is_online,
        "宽限期内（{ONLINE_GRACE_SECS}s）收到离线上报应被忽略"
    );

    let mut stale = dev("stale");
    stale.last_seen_at = Some(ago(Duration::seconds(ONLINE_GRACE_SECS + 60)));
    db.upsert_device(&stale);
    db.touch_online("stale", false);
    assert!(
        !db.get_device("stale").unwrap().is_online,
        "超出宽限期的历史时间必须按探活结论标成离线，否则设备一旦上线过就永远显示在线"
    );

    db.touch_online("stale", true);
    assert!(db.get_device("stale").unwrap().is_online);

    db.touch_seen("stale");
    db.touch_online("stale", false);
    assert!(db.get_device("stale").unwrap().is_online, "touch_seen 应刷新 last_seen_epoch");
}

#[test]
fn discovered_rows_expire_but_paired_and_manual_ones_stay() {
    let mut db = SyncDb::new();
    let overdue = Duration::days(DISCOVERED_MAX_AGE_DAYS + 1);

    let mut ghost = dev("passer-by");
    ghost.last_seen_at = Some(ago(overdue));
    db.upsert_discovered(&ghost, "udp");
    db.upsert_discovered(&dev("recent"), "mdns");
    let mut old_paired = dev("old-paired");
    old_paired.last_seen_at = Some(ago(overdue));
    db.upsert_discovered(&old_paired, "udp");
    db.set_paired("old-paired", true);
    let mut manual = dev("manual");
    manual.last_seen_at = Some(ago(Duration::days(30)));
    db.upsert_device(&manual);

    assert_eq!(db.purge_discovered(), 1, "只应淘汰那一条超龄未配对行");
    assert_eq!(
        ids(&db.get_devices()),
        ["manual", "old-paired", "recent"],
        "已配对行与手动登记行不得被自动清理动到"
    );
}

#[test]
fn discovered_list_is_capped_keeping_the_newest() {
    let mut db = SyncDb::new();
    let total = DISCOVERED_KEEP + 7;
    for i in 0..total {
        let mut d = dev(&format!("floody-{i:03}"));
        d.last_seen_at = Some(ago(Duration::minutes(i as i64)));
        db.upsert_discovered(&d, "udp");
    }
    assert_eq!(db.get_devices().len(), total);
    assert_eq!(db.purge_discovered(), total - DISCOVERED_KEEP);

    let left = ids(&db.get_devices());
    assert_eq!(left.len(), DISCOVERED_KEEP);
    assert!(left.iter().any(|s| s == "floody-000"), "最近见过的那条必须留下");
    assert!(left.contains(&format!("floody-{:03}", DISCOVERED_KEEP - 1)));
    assert!(
        !left.contains(&format!("floody-{DISCOVERED_KEEP:03}")),
        "超出上限的旧行应被挤掉，且挤掉的是最久没出现的"
    );
    assert!(!left.iter().any(|s| s == "floody-056"));
}

#[test]
fn announce_payload_carries_neither_secret_nor_fingerprint() {
    let uid = "a1b2c3d4e5f60718";
    let key = secret("ab");
    let mut d = dev("dev-x");
    d.name = "Ted-Workstation".into();
    d.machine_uid = Some(uid.into());
    d.device_secret = Some(key.clone());

    let payload = announce_payload(&json_of(&announced_device(&d, &d.ip).unwrap()));
    assert!(payload.starts_with("AW-SYNC/1.0\n"), "报文前缀是对端识别依据，别改：{payload}");
    assert!(!payload.contains(uid), "装机指纹不得进被动广播");
    assert!(!payload.contains(&key), "密钥不得进被动广播");
    assert!(!payload.contains("machine_uid"));
    assert!(!payload.contains("device_secret"));
    assert!(!payload.contains("Ted-Workstation"), "未配对前真实主机名不得出机");
    assert!(payload.contains(&hashed_alias("dev-x")));

    let parsed = parse_text(&payload).expect("宣告必须可解析");
    assert_eq!(parsed.id, "dev-x");
    assert_eq!(parsed.name, hashed_alias("dev-x"));
}

#[test]
fn passive_paths_cannot_write_a_fingerprint() {
    let mut db = SyncDb::new();
    let mut log: Stamps = Table::new();
    let mut liar = dev("liar");
    liar.machine_uid = Some("deadbeefdeadbeef".into());
    assert!(record_peer(&mut db, &mut log, liar, PeerSource::UdpBroadcast, "测试宣告".into(), 0));
    assert!(
        db.machine_uid_of("liar").is_none(),
        "被动发现路径写不进装机指纹，否则任何人都能给我塞一个假的归并目标"
    );

    let json: String = db.get_devices().iter().map(json_of).collect();
    assert!(!json.contains("machine_uid"), "/devices 会原样序列化这个响应: {json}");
}

#[test]
fn merge_hint_only_points_at_the_paired_twin_and_shows_once() {
    let mut g = SyncManager::new(SyncDb::new(), "host-A".into());
    let uid = "0123456789abcdef";

    let mut old = dev("old-tablet-id");
    old.paired = true;
    old.paired_at = ago(Duration::days(10));
    old.machine_uid = Some(uid.into());
    g.save_device(&old);
    let mut fresh = dev("new-tablet-id");
    fresh.paired = true;
    fresh.machine_uid = Some(uid.into());
    g.save_device(&fresh);
    let mut other = dev("laptop");
    other.paired = true;
    other.machine_uid = Some("ffffffffffffffff".into());
    g.save_device(&other);

    let cand = g.merge_candidate_for("new-tablet-id").expect("换了 id 的行应命中旧行");
    assert_eq!(cand.id, "old-tablet-id");
    assert_eq!(cand.uid_hint, "01234567");
    assert_eq!(cand.since_paired_days, 10);
    assert!(g.merge_candidate_for("old-tablet-id").is_none(), "更早配对的那行不该再提示");
    assert!(g.merge_candidate_for("laptop").is_none(), "没有同指纹对端就不该提示");
    assert!(g.merge_candidate_for("nobody").is_none());
    assert!(g.list_devices().iter().all(|d| d.machine_uid.is_none()));

    assert_eq!(g.db.machine_uid_of("old-tablet-id").as_deref(), Some(uid));
}

#[test]
fn an_unpaired_discovered_twin_is_not_a_merge_target() {
    let mut db = SyncDb::new();
    let uid = "abcabcabcabcabcc";

    let mut twin = dev("discovered-twin");
    twin.machine_uid = Some(uid.into());
    db.upsert_device(&twin);
    let mut me = dev("mine");
    me.paired = true;
    me.machine_uid = Some(uid.into());
    db.upsert_device(&me);

    assert!(
        db.find_merge_candidate(uid, "mine").is_none(),
        "未配对的孪生行本来就归 purge_discovered 管，拿它当合并目标没有意义"
    );
    db.set_paired("discovered-twin", true);
    assert_eq!(
        db.find_merge_candidate(uid, "mine").map(|d| d.id).as_deref(),
        Some("discovered-twin")
    );
}

#[test]
fn merge_voids_the_dead_id_but_keeps_history_and_keys() {
    let mut g = SyncManager::new(SyncDb::new(), "host-A".into());
    let uid = "1234123412341234";

    let mut old = dev("old-id");
    old.paired = true;
    old.paired_at = ago(Duration::days(30));
    old.alias = Some("客厅那台".into());
    old.machine_uid = Some(uid.into());
    g.db.upsert_device(&old);
    g.db.set_device_secret("old-id", &secret("o1"));

    let mut fresh = dev("new-id");
    fresh.paired = true;
    fresh.machine_uid = Some(uid.into());
    g.db.upsert_device(&fresh);
    g.db.set_device_secret("new-id", &secret("n1"));

    g.merge_devices("old-id", "new-id").unwrap();

    assert_eq!(ids(&g.list_devices()), ["new-id"]);
    let all = g.db.get_devices_including_superseded();
    assert_eq!(ids(&all), ["new-id", "old-id"]);
    assert!(
        !all.iter().find(|d| d.id == "old-id").unwrap().is_online,
        "旧行不会再播报，不该显示在线"
    );

    assert!(g.device_secret("old-id").is_none(), "归并后旧 id 不该还能签名");
    assert_eq!(g.device_secret("new-id").unwrap(), secret("n1"));

    assert_eq!(g.db.resolve_device_id("old-id"), "new-id");
    assert_eq!(g.db.resolve_device_id("new-id"), "new-id", "没被归并过的 id 原样返回");
    let kept = g.db.get_device("new-id").unwrap();
    assert_eq!(kept.alias.as_deref(), Some("客厅那台"));
    assert!(kept.paired_at.no_later_than(&ago(Duration::days(30))), "配对时间应取两者最早");
    assert!(kept.paired);
    assert_eq!(g.db.machine_uid_of("new-id").as_deref(), Some(uid));

    assert!(g.merge_devices("old-id", "new-id").is_err(), "重复归并必须被拒");
    assert!(g.merge_devices("new-id", "new-id").is_err());
}

#[test]
fn merge_rejects_anything_that_would_break_attribution() {
    let mut db = SyncDb::new();
    let mut me = dev("self-row");
    me.is_self = true;
    me.paired = true;
    db.upsert_device(&me);
    db.upsert_device(&dev("plain"));
    db.set_paired("plain", true);

    assert!(db.merge_device("self-row", "plain").is_err(), "本机行不得被并进别处");
    assert!(db.merge_device("plain", "self-row").is_err(), "也不许把别的行并进本机行");
    assert!(db.merge_device("missing", "plain").is_err(), "不存在的行不该被静默当作成功");

    db.upsert_device(&dev("a"));
    db.upsert_device(&dev("b"));
    assert!(db.merge_device("a", "b").is_err());
    assert_eq!(db.resolve_device_id("a"), "a");
    assert_eq!(db.get_devices().len(), 4, "被拒的归并不得让任何一行从列表消失");
}

#[test]
fn one_click_purge_drops_silent_pairs_and_keeps_recent_ones() {
    let mut g = SyncManager::new(SyncDb::new(), "host-A".into());
    for id in ["dead-phone", "alive-phone", "never-synced"] {
        let mut d = dev(id);
        d.paired = true;
        g.save_device(&d);
    }

    g.db.mark_synced("dead-phone", &ago(Duration::days(60)));
    g.db.set_device_secret("dead-phone", &secret("d1"));
    g.db.mark_synced("alive-phone", &ago(Duration::days(3)));
    let mut ghost = dev("passer-by");
    ghost.last_seen_at = Some(ago(Duration::days(DISCOVERED_MAX_AGE_DAYS + 2)));
    g.db.upsert_discovered(&ghost, "udp");

    let (discovered, paired) = g.purge_stale_devices(30);
    assert_eq!((discovered, paired), (1, 1), "只应删掉超龄发现行与静默旧配对各一条");
    assert_eq!(ids(&g.list_devices()), ["alive-phone", "never-synced"]);
    assert!(g.device_secret("dead-phone").is_none(), "删配对必须连带作废密钥");
}
