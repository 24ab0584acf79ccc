//! Announcements of devices and how they are recorded.

use aw_sync::crypto::hashed_alias;
use aw_sync::discovery::{
    announce_payload, announced_device, hear, is_usable_ip, mdns_available, parse_device,
    record_peer, record_peer_at, sent_note_of, should_log, source_wins, subnet_broadcast, unframe,
    BroadcastStep, Broadcaster, PeerSource, SelfInfo, MAGIC, MDNS_FRESH_SECS,
};
use aw_sync::mdns::DaemonSlot;
use aw_sync::models::{Device, DeviceKind, Timestamp, DEFAULT_SYNC_PORT};
use aw_sync::stamps::{Stamps, Table};
use aw_sync::storage::{parse_device_kind, SyncDb};

fn stamp(t: chrono::DateTime<chrono::Utc>) -> Timestamp {
    Timestamp { secs: t.timestamp(), nanos: t.timestamp_subsec_nanos() }
}

fn now() -> Timestamp {
    stamp(chrono::Utc::now())
}

fn at(secs_ago: i64) -> Timestamp {
    stamp(chrono::Utc::now() - chrono::Duration::seconds(secs_ago))
}

fn fresh_log() -> Stamps {
    Table::new()
}

fn plain(id: &str, name: &str, kind: DeviceKind, ip: &str, is_online: bool) -> Device {
    Device {
        id: id.into(),
        name: name.into(),
        device_kind: kind,
        ip: ip.into(),
        port: 56001,
        paired_at: now(),
        last_sync_at: None,
        last_seen_at: None,
        is_online,
        is_self: false,
        paired: false,
        alias: None,
        device_secret: None,
        machine_uid: None,
    }
}

/// The JSON text of a device, as far as announcements carry it.
fn json_of(d: &Device) -> String {
    let mut m = serde_json::Map::new();
    m.insert("id".into(), d.id.clone().into());
    m.insert("name".into(), d.name.clone().into());
    m.insert("device_kind".into(), d.device_kind.as_str().into());
    m.insert("ip".into(), d.ip.clone().into());
    m.insert("port".into(), d.port.into());
    m.insert("is_online".into(), d.is_online.into());
    serde_json::Value::Object(m).to_string()
}

/// Reads an announcement.
fn parse_text(text: &str) -> Option<Device> {
    let json: serde_json::Value = serde_json::from_str(&unframe(text)?).ok()?;
    let get = |key: &str| json.get(key).and_then(|v| v.as_str()).map(str::to_string);
    let mut d = plain(
        &get("id")?,
        &get("name")?,
        parse_device_kind(&get("device_kind")?),
        &get("ip")?,
        json.get("is_online")?.as_bool()?,
    );
    d.port = json.get("port")?.as_u64()? as u16;
    parse_device(d)
}

#[test]
fn test_parse_raw_json() {
    let d = plain("abc", "Phone", DeviceKind::Android, "192.168.1.9", true);
    let parsed = parse_text(&json_of(&d)).unwrap();
    assert_eq!(parsed.id, "abc");
    assert_eq!(parsed.ip, "192.168.1.9");
}

#[test]
fn test_parse_with_magic() {
    let d = plain("x", "PC", DeviceKind::Linux, "10.0.0.2", false);
    let text = format!("{}\n{}", MAGIC, json_of(&d));
    assert!(parse_text(&text).is_some());
}

fn peer(id: &str, ip: &str) -> Device {
    let mut d = plain(id, &hashed_alias(id), DeviceKind::Windows, ip, true);
    d.port = DEFAULT_SYNC_PORT;
    // Wrong on purpose: a device that comes from the network is neither this one nor paired.
    d.is_self = true;
    d.paired = true;
    d
}

#[test]
fn source_wins_matrix() {
    let now = now();
    let udp = PeerSource::UdpBroadcast;
    let mdns = PeerSource::Mdns;
    assert!(source_wins(None, udp, &now));
    assert!(source_wins(Some(("".into(), Some(now))), udp, &now));
    assert!(source_wins(Some(("mdns".into(), None)), udp, &now));
    assert!(source_wins(Some(("mdns".into(), Some(at(MDNS_FRESH_SECS - 5)))), udp, &now) == false);
    assert!(source_wins(Some(("mdns".into(), Some(at(MDNS_FRESH_SECS + 5)))), udp, &now));
    assert!(source_wins(Some(("udp".into(), Some(at(0)))), mdns, &now), "首选路径永远压过备选");
    assert!(source_wins(Some(("udp".into(), Some(at(0)))), udp, &now), "备选路径之间照常覆盖");
}

#[test]
fn fresh_mdns_record_suppresses_broadcast_address() {
    let mut db = SyncDb::new();
    let mut log = fresh_log();
    let b = peer("B", "10.1.2.3");
    assert!(record_peer(&mut db, &mut log, b, PeerSource::Mdns, "解析到 B".into(), 0));

    let mut late = peer("B", "192.168.5.99");
    late.paired_at = at(99999);
    assert!(
        !record_peer(&mut db, &mut log, late, PeerSource::UdpBroadcast, "广播 B".into(), 1),
        "新鲜期内广播不得改写可达地址"
    );

    let b = db.get_device("B").unwrap();
    assert_eq!(b.ip, "10.1.2.3");
    assert_eq!(b.port, DEFAULT_SYNC_PORT);
    assert_eq!(db.device_seen_source("B").unwrap().0, "mdns");
    assert!(!b.is_self && !b.paired, "宣告自带的 is_self/paired 必须被固化掉");
}

#[test]
fn broadcast_takes_over_once_mdns_goes_silent() {
    let mut db = SyncDb::new();
    let mut stale = peer("B", "10.1.2.3");
    stale.last_seen_at = Some(at(MDNS_FRESH_SECS + 10));
    db.upsert_discovered(&stale, "mdns");

    assert!(
        record_peer(
            &mut db,
            &mut fresh_log(),
            peer("B", "192.168.5.99"),
            PeerSource::UdpBroadcast,
            "广播 B".into(),
            0
        ),
        "mDNS 哑了之后广播要能兜底"
    );
    assert_eq!(db.get_device("B").unwrap().ip, "192.168.5.99");
    assert_eq!(db.device_seen_source("B").unwrap().0, "udp");
}

#[test]
fn losing_broadcast_does_not_extend_mdns_window() {
    let mut db = SyncDb::new();
    let mut seen = peer("B", "10.1.2.3");
    seen.last_seen_at = Some(at(30));
    db.upsert_discovered(&seen, "mdns");

    assert!(!record_peer(
        &mut db,
        &mut fresh_log(),
        peer("B", "192.168.5.99"),
        PeerSource::UdpBroadcast,
        "广播 B".into(),
        0
    ));
    let (_, window_start) = db.device_seen_source("B").unwrap();
    let last_seen = db.get_device("B").unwrap().last_seen_at;
    assert!(
        now().seconds_since(&window_start.unwrap()) >= 25,
        "仲裁窗口仍是那次 mDNS 解析的时刻，未被广播刷新"
    );
    assert!(
        !last_seen.unwrap().no_later_than(&window_start.unwrap()),
        "在线状态该被广播刷新"
    );
    assert_eq!(db.device_seen_source("B").unwrap().0, "mdns");
}

#[test]
fn announcements_are_logged_once_a_minute() {
    let mut log = fresh_log();
    assert!(should_log(&mut log, "udp:B", 0));
    assert!(!should_log(&mut log, "udp:B", 59_999));
    assert!(should_log(&mut log, "mdns:B", 59_999));
    assert!(should_log(&mut log, "udp:B", 60_000));

    let mut db = SyncDb::new();
    let mut log = fresh_log();
    let t = now();
    for tick in [0, 1, 2] {
        record_peer_at(
            &mut db,
            &mut log,
            peer("B", "10.1.2.3"),
            PeerSource::UdpBroadcast,
            "广播 B".into(),
            &t,
            tick,
        );
    }
    assert_eq!(db.log_count(), 1);
}

#[test]
fn own_announcement_hides_name_secret_and_fingerprint() {
    let mut d = plain("dev-x", "Ted-Workstation", DeviceKind::Linux, "10.0.0.1", true);
    d.device_secret = Some("s".into());
    d.machine_uid = Some("u".into());
    d.alias = Some("desk".into());
    let info = SelfInfo { device: d, data_dir: "/tmp/x".into() };
    let a = announced_device(&info.device, "10.0.0.7").unwrap();
    assert_eq!(a.name, hashed_alias("dev-x"));
    assert_eq!(a.ip, "10.0.0.7");
    assert_eq!((a.device_secret, a.machine_uid), (None, None));
    assert_eq!(announce_payload("{}"), "AW-SYNC/1.0\n{}");
    assert_eq!(unframe("AW-SYNC/1.0\n{}").unwrap(), "{}");
    assert_eq!(unframe("AW-SYNC/1.0\n  "), None);
    assert!(!sent_note_of(&info.device, 46000).is_empty());
}

#[test]
fn broadcasts_go_to_the_subnet_and_everyone() {
    assert_eq!(subnet_broadcast("192.168.5.34").unwrap(), "192.168.5.255");
    assert_eq!(subnet_broadcast("localhost"), None);
    assert_eq!(subnet_broadcast("0.0.0.0"), None);
    assert_eq!(subnet_broadcast("127.0.0.2"), None);
    let mut b = Broadcaster::new();
    assert!(matches!(b.step(false, "192.168.5.34", 46000, 5000), BroadcastStep::Rest(_)));
    assert!(
        matches!(b.step(true, "192.168.5.34", 46000, 5000), BroadcastStep::Bind(ip) if ip == "192.168.5.34")
    );
    let sent = b.bound("192.168.5.34", 46000);
    assert!(matches!(sent, BroadcastStep::Send(t) if t.contains(&"192.168.5.255:46000".to_string())));
    assert!(matches!(b.step(true, "127.0.0.2", 46000, 5000), BroadcastStep::Release(5000)));
    assert!(matches!(b.step(true, "", 46000, 1000), BroadcastStep::Rest(2000)));
}

#[test]
fn announced_devices_arrive() {
    let mut d = plain("dev-x", "Ted-Workstation", DeviceKind::Linux, "10.0.0.1", true);
    d.port = 5601;
    d.is_self = true;
    d.paired = true;
    let json = json_of(&announced_device(&d, "10.0.0.7").unwrap());
    for text in [announce_payload(&json), json] {
        let got = parse_text(&text).unwrap();
        assert_eq!((got.id.as_str(), got.ip.as_str(), got.port), ("dev-x", "10.0.0.7", 5601));
        assert_eq!(got.name, hashed_alias("dev-x"));
        assert!(!got.is_self && !got.paired);
    }
}

#[test]
fn own_broadcasts_are_not_heard() {
    let d = plain("dev-y", "n", DeviceKind::Linux, "", true);
    assert!(hear(d.clone(), "10.0.0.9", "dev-y").is_none());
    let (heard, _) = hear(d, "10.0.0.9", "dev-x").unwrap();
    assert_eq!(heard.ip, "10.0.0.9");
}

#[test]
fn usable_addresses_are_reachable_ones() {
    assert!(is_usable_ip("192.168.5.34"));
    assert!(is_usable_ip("fe80::1"));
    assert!(is_usable_ip("2001:db8::1"));
    assert!(is_usable_ip("desk.local"));
    for none in ["127.0.0.1", "127.0.0.2", "127.255.255.254", "0.0.0.0", "", "localhost"] {
        assert!(!is_usable_ip(none), "{none}");
    }
    for none in [
        "::1",
        "::",
        "0:0:0:0:0:0:0:1",
        "0000::0001",
        "0::",
        "::0",
        "0:0:0:0:0:0:0::",
        "::0.0.0.1",
        "0:0:0:0:0:0:0.0.0.0",
    ] {
        assert!(!is_usable_ip(none), "{none}");
    }
    // Other addresses count, and so do names, whatever they look like.
    for name in [
        ":",
        ":1",
        "0:0",
        "1::",
        ":::",
        "0::0::1",
        "0:0:0:0:0:0:0:0:1",
        "0:0:0:0:0:0:0:0::",
        "00000::",
        "::00001",
        "::0.0.0.2",
        "0.0.0.0::",
        "0:0:0:0:0:0:0:0.0.0.0",
    ] {
        assert!(is_usable_ip(name), "{name}");
    }
    let d = plain("dev-y", "n", DeviceKind::Linux, "10.0.0.9", true);
    assert_eq!(hear(d, "127.0.0.2", "dev-x").unwrap().0.ip, "10.0.0.9");
    assert!(!mdns_available(&DaemonSlot::new()));
    assert_eq!(PeerSource::Mdns.as_str(), "mdns");
    assert_eq!(PeerSource::UdpBroadcast.as_str(), "udp");
}
