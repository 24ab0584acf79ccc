//! The stored tables.

use aw_sync::models::{
    Device, DeviceKind, PairCode, SyncConfig, SyncDirection, SyncEventType, SyncLogEntry,
    SyncProtocol, SyncStatus, Timestamp, TrashEntry,
};
use aw_sync::storage::config::ConfigValue;
use aw_sync::storage::logs::LogFilter;
use aw_sync::storage::{
    parse_device_kind, parse_direction, parse_dt, parse_event_type, parse_opt_dt, parse_protocol,
    parse_status, CodeRow, SyncDb, LOG_KEEP,
};

/// 2023-11-14T22:13:20Z.
const T: i64 = 1_700_000_000;

fn at(secs: i64) -> Timestamp {
    Timestamp { secs, nanos: 0 }
}

fn dev(id: &str) -> Device {
    Device {
        id: id.into(),
        name: format!("{id}-name"),
        device_kind: DeviceKind::Linux,
        ip: "192.168.5.40".into(),
        port: 5600,
        paired_at: at(T),
        last_sync_at: None,
        last_seen_at: Some(at(T)),
        is_online: true,
        is_self: false,
        paired: true,
        alias: None,
        device_secret: None,
        machine_uid: None,
    }
}

fn entry(secs: i64, peer: &str, event_type: SyncEventType, message: &str) -> SyncLogEntry {
    SyncLogEntry {
        id: None,
        timestamp: at(secs),
        direction: SyncDirection::In,
        protocol: SyncProtocol::Http,
        peer_id: Some(peer.into()),
        event_type,
        status: SyncStatus::Success,
        message: Some(message.into()),
        data_size: Some(7),
        details: None,
    }
}

fn trash(kind: &str, key: &str, archived_at: &str) -> TrashEntry {
    TrashEntry {
        id: 0,
        kind: kind.into(),
        logical_key: key.into(),
        archived: "{}".into(),
        winner_rev: None,
        reason: "older".into(),
        source_device: None,
        archived_at: archived_at.into(),
        restored: false,
    }
}

#[test]
fn names_are_read_back() {
    for kind in [
        DeviceKind::Windows,
        DeviceKind::Android,
        DeviceKind::Ios,
        DeviceKind::Linux,
        DeviceKind::Macos,
        DeviceKind::Unknown,
    ] {
        assert_eq!(parse_device_kind(kind.as_str()), kind);
    }
    assert_eq!(parse_device_kind("toaster"), DeviceKind::Unknown);
    assert_eq!(parse_direction("out"), SyncDirection::Out);
    assert_eq!(parse_direction("?"), SyncDirection::In);
    assert_eq!(parse_protocol("mdns"), SyncProtocol::Mdns);
    assert_eq!(parse_event_type("pairing"), SyncEventType::Pairing);
    assert_eq!(parse_status("failed"), SyncStatus::Failed);
}

#[test]
fn times_are_read_back() {
    let now = at(5);
    assert_eq!(parse_dt("2023-11-14T22:13:20+00:00", &now), at(T));
    assert_eq!(parse_dt("2023-11-15T00:13:20+02:00", &now), at(T));
    assert_eq!(parse_dt("yesterday", &now), now);
    assert_eq!(parse_opt_dt(&None, &now), None);

    let mut db = SyncDb::new();
    db.upsert_device(&dev("a"));
    assert_eq!(db.devices[0].paired_at, "2023-11-14T22:13:20+00:00");
    assert_eq!(db.get_device_at("a", &now).unwrap().paired_at, at(T));
}

#[test]
fn registering_again_keeps_the_pairing_time_and_one_row() {
    let mut db = SyncDb::new();
    db.upsert_device(&dev("a"));
    let mut again = dev("a");
    again.paired_at = at(T + 100);
    again.name = "renamed".into();
    db.upsert_device(&again);
    assert_eq!(db.devices.len(), 1);
    let d = db.get_device_at("a", &at(0)).unwrap();
    assert_eq!(d.name, "renamed");
    assert_eq!(d.paired_at, at(T));
}

#[test]
fn aliases_and_pairings_touch_one_row() {
    let mut db = SyncDb::new();
    db.upsert_device(&dev("a"));
    db.upsert_device(&dev("b"));
    assert!(db.update_alias("a", Some("desk")));
    assert!(!db.update_alias("c", Some("desk")));
    assert!(db.set_paired("b", false));
    let list = db.get_devices_at(&at(T));
    assert_eq!(list[0].alias.as_deref(), Some("desk"));
    assert_eq!(list[1].alias, None);
    assert!(list[0].paired && !list[1].paired);
    assert!(db.delete_device("a"));
    assert!(!db.delete_device("a"));
}

#[test]
fn clearing_keeps_the_own_row() {
    let mut db = SyncDb::new();
    let mut me = dev("me");
    me.is_self = true;
    db.upsert_device(&me);
    db.upsert_device(&dev("a"));
    db.set_device_secret("a", &"ab".repeat(32));
    assert_eq!(db.delete_all_devices(), 1);
    assert_eq!(db.get_devices_at(&at(T)).len(), 1);
    assert_eq!(db.get_device_secret("a"), None);
}

#[test]
fn secrets_are_kept_per_device() {
    let mut db = SyncDb::new();
    let s1 = "ab".repeat(32);
    let s2 = "cd".repeat(32);
    db.set_device_secret_at("a", &s1, &at(T));
    db.set_device_secret_at("a", &s2, &at(T + 1));
    db.set_device_secret_at("b", &s1, &at(T));
    assert_eq!(db.get_device_secret("a").unwrap(), s2);
    assert_eq!(db.store_secret_if_absent("a", &s1), s2);
    assert_eq!(db.store_secret_if_absent("c", &s1), s1);
    assert_eq!(db.list_secret_device_ids().len(), 3);
    let codes = db.fingerprints("me");
    assert_eq!(codes.len(), 3);
    assert_eq!(db.fingerprint_with("me", "a").unwrap(), codes[0].1);
    db.delete_device_secret("a");
    assert_eq!(db.get_device_secret("a"), None);
    assert_eq!(db.get_device_secret("b").unwrap(), s1);
}

#[test]
fn codes_expire_and_are_spent() {
    let mut db = SyncDb::new();
    let pc = PairCode { code: "123456".into(), created_at: at(T), expires_at: at(T + 300) };
    db.store_pair_code(&pc);
    assert!(db.validate_pair_code_at("123456", &at(T + 299)));
    assert!(!db.validate_pair_code_at("123456", &at(T + 300)));
    assert!(!db.validate_pair_code_at("654321", &at(T)));
    // An expiry that cannot be read is never over.
    db.codes.push(CodeRow {
        code: "999999".into(),
        created_at: "?".into(),
        expires_at: "soon".into(),
    });
    assert!(db.validate_pair_code_at("999999", &at(T + 1_000_000)));
    db.delete_pair_code("999999");
    db.delete_pair_code("123456");
    assert!(!db.validate_pair_code_at("123456", &at(T)));
    db.store_pair_code(&pc);
    db.cleanup_expired_codes_at(&at(T + 301));
    assert!(db.codes.is_empty());
}

#[test]
fn log_is_paged_newest_first() {
    let mut db = SyncDb::new();
    for i in 0..5 {
        let id = db.add_log(&entry(T + i, "a", SyncEventType::Sync, "m"));
        assert_eq!(id.unwrap(), i + 1);
    }
    db.add_log(&entry(T + 9, "a", SyncEventType::Pairing, "m")).unwrap();
    let page = LogFilter {
        direction: None,
        protocol: None,
        event_type: Some(SyncEventType::Sync),
        limit: 2,
        offset: 1,
    };
    let list = db.get_logs_at(&page, &at(0));
    assert_eq!(list.iter().map(|e| e.id.unwrap()).collect::<Vec<i64>>(), [4, 3]);
    assert_eq!(list[0].data_size, Some(7));
    assert_eq!(db.log_count(), 6);
    db.truncate_logs(1);
    assert_eq!(db.log_count(), 1);
    assert_eq!(db.add_log(&entry(T, "a", SyncEventType::Sync, "m")).unwrap(), 7);
}

#[test]
fn log_is_cut_with_every_hundredth_entry() {
    let mut db = SyncDb::new();
    for i in 0..600 {
        db.add_log(&entry(T + i, "a", SyncEventType::Sync, "m")).unwrap();
    }
    assert_eq!(db.log_count(), LOG_KEEP);
    db.last_log_id = i64::MAX;
    let full = db.add_log(&entry(T, "a", SyncEventType::Sync, "m"));
    assert_eq!(full.unwrap_err(), "database or disk is full");
}

#[test]
fn devices_are_read_back() {
    let mut db = SyncDb::new();
    let mut d = dev("a");
    d.paired_at = Timestamp { secs: T, nanos: 123_456_789 };
    d.last_sync_at = Some(at(-62_167_219_200));
    d.last_seen_at = Some(at(253_402_300_799));
    db.upsert_device(&d);
    let back = db.get_device("a").unwrap();
    assert_eq!((back.paired_at, back.last_sync_at), (d.paired_at, d.last_sync_at));
    assert_eq!((back.last_seen_at, back.device_kind), (d.last_seen_at, d.device_kind));
    // The time of pairing stays the first one.
    let first = d.paired_at;
    d.paired_at = at(T + 9);
    db.upsert_device(&d);
    assert_eq!(db.get_device("a").unwrap().paired_at, first);
    assert_eq!(db.get_devices().len(), 1);
}

#[test]
fn keys_are_stored_once() {
    let mut db = SyncDb::new();
    for _ in 0..2 {
        db.upsert_device(&dev("a"));
        db.set_device_secret("a", "s");
        db.store_pair_code(&PairCode {
            code: "123456".into(),
            created_at: at(T),
            expires_at: at(T + 300),
        });
        let cfg = db.get_config();
        db.set_config(&cfg);
        db.set_d1_last_sync("t");
    }
    assert_eq!((db.devices.len(), db.secrets.len(), db.codes.len()), (1, 1, 1));
    let keys: std::collections::HashSet<&str> = db.config.iter().map(|r| r.key.as_str()).collect();
    assert_eq!(keys.len(), db.config.len());
}

#[test]
fn settings_are_read_back() {
    let mut db = SyncDb::new();
    let mut cfg = db.get_config();
    assert!(!cfg.enabled);
    assert_eq!((cfg.listen_port, cfg.udp_port), (5600, 46000));
    cfg.enabled = true;
    cfg.self_alias = "desk".into();
    cfg.sync_interval = 300;
    cfg.d1_account_id = "acc".into();
    db.set_config(&cfg);
    let back: SyncConfig = db.get_config();
    assert!(back.enabled);
    assert_eq!(back.self_alias, "desk");
    assert_eq!(back.sync_interval, 300);
    assert_eq!(back.d1_account_id, "acc");
    assert_eq!(db.get_d1_last_sync(), None);
    db.set_d1_last_sync("2023-11-14T22:13:20+00:00");
    assert_eq!(db.get_d1_last_sync().unwrap(), "2023-11-14T22:13:20+00:00");
    for (stored, read) in [(0, 0), (1, 5), (4, 5), (5, 5)] {
        cfg.sync_interval = stored;
        db.set_config(&cfg);
        assert_eq!(db.get_config().sync_interval, read);
    }
    let all = db.get_all_config();
    let enabled = all.iter().find(|(k, _)| k == "enabled").unwrap();
    assert!(matches!(enabled.1, ConfigValue::Flag(true)));
}

#[test]
fn trash_is_listed_restored_and_purged() {
    let mut db = SyncDb::new();
    let a = db.insert_trash(&trash("note", "1", "2023-01-01T00:00:00+00:00")).unwrap();
    let b = db.insert_trash(&trash("todo", "2", "2023-02-01T00:00:00+00:00")).unwrap();
    assert_eq!(db.list_trash(None).iter().map(|t| t.id).collect::<Vec<i64>>(), [b, a]);
    assert_eq!(db.list_trash(Some("note")).len(), 1);
    assert_eq!(db.count_trash(), 2);
    assert!(db.mark_trash_restored(a));
    assert!(db.get_trash(a).unwrap().restored);
    assert_eq!(db.count_trash(), 1);
    assert_eq!(db.purge_restored_before("2023-03-01T00:00:00+00:00"), 1);
    assert_eq!(db.purge_trash_before("2023-01-15T00:00:00+00:00"), 0);
    assert_eq!(db.purge_trash_before("2023-03-01T00:00:00+00:00"), 1);
    assert!(!db.delete_trash(b));
    let c = db.insert_trash(&trash("note", "3", "2023-01-01T00:00:00+00:00")).unwrap();
    assert!(c > b);
    assert!(db.delete_trash(c));
}

#[test]
fn conflicts_are_listed_newest_first() {
    let mut db = SyncDb::new();
    db.insert_conflict_at("a", "note", "41", None, Some("r1"), "lww", Some(1), &at(T)).unwrap();
    db.insert_conflict_at("a", "note", "x", None, None, "unresolved", None, &at(T + 1)).unwrap();
    db.insert_conflict_at("b", "note", "43", None, None, "lww", None, &at(T)).unwrap();
    let list = db.get_device_conflicts("a");
    assert_eq!(list.len(), 2);
    assert_eq!((list[0].note_id, list[0].resolved), (0, false));
    assert_eq!((list[1].note_id, list[1].resolved), (41, true));
    assert_eq!(list[1].detected_at, "2023-11-14T22:13:20+00:00");
    db.upsert_device(&dev("a"));
    db.insert_conflict_at("a", "note", "7", None, None, "", None, &at(T)).unwrap();
    let s = db.get_device_sync_stats_at("a", &at(T)).unwrap();
    assert_eq!(s.pending_conflict_count, 2);
}

#[test]
fn statistics_sum_up_the_log() {
    let mut db = SyncDb::new();
    db.upsert_device(&dev("a"));
    db.mark_synced("a", &at(T + 60));
    db.add_log(&entry(T, "a", SyncEventType::Sync, "应用记录数: 3")).unwrap();
    db.add_log(&entry(T + 600, "a", SyncEventType::Sync, "full: 4")).unwrap();
    let mut failed = entry(T + 700, "a", SyncEventType::Sync, "timeout");
    failed.status = SyncStatus::Failed;
    db.add_log(&failed).unwrap();
    let s = db.get_device_sync_stats_at("a", &at(T + 1000)).unwrap();
    assert_eq!(s.total_synced_count, 2);
    assert_eq!(s.total_synced_size, 14);
    assert_eq!(s.sync_frequency_minutes, Some(10));
    assert_eq!(s.last_error.as_deref(), Some("timeout"));
    assert_eq!(s.last_sync_at.as_deref(), Some("2023-11-14T22:14:20+00:00"));
    assert_eq!(db.get_device_sync_stats_at("b", &at(T)).unwrap_err(), "Query returned no rows");
}
