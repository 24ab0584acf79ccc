//! The manager and the decisions of its loops.

use aw_sync::address::parse_ipv4;
use aw_sync::manager::auto::{
    refresh, sleep_step, wait_secs, AutoSync, DeviceStep, FailureStep, Notice, VisitStep,
};
use aw_sync::manager::cloud::{d1_round, note_d1_result, D1Step, D1SyncResult};
use aw_sync::manager::merging::{snapshot_size, RestoreStep};
use aw_sync::manager::network::{
    current_local_ip, local_ip, local_ip_iface, local_ip_override, local_ip_windows,
    set_local_ip_override, Adapter, Interface, LocalAddress,
};
use aw_sync::manager::own::{device_kind_label, Host};
use aw_sync::manager::probe::{probe_enabled, probe_targets, probe_wait};
use aw_sync::manager::switches::{
    data_revision, discovery_active, discovery_burst_pending, discovery_forbidden,
    discovery_persistent, discovery_running, now_ms, reset_discovery_started_for_testing,
    DiscoverySwitch,
};
use aw_sync::manager::SyncManager;
use aw_sync::models::{
    ArchivedRow, Device, DeviceKind, ImportOutcome, SyncConfig, SyncStatus, Timestamp,
    TransferRecord,
};
use aw_sync::storage::logs::LogFilter;
use aw_sync::storage::SyncDb;

const T: i64 = 1_700_000_000;

fn at(secs: i64) -> Timestamp {
    Timestamp { secs, nanos: 0 }
}

fn dev(id: &str, online: bool) -> Device {
    Device {
        id: id.into(),
        name: format!("{id}-name"),
        device_kind: DeviceKind::Linux,
        ip: "192.168.5.40".into(),
        port: 5600,
        paired_at: at(T),
        last_sync_at: None,
        last_seen_at: Some(at(T)),
        is_online: online,
        is_self: false,
        paired: true,
        alias: None,
        device_secret: None,
        machine_uid: None,
    }
}

fn manager() -> SyncManager {
    SyncManager::new(SyncDb::new(), "host-A".into())
}

fn iface(ip: &str, name: &str) -> Interface {
    Interface { ip: parse_ipv4(ip).unwrap(), name: name.into() }
}

fn on(interval: u64) -> Option<SyncConfig> {
    let mut cfg = SyncConfig::default();
    cfg.enabled = true;
    cfg.sync_interval = interval;
    Some(cfg)
}

fn all_logs() -> LogFilter {
    LogFilter { limit: 100, ..LogFilter::default() }
}

fn messages(m: &SyncManager) -> Vec<String> {
    m.list_logs_at(&all_logs(), &at(T)).into_iter().filter_map(|e| e.message).collect()
}

#[test]
fn listen_port_is_always_the_server_port() {
    let mut db = SyncDb::new();
    let mut cfg = db.get_config();
    cfg.listen_port = 8080;
    db.set_config(&cfg);
    let m = SyncManager::new(db, "host-A".into());
    assert_eq!(m.get_config().listen_port, 5600);
    assert_eq!(m.self_id(), "host-A");
}

#[test]
fn handed_in_address_must_be_usable() {
    let mut a = LocalAddress::new();
    set_local_ip_override(&mut a, " 192.168.5.34 ", false);
    assert_eq!(local_ip_override(&a).as_deref(), Some("192.168.5.34"));
    assert_eq!(local_ip_iface(&a).as_deref(), Some("wifi(Android注入)"));
    assert_eq!(current_local_ip(&a, &Some("10.0.0.1".into())), "192.168.5.34");
    for bad in ["", "127.0.0.1", "localhost", "0.0.0.0", "nonsense"] {
        set_local_ip_override(&mut a, bad, false);
        assert_eq!(local_ip_override(&a), None, "{bad}");
    }
    set_local_ip_override(&mut a, "fe80::1", true);
    assert_eq!(local_ip_override(&a).as_deref(), Some("fe80::1"));
    set_local_ip_override(&mut a, "::1", false);
    assert_eq!(current_local_ip(&a, &Some("10.0.0.1".into())), "10.0.0.1");
    assert_eq!(current_local_ip(&a, &None), "");
}

#[test]
fn wireless_and_private_addresses_are_preferred() {
    let mut a = LocalAddress::new();
    let list = vec![
        iface("172.19.0.1", "tun0"),
        iface("127.0.0.1", "lo"),
        iface("192.168.9.9", "docker0"),
        iface("10.0.0.3", "eth0"),
        iface("192.168.5.34", "WLAN0"),
        iface("192.168.5.35", "wlan1"),
    ];
    assert_eq!(local_ip(&mut a, &list).as_deref(), Some("192.168.5.34"));
    assert_eq!(local_ip_iface(&a).as_deref(), Some("wlan0"));
    // Without a favoured interface any other counts.
    assert_eq!(local_ip(&mut a, &vec![iface("8.8.8.8", "x0"), iface("172.20.0.2", "br0")]).as_deref(), Some("172.20.0.2"));
    assert_eq!(local_ip(&mut a, &vec![iface("172.19.0.1", "my-vpn")]), None);
}

#[test]
fn adapters_that_are_down_or_virtual_are_passed_over() {
    let adapter = |if_type: u32, oper_status: i32, name: &str, ip: &str| Adapter {
        if_type,
        oper_status,
        friendly_name: name.into(),
        addrs: vec![parse_ipv4(ip).unwrap()],
    };
    let list = vec![
        adapter(24, 1, "Loopback", "192.168.1.1"),
        adapter(13, 1, "Tunnel", "192.168.1.2"),
        adapter(6, 2, "Ethernet", "192.168.1.3"),
        adapter(6, 1, "vEthernet (Hyper-V Virtual)", "192.168.1.4"),
        adapter(71, 1, "Wi-Fi", "10.0.0.5"),
        adapter(6, 1, "Other", "192.168.1.6"),
    ];
    let mut a = LocalAddress::new();
    assert_eq!(local_ip_windows(&mut a, &list).as_deref(), Some("10.0.0.5"));
    assert_eq!(local_ip_iface(&a).as_deref(), Some("wi-fi"));
}

#[test]
fn discovery_is_switched_and_bursts_end_by_themselves() {
    let mut m = manager();
    assert!(!discovery_running(&m.discovery));
    let plan = m.start_discovery(false).unwrap();
    assert_eq!((plan.udp_port, plan.mdns), (46000, true));
    assert!(discovery_running(&m.discovery));
    assert!(m.start_discovery(false).is_none());
    m.stop_discovery(DeviceKind::Linux);
    assert!(discovery_running(&m.discovery));
    m.start_discovery_burst(60, false, 1_000);
    m.stop_discovery(DeviceKind::Android);
    assert!(!discovery_running(&m.discovery));
    assert!(discovery_burst_pending(&m.discovery, 30_999));
    assert!(discovery_active(&m.discovery, 30_999));
    assert!(!discovery_active(&m.discovery, 31_000));
    m.stop_discovery_burst();
    assert!(!discovery_active(&m.discovery, 1_001));
    assert!(now_ms() > 1_000);
}

#[test]
fn discovery_can_be_forbidden() {
    assert!(!discovery_forbidden(None));
    assert!(!discovery_forbidden(Some("")));
    assert!(!discovery_forbidden(Some("0")));
    assert!(discovery_forbidden(Some("1")));
    let mut m = manager();
    assert!(m.spawn_discovery(true).is_none());
    assert!(!m.discovery.threads_started);
    let mut cfg = m.get_config();
    cfg.discovery_method = "udp_only".into();
    cfg.enabled = true;
    m.set_config(&cfg);
    let plan = m.spawn_discovery(false).unwrap();
    assert!(!plan.mdns);
    assert!(discovery_running(&m.discovery));
    reset_discovery_started_for_testing(&mut m.discovery);
    assert_eq!(m.discovery, DiscoverySwitch::new());
    assert!(discovery_persistent(DeviceKind::Windows) && !discovery_persistent(DeviceKind::Android));
}

#[test]
fn automatic_rounds_follow_the_settings() {
    let mut a = AutoSync::new();
    let first = a.begin(&on(10));
    assert!(first.enabled && first.force);
    let second = a.begin(&on(2));
    assert!(second.enabled && !second.force);
    assert_eq!(second.interval_secs, 5);
    let manual = a.begin(&on(0));
    assert!(!manual.enabled);
    let none = a.begin(&None);
    assert_eq!((none.enabled, none.interval_secs), (false, 10));
    assert!(a.begin(&on(10)).force);
    assert_eq!(sleep_step(0, 12), 5);
    assert_eq!(sleep_step(10, 12), 2);
    assert_eq!(sleep_step(12, 12), 0);
    // A shorter interval ends a wait that is under way.
    assert_eq!((wait_secs(&on(1800)), wait_secs(&on(2)), wait_secs(&None)), (1800, 5, 10));
    assert_eq!(sleep_step(15, wait_secs(&on(10))), 0);
}

#[test]
fn interval_zero_leaves_synchronisation_to_the_user() {
    let mut m = SyncManager::new(SyncDb::new(), "host-A".into());
    m.set_config(&on(0).unwrap());
    let round = AutoSync::new().begin(&Some(m.get_config()));
    assert!(!round.enabled && !round.force);
}

#[test]
fn returns_and_switching_on_do_not_wait() {
    let mut a = AutoSync::new();
    assert!(a.switched_on(&on(1800)) && !a.switched_on(&on(0)) && !a.switched_on(&None));
    a.begin(&on(1800));
    assert!(!a.switched_on(&on(1800)));
    a.consider(&dev("p", false), false, 0);
    assert!(!a.came_back(&on(1800), &dev("p", false)));
    assert!(a.came_back(&on(1800), &dev("p", true)));
    assert!(!a.came_back(&on(0), &dev("p", true)) && !a.came_back(&None, &dev("p", true)));
    assert_eq!(a.consider(&dev("p", true), false, 1_000), (DeviceStep::Probe, Notice::CameBack));
    assert!(!a.came_back(&on(1800), &dev("p", true)));
}

#[test]
fn offline_devices_are_tried_every_half_minute() {
    let mut a = AutoSync::new();
    assert_eq!(a.consider(&dev("p", true), false, 0), (DeviceStep::Probe, Notice::CameBack));
    assert_eq!(a.consider(&dev("p", false), false, 1_000), (DeviceStep::Probe, Notice::WentOffline));
    assert_eq!(a.consider(&dev("p", false), false, 30_999), (DeviceStep::Skip, Notice::Unchanged));
    assert_eq!(a.consider(&dev("p", false), true, 30_999), (DeviceStep::Probe, Notice::Unchanged));
    assert_eq!(a.consider(&dev("p", false), false, 60_999), (DeviceStep::Probe, Notice::Unchanged));
    let mut unpaired = dev("q", true);
    unpaired.paired = false;
    assert_eq!(a.consider(&unpaired, true, 0), (DeviceStep::Skip, Notice::Unchanged));
}

#[test]
fn rediscovery_is_limited() {
    let mut a = AutoSync::new();
    assert_eq!(a.unanswered(false, 0), FailureStep::Rediscover(6, 3_000));
    assert_eq!(a.unanswered(false, 29_999), FailureStep::GiveUp);
    assert_eq!(a.unanswered(true, 29_999), FailureStep::Rediscover(6, 3_000));
    assert_eq!(a.unanswered(false, 59_999), FailureStep::Rediscover(6, 3_000));
    let mut moved = dev("p", true);
    moved.ip = "192.168.5.99".into();
    assert_eq!(refresh(&vec![dev("q", true), moved], &dev("p", true)).ip, "192.168.5.99");
    assert_eq!(refresh(&vec![], &dev("p", true)).ip, "192.168.5.40");
}

#[test]
fn silent_devices_are_rediscovered_once() {
    let mut a = AutoSync::new();
    let (mut visit, step, _) = a.visit(&dev("p", true), true, 0);
    assert_eq!(step, VisitStep::Probe);
    assert_eq!(visit.probed(&mut a, false, true, 0), VisitStep::Rediscover(6, 3_000));
    let mut moved = dev("p", true);
    moved.ip = "192.168.5.99".into();
    assert_eq!(visit.reread(&vec![moved]), VisitStep::Probe);
    assert_eq!(visit.target.ip, "192.168.5.99");
    assert_eq!(visit.probed(&mut a, false, true, 0), VisitStep::Over);
    assert_eq!(visit.probed(&mut a, true, true, 0), VisitStep::Sync);
}

#[test]
fn probing_waits_by_the_settings() {
    let mut cfg = SyncConfig::default();
    cfg.enabled = true;
    cfg.probe_interval = 1;
    assert!(probe_enabled(&Some(cfg)));
    assert!(!probe_enabled(&None));
    assert_eq!(probe_wait(false, &None), 5);
    assert_eq!(probe_wait(true, &None), 10);
    let mut cfg = SyncConfig::default();
    cfg.probe_interval = 1;
    assert_eq!(probe_wait(true, &Some(cfg)), 2);
    let mut me = dev("me", true);
    me.is_self = true;
    assert_eq!(probe_targets(vec![me, dev("p", true)]).len(), 1);
}

#[test]
fn cloud_rounds_need_a_complete_account() {
    let mut cfg = SyncConfig::default();
    assert_eq!(d1_round(&None), (D1Step::Off, 300));
    cfg.d1_enabled = true;
    cfg.d1_sync_interval = 3;
    cfg.d1_account_id = "a".into();
    cfg.d1_database_id = " ".into();
    cfg.d1_api_token = "t".into();
    assert_eq!(d1_round(&Some(cfg.clone())), (D1Step::Incomplete, 10));
    cfg.d1_database_id = "d".into();
    assert_eq!(d1_round(&Some(cfg)), (D1Step::Sync, 10));

    let mut db = SyncDb::new();
    let ok = D1SyncResult {
        ok: true,
        pushed_notes: 1,
        pushed_todos: 2,
        pulled_notes: 3,
        pulled_todos: 4,
        conflicts: 5,
    };
    note_d1_result(&mut db, &ok, true, &at(T));
    let failed = D1SyncResult { ok: false, ..ok };
    note_d1_result(&mut db, &failed, false, &at(T + 1));
    assert_eq!(db.get_d1_last_sync().unwrap(), "2023-11-14T22:13:20+00:00");
    let logs = db.get_logs_at(&all_logs(), &at(T));
    assert_eq!(logs[0].status, SyncStatus::Failed);
    assert_eq!(
        logs[1].message.as_deref(),
        Some("[全量] 推送 1 笔记 / 2 TODO · 拉取 3 笔记 / 4 TODO · 冲突 5")
    );
}

fn outcome(applied: u64, lost: &[&str]) -> ImportOutcome {
    ImportOutcome {
        applied,
        created: applied,
        updated: 0,
        deleted: 0,
        ignored_stale: 1,
        ignored_dup: 2,
        archived: lost
            .iter()
            .map(|key| ArchivedRow {
                kind: "note".into(),
                logical_key: key.to_string(),
                archived_json: "{}".into(),
                winner_rev: Some("r2".into()),
                reason: "older".into(),
            })
            .collect(),
        errors: vec![],
        records: (0..applied)
            .map(|i| TransferRecord {
                kind: "note".into(),
                logical_key: format!("k{i}"),
                action: "create".into(),
            })
            .collect(),
    }
}

#[test]
fn losers_of_a_merge_are_put_aside() {
    let mut m = manager();
    let src = dev("p", true);
    let r = m.apply_snapshot_at(
        Some(&src),
        Some(Err("broken".into())),
        Some(Ok(outcome(2, &["n1", "n2"]))),
        Some(Ok(outcome(1, &[]))),
        &at(T),
    );
    assert_eq!((r.applied, r.ignored, r.conflicts, r.archived), (3, 6, 2, 2));
    assert_eq!(r.errors, ["activity: broken"]);
    assert_eq!(r.records.len(), 3);
    assert_eq!(data_revision(&m.revision), 1);
    let trash = m.list_trash(None);
    assert_eq!(trash.len(), 2);
    assert_eq!(trash[0].source_device.as_deref(), Some("p"));
    assert_eq!(m.get_device_conflicts("p").len(), 2);
    assert_eq!(
        messages(&m),
        ["合并来自 p-name(p) 的同步：2 条进入回收站（自动仲裁，无需人工处理）"]
    );
}

#[test]
fn empty_snapshots_leave_no_trace() {
    let mut m = manager();
    let r = m.apply_snapshot(None, None, Some(Ok(outcome(0, &[]))), None);
    assert_eq!(r.applied, 0);
    assert_eq!(data_revision(&m.revision), 0);
    assert_eq!(m.log_count(), 0);
    let r = m.apply_snapshot(None, None, Some(Ok(outcome(0, &["x"]))), None);
    assert_eq!(r.archived, 1);
    assert_eq!(data_revision(&m.revision), 1);
    assert_eq!(m.get_device_conflicts("unknown").len(), 1);
}

#[test]
fn runs_are_noted_unless_they_are_idle() {
    let mut m = manager();
    m.save_device(&dev("p", true));
    m.db.set_device_secret("p", &"ab".repeat(32));
    assert_eq!(m.sync_to_unlocked("x", &at(T)).unwrap_err(), "未找到目标设备");

    let mut run = m.sync_to_unlocked("p", &at(T)).unwrap();
    assert_eq!(run.secret.as_deref(), Some("ab".repeat(32).as_str()));
    let plan = run.fetched(&mut m, None, None, None, None, &at(T));
    assert!(plan.activity && plan.inbox && plan.todo);
    let r = run.pushed(&mut m, None, 0, "[]", false, &at(T)).unwrap();
    assert_eq!(r.applied, 0);
    assert_eq!(m.log_count(), 0);
    assert_eq!(m.get_device_at("p", &at(T)).unwrap().last_sync_at, Some(at(T)));

    let mut run = m.sync_to_unlocked("p", &at(T)).unwrap();
    run.fetched(&mut m, None, None, Some(Ok(outcome(2, &[]))), None, &at(T));
    let size = snapshot_size(Some("ab"), Some("é"), None);
    assert_eq!(size, 4);
    run.pushed(&mut m, Some(7), size, "[1]", false, &at(T)).unwrap();
    let logs = m.list_logs_at(&all_logs(), &at(T));
    assert_eq!(
        logs[0].message.as_deref(),
        Some(
            "本机(host-A) 与 p-name(p) 双向同步完成: 拉取应用 2 条(新增2 更新0 删除0)，\
             推送 7 条，归档 0 条"
        )
    );
    assert_eq!(logs[0].data_size, Some(4));
    assert_eq!(logs[0].details.as_deref(), Some("[1]"));
}

#[test]
fn entries_are_restored_once() {
    let mut m = manager();
    m.apply_snapshot(None, None, Some(Ok(outcome(0, &["n1"]))), None);
    let id = m.list_trash(None)[0].id;
    assert_eq!(m.restore_trash(id + 1).unwrap_err(), "回收站条目不存在");
    match m.restore_trash(id).unwrap() {
        RestoreStep::Note(entry) => m.trash_restored(&entry, true, &at(T)),
        other => panic!("{other:?}"),
    }
    assert!(matches!(m.restore_trash(id).unwrap(), RestoreStep::Done));
    assert_eq!(m.trash_count(), 0);
    assert_eq!(messages(&m)[0], "已从回收站恢复 note（逻辑键 n1）");
    m.db.trash[0].restored = false;
    m.db.trash[0].kind = "book".into();
    assert_eq!(m.restore_trash(id).unwrap_err(), "未知归档类型 book");
    assert_eq!(m.clear_trash(), 1);
}

#[test]
fn own_name_is_readable() {
    let mut m = SyncManager::new(SyncDb::new(), "12ab-34cd-56ef".into());
    let mut host =
        Host { name: "localhost".into(), kind: DeviceKind::Android, ip: "10.0.0.1".into() };
    let d = m.self_device_info_at(&host, &at(T));
    assert_eq!(d.name, "Android-12ab34");
    assert!(d.is_self && d.alias.is_none() && d.machine_uid.is_none());
    host.name = "desk".into();
    assert_eq!(m.self_device_info(&host).name, "desk");
    let mut cfg = m.get_config();
    cfg.self_alias = "study".into();
    m.set_config(&cfg);
    let d = m.self_device_info_at(&host, &at(T));
    assert_eq!((d.name.as_str(), d.alias.as_deref()), ("study", Some("study")));
    assert_eq!(device_kind_label(DeviceKind::Macos), "MacOS");
}
