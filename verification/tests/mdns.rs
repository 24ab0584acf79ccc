//! Services of multicast DNS.

use aw_sync::address::{parse_ipv4, Ipv4};
use aw_sync::crypto::hashed_alias;
use aw_sync::mdns::{
    daemon_ready, device_from_service, pick_ipv4, registered_note_of, registration, AnnounceStep,
    Announcer, BrowseStep, Browser, DaemonSlot, DaemonStep, ServiceRecord, PROTO_VERSION,
    SERVICE_TYPE, TXT_DEVICE_ID, TXT_DEVICE_KIND, TXT_VERSION,
};
use aw_sync::models::DeviceKind;
use mdns_sd::{ResolvedService, ServiceInfo};

/// A resolved service, with its properties encoded by the daemon's own code.
fn resolved(ip: &str, port: u16, props: &[(&str, &str)]) -> ServiceRecord {
    let rs: ResolvedService =
        ServiceInfo::new(SERVICE_TYPE, "aabbccdd", "aabbccdd.local.", ip, port, props)
            .expect("构造 ServiceInfo")
            .as_resolved_service();
    let text = |key: &str| rs.get_property_val_str(key).map(str::to_string);
    ServiceRecord {
        version: text(TXT_VERSION),
        id: text(TXT_DEVICE_ID),
        kind: text(TXT_DEVICE_KIND),
        addrs: rs
            .get_addresses_v4()
            .iter()
            .map(|ip| {
                let [a, b, c, d] = ip.octets();
                Ipv4 { a, b, c, d }
            })
            .collect(),
        port: rs.get_port(),
    }
}

fn ours(id: &'static str) -> Vec<(&'static str, &'static str)> {
    vec![(TXT_VERSION, PROTO_VERSION), (TXT_DEVICE_ID, id), (TXT_DEVICE_KIND, "windows")]
}

fn addrs(list: &[&str]) -> Vec<Ipv4> {
    list.iter().map(|s| parse_ipv4(s).unwrap()).collect()
}

#[test]
fn resolved_service_becomes_device() {
    let rs = resolved("192.168.5.34", 5600, &ours("device-B"));
    let d = device_from_service(&rs, "device-A").expect("应认领同服务类型的对端");
    assert_eq!(d.id, "device-B");
    assert_eq!(d.ip, "192.168.5.34");
    assert_eq!(d.port, 5600);
    assert_eq!(d.name, hashed_alias("device-B"), "未配对前对外只有哈希别名，不能泄漏主机名");
    assert_eq!(d.device_kind, DeviceKind::Windows);
    assert!(!d.is_self && !d.paired);
}

#[test]
fn foreign_or_self_services_are_not_claimed() {
    let ip = "192.168.5.34";
    let mut v2 = ours("device-B");
    v2[0] = (TXT_VERSION, "999");
    assert!(device_from_service(&resolved(ip, 5600, &v2), "device-A").is_none());
    assert!(device_from_service(
        &resolved(ip, 5600, &[(TXT_VERSION, PROTO_VERSION)]),
        "device-A"
    )
    .is_none());
    assert!(device_from_service(&resolved(ip, 5600, &ours("device-A")), "device-A").is_none());
    assert!(device_from_service(&resolved("127.0.0.1", 5600, &ours("device-B")), "device-A")
        .is_none());
}

#[test]
fn pick_ipv4_skips_unusable_and_is_deterministic() {
    assert_eq!(pick_ipv4(&addrs(&[])), None);
    assert_eq!(pick_ipv4(&addrs(&["127.0.0.1"])), None);
    assert_eq!(pick_ipv4(&addrs(&["0.0.0.0"])), None);
    assert_eq!(
        pick_ipv4(&addrs(&["169.254.1.2"])),
        None,
        "链路本地地址过不了 AP，写进库就是死地址"
    );
    assert_eq!(
        pick_ipv4(&addrs(&["192.168.5.34", "10.8.0.3", "172.16.0.9"])),
        Some(parse_ipv4("10.8.0.3").unwrap())
    );
    assert_eq!(
        pick_ipv4(&addrs(&["192.168.5.34", "10.8.0.3"])),
        pick_ipv4(&addrs(&["10.8.0.3", "192.168.5.34"]))
    );
}

#[test]
fn own_service_is_registered_under_its_alias() {
    let rs = resolved("192.168.5.34", 5600, &ours("device-B"));
    let d = device_from_service(&rs, "device-A").unwrap();
    let alias = hashed_alias("device-B");
    let r = registration(&d, &alias);
    assert_eq!(r.instance, alias);
    assert_eq!(r.host_name, format!("{alias}.local."));
    assert_eq!((r.version.as_str(), r.id.as_str(), r.kind.as_str()), ("1", "device-B", "windows"));
    assert!(registered_note_of(&alias, "192.168.5.34", 5600, "device-B").contains("192.168.5.34"));
}

#[test]
fn daemon_is_tried_again_after_half_a_minute() {
    let mut slot = DaemonSlot::new();
    assert!(!daemon_ready(&slot));
    assert_eq!(slot.daemon(1_000), DaemonStep::Start);
    slot.started(false);
    assert_eq!(slot.daemon(30_999), DaemonStep::Without);
    assert_eq!(slot.daemon(31_000), DaemonStep::Start);
    slot.started(true);
    assert!(daemon_ready(&slot));
    assert_eq!(slot.daemon(31_001), DaemonStep::Use);
}

#[test]
fn announcement_follows_the_address() {
    let mut a = Announcer::new();
    let first = a.step(true, "192.168.5.34");
    assert!(matches!(first, AnnounceStep::Register(None, ip) if ip == "192.168.5.34"));
    a.registered("x._activitywatch._tcp.local.".to_string(), "192.168.5.34");
    assert!(matches!(a.step(true, "192.168.5.34"), AnnounceStep::Keep(_)));
    let moved = a.step(true, "192.168.5.35");
    assert!(matches!(moved, AnnounceStep::Register(Some(_), ip) if ip == "192.168.5.35"));
    a.registered("x._activitywatch._tcp.local.".to_string(), "192.168.5.35");
    // With nothing but loopback left there is nothing to announce.
    assert!(matches!(a.step(true, "127.0.0.1"), AnnounceStep::Withdraw(Some(_), _)));
    assert!(matches!(a.step(true, "0.0.0.0"), AnnounceStep::Withdraw(None, _)));
}

#[test]
fn browsing_stops_with_discovery() {
    let mut b = Browser::new();
    assert_eq!(b.step(true, true), BrowseStep::Start);
    b.started(true);
    assert!(matches!(b.step(true, true), BrowseStep::Listen(_)));
    assert!(matches!(b.step(false, true), BrowseStep::Stop(_)));
    assert!(!b.browsing);
}
