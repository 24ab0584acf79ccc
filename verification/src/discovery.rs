//! Discovery: what two ways of finding devices share, and broadcast announcements.
//!
//! Devices are announced over multicast DNS, which is preferred, and by broadcast. Whatever is
//! announced is recorded in one place, where a late broadcast does not overwrite a fresh
//! address from multicast DNS.

use vstd::prelude::*;
use vstd::string::*;
use vstd::utf8::encode_utf8;

use crate::address::{ipv4_of, is_null_ipv6, law_dotted_reads_back, null_ipv6, parse_ipv4, Ipv4};
use crate::crypto::{alias_text, checked_alias};
use crate::mdns::{daemon_ready, DaemonSlot};
use crate::models::{seconds_between, Device, DeviceV, SyncDirection, SyncEventType, SyncLogEntry, SyncLogEntryV, SyncProtocol, SyncStatus, Timestamp};
use crate::outside::{clock, MAX_HASH_INPUT};
use crate::stamps::Stamps;
use crate::storage::devices::{device_row, reads_back, seen_source, source_view, time_text, with_change, with_discovered, DeviceChangeV};
use crate::storage::logs::with_log;
use crate::storage::{SyncDb, SyncDbV};
use crate::text::{begins_with, chars_of, decimal, opt_text, push_decimal, same, skip_chars, starts_with, trim, trimmed};

verus! {

/// What a broadcast announcement begins with.
pub const MAGIC: &'static str = "AW-SYNC/1.0";

/// How long an address from multicast DNS counts as fresh, in seconds.
pub const MDNS_FRESH_SECS: i64 = 45;

/// How long a log message of one kind is not repeated, in milliseconds.
pub const LOG_DEDUP_MS: i64 = 60_000;

/// How an announcement came.
#[derive(Debug, Clone, Copy, PartialEq, Eq, Structural)]
pub enum PeerSource {
    Mdns,
    UdpBroadcast,
}

impl PeerSource {
    /// The name under which it is stored.
    pub open spec fn text(self) -> Seq<char> {
        match self {
            PeerSource::Mdns => "mdns"@,
            PeerSource::UdpBroadcast => "udp"@,
        }
    }

    /// The protocol under which it is logged.
    pub open spec fn logged_as(self) -> SyncProtocol {
        match self {
            PeerSource::Mdns => SyncProtocol::Mdns,
            PeerSource::UdpBroadcast => SyncProtocol::UdpBroadcast,
        }
    }

    /// The name under which it is stored.
    pub fn as_str(&self) -> (r: &'static str)
        ensures
            r@ == self.text(),
    {
        match self {
            PeerSource::Mdns => "mdns",
            PeerSource::UdpBroadcast => "udp",
        }
    }

    /// The protocol under which it is logged.
    pub fn protocol(&self) -> (r: SyncProtocol)
        ensures
            r == self.logged_as(),
    {
        match self {
            PeerSource::Mdns => SyncProtocol::Mdns,
            PeerSource::UdpBroadcast => SyncProtocol::UdpBroadcast,
        }
    }
}

/// The own device, and where its data is kept.
pub struct SelfInfo {
    pub device: Device,
    pub data_dir: String,
}

// ---- which announcement counts ----

/// Whether an announcement may overwrite the address that is recorded. It may not when it
/// came by broadcast and the recorded one came over multicast DNS and is still fresh.
pub open spec fn wins(
    existing: Option<(Seq<char>, Option<Timestamp>)>,
    incoming: PeerSource,
    now: Timestamp,
) -> bool {
    match existing {
        None => true,
        Some(e) => if incoming == PeerSource::UdpBroadcast && e.0 == "mdns"@ {
            match e.1 {
                Some(t) => seconds_between(t.ns(), now.ns()) >= MDNS_FRESH_SECS,
                None => true,
            }
        } else {
            true
        },
    }
}

/// Whether an announcement may overwrite the address that is recorded.
pub fn source_wins(
    existing: Option<(String, Option<Timestamp>)>,
    incoming: PeerSource,
    now: &Timestamp,
) -> (r: bool)
    ensures
        r == wins(source_view(existing), incoming, *now),
{
    match existing {
        None => true,
        Some(e) => {
            if incoming == PeerSource::UdpBroadcast && same(e.0.as_str(), "mdns") {
                match e.1 {
                    Some(t) => now.seconds_since(&t) >= MDNS_FRESH_SECS as i128,
                    None => true,
                }
            } else {
                true
            }
        },
    }
}

// ---- not repeating log messages ----

/// Whether a message is due: none with its key was logged lately.
pub open spec fn log_due(dedup: Map<Seq<char>, i64>, key: Seq<char>, tick: i64) -> bool {
    !(dedup.contains_key(key) && tick - dedup[key] < LOG_DEDUP_MS)
}

/// When messages were logged, after one may have been.
pub open spec fn log_noted(dedup: Map<Seq<char>, i64>, key: Seq<char>, tick: i64) -> Map<
    Seq<char>,
    i64,
> {
    if log_due(dedup, key, tick) {
        dedup.insert(key, tick)
    } else {
        dedup
    }
}

/// Whether a message is due. `tick` is a steady clock in milliseconds.
pub fn should_log(dedup: &mut Stamps, key: &str, tick: i64) -> (r: bool)
    ensures
        r == log_due(old(dedup)@, key@, tick),
        final(dedup)@ == log_noted(old(dedup)@, key@, tick),
{
    let fresh: bool = match dedup.get(key) {
        Some(t) => (tick as i128 - t as i128) < LOG_DEDUP_MS as i128,
        None => false,
    };
    if !fresh {
        dedup.insert(key, tick);
    }
    !fresh
}

// ---- recording announcements ----

/// An announced device as it is recorded: never the own one, never paired, just seen.
pub open spec fn as_heard(dev: DeviceV, now: Timestamp) -> DeviceV {
    DeviceV { is_self: false, paired: false, last_seen_at: Some(now), ..dev }
}

/// The log entry for an announcement.
pub open spec fn heard_entry(
    id: Seq<char>,
    via: PeerSource,
    note: Seq<char>,
    now: Timestamp,
) -> SyncLogEntryV {
    SyncLogEntryV {
        id: None,
        timestamp: now,
        direction: SyncDirection::In,
        protocol: via.logged_as(),
        peer_id: Some(id),
        event_type: SyncEventType::Discovery,
        status: SyncStatus::Success,
        message: Some(note),
        data_size: None,
        details: None,
    }
}

/// The key under which announcements of a device are not logged again and again.
pub open spec fn heard_key(via: PeerSource, id: Seq<char>) -> Seq<char> {
    "in-"@ + via.text() + "-"@ + id
}

/// What recording an announcement comes to: whether it counted, the state after it, and when
/// messages were logged.
pub open spec fn recorded(
    db: SyncDbV,
    dedup: Map<Seq<char>, i64>,
    dev: DeviceV,
    via: PeerSource,
    note: Seq<char>,
    now: Timestamp,
    tick: i64,
) -> (bool, SyncDbV, Map<Seq<char>, i64>) {
    if !wins(seen_source(db.devices, dev.id), via, now) {
        (
            false,
            SyncDbV {
                devices: with_change(
                    db.devices,
                    dev.id,
                    DeviceChangeV::Seen(time_text(now), now.secs),
                ),
                ..db
            },
            dedup,
        )
    } else {
        let stored = SyncDbV {
            devices: with_discovered(db.devices, as_heard(dev, now), via.text()),
            ..db
        };
        let key = heard_key(via, dev.id);
        (
            true,
            if log_due(dedup, key, tick) {
                with_log(stored, heard_entry(dev.id, via, note, now))
            } else {
                stored
            },
            log_noted(dedup, key, tick),
        )
    }
}

/// Records an announcement at a time: decides whether it counts, stores it, and logs it where
/// a message is due. One that does not count only marks the device as seen.
pub fn record_peer_at(
    db: &mut SyncDb,
    dedup: &mut Stamps,
    dev: Device,
    via: PeerSource,
    note: String,
    now: &Timestamp,
    tick: i64,
) -> (r: bool)
    ensures
        (r, final(db)@, final(dedup)@) == recorded(
            old(db)@,
            old(dedup)@,
            dev@,
            via,
            note@,
            *now,
            tick,
        ),
{
    let mut dev: Device = dev;
    let ghost given = dev@;
    dev.is_self = false;
    dev.paired = false;
    dev.last_seen_at = Some(*now);
    assert(dev@ == as_heard(given, *now));
    let existing: Option<(String, Option<Timestamp>)> = db.device_seen_source(dev.id.as_str());
    if !source_wins(existing, via, now) {
        db.touch_seen_at(dev.id.as_str(), now);
        return false;
    }
    db.upsert_discovered(&dev, via.as_str());
    let mut key: String = "in-".to_string();
    key.append(via.as_str());
    key.append("-");
    key.append(dev.id.as_str());
    if should_log(dedup, key.as_str(), tick) {
        let entry: SyncLogEntry = SyncLogEntry {
            id: None,
            timestamp: *now,
            direction: SyncDirection::In,
            protocol: via.protocol(),
            peer_id: Some(dev.id.clone()),
            event_type: SyncEventType::Discovery,
            status: SyncStatus::Success,
            message: Some(note),
            data_size: None,
            details: None,
        };
        let _ = db.add_log(&entry);
    }
    true
}

/// Records an announcement now.
pub fn record_peer(
    db: &mut SyncDb,
    dedup: &mut Stamps,
    dev: Device,
    via: PeerSource,
    note: String,
    tick: i64,
) -> (r: bool)
    ensures
        exists|now: Timestamp|
            (r, final(db)@, final(dedup)@) == #[trigger] recorded(
                old(db)@,
                old(dedup)@,
                dev@,
                via,
                note@,
                now,
                tick,
            ),
{
    let now: Timestamp = clock();
    record_peer_at(db, dedup, dev, via, note, &now, tick)
}

/// The log entry for an announcement that was sent.
pub open spec fn sent_entry(
    via: PeerSource,
    msg: Seq<char>,
    data_size: Option<u64>,
    now: Timestamp,
) -> SyncLogEntryV {
    SyncLogEntryV {
        id: None,
        timestamp: now,
        direction: SyncDirection::Out,
        protocol: via.logged_as(),
        peer_id: None,
        event_type: SyncEventType::Discovery,
        status: SyncStatus::Success,
        message: Some(msg),
        data_size,
        details: None,
    }
}

/// Logs an announcement that was sent, where a message is due.
pub fn log_announce(
    db: &mut SyncDb,
    dedup: &mut Stamps,
    dedup_key: &str,
    via: PeerSource,
    msg: String,
    data_size: Option<u64>,
    now: &Timestamp,
    tick: i64,
) -> (r: bool)
    ensures
        r == log_due(old(dedup)@, dedup_key@, tick),
        final(dedup)@ == log_noted(old(dedup)@, dedup_key@, tick),
        final(db)@ == (if r {
            with_log(old(db)@, sent_entry(via, msg@, data_size, *now))
        } else {
            old(db)@
        }),
{
    if !should_log(dedup, dedup_key, tick) {
        return false;
    }
    let entry: SyncLogEntry = SyncLogEntry {
        id: None,
        timestamp: *now,
        direction: SyncDirection::Out,
        protocol: via.protocol(),
        peer_id: None,
        event_type: SyncEventType::Discovery,
        status: SyncStatus::Success,
        message: Some(msg),
        data_size,
        details: None,
    };
    let _ = db.add_log(&entry);
    true
}

// ---- sending broadcasts ----

/// The broadcast address of the network of an address, taken to span its last byte; none for
/// what is no address, and for one that stands for none or for the machine itself.
pub open spec fn broadcast_address(local_ip: Seq<char>) -> Option<Seq<char>> {
    match ipv4_of(local_ip) {
        Some(ip) => {
            if ip.loopback() || ip.unspecified() {
                None
            } else {
                Some(Ipv4 { d: 255, ..ip }.dotted())
            }
        },
        None => None,
    }
}

/// The broadcast address of the network of an address.
pub fn subnet_broadcast(local_ip: &str) -> (r: Option<String>)
    ensures
        opt_text(r) == broadcast_address(local_ip@),
{
    match parse_ipv4(local_ip) {
        Some(ip) => {
            if ip.is_loopback() || ip.is_unspecified() {
                None
            } else {
                let all: Ipv4 = Ipv4 { a: ip.a, b: ip.b, c: ip.c, d: 255 };
                Some(all.to_text())
            }
        },
        None => None,
    }
}

/// A device as it is announced: under its alias, without secret and fingerprint, and under the
/// address that announcements are sent from.
pub open spec fn redacted(device: DeviceV, ip: Seq<char>) -> DeviceV {
    DeviceV {
        name: alias_text(device.id),
        ip,
        device_secret: None,
        machine_uid: None,
        ..device
    }
}

/// The device as it may be announced; none where its id is too long to be hashed.
pub fn announced_device(device: &Device, ip: &str) -> (r: Option<Device>)
    ensures
        match r {
            Some(d) => d@ == redacted(device@, ip@) && encode_utf8(
                "aw-sync/alias/1\n"@ + device@.id,
            ).len() <= MAX_HASH_INPUT,
            None => encode_utf8("aw-sync/alias/1\n"@ + device@.id).len() > MAX_HASH_INPUT,
        },
{
    match checked_alias(device.id.as_str()) {
        Some(alias) => {
            let mut d: Device = device.clone();
            d.name = alias;
            d.ip = ip.to_string();
            d.device_secret = None;
            d.machine_uid = None;
            Some(d)
        },
        None => None,
    }
}

/// An announcement: the magic text, a line end and the device as JSON.
pub open spec fn framed(json: Seq<char>) -> Seq<char> {
    MAGIC@ + "\n"@ + json
}

/// Frames the JSON text of an announced device.
pub fn announce_payload(json: &str) -> (r: String)
    ensures
        r@ == framed(json@),
{
    let mut s: String = MAGIC.to_string();
    s.append("\n");
    s.append(json);
    s
}

/// Where announcements go: the broadcast address of the network, and the general one.
pub open spec fn broadcast_targets(ip: Seq<char>, port: u16) -> Seq<Seq<char>> {
    let general = "255.255.255.255:"@ + decimal(port as int);
    match broadcast_address(ip) {
        Some(b) => seq![b + ":"@ + decimal(port as int), general],
        None => seq![general],
    }
}

/// What the sender of broadcasts does next.
#[derive(Debug)]
pub enum BroadcastStep {
    /// Wait for some milliseconds.
    Rest(u64),
    /// Drop the socket and wait for some milliseconds.
    Release(u64),
    /// Bind a socket to this address, or to any where that fails.
    Bind(String),
    /// Send an announcement to these targets, and wait.
    Send(Vec<String>),
}

/// The contents of a [`BroadcastStep`].
pub enum BroadcastStepV {
    Rest(u64),
    Release(u64),
    Bind(Seq<char>),
    Send(Seq<Seq<char>>),
}

impl View for BroadcastStep {
    type V = BroadcastStepV;

    open spec fn view(&self) -> BroadcastStepV {
        match self {
            BroadcastStep::Rest(ms) => BroadcastStepV::Rest(*ms),
            BroadcastStep::Release(ms) => BroadcastStepV::Release(*ms),
            BroadcastStep::Bind(ip) => BroadcastStepV::Bind(ip@),
            BroadcastStep::Send(targets) => BroadcastStepV::Send(crate::models::views(targets@)),
        }
    }
}

/// The state of the sender of broadcasts: the address its socket is bound to, if it has one.
pub struct Broadcaster {
    pub bound_ip: Option<String>,
}

/// What the sender of broadcasts does next, and the address it is bound to from then on.
pub open spec fn broadcast_next(
    bound_ip: Option<Seq<char>>,
    active: bool,
    ip: Seq<char>,
    udp_port: u16,
    interval_ms: u64,
) -> (BroadcastStepV, Option<Seq<char>>) {
    let pause = if interval_ms < 2000 {
        2000u64
    } else {
        interval_ms
    };
    if !active {
        (BroadcastStepV::Rest(500), bound_ip)
    } else if !usable_ip(ip) {
        (
            if bound_ip is Some {
                BroadcastStepV::Release(pause)
            } else {
                BroadcastStepV::Rest(pause)
            },
            None,
        )
    } else if bound_ip == Some(ip) {
        (BroadcastStepV::Send(broadcast_targets(ip, udp_port)), bound_ip)
    } else {
        (BroadcastStepV::Bind(ip), bound_ip)
    }
}

fn targets_of(ip: &str, port: u16) -> (r: Vec<String>)
    ensures
        crate::models::views(r@) == broadcast_targets(ip@, port),
{
    let mut general: String = "255.255.255.255:".to_string();
    push_decimal(&mut general, port as i128);
    let mut targets: Vec<String> = Vec::new();
    match subnet_broadcast(ip) {
        Some(b) => {
            let mut t: String = b;
            t.append(":");
            push_decimal(&mut t, port as i128);
            targets.push(t);
        },
        None => {},
    }
    targets.push(general);
    assert(crate::models::views(targets@) =~= broadcast_targets(ip@, port));
    targets
}

impl Broadcaster {
    /// A sender without a socket.
    pub fn new() -> (r: Broadcaster)
        ensures
            r.bound_ip is None,
    {
        Broadcaster { bound_ip: None }
    }

    /// Decides the next step from whether discovery is on and the local address.
    pub fn step(&mut self, active: bool, ip: &str, udp_port: u16, interval_ms: u64) -> (r:
        BroadcastStep)
        ensures
            (r@, opt_text(final(self).bound_ip)) == broadcast_next(
                opt_text(old(self).bound_ip),
                active,
                ip@,
                udp_port,
                interval_ms,
            ),
    {
        if !active {
            return BroadcastStep::Rest(500);
        }
        if !is_usable_ip(ip) {
            let pause: u64 = if interval_ms < 2000 { 2000 } else { interval_ms };
            let held: bool = self.bound_ip.is_some();
            self.bound_ip = None;
            return if held {
                BroadcastStep::Release(pause)
            } else {
                BroadcastStep::Rest(pause)
            };
        }
        let bound: bool = match &self.bound_ip {
            Some(b) => same(b.as_str(), ip),
            None => false,
        };
        if bound {
            BroadcastStep::Send(targets_of(ip, udp_port))
        } else {
            BroadcastStep::Bind(ip.to_string())
        }
    }

    /// Notes that the socket was bound for an address, and sends from it at once.
    pub fn bound(&mut self, ip: &str, udp_port: u16) -> (r: BroadcastStep)
        ensures
            opt_text(final(self).bound_ip) == Some(ip@),
            r@ == BroadcastStepV::Send(broadcast_targets(ip@, udp_port)),
    {
        self.bound_ip = Some(ip.to_string());
        BroadcastStep::Send(targets_of(ip, udp_port))
    }
}

/// The message for a broadcast that was sent.
pub open spec fn sent_note(device: DeviceV, udp_port: u16) -> Seq<char> {
    "发出广播宣告 "@ + device.ip + ":"@ + decimal(device.port as int) + " (id:"@ + device.id
        + " udp:"@ + decimal(udp_port as int) + ")"@
}

/// The message for a broadcast that was sent.
pub fn sent_note_of(device: &Device, udp_port: u16) -> (r: String)
    ensures
        r@ == sent_note(device@, udp_port),
{
    let mut s: String = "发出广播宣告 ".to_string();
    s.append(device.ip.as_str());
    s.append(":");
    push_decimal(&mut s, device.port as i128);
    s.append(" (id:");
    s.append(device.id.as_str());
    s.append(" udp:");
    push_decimal(&mut s, udp_port as i128);
    s.append(")");
    s
}

// ---- receiving broadcasts ----

/// Whether a device can be reached under an address or a name. Addresses of the machine itself
/// and those that stand for none never count.
pub open spec fn usable_ip(s: Seq<char>) -> bool {
    &&& s.len() > 0
    &&& s != "localhost"@
    &&& !null_ipv6(s)
    &&& ipv4_of(s) matches Some(ip) ==> !ip.loopback() && !ip.unspecified()
}

/// Whether a device can be reached under an address or a name.
pub fn is_usable_ip(s: &str) -> (r: bool)
    ensures
        r == usable_ip(s@),
{
    if chars_of(s).len() == 0 || same(s, "localhost") || is_null_ipv6(s) {
        return false;
    }
    match parse_ipv4(s) {
        Some(ip) => !ip.is_loopback() && !ip.is_unspecified(),
        None => true,
    }
}

/// The JSON text in an announcement, with the magic text or without.
pub open spec fn announced_json(text: Seq<char>) -> Option<Seq<char>> {
    let json = if begins_with(text, MAGIC@) {
        trimmed(text.skip(MAGIC@.len() as int))
    } else {
        trimmed(text)
    };
    if json.len() == 0 {
        None
    } else {
        Some(json)
    }
}

/// Takes the JSON text out of an announcement.
pub fn unframe(text: &str) -> (r: Option<String>)
    ensures
        opt_text(r) == announced_json(text@),
{
    let json: String = if starts_with(text, MAGIC) {
        let n: usize = chars_of(MAGIC).len();
        trim(skip_chars(text, n).as_str())
    } else {
        trim(text)
    };
    if chars_of(json.as_str()).len() == 0 {
        None
    } else {
        Some(json)
    }
}

/// An announced device, where it has an id and an address; never the own one, never paired.
pub open spec fn accepted(dev: DeviceV) -> Option<DeviceV> {
    if dev.id.len() == 0 || dev.ip.len() == 0 {
        None
    } else {
        Some(DeviceV { is_self: false, paired: false, ..dev })
    }
}

/// Checks a device that was read from an announcement.
pub fn parse_device(dev: Device) -> (r: Option<Device>)
    ensures
        crate::storage::devices::opt_device(r) == accepted(dev@),
{
    if chars_of(dev.id.as_str()).len() == 0 || chars_of(dev.ip.as_str()).len() == 0 {
        return None;
    }
    let mut d: Device = dev;
    d.is_self = false;
    d.paired = false;
    Some(d)
}

/// An announced device as it is recorded: under the address that the announcement came from,
/// where that can be used; nothing for the own device.
pub open spec fn heard_from(dev: DeviceV, src_ip: Seq<char>, self_id: Seq<char>) -> Option<DeviceV> {
    if dev.id == self_id {
        None
    } else if usable_ip(src_ip) {
        Some(DeviceV { ip: src_ip, ..dev })
    } else {
        Some(dev)
    }
}

/// The message for an announcement that was heard.
pub open spec fn heard_note(dev: DeviceV) -> Seq<char> {
    "收到 "@ + dev.name + " 的广播报文 ("@ + dev.ip + ":"@ + decimal(dev.port as int) + " id:"@
        + dev.id + ")"@
}

/// Decides what is recorded for an announcement, with the message for the log.
pub fn hear(dev: Device, src_ip: &str, self_id: &str) -> (r: Option<(Device, String)>)
    ensures
        match r {
            Some(p) => heard_from(dev@, src_ip@, self_id@) == Some(p.0@) && p.1@ == heard_note(
                p.0@,
            ),
            None => heard_from(dev@, src_ip@, self_id@) is None,
        },
{
    if same(dev.id.as_str(), self_id) {
        return None;
    }
    let mut d: Device = dev;
    if is_usable_ip(src_ip) && !same(d.ip.as_str(), src_ip) {
        d.ip = src_ip.to_string();
    }
    let mut s: String = "收到 ".to_string();
    s.append(d.name.as_str());
    s.append(" 的广播报文 (");
    s.append(d.ip.as_str());
    s.append(":");
    push_decimal(&mut s, d.port as i128);
    s.append(" id:");
    s.append(d.id.as_str());
    s.append(")");
    Some((d, s))
}

/// Whether the preferred way of discovery can be used. Broadcasts are sent in any case.
pub fn mdns_available(slot: &DaemonSlot) -> (r: bool)
    ensures
        r == slot.ready,
{
    daemon_ready(slot)
}

// ---- laws ----

/// Only a late broadcast loses, and only against a fresh address from multicast DNS.
pub proof fn law_only_late_broadcasts_lose(
    existing: Option<(Seq<char>, Option<Timestamp>)>,
    incoming: PeerSource,
    now: Timestamp,
)
    ensures
        !wins(existing, incoming, now) <==> {
            &&& incoming == PeerSource::UdpBroadcast
            &&& existing matches Some(e) && e.0 == "mdns"@ && (e.1 matches Some(t)
                && seconds_between(t.ns(), now.ns()) < MDNS_FRESH_SECS)
        },
{
}

/// An announcement that loses leaves the recorded address, and what the next one is held
/// against, as they were.
pub proof fn law_losing_announcement(
    db: SyncDbV,
    dedup: Map<Seq<char>, i64>,
    dev: DeviceV,
    via: PeerSource,
    note: Seq<char>,
    now: Timestamp,
    tick: i64,
)
    requires
        !recorded(db, dedup, dev, via, note, now, tick).0,
    ensures
        ({
            let after = recorded(db, dedup, dev, via, note, now, tick).1;
            &&& seen_source(after.devices, dev.id) == seen_source(db.devices, dev.id)
            &&& crate::storage::devices::device_row(after.devices, dev.id) matches Some(r)
            &&& crate::storage::devices::device_row(db.devices, dev.id) matches Some(k)
            &&& r.ip == k.ip && r.port == k.port && r.name == k.name && r.paired == k.paired
            &&& after.logs == db.logs
        }),
{
    crate::storage::identity::law_losing_announcement_keeps_source(
        db.devices,
        dev.id,
        time_text(now),
        now.secs,
    );
    crate::storage::identity::law_change_is_local(
        db.devices,
        dev.id,
        DeviceChangeV::Seen(time_text(now), now.secs),
        dev.id.push('x'),
    );
}

/// An announcement never writes a fingerprint, an alias or a pairing, whatever it claims.
pub proof fn law_announcement_is_harmless(
    db: SyncDbV,
    dedup: Map<Seq<char>, i64>,
    dev: DeviceV,
    via: PeerSource,
    note: Seq<char>,
    now: Timestamp,
    tick: i64,
)
    ensures
        ({
            let after = recorded(db, dedup, dev, via, note, now, tick).1;
            &&& crate::storage::devices::uid_of(after.devices, dev.id)
                == crate::storage::devices::uid_of(db.devices, dev.id)
            &&& after.secrets == db.secrets
            &&& after.aliases == db.aliases
            &&& crate::storage::devices::device_row(after.devices, dev.id) matches Some(r) ==> (
            match crate::storage::devices::device_row(db.devices, dev.id) {
                Some(k) => r.paired == k.paired && r.alias == k.alias,
                None => !r.paired && !r.is_self && r.alias is None,
            })
        }),
{
    crate::storage::identity::law_discovery_is_harmless(
        db.devices,
        as_heard(dev, now),
        via.text(),
    );
    crate::storage::identity::law_change_is_local(
        db.devices,
        dev.id,
        DeviceChangeV::Seen(time_text(now), now.secs),
        dev.id.push('x'),
    );
}

/// Addresses of the machine itself and those that stand for none are never used to reach a
/// device, and have no broadcast address; every other IPv4 address has one.
pub proof fn law_dead_addresses_do_not_count(ip: Ipv4)
    ensures
        ip.loopback() || ip.unspecified() ==> !usable_ip(ip.dotted()) && broadcast_address(
            ip.dotted(),
        ) is None,
        !ip.loopback() && !ip.unspecified() ==> broadcast_address(ip.dotted()) == Some(
            Ipv4 { d: 255, ..ip }.dotted(),
        ),
{
    law_dotted_reads_back(ip);
}

/// What is announced shows neither secret nor fingerprint nor host name.
pub proof fn law_announcement_is_redacted(device: DeviceV, ip: Seq<char>)
    ensures
        redacted(device, ip).device_secret is None,
        redacted(device, ip).machine_uid is None,
        redacted(device, ip).name == alias_text(device.id),
        redacted(device, ip).id == device.id,
        redacted(device, ip).port == device.port,
{
}

/// The JSON text of an announcement is found again behind the magic text, but for white space
/// around it.
pub proof fn law_frame_reads_back(json: Seq<char>)
    requires
        trimmed(json).len() > 0,
    ensures
        announced_json(framed(json)) == Some(trimmed(json)),
{
    let text = framed(json);
    assert(text.take(MAGIC@.len() as int) =~= MAGIC@);
    reveal_strlit("\n");
    let rest = text.skip(MAGIC@.len() as int);
    assert(rest =~= seq!['\n'] + json);
    assert(rest.drop_first() =~= json);
    assert(crate::text::trimmed_start(rest) == crate::text::trimmed_start(json));
}

/// A device that is announced arrives, with the magic text or without: whoever reads JSON texts
/// such that the text of the announced device gives that device back, takes it with its id,
/// address and port, under its alias, neither as its own nor as paired.
pub proof fn law_announcement_arrives(
    device: DeviceV,
    ip: Seq<char>,
    json: Seq<char>,
    read: spec_fn(Seq<char>) -> Option<DeviceV>,
)
    requires
        device.id.len() > 0,
        ip.len() > 0,
        trimmed(json).len() > 0,
        read(trimmed(json)) == Some(redacted(device, ip)),
    ensures
        arrives(device, ip, read, framed(json)),
        !begins_with(json, MAGIC@) ==> arrives(device, ip, read, json),
{
    law_frame_reads_back(json);
}

/// Whether a text is taken for the announcement of a device.
pub open spec fn arrives(
    device: DeviceV,
    ip: Seq<char>,
    read: spec_fn(Seq<char>) -> Option<DeviceV>,
    text: Seq<char>,
) -> bool {
    &&& announced_json(text) matches Some(json)
    &&& read(json) matches Some(dev)
    &&& accepted(dev) matches Some(d)
    &&& d.id == device.id
    &&& d.ip == ip
    &&& d.port == device.port
    &&& d.name == alias_text(device.id)
    &&& d.alias == device.alias
    &&& !d.is_self
    &&& !d.paired
    &&& d.device_secret is None
    &&& d.machine_uid is None
}

/// An announcement that counts leaves the row of its device, known or new, paired or not, with
/// the address, the port and the kind that were announced, seen at the given time and by the
/// given way. A known device is online, and only one that is not paired takes the announced name.
pub proof fn law_counting_announcement_is_stored(
    db: SyncDbV,
    dedup: Map<Seq<char>, i64>,
    dev: DeviceV,
    via: PeerSource,
    note: Seq<char>,
    now: Timestamp,
    tick: i64,
)
    requires
        recorded(db, dedup, dev, via, note, now, tick).0,
    ensures
        ({
            let after = recorded(db, dedup, dev, via, note, now, tick).1;
            let known = device_row(db.devices, dev.id);
            &&& device_row(after.devices, dev.id) matches Some(r)
            &&& r.id == dev.id
            &&& r.ip == dev.ip
            &&& r.port == dev.port
            &&& r.device_kind == dev.device_kind.text()
            &&& r.last_seen_at == Some(time_text(now))
            &&& r.last_seen_epoch == Some(now.secs)
            &&& r.seen_via_at == Some(time_text(now))
            &&& via == PeerSource::Mdns ==> r.seen_via == Some("mdns"@)
            &&& via == PeerSource::UdpBroadcast ==> r.seen_via == Some("udp"@)
            &&& !r.is_self
            &&& known matches Some(k) ==> r.is_online && r.paired == k.paired && (k.paired ==> r.name
                == k.name) && (!k.paired ==> r.name == dev.name)
            &&& known is None ==> r.name == dev.name && !r.paired
        }),
        forall|other: Seq<char>|
            other != dev.id ==> #[trigger] device_row(
                recorded(db, dedup, dev, via, note, now, tick).1.devices,
                other,
            ) == device_row(db.devices, other),
{
    let heard = as_heard(dev, now);
    crate::storage::identity::law_discovered_reads_back(db.devices, heard, via.text());
    crate::storage::identity::law_discovery_is_harmless(db.devices, heard, via.text());
}

/// An announcement that does not count marks a device as seen now and as online, unless it is
/// the own one.
pub proof fn law_losing_announcement_is_a_sign_of_life(
    db: SyncDbV,
    dedup: Map<Seq<char>, i64>,
    dev: DeviceV,
    via: PeerSource,
    note: Seq<char>,
    now: Timestamp,
    tick: i64,
)
    requires
        !recorded(db, dedup, dev, via, note, now, tick).0,
    ensures
        device_row(db.devices, dev.id) matches Some(k) && (!k.is_self ==> (device_row(
            recorded(db, dedup, dev, via, note, now, tick).1.devices,
            dev.id,
        ) matches Some(r) && r.last_seen_at == Some(time_text(now)) && r.last_seen_epoch == Some(
            now.secs,
        ) && r.is_online)),
        recorded(db, dedup, dev, via, note, now, tick).2 == dedup,
{
    crate::storage::identity::law_losing_announcement_keeps_source(
        db.devices,
        dev.id,
        time_text(now),
        now.secs,
    );
}

/// After an announcement over multicast DNS a broadcast does not count for the next forty-five
/// seconds and counts from then on; another one over multicast DNS always counts, and after a
/// broadcast every announcement does.
pub proof fn law_broadcast_waits_for_multicast(
    db: SyncDbV,
    dedup: Map<Seq<char>, i64>,
    dev: DeviceV,
    note: Seq<char>,
    at: Timestamp,
    tick: i64,
    later: Timestamp,
    dedup2: Map<Seq<char>, i64>,
    again: DeviceV,
    tick2: i64,
)
    requires
        reads_back(at),
        again.id == dev.id,
    ensures
        ({
            let first = recorded(db, dedup, dev, PeerSource::Mdns, note, at, tick);
            let udp = recorded(first.1, dedup2, again, PeerSource::UdpBroadcast, note, later, tick2);
            let mdns = recorded(first.1, dedup2, again, PeerSource::Mdns, note, later, tick2);
            &&& first.0
            &&& mdns.0
            &&& udp.0 <==> seconds_between(at.ns(), later.ns()) >= 45
        }),
        ({
            let first = recorded(db, dedup, dev, PeerSource::UdpBroadcast, note, at, tick);
            let udp = recorded(first.1, dedup2, again, PeerSource::UdpBroadcast, note, later, tick2);
            let mdns = recorded(first.1, dedup2, again, PeerSource::Mdns, note, later, tick2);
            first.0 ==> udp.0 && mdns.0
        }),
{
    let heard = as_heard(dev, at);
    crate::storage::identity::law_discovered_reads_back(db.devices, heard, "mdns"@);
    crate::storage::identity::law_discovered_reads_back(db.devices, heard, "udp"@);
    reveal_strlit("mdns");
    reveal_strlit("udp");
    assert("mdns"@.len() == 4 && "udp"@.len() == 3);
}

/// A message is logged once, and then not again under the same key until a minute has passed;
/// messages under other keys are not held back.
pub proof fn law_message_is_not_repeated(
    dedup: Map<Seq<char>, i64>,
    key: Seq<char>,
    tick: i64,
    later: i64,
    other: Seq<char>,
)
    ensures
        !dedup.contains_key(key) ==> log_due(dedup, key, tick),
        log_due(dedup, key, tick) ==> (log_due(log_noted(dedup, key, tick), key, later) <==> later
            - tick >= 60_000),
        !log_due(dedup, key, tick) ==> log_noted(dedup, key, tick) == dedup,
        other != key ==> log_due(log_noted(dedup, key, tick), other, later) == log_due(
            dedup,
            other,
            later,
        ),
{
}

/// An announcement that counts is logged where a message is due, as one that came in by its way
/// from its device with its note; and announcements by one way do not hold back those by the
/// other.
pub proof fn law_announcement_is_logged(
    db: SyncDbV,
    dedup: Map<Seq<char>, i64>,
    dev: DeviceV,
    via: PeerSource,
    note: Seq<char>,
    now: Timestamp,
    tick: i64,
)
    requires
        recorded(db, dedup, dev, via, note, now, tick).0,
        db.last_log_id < i64::MAX,
    ensures
        ({
            let key = (if via == PeerSource::Mdns {
                "in-mdns-"@
            } else {
                "in-udp-"@
            }) + dev.id;
            let due = !dedup.contains_key(key) || tick - dedup[key] >= 60_000;
            let after = recorded(db, dedup, dev, via, note, now, tick);
            let e = after.1.logs.last();
            &&& !due ==> after.1.logs == db.logs && after.2 == dedup
            &&& due ==> {
                &&& after.2 == dedup.insert(key, tick)
                &&& after.1.logs.len() > 0
                &&& e.id == db.last_log_id + 1
                &&& e.timestamp == time_text(now)
                &&& e.direction == "in"@
                &&& via == PeerSource::Mdns ==> e.protocol == "mdns"@
                &&& via == PeerSource::UdpBroadcast ==> e.protocol == "udp_broadcast"@
                &&& e.peer_id == Some(dev.id)
                &&& e.event_type == "discovery"@
                &&& e.status == "success"@
                &&& e.message == Some(note)
                &&& e.data_size is None
                &&& e.details is None
            }
        }),
{
    reveal_strlit("in-");
    reveal_strlit("-");
    reveal_strlit("mdns");
    reveal_strlit("udp");
    reveal_strlit("in-mdns-");
    reveal_strlit("in-udp-");
    assert("in-"@ + "mdns"@ + "-"@ =~= "in-mdns-"@);
    assert("in-"@ + "udp"@ + "-"@ =~= "in-udp-"@);
}

/// What was sent is logged as going out by its way, to nobody in particular.
pub proof fn law_sent_announcement_is_logged(
    db: SyncDbV,
    via: PeerSource,
    msg: Seq<char>,
    data_size: Option<u64>,
    now: Timestamp,
)
    requires
        db.last_log_id < i64::MAX,
    ensures
        ({
            let after = with_log(db, sent_entry(via, msg, data_size, now));
            let e = after.logs.last();
            &&& after.logs.len() > 0
            &&& e.timestamp == time_text(now)
            &&& e.direction == "out"@
            &&& via == PeerSource::Mdns ==> e.protocol == "mdns"@
            &&& via == PeerSource::UdpBroadcast ==> e.protocol == "udp_broadcast"@
            &&& e.peer_id is None
            &&& e.event_type == "discovery"@
            &&& e.status == "success"@
            &&& e.message == Some(msg)
            &&& data_size matches Some(n) ==> e.data_size == Some(
                crate::storage::logs::signed(n) as i64,
            )
            &&& data_size is None ==> e.data_size is None
        }),
{
}

/// An announcement without an id or without an address is not taken; any other is taken as it
/// is, but neither as the own one nor as paired.
pub proof fn law_announcement_is_checked(dev: DeviceV)
    ensures
        accepted(dev) is None <==> dev.id == ""@ || dev.ip == ""@,
        accepted(dev) matches Some(d) ==> d == (DeviceV { is_self: false, paired: false, ..dev }),
{
    reveal_strlit("");
    assert(dev.id.len() == 0 <==> dev.id =~= ""@);
    assert(dev.ip.len() == 0 <==> dev.ip =~= ""@);
}

/// The own announcement is not heard; another one is heard from the address that it came from,
/// where a device can be reached there, and else from the one it tells; all else is as announced.
pub proof fn law_sender_address_counts(dev: DeviceV, src_ip: Seq<char>, self_id: Seq<char>)
    ensures
        heard_from(dev, src_ip, self_id) is None <==> dev.id == self_id,
        heard_from(dev, src_ip, self_id) matches Some(d) ==> {
            &&& usable_ip(src_ip) ==> d.ip == src_ip
            &&& !usable_ip(src_ip) ==> d.ip == dev.ip
            &&& d == (DeviceV { ip: d.ip, ..dev })
        },
{
}

/// A name that is no address can be used to reach a device, but for the empty one and that of
/// the machine itself.
pub proof fn law_names_can_be_used(s: Seq<char>)
    requires
        ipv4_of(s) is None,
        !null_ipv6(s),
    ensures
        usable_ip(s) <==> s != ""@ && s != "localhost"@,
        broadcast_address(s) is None,
{
    reveal_strlit("");
    assert(s.len() == 0 <==> s =~= ""@);
}

/// An IPv4 address can be used to reach a device but for those of the machine itself and the one
/// that stands for none.
pub proof fn law_addresses_can_be_used(ip: Ipv4)
    ensures
        usable_ip(ip.dotted()) <==> ip.a != 127 && !(ip.a == 0 && ip.b == 0 && ip.c == 0 && ip.d
            == 0),
{
    law_dotted_reads_back(ip);
    crate::address::law_null_ipv6_has_colons(ip.dotted(), ip);
    crate::address::lemma_dotted_begins_with_digit(ip);
    reveal_strlit("localhost");
    assert("localhost"@[0] == 'l');
}

/// Broadcasts always go to the general address, and before that to the address of the network
/// where there is one, each with the port.
pub proof fn law_broadcasts_reach_everyone(ip: Seq<char>, port: u16)
    ensures
        broadcast_targets(ip, port).last() == "255.255.255.255:"@ + decimal(port as int),
        broadcast_targets(ip, port).len() == 1 || broadcast_targets(ip, port).len() == 2,
        broadcast_address(ip) matches Some(b) ==> broadcast_targets(ip, port).len() == 2
            && broadcast_targets(ip, port)[0] == b + ":"@ + decimal(port as int),
        broadcast_address(ip) is None ==> broadcast_targets(ip, port).len() == 1,
{
}

/// A sender that is switched off keeps its socket and rests. One without a usable address sends
/// nothing and has no socket. One whose socket is bound to its address sends from it, and any
/// other one binds to its address first.
pub proof fn law_broadcaster_steps(
    bound_ip: Option<Seq<char>>,
    active: bool,
    ip: Seq<char>,
    udp_port: u16,
    interval_ms: u64,
)
    ensures
        ({
            let (step, bound) = broadcast_next(bound_ip, active, ip, udp_port, interval_ms);
            &&& step is Send <==> active && usable_ip(ip) && bound_ip == Some(ip)
            &&& step matches BroadcastStepV::Send(targets) ==> targets == broadcast_targets(
                ip,
                udp_port,
            )
            &&& step is Bind <==> active && usable_ip(ip) && bound_ip != Some(ip)
            &&& step matches BroadcastStepV::Bind(to) ==> to == ip
            &&& step is Release <==> active && !usable_ip(ip) && bound_ip is Some
            &&& !active ==> step == BroadcastStepV::Rest(500) && bound == bound_ip
            &&& active && !usable_ip(ip) ==> bound is None
            &&& active && usable_ip(ip) ==> bound == bound_ip
            &&& active ==> (step matches BroadcastStepV::Rest(ms) ==> ms >= 2000 && ms
                >= interval_ms && (ms == 2000 || ms == interval_ms))
            &&& active ==> (step matches BroadcastStepV::Release(ms) ==> ms >= 2000 && ms
                >= interval_ms && (ms == 2000 || ms == interval_ms))
        }),
{
}

/// All that is announced of a device but its name, its address, its secret and its fingerprint
/// is its own.
pub proof fn law_announcement_is_faithful(device: DeviceV, ip: Seq<char>)
    ensures
        redacted(device, ip).ip == ip,
        redacted(device, ip).device_kind == device.device_kind,
        redacted(device, ip).alias == device.alias,
        redacted(device, ip).paired_at == device.paired_at,
        redacted(device, ip).last_sync_at == device.last_sync_at,
        redacted(device, ip).last_seen_at == device.last_seen_at,
        redacted(device, ip).is_online == device.is_online,
        redacted(device, ip).is_self == device.is_self,
        redacted(device, ip).paired == device.paired,
{
}

/// An announcement begins with the magic text on a line of its own, and ends with the JSON text.
pub proof fn law_announcement_is_framed(json: Seq<char>)
    ensures
        framed(json) == "AW-SYNC/1.0\n"@ + json,
        begins_with(framed(json), "AW-SYNC/1.0"@),
{
    reveal_strlit("AW-SYNC/1.0");
    reveal_strlit("\n");
    reveal_strlit("AW-SYNC/1.0\n");
    assert("AW-SYNC/1.0"@ + "\n"@ =~= "AW-SYNC/1.0\n"@);
    assert(framed(json).take("AW-SYNC/1.0"@.len() as int) =~= "AW-SYNC/1.0"@);
}

/// The messages on broadcasts tell the address with the port and the id: of what was sent with
/// the port of broadcasts, and of what was heard with the name.
pub proof fn law_broadcast_notes(dev: DeviceV, udp_port: u16)
    ensures
        sent_note(dev, udp_port) == "发出广播宣告 "@ + (dev.ip + ":"@ + decimal(dev.port as int))
            + " (id:"@ + dev.id + " udp:"@ + decimal(udp_port as int) + ")"@,
        heard_note(dev) == "收到 "@ + dev.name + " 的广播报文 ("@ + (dev.ip + ":"@ + decimal(
            dev.port as int,
        )) + " id:"@ + dev.id + ")"@,
{
    assert(sent_note(dev, udp_port) =~= "发出广播宣告 "@ + (dev.ip + ":"@ + decimal(
        dev.port as int,
    )) + " (id:"@ + dev.id + " udp:"@ + decimal(udp_port as int) + ")"@);
    assert(heard_note(dev) =~= "收到 "@ + dev.name + " 的广播报文 ("@ + (dev.ip + ":"@ + decimal(
        dev.port as int,
    )) + " id:"@ + dev.id + ")"@);
}

} // verus!
