//! What the HTTP interface does with requests.

use vstd::prelude::*;
use vstd::string::*;

use crate::crypto::is_secret;
use crate::manager::keys::{adopted, keyed};
use crate::manager::own::{on_the_wire, own_device, Host, HostV};
use crate::manager::pairing::{from_other, handshake_device, marked, merge_hint, opt_hint, request_of, row_tells, waiting, with_inbound, MergeHint, MergeHintV, PairError};
use crate::manager::switches::{burst_open, burst_secs, DiscoverySwitch, ThreadPlan};
use crate::manager::{http_entry, http_log, merged_and_logged, purged, thread_plan, SyncManager, SyncManagerV};
use crate::models::{lemma_views_push, views, ApplyResult, ApplyResultV, Device, DeviceKind, DeviceV, SyncConfig, SyncConfigV, SyncDirection, SyncEventType, SyncLogEntry, SyncLogEntryV, SyncProtocol, Timestamp};
use crate::outside::{json_i64, json_signed, json_text, json_texts};
use crate::storage::config::{config_of, law_config_reads_back, with_config};
use crate::storage::devices::{device_row, device_with_id, has_device, listed, merge_refusal, time_text, uid_of, with_change, with_stored, without_device, without_devices, without_expired, DeviceChangeV};
use crate::storage::logs::{log_page, newest, to_unsigned, unsigned, with_log, LogFilter};
use crate::storage::secrets::{safety_code, secret_of};
use crate::storage::{DeviceRowV, SyncDbV};
use crate::text::{chars_of, decimal, opt_str, opt_text, push_decimal, same, trim, trimmed, unit_outcome, Outcome};

verus! {

// ---- reading requests ----

/// The text under a key; empty where there is none.
pub open spec fn member(body: serde_json::Value, key: Seq<char>) -> Seq<char> {
    if json_texts(body).contains_key(key) {
        json_texts(body)[key]
    } else {
        ""@
    }
}

/// The text under a key of a request; empty where there is none.
pub fn body_text(body: &serde_json::Value, key: &str) -> (r: String)
    ensures
        r@ == member(*body, key@),
{
    match json_text(body, key) {
        Some(s) => s,
        None => "".to_string(),
    }
}

/// The days after which a pairing counts as stale: those asked for, else thirty.
pub open spec fn asked_days(body: serde_json::Value) -> i64 {
    if json_signed(body).contains_key("stale_days"@) {
        match json_signed(body)["stale_days"@] {
            Ok(n) => n,
            Err(_) => 30,
        }
    } else {
        30
    }
}

/// The days after which a pairing counts as stale: those asked for, else thirty.
pub fn stale_days(body: &serde_json::Value) -> (r: i64)
    ensures
        r == asked_days(*body),
{
    match json_i64(body, "stale_days") {
        Some(Ok(n)) => n,
        Some(Err(_)) => 30,
        None => 30,
    }
}

/// What a request asks of the log.
#[derive(Debug)]
pub struct LogQuery {
    pub direction: Option<String>,
    pub protocol: Option<String>,
    pub event_type: Option<String>,
    pub limit: Option<i64>,
    pub offset: Option<i64>,
}

/// A text that was given and is not empty.
pub open spec fn given(s: Option<Seq<char>>) -> Option<Seq<char>> {
    match s {
        Some(t) => if t.len() == 0 {
            None
        } else {
            Some(t)
        },
        None => None,
    }
}

/// A number that was given, as the database reads it.
pub open spec fn given_number(n: Option<i64>, default: i64) -> u64 {
    match n {
        Some(v) => unsigned(v) as u64,
        None => unsigned(default) as u64,
    }
}

/// The filter that a request asks for.
pub open spec fn asked_filter(q: LogQuery) -> LogFilter {
    LogFilter {
        direction: match given(opt_text(q.direction)) {
            Some(s) => Some(
                if s == "out"@ {
                    SyncDirection::Out
                } else {
                    SyncDirection::In
                },
            ),
            None => None,
        },
        protocol: match given(opt_text(q.protocol)) {
            Some(s) => Some(
                if s == "udp_broadcast"@ {
                    SyncProtocol::UdpBroadcast
                } else if s == "mdns"@ {
                    SyncProtocol::Mdns
                } else if s == "d1"@ {
                    SyncProtocol::D1
                } else {
                    SyncProtocol::Http
                },
            ),
            None => None,
        },
        event_type: match given(opt_text(q.event_type)) {
            Some(s) => Some(
                if s == "discovery"@ {
                    SyncEventType::Discovery
                } else if s == "pairing"@ {
                    SyncEventType::Pairing
                } else if s == "conflict"@ {
                    SyncEventType::Conflict
                } else {
                    SyncEventType::Sync
                },
            ),
            None => None,
        },
        limit: given_number(q.limit, 200),
        offset: given_number(q.offset, 0),
    }
}

fn is_given(s: &Option<String>) -> (r: bool)
    ensures
        r == (given(opt_text(*s)) is Some),
{
    match s {
        Some(t) => chars_of(t.as_str()).len() != 0,
        None => false,
    }
}

fn number_given(n: Option<i64>, default: i64) -> (r: u64)
    ensures
        r == given_number(n, default),
{
    match n {
        Some(v) => to_unsigned(v),
        None => to_unsigned(default),
    }
}

/// The filter that a request asks for: what is missing or empty filters nothing.
pub fn log_filter(q: &LogQuery) -> (r: LogFilter)
    ensures
        r == asked_filter(*q),
{
    let direction: Option<SyncDirection> = match &q.direction {
        Some(s) => if !is_given(&q.direction) {
            None
        } else if same(s.as_str(), "out") {
            Some(SyncDirection::Out)
        } else {
            Some(SyncDirection::In)
        },
        None => None,
    };
    let protocol: Option<SyncProtocol> = match &q.protocol {
        Some(s) => if !is_given(&q.protocol) {
            None
        } else if same(s.as_str(), "udp_broadcast") {
            Some(SyncProtocol::UdpBroadcast)
        } else if same(s.as_str(), "mdns") {
            Some(SyncProtocol::Mdns)
        } else if same(s.as_str(), "d1") {
            Some(SyncProtocol::D1)
        } else {
            Some(SyncProtocol::Http)
        },
        None => None,
    };
    let event_type: Option<SyncEventType> = match &q.event_type {
        Some(s) => if !is_given(&q.event_type) {
            None
        } else if same(s.as_str(), "discovery") {
            Some(SyncEventType::Discovery)
        } else if same(s.as_str(), "pairing") {
            Some(SyncEventType::Pairing)
        } else if same(s.as_str(), "conflict") {
            Some(SyncEventType::Conflict)
        } else {
            Some(SyncEventType::Sync)
        },
        None => None,
    };
    LogFilter {
        direction,
        protocol,
        event_type,
        limit: number_given(q.limit, 200),
        offset: number_given(q.offset, 0),
    }
}

/// The filter for the log of the cloud synchronisation.
pub open spec fn cloud_filter(limit: Option<i64>, offset: Option<i64>) -> LogFilter {
    LogFilter {
        direction: None,
        protocol: Some(SyncProtocol::D1),
        event_type: None,
        limit: match limit {
            Some(n) => if n < 1 {
                1
            } else if n > 100 {
                100
            } else {
                n as u64
            },
            None => 20,
        },
        offset: given_number(offset, 0),
    }
}

/// The filter for the log of the cloud synchronisation: at most a hundred entries.
pub fn d1_log_filter(limit: Option<i64>, offset: Option<i64>) -> (r: LogFilter)
    ensures
        r == cloud_filter(limit, offset),
{
    let asked: i64 = match limit {
        Some(n) => n,
        None => 20,
    };
    let limit: u64 = if asked < 1 {
        1
    } else if asked > 100 {
        100
    } else {
        asked as u64
    };
    LogFilter {
        direction: None,
        protocol: Some(SyncProtocol::D1),
        event_type: None,
        limit,
        offset: number_given(offset, 0),
    }
}

/// The entries that a request asks for, at a time, and how many there are in all.
pub fn logs(m: &SyncManager, q: &LogQuery, now: &Timestamp) -> (r: (Vec<SyncLogEntry>, u64))
    ensures
        views(r.0@) == log_page(m@.db.logs, asked_filter(*q), *now),
        r.1 == m@.db.logs.len(),
{
    let filter: LogFilter = log_filter(q);
    (m.list_logs_at(&filter, now), m.log_count())
}

/// Removes all entries of the log.
pub fn log_clear(m: &mut SyncManager)
    ensures
        final(m)@ == (SyncManagerV {
            db: SyncDbV { logs: newest(old(m)@.db.logs, 0), ..old(m)@.db },
            ..old(m)@
        }),
{
    m.truncate_logs(0);
}

// ---- settings and discovery ----

/// The threads to start, and the state, after the settings are replaced.
pub open spec fn settings_saved(
    m: SyncManagerV,
    cfg: SyncConfigV,
    kind: DeviceKind,
    forbidden: bool,
) -> (Option<ThreadPlan>, SyncManagerV) {
    let saved = SyncManagerV {
        db: SyncDbV { config: with_config(m.db.config, cfg), ..m.db },
        ..m
    };
    if kind != DeviceKind::Android && cfg.enabled {
        (
            thread_plan(saved, forbidden),
            SyncManagerV {
                discovery: DiscoverySwitch {
                    active: true,
                    threads_started: saved.discovery.threads_started || !forbidden,
                    ..saved.discovery
                },
                ..saved
            },
        )
    } else {
        (None, saved)
    }
}

/// Replaces the settings. Where discovery stays on, it is switched on with synchronisation.
pub fn config_save(m: &mut SyncManager, cfg: &SyncConfig, kind: DeviceKind, forbidden: bool) -> (r:
    Option<ThreadPlan>)
    ensures
        (r, final(m)@) == settings_saved(old(m)@, cfg@, kind, forbidden),
{
    m.set_config(cfg);
    if crate::manager::switches::discovery_persistent(kind) && cfg.enabled {
        m.start_discovery(forbidden)
    } else {
        None
    }
}

/// How long the background window lasts, the threads to start, and the state, after a window is
/// asked for.
pub open spec fn window_asked(m: SyncManagerV, secs: Option<u64>, forbidden: bool, now_ms: u64) -> (
    (u64, Option<ThreadPlan>),
    SyncManagerV,
) {
    let asked = match secs {
        Some(n) => n,
        None => 5,
    };
    if asked == 0 {
        (
            (0u64, None::<ThreadPlan>),
            SyncManagerV {
                discovery: DiscoverySwitch { burst_until_ms: 0, ..m.discovery },
                ..m
            },
        )
    } else {
        (
            (burst_secs(asked), thread_plan(m, forbidden)),
            SyncManagerV {
                discovery: DiscoverySwitch {
                    burst_until_ms: (now_ms + burst_secs(asked) * 1000) as u64,
                    threads_started: m.discovery.threads_started || !forbidden,
                    ..m.discovery
                },
                ..m
            },
        )
    }
}

/// Opens or closes the background window of discovery: zero seconds close it, five are the
/// default. Gives how long it lasts and the threads to start.
pub fn discovery_burst(m: &mut SyncManager, secs: Option<u64>, forbidden: bool, now_ms: u64) -> (r: (
    u64,
    Option<ThreadPlan>,
))
    requires
        now_ms <= u64::MAX - 30_000,
    ensures
        (r, final(m)@) == window_asked(old(m)@, secs, forbidden, now_ms),
{
    let asked: u64 = match secs {
        Some(n) => n,
        None => 5,
    };
    if asked == 0 {
        m.stop_discovery_burst();
        return (0, None);
    }
    let secs: u64 = if asked > 30 { 30 } else { asked };
    let plan: Option<ThreadPlan> = m.start_discovery_burst(secs, forbidden, now_ms);
    (secs, plan)
}

// ---- pairing ----

/// The answer to a pairing message: this device as it is on the wire, and the shared secret.
#[derive(Debug)]
pub struct PairAnswer {
    pub me: Device,
    pub device_secret: String,
}

/// The contents of a [`PairAnswer`].
pub struct PairAnswerV {
    pub me: DeviceV,
    pub device_secret: Seq<char>,
}

impl View for PairAnswer {
    type V = PairAnswerV;

    open spec fn view(&self) -> PairAnswerV {
        PairAnswerV { me: self.me@, device_secret: self.device_secret@ }
    }
}

/// What an answer says of this device.
pub open spec fn answer_of(
    m: SyncManagerV,
    secret: Seq<char>,
    host: HostV,
    uid: Option<Seq<char>>,
    now: Timestamp,
) -> PairAnswerV {
    PairAnswerV { me: on_the_wire(m, own_device(m, host, now), uid), device_secret: secret }
}

/// The state after a request to be paired: it waits, and the secret is agreed.
pub open spec fn requested(m: SyncManagerV, from: DeviceV, fresh: Seq<char>, now: Timestamp) -> SyncManagerV {
    keyed(
        with_inbound(m, DeviceV { device_secret: None, ..from }, now),
        from.id,
        adopted(from.device_secret, fresh),
        now,
    )
}

/// Takes a request to be paired. `fresh` is a new secret in case none is offered.
pub fn pair_request(
    m: &mut SyncManager,
    from: Device,
    fresh: String,
    host: &Host,
    uid: &Option<String>,
    now: &Timestamp,
) -> (r: PairAnswer)
    ensures
        final(m)@ == requested(old(m)@, from@, fresh@, *now),
        r@ == answer_of(
            final(m)@,
            adopted(from@.device_secret, fresh@),
            host@,
            opt_text(*uid),
            *now,
        ),
{
    let mut from: Device = from;
    let offered: Option<String> = from.device_secret;
    from.device_secret = None;
    let peer_id: String = from.id.clone();
    m.record_inbound_pair_request_at(from, now);
    answer_secret(m, peer_id.as_str(), &offered, fresh, host, uid, now)
}

fn answer_secret(
    m: &mut SyncManager,
    peer_id: &str,
    offered: &Option<String>,
    fresh: String,
    host: &Host,
    uid: &Option<String>,
    now: &Timestamp,
) -> (r: PairAnswer)
    ensures
        final(m)@ == keyed(old(m)@, peer_id@, adopted(opt_text(*offered), fresh@), *now),
        r@ == answer_of(
            final(m)@,
            adopted(opt_text(*offered), fresh@),
            host@,
            opt_text(*uid),
            *now,
        ),
{
    let offer: Option<&str> = match offered {
        Some(s) => Some(s.as_str()),
        None => None,
    };
    assert(opt_str(offer) == opt_text(*offered));
    let secret: String = m.adopt_incoming_secret_with(peer_id, offer, fresh, now);
    let own: Device = m.self_device_info_at(host, now);
    PairAnswer { me: m.with_outgoing_secret(&own, uid), device_secret: secret }
}

/// The log entry on a confirmation that came.
pub open spec fn confirmation_entry(peer: DeviceV, now: Timestamp) -> SyncLogEntryV {
    http_entry(
        SyncDirection::In,
        SyncEventType::Pairing,
        Some(peer.id),
        "收到来自 "@ + peer.name + " 的配对确认"@,
        None,
        None,
        now,
    )
}

/// The state after a pairing was confirmed from afar: the device is registered and paired,
/// the secret is agreed, and no request of it waits.
pub open spec fn confirmed_from_afar(
    m: SyncManagerV,
    peer: DeviceV,
    fresh: Seq<char>,
    now: Timestamp,
) -> SyncManagerV {
    let registered = SyncManagerV {
        db: SyncDbV {
            devices: with_stored(m.db.devices, handshake_device(m.db.devices, peer, now)),
            ..m.db
        },
        ..m
    };
    let agreed = keyed(registered, peer.id, adopted(peer.device_secret, fresh), now);
    let logged = SyncManagerV { db: with_log(agreed.db, confirmation_entry(peer, now)), ..agreed };
    let paired = marked(logged, peer.id, true);
    SyncManagerV { inbound: paired.inbound.filter(from_other(peer.id)), ..paired }
}

/// Takes the confirmation of a pairing. `fresh` is a new secret in case none is offered.
pub fn pair_confirm(
    m: &mut SyncManager,
    peer: Device,
    fresh: String,
    host: &Host,
    uid: &Option<String>,
    now: &Timestamp,
) -> (r: PairAnswer)
    ensures
        final(m)@ == confirmed_from_afar(old(m)@, peer@, fresh@, *now),
        r@ == answer_of(
            final(m)@,
            adopted(peer@.device_secret, fresh@),
            host@,
            opt_text(*uid),
            *now,
        ),
{
    m.refresh_peer_from_handshake_at(&peer, now);
    let offer: Option<&str> = match &peer.device_secret {
        Some(s) => Some(s.as_str()),
        None => None,
    };
    assert(opt_str(offer) == peer@.device_secret);
    let secret: String = m.adopt_incoming_secret_with(peer.id.as_str(), offer, fresh, now);
    let mut message: String = "收到来自 ".to_string();
    message.append(peer.name.as_str());
    message.append(" 的配对确认");
    let entry: SyncLogEntry = http_log(
        SyncDirection::In,
        SyncEventType::Pairing,
        Some(peer.id.clone()),
        message,
        None,
        None,
        now,
    );
    let _ = m.add_log(&entry);
    m.mark_paired(peer.id.as_str(), true);
    m.forget_pair_request(peer.id.as_str());
    let own: Device = m.self_device_info_at(host, now);
    PairAnswer { me: m.with_outgoing_secret(&own, uid), device_secret: secret }
}

/// A refusal: the HTTP status, a word for programs, and a sentence for people.
#[derive(Debug, Clone, Copy)]
pub struct Refusal {
    pub status: u16,
    pub error: &'static str,
    pub message: Option<&'static str>,
}

/// The contents of a [`Refusal`].
pub struct RefusalV {
    pub status: u16,
    pub error: Seq<char>,
    pub message: Option<Seq<char>>,
}

impl View for Refusal {
    type V = RefusalV;

    open spec fn view(&self) -> RefusalV {
        RefusalV { status: self.status, error: self.error@, message: opt_str(self.message) }
    }
}

/// How a failure to join is answered: a wrong code is the fault of whoever typed it, anything
/// else is not.
pub open spec fn refusal_of(e: PairError) -> RefusalV {
    match e {
        PairError::InvalidOrExpiredCode => RefusalV {
            status: 400,
            error: "invalid_or_expired_code"@,
            message: Some("配对码无效或已过期，请在发起方重新创建"@),
        },
        PairError::Db => RefusalV { status: 500, error: "internal"@, message: None },
    }
}

/// The answer to a device that joined: the device as it is registered, this device as it is on
/// the wire, and the shared secret.
#[derive(Debug)]
pub struct JoinAnswer {
    pub device: Device,
    pub peer: Device,
    pub device_secret: String,
}

/// The contents of a [`JoinAnswer`].
pub struct JoinAnswerV {
    pub device: DeviceV,
    pub peer: DeviceV,
    pub device_secret: Seq<char>,
}

impl View for JoinAnswer {
    type V = JoinAnswerV;

    open spec fn view(&self) -> JoinAnswerV {
        JoinAnswerV {
            device: self.device@,
            peer: self.peer@,
            device_secret: self.device_secret@,
        }
    }
}

/// The state after a device joined: the secret is agreed, and the device is logged and
/// registered.
pub open spec fn joined(
    m: SyncManagerV,
    dev: DeviceV,
    offered: Option<Seq<char>>,
    fresh: Seq<char>,
    now: Timestamp,
) -> SyncManagerV {
    let agreed = keyed(m, dev.id, adopted(offered, fresh), now);
    let logged = with_log(
        agreed.db,
        http_entry(
            SyncDirection::In,
            SyncEventType::Pairing,
            Some(dev.id),
            "已与设备配对: "@ + dev.name,
            None,
            None,
            now,
        ),
    );
    SyncManagerV {
        db: SyncDbV {
            devices: with_stored(logged.devices, DeviceV { device_secret: None, ..dev }),
            ..logged
        },
        ..agreed
    }
}

/// Answers a device that wants to join, once its code was tried. `offered` is the secret that
/// it brought, `fresh` a new one in case it is of no use.
pub fn join(
    m: &mut SyncManager,
    tried: Result<Device, PairError>,
    offered: &Option<String>,
    fresh: String,
    host: &Host,
    uid: &Option<String>,
    now: &Timestamp,
) -> (r: Result<JoinAnswer, Refusal>)
    ensures
        match tried {
            Ok(dev) => {
                &&& final(m)@ == joined(old(m)@, dev@, opt_text(*offered), fresh@, *now)
                &&& r matches Ok(answer) && answer@ == (JoinAnswerV {
                    device: DeviceV { device_secret: None, ..dev@ },
                    peer: on_the_wire(
                        final(m)@,
                        own_device(final(m)@, host@, *now),
                        opt_text(*uid),
                    ),
                    device_secret: adopted(opt_text(*offered), fresh@),
                })
            },
            Err(e) => final(m)@ == old(m)@ && (r matches Err(refusal) && refusal@ == refusal_of(e)),
        },
{
    match tried {
        Ok(found) => {
            let mut dev: Device = found;
            let offer: Option<&str> = match offered {
                Some(s) => Some(s.as_str()),
                None => None,
            };
            assert(opt_str(offer) == opt_text(*offered));
            let secret: String = m.adopt_incoming_secret_with(dev.id.as_str(), offer, fresh, now);
            dev.device_secret = None;
            let mut message: String = "已与设备配对: ".to_string();
            message.append(dev.name.as_str());
            let entry: SyncLogEntry = http_log(
                SyncDirection::In,
                SyncEventType::Pairing,
                Some(dev.id.clone()),
                message,
                None,
                None,
                now,
            );
            let _ = m.add_log(&entry);
            m.save_device(&dev);
            let own: Device = m.self_device_info_at(host, now);
            let peer: Device = m.with_outgoing_secret(&own, uid);
            Ok(JoinAnswer { device: dev, peer, device_secret: secret })
        },
        Err(PairError::InvalidOrExpiredCode) => Err(
            Refusal {
                status: 400,
                error: "invalid_or_expired_code",
                message: Some("配对码无效或已过期，请在发起方重新创建"),
            },
        ),
        Err(PairError::Db) => Err(Refusal { status: 500, error: "internal", message: None }),
    }
}

/// A device as it may be registered by hand: without a secret or a fingerprint, which only a
/// handshake brings.
pub open spec fn by_hand(d: DeviceV) -> DeviceV {
    DeviceV { is_self: false, device_secret: None, machine_uid: None, ..d }
}

/// Registers a device by hand.
pub fn add_device(m: &mut SyncManager, dev: Device)
    ensures
        final(m)@ == (SyncManagerV {
            db: SyncDbV {
                devices: with_stored(old(m)@.db.devices, by_hand(dev@)),
                ..old(m)@.db
            },
            ..old(m)@
        }),
{
    let mut d: Device = dev;
    d.is_self = false;
    d.device_secret = None;
    d.machine_uid = None;
    m.save_device(&d);
}

// ---- devices ----

/// A device as it is listed.
#[derive(Debug)]
pub struct DeviceItem {
    pub device: Device,
    /// Whether it waits to be paired.
    pub incoming_pair_request: bool,
    /// Whether a secret is shared with it.
    pub encrypted: bool,
    /// The paired device that may be the same machine.
    pub merge_candidate: Option<MergeHint>,
    /// The safety code.
    pub fingerprint: Option<String>,
}

/// The contents of a [`DeviceItem`].
pub struct DeviceItemV {
    pub device: DeviceV,
    pub incoming_pair_request: bool,
    pub encrypted: bool,
    pub merge_candidate: Option<MergeHintV>,
    pub fingerprint: Option<Seq<char>>,
}

impl View for DeviceItem {
    type V = DeviceItemV;

    open spec fn view(&self) -> DeviceItemV {
        DeviceItemV {
            device: self.device@,
            incoming_pair_request: self.incoming_pair_request,
            encrypted: self.encrypted,
            merge_candidate: opt_hint(self.merge_candidate),
            fingerprint: opt_text(self.fingerprint),
        }
    }
}

/// A device as it is listed.
pub open spec fn item_of(m: SyncManagerV, d: DeviceV, now: Timestamp) -> DeviceItemV {
    let code = safety_code(m.db.secrets, m.self_id, d.id);
    DeviceItemV {
        device: d,
        incoming_pair_request: waiting(m.inbound, d.id),
        encrypted: code is Some,
        merge_candidate: merge_hint(m, d.id, now),
        fingerprint: code,
    }
}

/// The devices as they are listed.
pub open spec fn items_of(m: SyncManagerV, now: Timestamp) -> Seq<DeviceItemV> {
    let list = listed(m.db.devices, now);
    Seq::new(list.len(), |i: int| item_of(m, list[i], now))
}

/// The devices as they are listed, at a time.
pub fn devices(m: &SyncManager, now: &Timestamp) -> (r: Vec<DeviceItem>)
    ensures
        views(r@) == items_of(m@, *now),
{
    let list: Vec<Device> = m.list_devices_at(now);
    let ghost all = list@;
    let ghost target = items_of(m@, *now);
    let mut out: Vec<DeviceItem> = Vec::new();
    assert(views(out@) =~= target.take(0));
    for d in it: list
        invariant
            it.seq() == all,
            views(all) == listed(m@.db.devices, *now),
            target == items_of(m@, *now),
            views(out@) == target.take(it.index()),
    {
        let ghost i = it.index();
        assert(d@ == views(all)[i]);
        let code: Option<String> = m.db.fingerprint_with(m.self_id.as_str(), d.id.as_str());
        let item: DeviceItem = DeviceItem {
            incoming_pair_request: m.has_inbound_pair_request(d.id.as_str()),
            encrypted: code.is_some(),
            merge_candidate: m.merge_candidate_for_at(d.id.as_str(), now),
            fingerprint: code,
            device: d,
        };
        proof {
            lemma_views_push(out@, item);
            assert(item@ == target[i]);
            assert(target.take(i + 1) =~= target.take(i).push(item@));
        }
        out.push(item);
    }
    assert(target.take(all.len() as int) =~= target);
    out
}

/// A log entry on a change that was made by hand.
pub open spec fn hand_entry(peer_id: Option<Seq<char>>, message: Seq<char>, now: Timestamp) -> SyncLogEntryV {
    http_entry(SyncDirection::In, SyncEventType::Pairing, peer_id, message, None, None, now)
}

fn hand_log(peer_id: Option<String>, message: String, now: &Timestamp) -> (r: SyncLogEntry)
    ensures
        r@ == hand_entry(opt_text(peer_id), message@, *now),
{
    http_log(SyncDirection::In, SyncEventType::Pairing, peer_id, message, None, None, now)
}

/// The state after a device is removed by hand.
pub open spec fn device_deleted(m: SyncManagerV, id: Seq<char>, now: Timestamp) -> SyncManagerV {
    SyncManagerV {
        db: with_log(
            without_device(m.db, id),
            hand_entry(Some(id), "已删除设备 "@ + id, now),
        ),
        ..m
    }
}

/// Removes a device, and logs it; says whether there was one.
pub fn device_delete(m: &mut SyncManager, id: &str, now: &Timestamp) -> (r: bool)
    ensures
        r == has_device(old(m)@.db.devices, id@),
        final(m)@ == device_deleted(old(m)@, id@, *now),
{
    let removed: bool = m.delete_device(id);
    let mut message: String = "已删除设备 ".to_string();
    message.append(id);
    let entry: SyncLogEntry = hand_log(Some(id.to_string()), message, now);
    let _ = m.add_log(&entry);
    removed
}

/// How a request to merge two devices ends.
pub open spec fn merge_answer(m: SyncManagerV, from: Seq<char>, to: Seq<char>) -> Outcome<()> {
    if from.len() == 0 || to.len() == 0 {
        Err("需要 from 与 to 两个设备 id"@)
    } else {
        merge_refusal(m.db.devices, from, to)
    }
}

/// Merges a device into another, and logs it.
pub fn device_merge(m: &mut SyncManager, from: &str, to: &str, now: &Timestamp) -> (r: Result<
    (),
    String,
>)
    ensures
        unit_outcome(r) == merge_answer(old(m)@, from@, to@),
        final(m)@ == (if from@.len() == 0 || to@.len() == 0 {
            old(m)@
        } else {
            SyncManagerV {
                db: merged_and_logged(old(m)@.db, from@, to@, *now),
                ..old(m)@
            }
        }),
{
    if chars_of(from).len() == 0 || chars_of(to).len() == 0 {
        return Err("需要 from 与 to 两个设备 id".to_string());
    }
    m.merge_devices_at(from, to, now)
}

/// Removes expired discoveries and stale pairings as a request asks; gives how many of each.
pub fn devices_purge(m: &mut SyncManager, body: &serde_json::Value, now: i64) -> (r: (usize, usize))
    ensures
        final(m)@ == (SyncManagerV {
            db: purged(old(m)@.db, asked_days(*body) as int, now as int),
            ..old(m)@
        }),
        r.0 == old(m)@.db.devices.len() - without_expired(old(m)@.db.devices, now as int).len(),
        r.0 + r.1 == old(m)@.db.devices.len() - final(m)@.db.devices.len(),
{
    m.purge_stale_devices_at(stale_days(body), now)
}

/// The state after all devices but the own one are removed by hand.
pub open spec fn all_cleared(m: SyncManagerV, now: Timestamp) -> SyncManagerV {
    let removed = m.db.devices.len() - without_devices(m.db).devices.len();
    SyncManagerV {
        db: with_log(
            without_devices(m.db),
            hand_entry(
                None,
                "已清空所有配对信息（移除 "@ + decimal(removed) + " 台设备）"@,
                now,
            ),
        ),
        inbound: Seq::empty(),
        ..m
    }
}

/// Removes all devices but the own one, and logs it; gives how many.
pub fn devices_clear_all(m: &mut SyncManager, now: &Timestamp) -> (r: usize)
    ensures
        r == old(m)@.db.devices.len() - without_devices(old(m)@.db).devices.len(),
        final(m)@ == all_cleared(old(m)@, *now),
{
    let cleared: usize = m.clear_all_devices();
    let mut message: String = "已清空所有配对信息（移除 ".to_string();
    push_decimal(&mut message, cleared as i128);
    message.append(" 台设备）");
    let entry: SyncLogEntry = hand_log(None, message, now);
    let _ = m.add_log(&entry);
    cleared
}

/// The message on a new name of a device.
pub open spec fn alias_message(id: Seq<char>, alias: Option<Seq<char>>) -> Seq<char> {
    match given(alias) {
        Some(a) => "已为设备 "@ + id + " 设置别名: "@ + a,
        None => "已为设备 "@ + id + " 清空别名"@,
    }
}

/// The state after the user names a device.
pub open spec fn device_renamed(
    m: SyncManagerV,
    id: Seq<char>,
    alias: Option<Seq<char>>,
    now: Timestamp,
) -> SyncManagerV {
    let renamed = SyncDbV {
        devices: with_change(m.db.devices, id, DeviceChangeV::Alias(alias)),
        ..m.db
    };
    SyncManagerV {
        db: if has_device(m.db.devices, id) {
            with_log(renamed, hand_entry(Some(id), alias_message(id, alias), now))
        } else {
            renamed
        },
        ..m
    }
}

/// Sets the name that the user gives a device, and logs it; an error where there is no such
/// device.
pub fn device_alias(m: &mut SyncManager, id: &str, alias: Option<&str>, now: &Timestamp) -> (r: Result<
    (),
    String,
>)
    ensures
        unit_outcome(r) == (if has_device(old(m)@.db.devices, id@) {
            Ok(())
        } else {
            Err("设备不存在: "@ + id@)
        }),
        final(m)@ == device_renamed(old(m)@, id@, opt_str(alias), *now),
{
    if !m.update_device_alias(id, alias) {
        let mut e: String = "设备不存在: ".to_string();
        e.append(id);
        return Err(e);
    }
    let mut message: String = "已为设备 ".to_string();
    message.append(id);
    match alias {
        Some(a) => {
            if chars_of(a).len() == 0 {
                message.append(" 清空别名");
            } else {
                message.append(" 设置别名: ");
                message.append(a);
            }
        },
        None => {
            message.append(" 清空别名");
        },
    }
    let entry: SyncLogEntry = hand_log(Some(id.to_string()), message, now);
    let _ = m.add_log(&entry);
    Ok(())
}

// ---- snapshots ----

/// A device as it is registered because it sent a snapshot: never the own one, never paired, and
/// without a secret or a fingerprint, which only a handshake brings.
pub open spec fn as_sender(d: DeviceV) -> DeviceV {
    DeviceV { paired: false, ..by_hand(d) }
}

/// The state after an unknown sender of a snapshot is registered.
pub open spec fn sender_registered(m: SyncManagerV, d: DeviceV, now: Timestamp) -> SyncManagerV {
    if device_with_id(m.db.devices, d.id, now) is None {
        SyncManagerV {
            db: SyncDbV { devices: with_stored(m.db.devices, as_sender(d)), ..m.db },
            ..m
        }
    } else {
        m
    }
}

fn register_sender(m: &mut SyncManager, d: &Device, now: &Timestamp)
    ensures
        final(m)@ == sender_registered(old(m)@, d@, *now),
{
    if m.get_device_at(d.id.as_str(), now).is_none() {
        let mut sender: Device = d.clone();
        sender.is_self = false;
        sender.paired = false;
        sender.device_secret = None;
        sender.machine_uid = None;
        m.save_device(&sender);
    }
}

/// The records that were taken over as the log keeps them.
pub open spec fn record_details(applied: ApplyResultV, records_json: Seq<char>) -> Option<Seq<char>> {
    if applied.records.len() == 0 {
        None
    } else {
        Some(records_json)
    }
}

fn details_of(applied: &ApplyResult, records_json: &str) -> (r: Option<String>)
    ensures
        opt_text(r) == record_details(applied@, records_json@),
{
    if applied.records.len() == 0 {
        None
    } else {
        Some(records_json.to_string())
    }
}

/// The state after a snapshot was pushed to this device and taken over: an unknown sender is
/// registered, and the push is logged.
pub open spec fn push_noted(
    m: SyncManagerV,
    source: Option<DeviceV>,
    applied: ApplyResultV,
    size: u64,
    records_json: Seq<char>,
    now: Timestamp,
) -> SyncManagerV {
    let known = match source {
        Some(d) => sender_registered(m, d, now),
        None => m,
    };
    let (id, name) = match source {
        Some(d) => (d.id, d.name),
        None => (""@, ""@),
    };
    SyncManagerV {
        db: with_log(
            known.db,
            http_entry(
                SyncDirection::In,
                SyncEventType::Sync,
                match source {
                    Some(d) => Some(d.id),
                    None => None,
                },
                "本机("@ + m.self_id + ") 收到来自 "@ + name + "("@ + id + ") 的同步，应用记录数: "@
                    + decimal(applied.applied as int),
                Some(size),
                record_details(applied, records_json),
                now,
            ),
        ),
        ..known
    }
}

/// Notes a snapshot that was pushed to this device and taken over.
pub fn push(
    m: &mut SyncManager,
    source: Option<&Device>,
    applied: &ApplyResult,
    size: u64,
    records_json: &str,
    now: &Timestamp,
)
    ensures
        final(m)@ == push_noted(
            old(m)@,
            crate::manager::merging::opt_source(source),
            applied@,
            size,
            records_json@,
            *now,
        ),
{
    let mut message: String = "本机(".to_string();
    message.append(m.self_id.as_str());
    message.append(") 收到来自 ");
    let mut peer_id: Option<String> = None;
    match source {
        Some(d) => {
            register_sender(m, d, now);
            peer_id = Some(d.id.clone());
            message.append(d.name.as_str());
            message.append("(");
            message.append(d.id.as_str());
        },
        None => {
            message.append("");
            message.append("(");
            message.append("");
        },
    }
    message.append(") 的同步，应用记录数: ");
    push_decimal(&mut message, applied.applied as i128);
    let entry: SyncLogEntry = http_log(
        SyncDirection::In,
        SyncEventType::Sync,
        peer_id,
        message,
        Some(size),
        details_of(applied, records_json),
        now,
    );
    let _ = m.add_log(&entry);
}

/// The state after a snapshot that was carried over by hand is taken over: a sender with an id
/// that is not known is registered, and the transfer is logged.
pub open spec fn transfer_noted(
    m: SyncManagerV,
    source: Option<DeviceV>,
    applied: ApplyResultV,
    size: u64,
    records_json: Seq<char>,
    now: Timestamp,
) -> SyncManagerV {
    let known = match source {
        Some(d) => if d.id.len() > 0 {
            sender_registered(m, d, now)
        } else {
            m
        },
        None => m,
    };
    let (id, name) = match source {
        Some(d) => (d.id, d.name),
        None => (""@, "未知设备"@),
    };
    SyncManagerV {
        db: with_log(
            known.db,
            http_entry(
                SyncDirection::In,
                SyncEventType::Sync,
                Some(id),
                "WiFi 传输：本机("@ + m.self_id + ") 已合并来自 "@ + name + "("@ + id
                    + ") 的数据，应用记录数: "@ + decimal(applied.applied as int),
                Some(size),
                record_details(applied, records_json),
                now,
            ),
        ),
        ..known
    }
}

/// Notes a snapshot that was carried over by hand and taken over.
pub fn apply(
    m: &mut SyncManager,
    source: Option<&Device>,
    applied: &ApplyResult,
    size: u64,
    records_json: &str,
    now: &Timestamp,
)
    ensures
        final(m)@ == transfer_noted(
            old(m)@,
            crate::manager::merging::opt_source(source),
            applied@,
            size,
            records_json@,
            *now,
        ),
{
    let mut message: String = "WiFi 传输：本机(".to_string();
    message.append(m.self_id.as_str());
    message.append(") 已合并来自 ");
    let mut peer_id: String = "".to_string();
    match source {
        Some(d) => {
            if chars_of(d.id.as_str()).len() > 0 {
                register_sender(m, d, now);
            }
            peer_id = d.id.clone();
            message.append(d.name.as_str());
        },
        None => {
            message.append("未知设备");
        },
    }
    message.append("(");
    message.append(peer_id.as_str());
    message.append(") 的数据，应用记录数: ");
    push_decimal(&mut message, applied.applied as i128);
    let entry: SyncLogEntry = http_log(
        SyncDirection::In,
        SyncEventType::Sync,
        Some(peer_id),
        message,
        Some(size),
        details_of(applied, records_json),
        now,
    );
    let _ = m.add_log(&entry);
}

/// A request to push the own snapshot to an address.
#[derive(Debug)]
pub struct PushTo {
    pub ip: String,
    pub port: u16,
    /// The device there; it only chooses the secret.
    pub device_id: Option<String>,
    pub name: Option<String>,
}

/// A text, empty where there is none.
pub open spec fn or_empty(s: Option<Seq<char>>) -> Seq<char> {
    match s {
        Some(t) => t,
        None => ""@,
    }
}

/// The device that a push to an address goes to.
pub open spec fn push_device(req: PushTo, now: Timestamp) -> DeviceV {
    let id = or_empty(opt_text(req.device_id));
    let name = or_empty(opt_text(req.name));
    DeviceV {
        id: if id.len() == 0 {
            "hotspot-"@ + req.ip@
        } else {
            id
        },
        name: if name.len() == 0 {
            req.ip@
        } else {
            name
        },
        device_kind: DeviceKind::Unknown,
        ip: req.ip@,
        port: req.port,
        paired_at: now,
        last_sync_at: None,
        last_seen_at: None,
        is_online: true,
        is_self: false,
        paired: false,
        alias: None,
        device_secret: None,
        machine_uid: None,
    }
}

/// The secret for a push to an address.
pub open spec fn push_secret(m: SyncManagerV, req: PushTo) -> Option<Seq<char>> {
    let id = or_empty(opt_text(req.device_id));
    if id.len() == 0 {
        None
    } else {
        secret_of(m.db.secrets, id)
    }
}

fn text_or_empty(s: &Option<String>) -> (r: String)
    ensures
        r@ == or_empty(opt_text(*s)),
{
    match s {
        Some(t) => t.clone(),
        None => "".to_string(),
    }
}

/// Where a push to an address goes, and with which secret; the status 400 where the address is
/// of no use.
pub fn push_to(m: &SyncManager, req: &PushTo, now: &Timestamp) -> (r: Result<
    (Device, Option<String>),
    u16,
>)
    ensures
        match r {
            Ok(x) => trimmed(req.ip@).len() > 0 && req.port != 0 && x.0@ == push_device(*req, *now)
                && opt_text(x.1) == push_secret(m@, *req),
            Err(status) => (trimmed(req.ip@).len() == 0 || req.port == 0) && status == 400,
        },
{
    if chars_of(trim(req.ip.as_str()).as_str()).len() == 0 || req.port == 0 {
        return Err(400);
    }
    let target_id: String = text_or_empty(&req.device_id);
    let target_name: String = text_or_empty(&req.name);
    let named: bool = chars_of(target_id.as_str()).len() != 0;
    let secret: Option<String> = if named {
        m.device_secret(target_id.as_str())
    } else {
        None
    };
    let id: String = if named {
        target_id
    } else {
        let mut s: String = "hotspot-".to_string();
        s.append(req.ip.as_str());
        s
    };
    let name: String = if chars_of(target_name.as_str()).len() == 0 {
        req.ip.clone()
    } else {
        target_name
    };
    let target: Device = Device {
        id,
        name,
        device_kind: DeviceKind::Unknown,
        ip: req.ip.clone(),
        port: req.port,
        paired_at: *now,
        last_sync_at: None,
        last_seen_at: None,
        is_online: true,
        is_self: false,
        paired: false,
        alias: None,
        device_secret: None,
        machine_uid: None,
    };
    Ok((target, secret))
}

// ---- laws ----

/// The list of devices never shows a secret or a fingerprint, only safety codes and the
/// beginning of a fingerprint in a hint.
pub proof fn law_listing_is_discreet(m: SyncManagerV, now: Timestamp)
    ensures
        forall|i: int|
            0 <= i < items_of(m, now).len() ==> (#[trigger] items_of(
                m,
                now,
            )[i]).device.device_secret is None && items_of(m, now)[i].device.machine_uid is None,
{
}

/// A device that was registered by hand brings neither a secret nor a fingerprint: a known one
/// stays, a new device has none.
pub proof fn law_no_fingerprint_by_hand(m: SyncManagerV, d: DeviceV)
    ensures
        crate::storage::devices::uid_of(with_stored(m.db.devices, by_hand(d)), d.id)
            == crate::storage::devices::uid_of(m.db.devices, d.id),
{
    crate::storage::identity::law_registered_reads_back(m.db.devices, by_hand(d));
}

/// An unknown sender of a snapshot is registered neither as the own device nor as paired, and
/// without a fingerprint; a known one stays as it is.
pub proof fn law_sender_brings_no_identity(m: SyncManagerV, d: DeviceV, now: Timestamp)
    ensures
        match device_row(m.db.devices, d.id) {
            Some(known) => sender_registered(m, d, now) == m,
            None => device_row(sender_registered(m, d, now).db.devices, d.id) matches Some(r)
                && !r.is_self && !r.paired && r.machine_uid is None,
        },
{
    crate::storage::identity::law_registered_reads_back(m.db.devices, as_sender(d));
}

/// The answer to a pairing message carries the secret that is stored here for its sender.
pub proof fn law_answered_secret_is_stored(m: SyncManagerV, from: DeviceV, fresh: Seq<char>, now: Timestamp)
    ensures
        secret_of(requested(m, from, fresh, now).db.secrets, from.id) == Some(
            adopted(from.device_secret, fresh),
        ),
        secret_of(confirmed_from_afar(m, from, fresh, now).db.secrets, from.id) == Some(
            adopted(from.device_secret, fresh),
        ),
{
    let secret = adopted(from.device_secret, fresh);
    crate::storage::secrets::law_secret_reads_back(
        m.db.secrets,
        from.id,
        secret,
        crate::storage::devices::time_text(now),
        from.id,
    );
}

// ---- laws of requests ----

/// A request that names a direction, a protocol or an event type by the name under which it is
/// stored asks for it; one that names none, or an empty one, asks for all.
pub proof fn law_filter_asks_by_name(
    q: LogQuery,
    d: SyncDirection,
    p: SyncProtocol,
    e: SyncEventType,
)
    ensures
        opt_text(q.direction) == Some(d.text()) ==> asked_filter(q).direction == Some(d),
        opt_text(q.protocol) == Some(p.text()) ==> asked_filter(q).protocol == Some(p),
        opt_text(q.event_type) == Some(e.text()) ==> asked_filter(q).event_type == Some(e),
        asked_filter(q).direction is None <==> q.direction is None || opt_text(q.direction) == Some(
            ""@,
        ),
        asked_filter(q).protocol is None <==> q.protocol is None || opt_text(q.protocol) == Some(
            ""@,
        ),
        asked_filter(q).event_type is None <==> q.event_type is None || opt_text(q.event_type)
            == Some(""@),
{
    reveal_strlit("");
    reveal_strlit("in");
    reveal_strlit("out");
    reveal_strlit("http");
    reveal_strlit("mdns");
    reveal_strlit("d1");
    reveal_strlit("udp_broadcast");
    reveal_strlit("discovery");
    reveal_strlit("pairing");
    reveal_strlit("sync");
    reveal_strlit("conflict");
    assert("in"@.len() == 2 && "out"@.len() == 3);
    assert("http"@[0] == 'h' && "mdns"@[0] == 'm' && "udp_broadcast"@[0] == 'u' && "d1"@[0] == 'd');
    assert("discovery"@[0] == 'd' && "pairing"@[0] == 'p' && "sync"@[0] == 's' && "conflict"@[0]
        == 'c');
    if q.direction is Some {
        assert(opt_text(q.direction)->0.len() == 0 <==> opt_text(q.direction)->0 =~= ""@);
    }
    if q.protocol is Some {
        assert(opt_text(q.protocol)->0.len() == 0 <==> opt_text(q.protocol)->0 =~= ""@);
    }
    if q.event_type is Some {
        assert(opt_text(q.event_type)->0.len() == 0 <==> opt_text(q.event_type)->0 =~= ""@);
    }
}

/// A limit and an offset that a request gives count as they are where they are not negative;
/// without them a page of two hundred from the start is asked for.
pub proof fn law_filter_asks_for_a_page(q: LogQuery)
    ensures
        q.limit matches Some(n) && n >= 0 ==> asked_filter(q).limit == q.limit->0,
        q.offset matches Some(n) && n >= 0 ==> asked_filter(q).offset == q.offset->0,
        q.limit is None ==> asked_filter(q).limit == 200,
        q.offset is None ==> asked_filter(q).offset == 0,
{
}

/// The entries that a request for a direction by its name gets all have that direction, and so
/// for event types.
pub proof fn law_logs_have_what_was_asked(
    m: SyncManagerV,
    q: LogQuery,
    d: SyncDirection,
    e: SyncEventType,
    now: Timestamp,
    i: int,
)
    requires
        0 <= i < log_page(m.db.logs, asked_filter(q), now).len(),
    ensures
        opt_text(q.direction) == Some(d.text()) ==> log_page(
            m.db.logs,
            asked_filter(q),
            now,
        )[i].direction == d,
        opt_text(q.event_type) == Some(e.text()) ==> log_page(
            m.db.logs,
            asked_filter(q),
            now,
        )[i].event_type == e,
{
    law_filter_asks_by_name(q, d, SyncProtocol::Http, e);
    crate::storage::logs::law_page_has_what_was_asked(m.db.logs, asked_filter(q), now, i);
}

/// The days asked for count where a whole number is given, and thirty do else.
pub proof fn law_days_are_those_asked_for(body: serde_json::Value)
    ensures
        !json_signed(body).contains_key("stale_days"@) ==> asked_days(body) == 30,
        json_signed(body).contains_key("stale_days"@) ==> (match json_signed(body)["stale_days"@] {
            Ok(n) => asked_days(body) == n,
            Err(_) => asked_days(body) == 30,
        }),
{
}

/// Once a device asks to be paired, its request waits as it came but without its secret, the
/// secret that it offered, where that is usable, or else the fresh one is shared with it, and no
/// device is registered or paired by that.
pub proof fn law_pair_request_waits(
    m: SyncManagerV,
    from: DeviceV,
    fresh: Seq<char>,
    now: Timestamp,
    other: Seq<char>,
)
    ensures
        ({
            let after = requested(m, from, fresh, now);
            &&& request_of(after.inbound, from.id) == Some(DeviceV { device_secret: None, ..from })
            &&& (from.device_secret matches Some(s) && is_secret(s)) ==> secret_of(
                after.db.secrets,
                from.id,
            ) == from.device_secret
            &&& !(from.device_secret matches Some(s) && is_secret(s)) ==> secret_of(
                after.db.secrets,
                from.id,
            ) == Some(fresh)
            &&& other != from.id ==> secret_of(after.db.secrets, other) == secret_of(
                m.db.secrets,
                other,
            )
            &&& after.db.devices == m.db.devices
        }),
{
    let d = DeviceV { device_secret: None, ..from };
    crate::manager::pairing::law_request_is_noted(m, d, now);
    crate::storage::secrets::law_secret_reads_back(
        m.db.secrets,
        from.id,
        adopted(from.device_secret, fresh),
        time_text(now),
        other,
    );
}

/// Once a pairing is confirmed from afar, the row of the device holds what it says of itself,
/// with the fingerprint that it brings, and is paired; its request does not wait any more, the
/// secret that it offered, where that is usable, or else the fresh one is shared with it, and
/// the confirmation is logged. No other row and no other secret changes.
pub proof fn law_confirmation_from_afar(
    m: SyncManagerV,
    peer: DeviceV,
    fresh: Seq<char>,
    now: Timestamp,
    other: Seq<char>,
)
    ensures
        ({
            let after = confirmed_from_afar(m, peer, fresh, now);
            let known = device_row(m.db.devices, peer.id);
            let r = device_row(after.db.devices, peer.id);
            &&& r is Some
            &&& (r->0).paired
            &&& row_tells(
                DeviceRowV {
                    paired: if known is Some {
                        (known->0).paired
                    } else {
                        peer.paired
                    },
                    ..r->0
                },
                known,
                peer,
            )
            &&& peer.machine_uid matches Some(u) ==> uid_of(after.db.devices, peer.id) == (if u.len()
                > 0 {
                Some(u)
            } else {
                None
            })
            &&& peer.machine_uid is None ==> uid_of(after.db.devices, peer.id) == uid_of(
                m.db.devices,
                peer.id,
            )
            &&& !waiting(after.inbound, peer.id)
            &&& (peer.device_secret matches Some(s) && is_secret(s)) ==> secret_of(
                after.db.secrets,
                peer.id,
            ) == peer.device_secret
            &&& !(peer.device_secret matches Some(s) && is_secret(s)) ==> secret_of(
                after.db.secrets,
                peer.id,
            ) == Some(fresh)
            &&& other != peer.id ==> device_row(after.db.devices, other) == device_row(
                m.db.devices,
                other,
            ) && secret_of(after.db.secrets, other) == secret_of(m.db.secrets, other)
            &&& m.db.last_log_id < i64::MAX ==> {
                let e = after.db.logs.last();
                &&& after.db.logs.len() > 0
                &&& e.timestamp == time_text(now)
                &&& e.direction == "in"@
                &&& e.protocol == "http"@
                &&& e.event_type == "pairing"@
                &&& e.status == "success"@
                &&& e.peer_id == Some(peer.id)
                &&& e.message == Some("收到来自 "@ + peer.name + " 的配对确认"@)
            }
        }),
{
    let rows = with_stored(m.db.devices, handshake_device(m.db.devices, peer, now));
    crate::manager::pairing::law_handshake_is_registered(m.db.devices, peer, now, other);
    crate::storage::identity::law_column_is_set(rows, peer.id, None, true);
    if other != peer.id {
        crate::storage::identity::law_change_is_local(
            rows,
            peer.id,
            DeviceChangeV::Paired(true),
            other,
        );
    }
    crate::manager::pairing::law_forgotten_request_is_gone(m.inbound, peer.id, peer);
    crate::storage::secrets::law_secret_reads_back(
        m.db.secrets,
        peer.id,
        adopted(peer.device_secret, fresh),
        time_text(now),
        other,
    );
}

/// Once a device joined, it is registered as it came but without its secret, the secret that it
/// offered, where that is usable, or else the fresh one is shared with it, and the pairing is
/// logged. No other row and no other secret changes.
pub proof fn law_joined_device_is_registered(
    m: SyncManagerV,
    dev: DeviceV,
    offered: Option<Seq<char>>,
    fresh: Seq<char>,
    now: Timestamp,
    other: Seq<char>,
)
    ensures
        ({
            let after = joined(m, dev, offered, fresh, now);
            let r = device_row(after.db.devices, dev.id);
            &&& r is Some
            &&& (r->0).name == dev.name
            &&& (r->0).device_kind == dev.device_kind.text()
            &&& (r->0).ip == dev.ip
            &&& (r->0).port == dev.port
            &&& (r->0).paired == dev.paired
            &&& (r->0).is_self == dev.is_self
            &&& (r->0).is_online == dev.is_online
            &&& (r->0).alias == dev.alias
            &&& dev.last_seen_at matches Some(t) ==> (r->0).last_seen_at == Some(time_text(t))
            &&& dev.machine_uid matches Some(u) ==> uid_of(after.db.devices, dev.id) == (if u.len()
                > 0 {
                Some(u)
            } else {
                None
            })
            &&& dev.machine_uid is None ==> uid_of(after.db.devices, dev.id) == uid_of(
                m.db.devices,
                dev.id,
            )
            &&& (offered matches Some(s) && is_secret(s)) ==> secret_of(after.db.secrets, dev.id)
                == offered
            &&& !(offered matches Some(s) && is_secret(s)) ==> secret_of(
                after.db.secrets,
                dev.id,
            ) == Some(fresh)
            &&& other != dev.id ==> device_row(after.db.devices, other) == device_row(
                m.db.devices,
                other,
            ) && secret_of(after.db.secrets, other) == secret_of(m.db.secrets, other)
            &&& m.db.last_log_id < i64::MAX ==> {
                let e = after.db.logs.last();
                &&& after.db.logs.len() > 0
                &&& e.timestamp == time_text(now)
                &&& e.direction == "in"@
                &&& e.protocol == "http"@
                &&& e.event_type == "pairing"@
                &&& e.status == "success"@
                &&& e.peer_id == Some(dev.id)
                &&& e.message == Some("已与设备配对: "@ + dev.name)
            }
        }),
{
    let d = DeviceV { device_secret: None, ..dev };
    crate::storage::identity::law_registered_reads_back(m.db.devices, d);
    crate::storage::identity::law_registering_keeps_the_rest(m.db.devices, d, other);
    crate::storage::secrets::law_secret_reads_back(
        m.db.secrets,
        dev.id,
        adopted(offered, fresh),
        time_text(now),
        other,
    );
}

/// The answer to a pairing message is this device as it is shown, with its fingerprint, and the
/// secret.
pub proof fn law_answer_is_the_own_device(
    m: SyncManagerV,
    secret: Seq<char>,
    host: HostV,
    uid: Option<Seq<char>>,
    now: Timestamp,
)
    ensures
        answer_of(m, secret, host, uid, now).device_secret == secret,
        answer_of(m, secret, host, uid, now).me == (DeviceV {
            device_secret: secret_of(m.db.secrets, m.self_id),
            machine_uid: uid,
            ..own_device(m, host, now)
        }),
{
}

/// A wrong code is answered as the fault of whoever typed it, and says so; any other failure to
/// join is answered as a fault of this device, without saying what failed.
pub proof fn law_refusals_tell_who_failed(e: PairError)
    ensures
        e == PairError::InvalidOrExpiredCode ==> refusal_of(e).status == 400 && refusal_of(e).error
            == "invalid_or_expired_code"@ && refusal_of(e).message is Some,
        e != PairError::InvalidOrExpiredCode ==> refusal_of(e).status == 500 && refusal_of(e).error
            == "internal"@ && refusal_of(e).message is None,
{
}

/// A device that is registered by hand is registered as it was given, but never as the own one.
pub proof fn law_device_by_hand_is_registered(m: SyncManagerV, d: DeviceV)
    ensures
        device_row(with_stored(m.db.devices, by_hand(d)), d.id) matches Some(r) && {
            &&& r.name == d.name
            &&& r.device_kind == d.device_kind.text()
            &&& r.ip == d.ip
            &&& r.port == d.port
            &&& r.paired == d.paired
            &&& r.alias == d.alias
            &&& r.is_online == d.is_online
            &&& !r.is_self
        },
{
    crate::storage::identity::law_registered_reads_back(m.db.devices, by_hand(d));
}

/// Every device that is listed is shown as it is, with whether its request waits, with its
/// safety code and as encrypted exactly where it has one, and with the hint on it.
pub proof fn law_items_tell_devices(m: SyncManagerV, now: Timestamp, i: int)
    requires
        0 <= i < items_of(m, now).len(),
    ensures
        items_of(m, now).len() == listed(m.db.devices, now).len(),
        ({
            let item = items_of(m, now)[i];
            let d = listed(m.db.devices, now)[i];
            &&& item.device == d
            &&& item.incoming_pair_request <==> waiting(m.inbound, d.id)
            &&& item.fingerprint == safety_code(m.db.secrets, m.self_id, d.id)
            &&& item.encrypted <==> item.fingerprint is Some
            &&& secret_of(m.db.secrets, d.id) is None ==> !item.encrypted
            &&& item.merge_candidate == merge_hint(m, d.id, now)
        }),
{
}

/// A merger that lacks one of the ids is refused; any other is answered as the table allows.
pub proof fn law_merger_needs_two_ids(m: SyncManagerV, from: Seq<char>, to: Seq<char>)
    ensures
        from == ""@ || to == ""@ ==> merge_answer(m, from, to) is Err,
        from != ""@ && to != ""@ ==> merge_answer(m, from, to) == merge_refusal(
            m.db.devices,
            from,
            to,
        ),
{
    reveal_strlit("");
    assert(from.len() == 0 <==> from =~= ""@);
    assert(to.len() == 0 <==> to =~= ""@);
}

/// What is done by hand is logged as a pairing that came in, with the device that it is about.
pub proof fn law_changes_by_hand_are_logged(
    db: SyncDbV,
    peer_id: Option<Seq<char>>,
    message: Seq<char>,
    now: Timestamp,
)
    requires
        db.last_log_id < i64::MAX,
    ensures
        ({
            let after = with_log(db, hand_entry(peer_id, message, now));
            let e = after.logs.last();
            &&& after.logs.len() > 0
            &&& e.timestamp == time_text(now)
            &&& e.direction == "in"@
            &&& e.protocol == "http"@
            &&& e.event_type == "pairing"@
            &&& e.status == "success"@
            &&& e.peer_id == peer_id
            &&& e.message == Some(message)
            &&& e.data_size is None
            &&& e.details is None
        }),
{
}

/// The message on a new name tells the device and the name, or that it has none any more.
pub proof fn law_alias_message_tells_the_name(id: Seq<char>, alias: Option<Seq<char>>)
    ensures
        alias matches Some(a) && a != ""@ ==> alias_message(id, alias) == "已为设备 "@ + id
            + " 设置别名: "@ + alias->0,
        alias is None || alias == Some(""@) ==> alias_message(id, alias) == "已为设备 "@ + id
            + " 清空别名"@,
{
    reveal_strlit("");
    if alias is Some {
        assert(alias->0.len() == 0 <==> alias->0 =~= ""@);
    }
}

/// A snapshot that was pushed is logged as coming in from its sender, with its size and with the
/// records where there are any. An unknown sender is registered under its name, its address and
/// its port, but not as paired, and a known one stays as it is.
pub proof fn law_push_is_noted(
    m: SyncManagerV,
    source: Option<DeviceV>,
    applied: ApplyResultV,
    size: u64,
    records_json: Seq<char>,
    now: Timestamp,
)
    ensures
        ({
            let after = push_noted(m, source, applied, size, records_json, now);
            let e = after.db.logs.last();
            &&& source is None ==> after.db.devices == m.db.devices
            &&& source matches Some(d) ==> {
                &&& device_row(m.db.devices, d.id) is Some ==> after.db.devices == m.db.devices
                &&& device_row(m.db.devices, d.id) is None ==> (device_row(
                    after.db.devices,
                    d.id,
                ) matches Some(r) && r.name == d.name && r.ip == d.ip && r.port == d.port
                    && r.device_kind == d.device_kind.text() && !r.paired && !r.is_self
                    && r.machine_uid is None)
            }
            &&& after.db.secrets == m.db.secrets
            &&& m.db.last_log_id < i64::MAX ==> {
                &&& after.db.logs.len() > 0
                &&& e.timestamp == time_text(now)
                &&& e.direction == "in"@
                &&& e.protocol == "http"@
                &&& e.event_type == "sync"@
                &&& e.status == "success"@
                &&& source matches Some(d) ==> e.peer_id == Some(d.id) && e.message == Some(
                    "本机("@ + m.self_id + ") 收到来自 "@ + d.name + "("@ + d.id
                        + ") 的同步，应用记录数: "@ + decimal(applied.applied as int),
                )
                &&& source is None ==> e.peer_id is None
                &&& e.data_size == Some(crate::storage::logs::signed(size) as i64)
                &&& applied.records.len() == 0 ==> e.details is None
                &&& applied.records.len() > 0 ==> e.details == Some(records_json)
            }
        }),
{
    match source {
        Some(d) => {
            crate::storage::identity::law_registered_reads_back(m.db.devices, as_sender(d));
        },
        None => {},
    }
}

/// A snapshot that was carried over by hand is logged in the same way; a sender without an id is
/// not registered.
pub proof fn law_transfer_is_noted(
    m: SyncManagerV,
    source: Option<DeviceV>,
    applied: ApplyResultV,
    size: u64,
    records_json: Seq<char>,
    now: Timestamp,
)
    ensures
        ({
            let after = transfer_noted(m, source, applied, size, records_json, now);
            let e = after.db.logs.last();
            &&& source is None ==> after.db.devices == m.db.devices
            &&& source matches Some(d) ==> {
                &&& d.id.len() == 0 || device_row(m.db.devices, d.id) is Some ==> after.db.devices
                    == m.db.devices
                &&& d.id.len() > 0 && device_row(m.db.devices, d.id) is None ==> (device_row(
                    after.db.devices,
                    d.id,
                ) matches Some(r) && r.name == d.name && r.ip == d.ip && r.port == d.port
                    && r.device_kind == d.device_kind.text() && !r.paired && !r.is_self
                    && r.machine_uid is None)
            }
            &&& after.db.secrets == m.db.secrets
            &&& m.db.last_log_id < i64::MAX ==> {
                &&& after.db.logs.len() > 0
                &&& e.timestamp == time_text(now)
                &&& e.direction == "in"@
                &&& e.protocol == "http"@
                &&& e.event_type == "sync"@
                &&& e.status == "success"@
                &&& source matches Some(d) ==> e.peer_id == Some(d.id) && e.message == Some(
                    "WiFi 传输：本机("@ + m.self_id + ") 已合并来自 "@ + d.name + "("@ + d.id
                        + ") 的数据，应用记录数: "@ + decimal(applied.applied as int),
                )
                &&& source is None ==> e.peer_id == Some(""@)
                &&& e.data_size == Some(crate::storage::logs::signed(size) as i64)
                &&& applied.records.len() == 0 ==> e.details is None
                &&& applied.records.len() > 0 ==> e.details == Some(records_json)
            }
        }),
{
    match source {
        Some(d) => {
            crate::storage::identity::law_registered_reads_back(m.db.devices, as_sender(d));
        },
        None => {},
    }
}

/// A push to an address goes to that address and port. It is under the id and the name that were
/// given, or else under ones that tell the address; only a given id chooses a secret.
pub proof fn law_push_goes_to_the_address(m: SyncManagerV, req: PushTo, now: Timestamp)
    ensures
        ({
            let d = push_device(req, now);
            &&& d.ip == req.ip@
            &&& d.port == req.port
            &&& (opt_text(req.device_id) matches Some(id) && id.len() > 0) ==> d.id == opt_text(
                req.device_id,
            )->0 && push_secret(m, req) == secret_of(m.db.secrets, opt_text(req.device_id)->0)
            &&& !(opt_text(req.device_id) matches Some(id) && id.len() > 0) ==> d.id == "hotspot-"@
                + req.ip@ && push_secret(m, req) is None
            &&& (opt_text(req.name) matches Some(n) && n.len() > 0) ==> d.name == opt_text(
                req.name,
            )->0
            &&& !(opt_text(req.name) matches Some(n) && n.len() > 0) ==> d.name == req.ip@
            &&& d.is_online && !d.is_self && !d.paired
            &&& d.device_kind == DeviceKind::Unknown
            &&& d.device_secret is None && d.machine_uid is None && d.alias is None
            &&& d.last_sync_at is None && d.last_seen_at is None && d.paired_at == now
        }),
{
    reveal_strlit("");
}

/// The text under a key of a request is the one that it holds there, and empty where it holds
/// none.
pub proof fn law_member_is_what_the_request_holds(body: serde_json::Value, key: Seq<char>)
    ensures
        json_texts(body).contains_key(key) ==> member(body, key) == json_texts(body)[key],
        !json_texts(body).contains_key(key) ==> member(body, key).len() == 0,
{
    reveal_strlit("");
}

/// A negative limit asks for all entries, and a negative offset for those from the newest on.
pub proof fn law_negative_numbers_do_not_limit(m: SyncManagerV, q: LogQuery, now: Timestamp)
    requires
        q.limit matches Some(n) && n < 0,
        q.offset matches Some(n) && n < 0,
        q.direction is None && q.protocol is None && q.event_type is None,
    ensures
        log_page(m.db.logs, asked_filter(q), now).len() == crate::storage::logs::matching(
            m.db.logs,
            asked_filter(q),
            now,
        ).len(),
{
}

/// A request that names something else than a stored name asks for what came in, for HTTP and
/// for synchronisations.
pub proof fn law_filter_asks_by_other_names(q: LogQuery, x: Seq<char>)
    requires
        x.len() > 0,
    ensures
        opt_text(q.direction) == Some(x) && x != "out"@ ==> asked_filter(q).direction == Some(
            SyncDirection::In,
        ),
        opt_text(q.protocol) == Some(x) && x != "udp_broadcast"@ && x != "mdns"@ && x != "d1"@
            ==> asked_filter(q).protocol == Some(SyncProtocol::Http),
        opt_text(q.event_type) == Some(x) && x != "discovery"@ && x != "pairing"@ && x
            != "conflict"@ ==> asked_filter(q).event_type == Some(SyncEventType::Sync),
{
}

/// Once a pairing is confirmed from afar, the requests of other devices still wait.
pub proof fn law_confirmation_from_afar_spares_others(
    m: SyncManagerV,
    peer: DeviceV,
    fresh: Seq<char>,
    now: Timestamp,
    d: DeviceV,
)
    ensures
        confirmed_from_afar(m, peer, fresh, now).inbound.contains(d) <==> m.inbound.contains(d)
            && d.id != peer.id,
{
    crate::manager::pairing::law_forgotten_request_is_gone(m.inbound, peer.id, d);
}

/// The log of the cloud store is asked for by its protocol alone, with between one and a hundred
/// entries, twenty unless a number is given.
pub proof fn law_cloud_filter(limit: Option<i64>, offset: Option<i64>)
    ensures
        cloud_filter(limit, offset).protocol == Some(SyncProtocol::D1),
        cloud_filter(limit, offset).direction is None,
        cloud_filter(limit, offset).event_type is None,
        1 <= cloud_filter(limit, offset).limit <= 100,
        (limit matches Some(n) && 1 <= n <= 100) ==> cloud_filter(limit, offset).limit == limit->0,
        (limit matches Some(n) && n > 100) ==> cloud_filter(limit, offset).limit == 100,
        (limit matches Some(n) && n < 1) ==> cloud_filter(limit, offset).limit == 1,
        limit is None ==> cloud_filter(limit, offset).limit == 20,
        (offset matches Some(n) && n >= 0) ==> cloud_filter(limit, offset).offset == offset->0,
        offset is None ==> cloud_filter(limit, offset).offset == 0,
{
}

/// Settings that are saved read back. Where they switch synchronisation on, discovery is switched
/// on with it, except on a phone; where they do not, discovery stays as it is.
pub proof fn law_saved_settings_count(
    m: SyncManagerV,
    cfg: SyncConfigV,
    kind: DeviceKind,
    forbidden: bool,
)
    ensures
        ({
            let (plan, after) = settings_saved(m, cfg, kind, forbidden);
            let c = config_of(after.db.config);
            &&& c.enabled == cfg.enabled
            &&& c.sync_inbox == cfg.sync_inbox
            &&& c.sync_activity == cfg.sync_activity
            &&& c.self_alias == cfg.self_alias
            &&& c.discovery_method == cfg.discovery_method
            &&& cfg.enabled && kind != DeviceKind::Android ==> after.discovery.active
            &&& !cfg.enabled || kind == DeviceKind::Android ==> after.discovery == m.discovery
                && plan is None
            &&& after.discovery.burst_until_ms == m.discovery.burst_until_ms
            &&& plan matches Some(p) ==> !forbidden && !m.discovery.threads_started
                && after.discovery.threads_started && (p.mdns <==> cfg.discovery_method
                != "udp_only"@) && (cfg.udp_port != 0 ==> p.udp_port == cfg.udp_port)
            &&& after.db.devices == m.db.devices
            &&& after.db.secrets == m.db.secrets
        }),
{
    law_config_reads_back(m.db.config, cfg);
}

/// A window that is asked for is open for as many seconds as are answered: five where no number is
/// given, thirty at most; zero seconds close it.
pub proof fn law_window_is_opened_as_asked(
    m: SyncManagerV,
    secs: Option<u64>,
    forbidden: bool,
    now_ms: u64,
    later: u64,
)
    requires
        now_ms <= u64::MAX - 30_000,
    ensures
        ({
            let ((lasts, plan), after) = window_asked(m, secs, forbidden, now_ms);
            &&& burst_open(after.discovery, later) <==> lasts > 0 && later < now_ms + lasts * 1000
            &&& secs is None ==> lasts == 5
            &&& (secs matches Some(n) && n <= 30) ==> lasts == secs->0
            &&& (secs matches Some(n) && n > 30) ==> lasts == 30
            &&& after.discovery.active == m.discovery.active
            &&& after.db == m.db
            &&& lasts == 0 ==> plan is None
            &&& lasts > 0 ==> (plan is Some <==> !forbidden && !m.discovery.threads_started)
        }),
{
}

/// A device that is removed by hand is gone, with its secret, and every other one stays; that is
/// logged with its id.
pub proof fn law_deleted_device_is_gone(
    m: SyncManagerV,
    id: Seq<char>,
    now: Timestamp,
    r: DeviceRowV,
)
    ensures
        ({
            let after = device_deleted(m, id, now);
            let e = after.db.logs.last();
            &&& device_row(after.db.devices, id) is None
            &&& secret_of(after.db.secrets, id) is None
            &&& m.db.devices.contains(r) && r.id != id ==> after.db.devices.contains(r)
            &&& m.db.last_log_id < i64::MAX ==> after.db.logs.len() > 0 && e.peer_id == Some(id)
                && e.message == Some("已删除设备 "@ + id) && e.event_type == "pairing"@
        }),
{
    let p = crate::storage::devices::other_id(id);
    let kept = m.db.devices.filter(p);
    crate::storage::secrets::law_secret_dropped(m.db.secrets, id, id);
    crate::storage::devices::lemma_device_row(kept, id);
    assert forall|k: int| 0 <= k < kept.len() implies (#[trigger] kept[k]).id != id by {
        crate::storage::order::lemma_filter_member(m.db.devices, p, k);
    }
    if m.db.devices.contains(r) && r.id != id {
        crate::storage::order::lemma_filter_keeps(m.db.devices, p, r);
    }
}

/// When all devices are removed by hand, the own row stays and no other, no secret is left, no
/// request waits, and it is logged how many there were.
pub proof fn law_cleared_devices_are_gone(
    m: SyncManagerV,
    now: Timestamp,
    r: DeviceRowV,
    id: Seq<char>,
)
    ensures
        ({
            let after = all_cleared(m, now);
            let e = after.db.logs.last();
            let removed = m.db.devices.len() - after.db.devices.len();
            &&& after.db.devices.contains(r) <==> m.db.devices.contains(r) && r.is_self
            &&& secret_of(after.db.secrets, id) is None
            &&& !waiting(after.inbound, id)
            &&& m.db.last_log_id < i64::MAX ==> after.db.logs.len() > 0 && e.peer_id is None
                && e.message == Some(
                "已清空所有配对信息（移除 "@ + decimal(removed) + " 台设备）"@,
            )
        }),
{
    crate::storage::identity::law_only_the_own_row_stays(m.db, id, r);
}

/// A name that the user gives a device is the one it has from then on, and nothing else of it
/// changes, nor any other device; that is logged. Where there is no such device nothing changes.
pub proof fn law_named_device_has_its_name(
    m: SyncManagerV,
    id: Seq<char>,
    alias: Option<Seq<char>>,
    now: Timestamp,
    other: Seq<char>,
)
    ensures
        ({
            let after = device_renamed(m, id, alias, now);
            let known = device_row(m.db.devices, id);
            let e = after.db.logs.last();
            &&& known matches Some(k) ==> device_row(after.db.devices, id) == Some(
                DeviceRowV { alias, ..k },
            )
            &&& other != id ==> device_row(after.db.devices, other) == device_row(
                m.db.devices,
                other,
            )
            &&& known is None ==> device_row(after.db.devices, id) is None && after.db.logs
                == m.db.logs
            &&& known is Some && m.db.last_log_id < i64::MAX ==> after.db.logs.len() > 0
                && e.peer_id == Some(id) && e.event_type == "pairing"@
            &&& after.db.secrets == m.db.secrets
        }),
{
    crate::storage::devices::lemma_device_row(m.db.devices, id);
    crate::storage::identity::lemma_row_changed(
        m.db.devices,
        id,
        DeviceChangeV::Alias(alias),
        other,
    );
}

} // verus!
