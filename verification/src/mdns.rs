//! Discovery over multicast DNS: what is made of a resolved service, and the decisions of the
//! announcing and the browsing loop.

use vstd::prelude::*;
use vstd::string::*;
use vstd::utf8::encode_utf8;

use crate::address::{ipv4_of, parse_ipv4, Ipv4};
use crate::crypto::{alias_text, checked_alias};
use crate::models::{Device, DeviceV, Timestamp};
use crate::outside::{clock, MAX_HASH_INPUT};
use crate::storage::devices::opt_device;
use crate::storage::{kind_named, parse_device_kind};
use crate::text::{chars_of, decimal, opt_text, push_decimal, same};

verus! {

/// The service type.
pub const SERVICE_TYPE: &'static str = "_activitywatch._tcp.local.";

/// Property with the protocol version.
pub const TXT_VERSION: &'static str = "v";

/// Property with the device id.
pub const TXT_DEVICE_ID: &'static str = "id";

/// Property with the kind of device.
pub const TXT_DEVICE_KIND: &'static str = "kind";

/// The protocol version; services of another one are not ours.
pub const PROTO_VERSION: &'static str = "1";

/// How often the local address is looked at while the service is announced, in milliseconds.
pub const ANNOUNCE_POLL_MS: u64 = 3_000;

/// How long to wait after the daemon could not be started, in milliseconds.
pub const DAEMON_RETRY_MS: i64 = 30_000;

/// How long one wait for browse events lasts, in milliseconds.
pub const BROWSE_TICK_MS: u64 = 2_000;

// ---- resolved services ----

/// A resolved service: its properties, its IPv4 addresses and its port.
pub struct ServiceRecord {
    pub version: Option<String>,
    pub id: Option<String>,
    pub kind: Option<String>,
    pub addrs: Vec<Ipv4>,
    pub port: u16,
}

/// The contents of a [`ServiceRecord`].
pub struct ServiceRecordV {
    pub version: Option<Seq<char>>,
    pub id: Option<Seq<char>>,
    pub kind: Option<Seq<char>>,
    pub addrs: Seq<Ipv4>,
    pub port: u16,
}

impl View for ServiceRecord {
    type V = ServiceRecordV;

    open spec fn view(&self) -> ServiceRecordV {
        ServiceRecordV {
            version: opt_text(self.version),
            id: opt_text(self.id),
            kind: opt_text(self.kind),
            addrs: self.addrs@,
            port: self.port,
        }
    }
}

/// Among addresses, the least one that a device can be reached under.
pub open spec fn least_reachable(addrs: Seq<Ipv4>) -> Option<Ipv4>
    decreases addrs.len(),
{
    if addrs.len() == 0 {
        None
    } else {
        let best = least_reachable(addrs.drop_last());
        let ip = addrs.last();
        if !ip.reachable() {
            best
        } else {
            match best {
                Some(b) => if ip.number() < b.number() {
                    Some(ip)
                } else {
                    best
                },
                None => Some(ip),
            }
        }
    }
}

/// The address to synchronise with among those of a device: the least that can be used, so
/// that the order in which they come does not matter.
pub fn pick_ipv4(addrs: &Vec<Ipv4>) -> (r: Option<Ipv4>)
    ensures
        r == least_reachable(addrs@),
{
    let mut best: Option<Ipv4> = None;
    let mut i: usize = 0;
    while i < addrs.len()
        invariant
            i <= addrs.len(),
            best == least_reachable(addrs@.take(i as int)),
        decreases addrs.len() - i,
    {
        let ip: Ipv4 = addrs[i];
        assert(addrs@.take(i + 1).drop_last() =~= addrs@.take(i as int));
        assert(addrs@.take(i + 1).last() == ip);
        if ip.is_reachable() {
            match best {
                Some(b) => {
                    if ip.less_than(&b) {
                        best = Some(ip);
                    }
                },
                None => {
                    best = Some(ip);
                },
            }
        }
        i = i + 1;
    }
    assert(addrs@.take(i as int) =~= addrs@);
    best
}

/// The device that a resolved service stands for; none where it is not ours, is the own one,
/// or cannot be reached.
pub open spec fn service_device(
    rs: ServiceRecordV,
    self_id: Seq<char>,
    now: Timestamp,
) -> Option<DeviceV> {
    if rs.version != Some(PROTO_VERSION@) {
        None
    } else {
        match rs.id {
            None => None,
            Some(id) => if id.len() == 0 || id == self_id || encode_utf8(
                "aw-sync/alias/1\n"@ + id,
            ).len() > MAX_HASH_INPUT {
                None
            } else {
                match least_reachable(rs.addrs) {
                    None => None,
                    Some(ip) => Some(
                        DeviceV {
                            id,
                            name: alias_text(id),
                            device_kind: kind_named(
                                match rs.kind {
                                    Some(k) => k,
                                    None => ""@,
                                },
                            ),
                            ip: ip.dotted(),
                            port: rs.port,
                            paired_at: now,
                            last_sync_at: None,
                            last_seen_at: Some(now),
                            is_online: true,
                            is_self: false,
                            paired: false,
                            alias: None,
                            device_secret: None,
                            machine_uid: None,
                        },
                    ),
                }
            },
        }
    }
}

/// The device that a resolved service stands for, at a time.
pub fn device_from_service_at(rs: &ServiceRecord, self_id: &str, now: &Timestamp) -> (r: Option<
    Device,
>)
    ensures
        opt_device(r) == service_device(rs@, self_id@, *now),
{
    let ours: bool = match &rs.version {
        Some(v) => same(v.as_str(), PROTO_VERSION),
        None => false,
    };
    if !ours {
        return None;
    }
    let id: &String = match &rs.id {
        Some(id) => id,
        None => {
            return None;
        },
    };
    if chars_of(id.as_str()).len() == 0 || same(id.as_str(), self_id) {
        return None;
    }
    let name: String = match checked_alias(id.as_str()) {
        Some(a) => a,
        None => {
            return None;
        },
    };
    let ip: Ipv4 = match pick_ipv4(&rs.addrs) {
        Some(ip) => ip,
        None => {
            return None;
        },
    };
    let kind: &str = match &rs.kind {
        Some(k) => k.as_str(),
        None => "",
    };
    Some(
        Device {
            id: id.clone(),
            name,
            device_kind: parse_device_kind(kind),
            ip: ip.to_text(),
            port: rs.port,
            paired_at: *now,
            last_sync_at: None,
            last_seen_at: Some(*now),
            is_online: true,
            is_self: false,
            paired: false,
            alias: None,
            device_secret: None,
            machine_uid: None,
        },
    )
}

/// The device that a resolved service stands for.
pub fn device_from_service(rs: &ServiceRecord, self_id: &str) -> (r: Option<Device>)
    ensures
        exists|now: Timestamp| opt_device(r) == #[trigger] service_device(rs@, self_id@, now),
{
    let now: Timestamp = clock();
    device_from_service_at(rs, self_id, &now)
}

/// The message for a resolved service.
pub open spec fn resolved_note(dev: DeviceV) -> Seq<char> {
    "mDNS 解析到 "@ + dev.name + " ("@ + dev.ip + ":"@ + decimal(dev.port as int) + " id:"@
        + dev.id + ")"@
}

/// The message for a resolved service.
pub fn resolved_note_of(dev: &Device) -> (r: String)
    ensures
        r@ == resolved_note(dev@),
{
    let mut s: String = "mDNS 解析到 ".to_string();
    s.append(dev.name.as_str());
    s.append(" (");
    s.append(dev.ip.as_str());
    s.append(":");
    push_decimal(&mut s, dev.port as i128);
    s.append(" id:");
    s.append(dev.id.as_str());
    s.append(")");
    s
}

// ---- the own service ----

/// What is registered for the own device: instance name, host name and properties.
#[derive(Debug)]
pub struct Registration {
    pub instance: String,
    pub host_name: String,
    pub version: String,
    pub id: String,
    pub kind: String,
}

/// What is registered for the own device under its alias: neither name nor fingerprint shows.
pub fn registration(device: &Device, alias: &str) -> (r: Registration)
    ensures
        r.instance@ == alias@,
        r.host_name@ == alias@ + ".local."@,
        r.version@ == PROTO_VERSION@,
        r.id@ == device@.id,
        r.kind@ == device@.device_kind.text(),
{
    let mut host: String = alias.to_string();
    host.append(".local.");
    Registration {
        instance: alias.to_string(),
        host_name: host,
        version: PROTO_VERSION.to_string(),
        id: device.id.clone(),
        kind: device.device_kind.as_str().to_string(),
    }
}

/// The message for a registration.
pub open spec fn registered_note(alias: Seq<char>, ip: Seq<char>, port: u16, id: Seq<char>) -> Seq<
    char,
> {
    "注册 mDNS 服务 "@ + alias + " → "@ + ip + ":"@ + decimal(port as int) + " (id:"@ + id + ")"@
}

/// The message for a registration.
pub fn registered_note_of(alias: &str, ip: &str, port: u16, id: &str) -> (r: String)
    ensures
        r@ == registered_note(alias@, ip@, port, id@),
{
    let mut s: String = "注册 mDNS 服务 ".to_string();
    s.append(alias);
    s.append(" → ");
    s.append(ip);
    s.append(":");
    push_decimal(&mut s, port as i128);
    s.append(" (id:");
    s.append(id);
    s.append(")");
    s
}

// ---- the daemon ----

/// What is known of the daemon.
pub struct DaemonSlot {
    /// Whether it runs.
    pub ready: bool,
    /// When it was last tried to start, on a steady clock in milliseconds.
    pub last_try: Option<i64>,
}

/// What to do when the daemon is needed.
#[derive(Debug, Clone, Copy, PartialEq, Eq, Structural)]
pub enum DaemonStep {
    /// Use it.
    Use,
    /// Do without.
    Without,
    /// Try to start it.
    Start,
}

/// What to do when the daemon is needed, and when it was last tried to start from then on.
pub open spec fn daemon_next(ready: bool, last_try: Option<i64>, tick: i64) -> (
    DaemonStep,
    Option<i64>,
) {
    if ready {
        (DaemonStep::Use, last_try)
    } else if last_try matches Some(t) && tick - t < DAEMON_RETRY_MS {
        (DaemonStep::Without, last_try)
    } else {
        (DaemonStep::Start, Some(tick))
    }
}

impl DaemonSlot {
    /// No daemon yet.
    pub fn new() -> (r: DaemonSlot)
        ensures
            !r.ready,
            r.last_try is None,
    {
        DaemonSlot { ready: false, last_try: None }
    }

    /// Decides what to do when the daemon is needed: it is started on first need, and after a
    /// failure not again for a while.
    pub fn daemon(&mut self, tick: i64) -> (r: DaemonStep)
        ensures
            (r, final(self).last_try) == daemon_next(old(self).ready, old(self).last_try, tick),
            final(self).ready == old(self).ready,
    {
        if self.ready {
            return DaemonStep::Use;
        }
        match self.last_try {
            Some(t) => {
                if (tick as i128 - t as i128) < DAEMON_RETRY_MS as i128 {
                    return DaemonStep::Without;
                }
            },
            None => {},
        }
        self.last_try = Some(tick);
        DaemonStep::Start
    }

    /// Notes whether the daemon could be started.
    pub fn started(&mut self, ok: bool)
        ensures
            final(self).ready == (old(self).ready || ok),
            final(self).last_try == old(self).last_try,
    {
        if ok {
            self.ready = true;
        }
    }
}

/// Whether the daemon runs.
pub fn daemon_ready(slot: &DaemonSlot) -> (r: bool)
    ensures
        r == slot.ready,
{
    slot.ready
}

// ---- announcing ----

/// The state of the announcing loop.
pub struct Announcer {
    /// The address that is announced.
    pub cur_ip: String,
    /// The full name of the registered service.
    pub fullname: Option<String>,
}

/// What the announcing loop does next.
#[derive(Debug)]
pub enum AnnounceStep {
    /// Withdraw a service, if one is named, and wait for some milliseconds.
    Withdraw(Option<String>, u64),
    /// Take note of what the daemon reports, and wait for some milliseconds.
    Keep(u64),
    /// Withdraw a service, if one is named, and register one for an address.
    Register(Option<String>, String),
}

/// The contents of an [`AnnounceStep`].
pub enum AnnounceStepV {
    Withdraw(Option<Seq<char>>, u64),
    Keep(u64),
    Register(Option<Seq<char>>, Seq<char>),
}

impl View for AnnounceStep {
    type V = AnnounceStepV;

    open spec fn view(&self) -> AnnounceStepV {
        match self {
            AnnounceStep::Withdraw(n, ms) => AnnounceStepV::Withdraw(opt_text(*n), *ms),
            AnnounceStep::Keep(ms) => AnnounceStepV::Keep(*ms),
            AnnounceStep::Register(n, ip) => AnnounceStepV::Register(opt_text(*n), ip@),
        }
    }
}

/// Whether an address may be announced: an IPv4 address that neither is of the machine itself
/// nor stands for none.
pub open spec fn announceable(ip: Seq<char>) -> bool {
    ipv4_of(ip) matches Some(a) && !a.loopback() && !a.unspecified()
}

/// What the announcing loop does next, and its state from then on.
pub open spec fn announce_next(
    cur_ip: Seq<char>,
    fullname: Option<Seq<char>>,
    active: bool,
    ip: Seq<char>,
) -> (AnnounceStepV, Seq<char>, Option<Seq<char>>) {
    if !active {
        (AnnounceStepV::Withdraw(fullname, 500), cur_ip, None)
    } else if !announceable(ip) {
        (AnnounceStepV::Withdraw(fullname, ANNOUNCE_POLL_MS), ""@, None)
    } else if fullname is Some && ip == cur_ip {
        (AnnounceStepV::Keep(ANNOUNCE_POLL_MS), cur_ip, fullname)
    } else {
        (AnnounceStepV::Register(fullname, ip), cur_ip, None)
    }
}

impl Announcer {
    /// Nothing announced.
    pub fn new() -> (r: Announcer)
        ensures
            r.cur_ip@ == ""@,
            r.fullname is None,
    {
        Announcer { cur_ip: "".to_string(), fullname: None }
    }

    /// Takes the registered service, if there is one, to be withdrawn.
    pub fn unregister(&mut self) -> (r: Option<String>)
        ensures
            opt_text(r) == opt_text(old(self).fullname),
            final(self).fullname is None,
            final(self).cur_ip == old(self).cur_ip,
    {
        let name: Option<String> = self.fullname.clone();
        self.fullname = None;
        name
    }

    /// Decides the next step from whether discovery is on and the local address. An address
    /// that is gone is no longer announced.
    pub fn step(&mut self, active: bool, ip: &str) -> (r: AnnounceStep)
        ensures
            (r@, final(self).cur_ip@, opt_text(final(self).fullname)) == announce_next(
                old(self).cur_ip@,
                opt_text(old(self).fullname),
                active,
                ip@,
            ),
    {
        if !active {
            return AnnounceStep::Withdraw(self.unregister(), 500);
        }
        let fits: bool = match parse_ipv4(ip) {
            Some(a) => !a.is_loopback() && !a.is_unspecified(),
            None => false,
        };
        if !fits {
            let name: Option<String> = self.unregister();
            self.cur_ip = "".to_string();
            return AnnounceStep::Withdraw(name, ANNOUNCE_POLL_MS);
        }
        if self.fullname.is_some() && same(ip, self.cur_ip.as_str()) {
            return AnnounceStep::Keep(ANNOUNCE_POLL_MS);
        }
        AnnounceStep::Register(self.unregister(), ip.to_string())
    }

    /// Notes that a service was registered for an address.
    pub fn registered(&mut self, name: String, ip: &str)
        ensures
            opt_text(final(self).fullname) == Some(name@),
            final(self).cur_ip@ == ip@,
    {
        self.fullname = Some(name);
        self.cur_ip = ip.to_string();
    }

    /// Notes that no service could be registered; gives how long to wait, in milliseconds.
    pub fn failed(&mut self) -> (ms: u64)
        ensures
            final(self).cur_ip@ == ""@,
            final(self).fullname == old(self).fullname,
            ms == 5_000,
    {
        self.cur_ip = "".to_string();
        5_000
    }
}

// ---- browsing ----

/// What the browsing loop does next.
#[derive(Debug, Clone, Copy, PartialEq, Eq, Structural)]
pub enum BrowseStep {
    /// Wait for some milliseconds.
    Rest(u64),
    /// Stop browsing, and wait for some milliseconds.
    Stop(u64),
    /// Start browsing.
    Start,
    /// Wait for an event, no longer than some milliseconds.
    Listen(u64),
}

/// What the browsing loop does next, and whether it browses from then on.
pub open spec fn browse_next(browsing: bool, active: bool, daemon: bool) -> (BrowseStep, bool) {
    if !active {
        (
            if browsing {
                BrowseStep::Stop(500)
            } else {
                BrowseStep::Rest(500)
            },
            false,
        )
    } else if !daemon {
        (BrowseStep::Rest(5_000), browsing)
    } else if !browsing {
        (BrowseStep::Start, browsing)
    } else {
        (BrowseStep::Listen(BROWSE_TICK_MS), browsing)
    }
}

/// The state of the browsing loop.
pub struct Browser {
    pub browsing: bool,
}

impl Browser {
    /// Not browsing.
    pub fn new() -> (r: Browser)
        ensures
            !r.browsing,
    {
        Browser { browsing: false }
    }

    /// Decides the next step from whether discovery is on and the daemon runs.
    pub fn step(&mut self, active: bool, daemon: bool) -> (r: BrowseStep)
        ensures
            (r, final(self).browsing) == browse_next(old(self).browsing, active, daemon),
    {
        if !active {
            let was: bool = self.browsing;
            self.browsing = false;
            return if was {
                BrowseStep::Stop(500)
            } else {
                BrowseStep::Rest(500)
            };
        }
        if !daemon {
            return BrowseStep::Rest(5_000);
        }
        if !self.browsing {
            BrowseStep::Start
        } else {
            BrowseStep::Listen(BROWSE_TICK_MS)
        }
    }

    /// Notes whether browsing could be started; gives what to do next.
    pub fn started(&mut self, ok: bool) -> (r: BrowseStep)
        ensures
            final(self).browsing == (old(self).browsing || ok),
            r == (if ok {
                BrowseStep::Listen(BROWSE_TICK_MS)
            } else {
                BrowseStep::Rest(30_000)
            }),
    {
        if ok {
            self.browsing = true;
            BrowseStep::Listen(BROWSE_TICK_MS)
        } else {
            BrowseStep::Rest(30_000)
        }
    }

    /// Notes that no more events come; gives what to do next.
    pub fn disconnected(&mut self) -> (r: BrowseStep)
        ensures
            !final(self).browsing,
            r == BrowseStep::Rest(500),
    {
        self.browsing = false;
        BrowseStep::Rest(500)
    }
}

// ---- laws ----

proof fn lemma_number_injective(x: Ipv4, y: Ipv4)
    requires
        x.number() == y.number(),
    ensures
        x == y,
{
    assert(x.a == y.a);
    assert(x.b == y.b);
    assert(x.c == y.c);
}

/// The address picked is one that can be used, and none that can be used is less; there is
/// none only where none can be used.
pub proof fn law_pick_is_least(addrs: Seq<Ipv4>)
    ensures
        match least_reachable(addrs) {
            Some(ip) => ip.reachable() && addrs.contains(ip) && forall|i: int|
                0 <= i < addrs.len() && addrs[i].reachable() ==> ip.number() <= (
                #[trigger] addrs[i]).number(),
            None => forall|i: int| 0 <= i < addrs.len() ==> !(#[trigger] addrs[i]).reachable(),
        },
    decreases addrs.len(),
{
    if addrs.len() > 0 {
        let rest = addrs.drop_last();
        law_pick_is_least(rest);
        assert(addrs[addrs.len() - 1] == addrs.last());
        assert forall|i: int| 0 <= i < rest.len() implies #[trigger] addrs[i] == rest[i] by {}
        if least_reachable(rest) is Some {
            let b = least_reachable(rest)->0;
            let j = choose|j: int| 0 <= j < rest.len() && rest[j] == b;
            assert(addrs[j] == b);
        }
    }
}

/// The address picked depends on which addresses there are, not on their order.
pub proof fn law_pick_ignores_order(x: Seq<Ipv4>, y: Seq<Ipv4>)
    requires
        forall|ip: Ipv4| #[trigger] x.contains(ip) <==> y.contains(ip),
    ensures
        least_reachable(x) == least_reachable(y),
{
    law_pick_is_least(x);
    law_pick_is_least(y);
    match (least_reachable(x), least_reachable(y)) {
        (Some(a), Some(b)) => {
            assert(y.contains(a) && x.contains(b));
            let i = choose|i: int| 0 <= i < y.len() && y[i] == a;
            let j = choose|j: int| 0 <= j < x.len() && x[j] == b;
            assert(y[i] == a && x[j] == b);
            lemma_number_injective(a, b);
        },
        (Some(a), None) => {
            assert(y.contains(a));
            let i = choose|i: int| 0 <= i < y.len() && y[i] == a;
            assert(y[i].reachable());
        },
        (None, Some(b)) => {
            assert(x.contains(b));
            let j = choose|j: int| 0 <= j < x.len() && x[j] == b;
            assert(x[j].reachable());
        },
        (None, None) => {},
    }
}

/// A service of another version, without an id, or of the own device gives no device; and a
/// device that comes of a service is neither the own one nor paired, and shows only its alias.
pub proof fn law_foreign_services_are_not_claimed(
    rs: ServiceRecordV,
    self_id: Seq<char>,
    now: Timestamp,
)
    ensures
        rs.version != Some(PROTO_VERSION@) || rs.id is None || rs.id == Some(self_id)
            ==> service_device(rs, self_id, now) is None,
        service_device(rs, self_id, now) matches Some(d) ==> d.id != self_id && !d.is_self
            && !d.paired && d.name == alias_text(d.id) && d.machine_uid is None && d.device_secret
            is None && d.port == rs.port,
{
}

/// A service of this version with an id of another device, that is short enough to be hashed, and
/// with an address that can be reached gives that device: with the least such address and the
/// port, the kind that it names, under its alias, just seen and online.
pub proof fn law_service_gives_its_device(
    rs: ServiceRecordV,
    self_id: Seq<char>,
    now: Timestamp,
    id: Seq<char>,
    kind: crate::models::DeviceKind,
    i: int,
)
    requires
        rs.version == Some("1"@),
        rs.id == Some(id),
        id.len() > 0,
        id != self_id,
        encode_utf8("aw-sync/alias/1\n"@ + id).len() <= MAX_HASH_INPUT,
        0 <= i < rs.addrs.len(),
        rs.addrs[i].reachable(),
    ensures
        service_device(rs, self_id, now) matches Some(d) && {
            &&& d.id == id
            &&& d.port == rs.port
            &&& d.ip == (least_reachable(rs.addrs)->0).dotted()
            &&& (least_reachable(rs.addrs)->0).number() <= rs.addrs[i].number()
            &&& rs.kind == Some(kind.text()) ==> d.device_kind == kind
            &&& d.name == alias_text(id)
            &&& d.last_seen_at == Some(now)
            &&& d.paired_at == now
            &&& d.last_sync_at is None
            &&& d.is_online
            &&& d.alias is None
        },
{
    law_pick_is_least(rs.addrs);
    crate::storage::law_kind_reads_back(kind);
}

/// The announcing loop announces nothing while discovery is off or the address may not be
/// announced. It keeps what is registered for the address, and registers anew for another one,
/// after withdrawing the earlier service.
pub proof fn law_announcing_steps(
    cur_ip: Seq<char>,
    fullname: Option<Seq<char>>,
    active: bool,
    ip: Seq<char>,
)
    ensures
        ({
            let (step, ip_after, name_after) = announce_next(cur_ip, fullname, active, ip);
            &&& step is Register <==> active && announceable(ip) && !(fullname is Some && ip
                == cur_ip)
            &&& step is Keep <==> active && announceable(ip) && fullname is Some && ip == cur_ip
            &&& step is Withdraw <==> !active || !announceable(ip)
            &&& step matches AnnounceStepV::Register(old_name, to) ==> old_name == fullname && to
                == ip
            &&& step matches AnnounceStepV::Withdraw(old_name, ms) ==> old_name == fullname && (
            !active ==> ms == 500) && (active ==> ms == 3_000)
            &&& step is Keep ==> name_after == fullname && ip_after == cur_ip
            &&& !(step is Keep) ==> name_after is None
            &&& active && !announceable(ip) ==> ip_after.len() == 0
        }),
{
    reveal_strlit("");
}

/// An IPv4 address may be announced unless it is one of the machine itself or stands for none;
/// what is no IPv4 address may not.
pub proof fn law_announceable_addresses(ip: Ipv4, s: Seq<char>)
    ensures
        announceable(ip.dotted()) <==> ip.a != 127 && !(ip.a == 0 && ip.b == 0 && ip.c == 0 && ip.d
            == 0),
        ipv4_of(s) is None ==> !announceable(s),
{
    crate::address::law_dotted_reads_back(ip);
}

/// The messages on services tell the name, the address with the port, and the id.
pub proof fn law_service_notes(dev: DeviceV, alias: Seq<char>, ip: Seq<char>, port: u16, id: Seq<char>)
    ensures
        resolved_note(dev) == "mDNS 解析到 "@ + dev.name + " ("@ + (dev.ip + ":"@ + decimal(
            dev.port as int,
        )) + " id:"@ + dev.id + ")"@,
        registered_note(alias, ip, port, id) == "注册 mDNS 服务 "@ + alias + " → "@ + (ip + ":"@
            + decimal(port as int)) + " (id:"@ + id + ")"@,
{
    assert(resolved_note(dev) =~= "mDNS 解析到 "@ + dev.name + " ("@ + (dev.ip + ":"@ + decimal(
        dev.port as int,
    )) + " id:"@ + dev.id + ")"@);
    assert(registered_note(alias, ip, port, id) =~= "注册 mDNS 服务 "@ + alias + " → "@ + (ip + ":"@
        + decimal(port as int)) + " (id:"@ + id + ")"@);
}

/// A daemon that runs is used. One that does not is started on first need, and after that not
/// again for half a minute; in between the loops do without it.
pub proof fn law_daemon_is_retried(last_try: Option<i64>, tick: i64, later: i64)
    ensures
        daemon_next(true, last_try, tick) == (DaemonStep::Use, last_try),
        daemon_next(false, None, tick) == (DaemonStep::Start, Some(tick)),
        daemon_next(false, Some(tick), later).0 == DaemonStep::Start <==> later - tick >= 30_000,
        daemon_next(false, Some(tick), later).0 == DaemonStep::Without <==> later - tick < 30_000,
        daemon_next(false, last_try, tick).0 == DaemonStep::Start ==> daemon_next(
            false,
            last_try,
            tick,
        ).1 == Some(tick),
        daemon_next(false, last_try, tick).0 == DaemonStep::Without ==> daemon_next(
            false,
            last_try,
            tick,
        ).1 == last_try,
{
}

/// The browsing loop listens only while discovery is on and the daemon runs, once it browses; it
/// stops browsing when discovery is switched off, and only then.
pub proof fn law_browsing_steps(browsing: bool, active: bool, daemon: bool)
    ensures
        ({
            let (step, after) = browse_next(browsing, active, daemon);
            &&& step is Listen <==> active && daemon && browsing
            &&& step is Start <==> active && daemon && !browsing
            &&& step is Stop <==> !active && browsing
            &&& after <==> browsing && active
            &&& step matches BrowseStep::Listen(ms) ==> ms == 2_000
            &&& step matches BrowseStep::Rest(ms) ==> (if active {
                ms == 5_000
            } else {
                ms == 500
            })
        }),
{
}

} // verus!
