//! Switches of discovery, and the revision number of the data.

use vstd::prelude::*;

use crate::models::{DeviceKind, Timestamp, DEFAULT_UDP_PORT};
use crate::outside::clock;
use crate::text::{chars_of, opt_str, same};

verus! {

/// Whether discovery is on, how long a background window lasts, and whether its threads run.
#[derive(Debug, Clone, Copy, PartialEq, Eq, Structural)]
pub struct DiscoverySwitch {
    pub active: bool,
    /// The end of the background window in Unix milliseconds; zero for none.
    pub burst_until_ms: u64,
    pub threads_started: bool,
}

impl DiscoverySwitch {
    /// Everything off.
    pub fn new() -> (r: DiscoverySwitch)
        ensures
            r == (DiscoverySwitch { active: false, burst_until_ms: 0, threads_started: false }),
    {
        DiscoverySwitch { active: false, burst_until_ms: 0, threads_started: false }
    }
}

/// Whether discovery was switched on.
pub fn discovery_running(s: &DiscoverySwitch) -> (r: bool)
    ensures
        r == s.active,
{
    s.active
}

/// Whether the background window is open.
pub open spec fn burst_open(s: DiscoverySwitch, now_ms: u64) -> bool {
    s.burst_until_ms != 0 && now_ms < s.burst_until_ms
}

/// Whether the background window is open.
pub fn discovery_burst_pending(s: &DiscoverySwitch, now_ms: u64) -> (r: bool)
    ensures
        r == burst_open(*s, now_ms),
{
    s.burst_until_ms != 0 && now_ms < s.burst_until_ms
}

/// Whether announcements are sent and heard: discovery was switched on, or the background
/// window is open.
pub fn discovery_active(s: &DiscoverySwitch, now_ms: u64) -> (r: bool)
    ensures
        r == (s.active || burst_open(*s, now_ms)),
{
    s.active || discovery_burst_pending(s, now_ms)
}

/// The milliseconds of a time; zero before 1970.
pub open spec fn millis(t: Timestamp) -> int {
    if t.secs < 0 {
        0
    } else {
        t.secs * 1000 + t.nanos / 1_000_000
    }
}

/// The Unix milliseconds of the system clock.
pub fn now_ms() -> (r: u64)
    ensures
        exists|t: Timestamp| r == #[trigger] millis(t) as u64,
{
    let t: Timestamp = clock();
    if t.secs < 0 {
        assert(millis(t) == 0);
        return 0;
    }
    let ms: u128 = t.secs as u128 * 1000 + (t.nanos / 1_000_000) as u128;
    assert(ms == millis(t));
    ms as u64
}

/// Switches discovery on or off. A background window stays open.
pub fn set_discovery_active(s: &mut DiscoverySwitch, v: bool)
    ensures
        *final(s) == (DiscoverySwitch { active: v, ..*old(s) }),
{
    s.active = v;
}

/// Lets the threads of discovery be started again, and switches discovery off.
pub fn reset_discovery_started_for_testing(s: &mut DiscoverySwitch)
    ensures
        *final(s) == (DiscoverySwitch { active: false, threads_started: false, ..*old(s) }),
{
    s.threads_started = false;
    set_discovery_active(s, false);
}

/// Whether discovery stays on while nobody looks: on every kind of device but a phone that
/// saves its battery.
pub fn discovery_persistent(kind: DeviceKind) -> (r: bool)
    ensures
        r == (kind != DeviceKind::Android),
{
    match kind {
        DeviceKind::Android => false,
        _ => true,
    }
}

/// The switch after nobody looks any more.
pub open spec fn looked_away(s: DiscoverySwitch, kind: DeviceKind) -> DiscoverySwitch {
    if kind != DeviceKind::Android {
        s
    } else {
        DiscoverySwitch { active: false, ..s }
    }
}

/// Switches discovery off where it does not stay on.
pub fn stop_discovery(s: &mut DiscoverySwitch, kind: DeviceKind)
    ensures
        *final(s) == looked_away(*old(s), kind),
{
    if discovery_persistent(kind) {
        return;
    }
    set_discovery_active(s, false);
}

/// A window of at least one and at most thirty seconds.
pub open spec fn burst_secs(secs: u64) -> u64 {
    if secs < 1 {
        1
    } else if secs > 30 {
        30
    } else {
        secs
    }
}

/// Opens the background window for some seconds; gives how long it lasts.
pub fn start_discovery_burst(s: &mut DiscoverySwitch, secs: u64, now_ms: u64) -> (r: u64)
    requires
        now_ms <= u64::MAX - 30_000,
    ensures
        r == burst_secs(secs),
        *final(s) == (DiscoverySwitch {
            burst_until_ms: (now_ms + burst_secs(secs) * 1000) as u64,
            ..*old(s)
        }),
{
    let secs: u64 = if secs < 1 {
        1
    } else if secs > 30 {
        30
    } else {
        secs
    };
    s.burst_until_ms = now_ms + secs * 1000;
    secs
}

/// Closes the background window.
pub fn stop_discovery_burst(s: &mut DiscoverySwitch)
    ensures
        *final(s) == (DiscoverySwitch { burst_until_ms: 0, ..*old(s) }),
{
    s.burst_until_ms = 0;
}

/// Whether a setting of the environment forbids discovery.
pub open spec fn forbids(value: Option<Seq<char>>) -> bool {
    value matches Some(v) && v.len() > 0 && v != "0"@
}

/// Whether a setting of the environment forbids discovery: it is set, and not to zero.
pub fn discovery_forbidden(value: Option<&str>) -> (r: bool)
    ensures
        r == forbids(opt_str(value)),
{
    match value {
        Some(v) => chars_of(v).len() > 0 && !same(v, "0"),
        None => false,
    }
}

/// The threads of discovery that are to be started.
#[derive(Debug, Clone, Copy, PartialEq, Eq, Structural)]
pub struct ThreadPlan {
    /// The port of broadcasts.
    pub udp_port: u16,
    /// Whether multicast DNS takes part.
    pub mdns: bool,
}

/// Decides which threads of discovery to start: none where it is forbidden or they run
/// already. They are started once.
pub fn ensure_discovery_threads(
    s: &mut DiscoverySwitch,
    forbidden: bool,
    discovery_method: &str,
    udp_port: u16,
) -> (r: Option<ThreadPlan>)
    ensures
        forbidden ==> r is None && *final(s) == *old(s),
        !forbidden ==> {
            &&& *final(s) == (DiscoverySwitch { threads_started: true, ..*old(s) })
            &&& r == (if old(s).threads_started {
                None
            } else {
                Some(
                    ThreadPlan {
                        udp_port: if udp_port == 0 {
                            DEFAULT_UDP_PORT
                        } else {
                            udp_port
                        },
                        mdns: discovery_method@ != "udp_only"@,
                    },
                )
            })
        },
{
    if forbidden {
        return None;
    }
    if s.threads_started {
        return None;
    }
    s.threads_started = true;
    let port: u16 = if udp_port == 0 { DEFAULT_UDP_PORT } else { udp_port };
    Some(ThreadPlan { udp_port: port, mdns: !same(discovery_method, "udp_only") })
}

/// Switches discovery on for someone who looks at it.
pub fn start_discovery(
    s: &mut DiscoverySwitch,
    forbidden: bool,
    discovery_method: &str,
    udp_port: u16,
) -> (r: Option<ThreadPlan>)
    ensures
        final(s).active,
        final(s).burst_until_ms == old(s).burst_until_ms,
        final(s).threads_started == (old(s).threads_started || !forbidden),
        r is Some <==> !forbidden && !old(s).threads_started,
        r matches Some(plan) ==> plan == (ThreadPlan {
            udp_port: if udp_port == 0 {
                DEFAULT_UDP_PORT
            } else {
                udp_port
            },
            mdns: discovery_method@ != "udp_only"@,
        }),
{
    let plan: Option<ThreadPlan> = ensure_discovery_threads(
        s,
        forbidden,
        discovery_method,
        udp_port,
    );
    set_discovery_active(s, true);
    plan
}

/// Starts discovery with the program: the threads in any case, sending where the settings
/// have it on.
pub fn spawn_discovery(
    s: &mut DiscoverySwitch,
    forbidden: bool,
    discovery_method: &str,
    udp_port: u16,
    enabled: bool,
) -> (r: Option<ThreadPlan>)
    ensures
        final(s).active == (old(s).active || enabled),
        final(s).burst_until_ms == old(s).burst_until_ms,
        final(s).threads_started == (old(s).threads_started || !forbidden),
        r is Some <==> !forbidden && !old(s).threads_started,
        r matches Some(plan) ==> plan == (ThreadPlan {
            udp_port: if udp_port == 0 {
                DEFAULT_UDP_PORT
            } else {
                udp_port
            },
            mdns: discovery_method@ != "udp_only"@,
        }),
{
    let plan: Option<ThreadPlan> = ensure_discovery_threads(
        s,
        forbidden,
        discovery_method,
        udp_port,
    );
    if enabled {
        set_discovery_active(s, true);
    }
    plan
}

// ---- the revision of the data ----

/// A number that grows whenever data of another device has changed the local data.
#[derive(Debug, Clone, Copy, PartialEq, Eq, Structural)]
pub struct DataRevision {
    pub value: u64,
}

/// The revision.
pub fn data_revision(r: &DataRevision) -> (n: u64)
    ensures
        n == r.value,
{
    r.value
}

/// The revision after a change.
pub open spec fn bumped(r: DataRevision) -> DataRevision {
    DataRevision {
        value: if r.value < u64::MAX {
            (r.value + 1) as u64
        } else {
            0
        },
    }
}

/// Notes a change.
pub fn bump_data_revision(r: &mut DataRevision)
    ensures
        *final(r) == bumped(*old(r)),
{
    if r.value < u64::MAX {
        r.value = r.value + 1;
    } else {
        r.value = 0;
    }
}

// ---- laws ----

/// Switching discovery off does not close a background window, and a window closes by itself.
pub proof fn law_window_is_independent(s: DiscoverySwitch, v: bool, secs: u64, now_ms: u64, later: u64)
    requires
        now_ms + 30_000 <= u64::MAX,
    ensures
        burst_open(DiscoverySwitch { active: v, ..s }, later) == burst_open(s, later),
        ({
            let opened = DiscoverySwitch {
                burst_until_ms: (now_ms + burst_secs(secs) * 1000) as u64,
                ..s
            };
            &&& burst_open(opened, now_ms)
            &&& later >= now_ms + 30_000 ==> !burst_open(opened, later)
        }),
{
}

/// A window is open from when it is opened for as many seconds as were asked for, but for one at
/// least and for thirty at most.
pub proof fn law_window_lasts_as_asked(s: DiscoverySwitch, secs: u64, now_ms: u64, later: u64)
    requires
        now_ms + 30_000 <= u64::MAX,
    ensures
        ({
            let opened = DiscoverySwitch {
                burst_until_ms: (now_ms + burst_secs(secs) * 1000) as u64,
                ..s
            };
            &&& 1 <= secs <= 30 ==> (burst_open(opened, later) <==> later < now_ms + secs * 1000)
            &&& secs > 30 ==> (burst_open(opened, later) <==> later < now_ms + 30_000)
            &&& secs == 0 ==> (burst_open(opened, later) <==> later < now_ms + 1_000)
        }),
        !burst_open(DiscoverySwitch { burst_until_ms: 0, ..s }, later),
{
}

/// The revision grows by one with every change, until it begins anew; it never stays.
pub proof fn law_revision_grows(r: DataRevision)
    ensures
        bumped(r).value != r.value,
        r.value < u64::MAX ==> bumped(r).value == r.value + 1,
        r.value == u64::MAX ==> bumped(r).value == 0,
{
}

/// Milliseconds count the time since 1970 in full.
pub proof fn law_millis_count_the_time(t: Timestamp)
    requires
        t.nanos < 1_000_000_000,
    ensures
        t.secs >= 0 ==> millis(t) * 1_000_000 <= t.ns() < (millis(t) + 1) * 1_000_000,
        t.secs < 0 ==> millis(t) == 0,
{
}

/// When nobody looks any more, discovery is switched off on a phone and stays as it is on every
/// other device; the background window and the threads stay in any case.
pub proof fn law_discovery_stays_on(s: DiscoverySwitch, kind: DeviceKind)
    ensures
        kind == DeviceKind::Android ==> !looked_away(s, kind).active,
        kind != DeviceKind::Android ==> looked_away(s, kind).active == s.active,
        looked_away(s, kind).burst_until_ms == s.burst_until_ms,
        looked_away(s, kind).threads_started == s.threads_started,
{
}

/// Discovery is forbidden by any setting but an empty one and zero.
pub proof fn law_what_forbids_discovery(v: Seq<char>)
    ensures
        !forbids(None),
        !forbids(Some(""@)),
        !forbids(Some("0"@)),
        v != ""@ && v != "0"@ ==> forbids(Some(v)),
{
    reveal_strlit("");
    assert(v.len() == 0 <==> v =~= ""@);
}

} // verus!
