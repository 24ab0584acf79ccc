//! The manager: what the interfaces and the background loops ask for.

use vstd::prelude::*;
use vstd::string::*;

use crate::manager::switches::{DataRevision, DiscoverySwitch, ThreadPlan};
use crate::models::{views, ConflictSummary, Device, DeviceSyncStats, DeviceV, SyncConfig, SyncConfigV, SyncDirection, SyncEventType, SyncLogEntry, SyncLogEntryV, SyncProtocol, SyncStatus, Timestamp, TrashEntry, DEFAULT_SYNC_PORT, DEFAULT_UDP_PORT};
use crate::outside::clock;
use crate::stamps::{Stamps, Table};
use crate::storage::bin::{conflicts_with, has_trash, other_entry, trash_list, unrestored};
use crate::storage::config::{config_of, with_config};
use crate::storage::devices::{device_with_id, has_device, listed, merge_refusal, merged, opt_device, stale_cutoff, time_text, times_read_back, with_change, with_stored, without_device, without_devices, without_expired, without_stale, DeviceChangeV};
use crate::storage::logs::{id_outcome, log_page, newest, next_log_id, with_log, LogFilter};
use crate::storage::stats::{stats_of, stats_outcome};
use crate::storage::{SyncDb, SyncDbV};
use crate::text::{opt_str, opt_text, unit_outcome};

pub mod auto;
pub mod cloud;
pub mod keys;
pub mod merging;
pub mod network;
pub mod own;
pub mod pairing;
pub mod probe;
pub mod switches;

verus! {

/// The synchronisation manager of a device.
pub struct SyncManager {
    /// The id of this device.
    pub self_id: String,
    pub db: SyncDb,
    /// The devices that ask to be paired and wait for an answer, one entry for each.
    pub inbound_pair_requests: Vec<Device>,
    /// The nonces of the envelopes that came lately.
    pub seen: Stamps,
    pub revision: DataRevision,
    pub discovery: DiscoverySwitch,
}

/// The contents of a [`SyncManager`].
#[verifier::ext_equal]
pub struct SyncManagerV {
    pub self_id: Seq<char>,
    pub db: SyncDbV,
    pub inbound: Seq<DeviceV>,
    pub seen: Map<Seq<char>, i64>,
    pub revision: DataRevision,
    pub discovery: DiscoverySwitch,
}

impl View for SyncManager {
    type V = SyncManagerV;

    open spec fn view(&self) -> SyncManagerV {
        SyncManagerV {
            self_id: self.self_id@,
            db: self.db@,
            inbound: views(self.inbound_pair_requests@),
            seen: self.seen@,
            revision: self.revision,
            discovery: self.discovery,
        }
    }
}

// ---- log entries ----

/// An entry on something that succeeded over HTTP.
pub open spec fn http_entry(
    direction: SyncDirection,
    event_type: SyncEventType,
    peer_id: Option<Seq<char>>,
    message: Seq<char>,
    data_size: Option<u64>,
    details: Option<Seq<char>>,
    now: Timestamp,
) -> SyncLogEntryV {
    SyncLogEntryV {
        id: None,
        timestamp: now,
        direction,
        protocol: SyncProtocol::Http,
        peer_id,
        event_type,
        status: SyncStatus::Success,
        message: Some(message),
        data_size,
        details,
    }
}

pub(crate) fn http_log(
    direction: SyncDirection,
    event_type: SyncEventType,
    peer_id: Option<String>,
    message: String,
    data_size: Option<u64>,
    details: Option<String>,
    now: &Timestamp,
) -> (r: SyncLogEntry)
    ensures
        r@ == http_entry(
            direction,
            event_type,
            opt_text(peer_id),
            message@,
            data_size,
            opt_text(details),
            *now,
        ),
{
    SyncLogEntry {
        id: None,
        timestamp: *now,
        direction,
        protocol: SyncProtocol::Http,
        peer_id,
        event_type,
        status: SyncStatus::Success,
        message: Some(message),
        data_size,
        details,
    }
}

/// The message on a merger.
pub open spec fn merger_message(from: Seq<char>, to: Seq<char>) -> Seq<char> {
    "已把 "@ + from + " 归并进 "@ + to + "（装机指纹相同，判定为同一台机器）"@
}

/// The state after a merger, which is logged where it was made.
pub open spec fn merged_and_logged(db: SyncDbV, from: Seq<char>, to: Seq<char>, now: Timestamp) -> SyncDbV {
    if merge_refusal(db.devices, from, to) is Ok {
        with_log(
            merged(db, from, to, time_text(now)),
            http_entry(
                SyncDirection::In,
                SyncEventType::Pairing,
                Some(to),
                merger_message(from, to),
                None,
                None,
                now,
            ),
        )
    } else {
        db
    }
}

/// The manager over stored data.
pub open spec fn manager_over(db: SyncDbV, self_id: Seq<char>) -> SyncManagerV {
    SyncManagerV {
        self_id,
        db: if config_of(db.config).listen_port == DEFAULT_SYNC_PORT {
            db
        } else {
            SyncDbV {
                config: with_config(
                    db.config,
                    SyncConfigV { listen_port: DEFAULT_SYNC_PORT, ..config_of(db.config) },
                ),
                ..db
            }
        },
        inbound: Seq::empty(),
        seen: Map::empty(),
        revision: DataRevision { value: 0 },
        discovery: DiscoverySwitch { active: false, burst_until_ms: 0, threads_started: false },
    }
}

impl SyncManager {
    /// The manager over stored data. The port to listen on is always the one of the server.
    pub fn new(db: SyncDb, self_id: String) -> (r: SyncManager)
        ensures
            r@ == manager_over(db@, self_id@),
    {
        let mut db: SyncDb = db;
        let mut cfg: SyncConfig = db.get_config();
        if cfg.listen_port != DEFAULT_SYNC_PORT {
            cfg.listen_port = DEFAULT_SYNC_PORT;
            db.set_config(&cfg);
        }
        let none: Vec<Device> = Vec::new();
        assert(views(none@) =~= Seq::empty());
        SyncManager {
            self_id,
            db,
            inbound_pair_requests: none,
            seen: Table::new(),
            revision: DataRevision { value: 0 },
            discovery: DiscoverySwitch::new(),
        }
    }

    /// The id of this device.
    pub fn self_id(&self) -> (r: &str)
        ensures
            r@ == self@.self_id,
    {
        self.self_id.as_str()
    }

    // ---- settings ----

    /// The settings.
    pub fn get_config(&self) -> (r: SyncConfig)
        ensures
            r@ == config_of(self@.db.config),
    {
        self.db.get_config()
    }

    /// Replaces the settings.
    pub fn set_config(&mut self, cfg: &SyncConfig)
        ensures
            final(self)@ == (SyncManagerV {
                db: SyncDbV {
                    config: with_config(old(self)@.db.config, cfg@),
                    ..old(self)@.db
                },
                ..old(self)@
            }),
    {
        self.db.set_config(cfg);
    }

    // ---- devices ----

    /// The devices, without those that were merged into others, at a time.
    pub fn list_devices_at(&self, now: &Timestamp) -> (r: Vec<Device>)
        ensures
            views(r@) == listed(self@.db.devices, *now),
    {
        self.db.get_devices_at(now)
    }

    /// The devices, without those that were merged into others.
    pub fn list_devices(&self) -> (r: Vec<Device>)
        ensures
            exists|now: Timestamp| views(r@) == #[trigger] listed(self@.db.devices, now),
    {
        self.list_devices_at(&clock())
    }

    /// The device with an id, at a time.
    pub fn get_device_at(&self, id: &str, now: &Timestamp) -> (r: Option<Device>)
        ensures
            opt_device(r) == device_with_id(self@.db.devices, id@, *now),
    {
        self.db.get_device_at(id, now)
    }

    /// The device with an id.
    pub fn get_device(&self, id: &str) -> (r: Option<Device>)
        ensures
            exists|now: Timestamp|
                opt_device(r) == #[trigger] device_with_id(self@.db.devices, id@, now),
    {
        self.get_device_at(id, &clock())
    }

    /// Removes a device with its secret; says whether there was one.
    pub fn delete_device(&mut self, id: &str) -> (r: bool)
        ensures
            final(self)@ == (SyncManagerV {
                db: without_device(old(self)@.db, id@),
                ..old(self)@
            }),
            r == has_device(old(self)@.db.devices, id@),
    {
        self.db.delete_device(id)
    }

    /// Removes all devices but the own one, and the requests that wait for an answer.
    pub fn clear_all_devices(&mut self) -> (removed: usize)
        ensures
            final(self)@ == (SyncManagerV {
                db: without_devices(old(self)@.db),
                inbound: Seq::empty(),
                ..old(self)@
            }),
            removed == old(self)@.db.devices.len() - final(self)@.db.devices.len(),
    {
        let removed: usize = self.db.delete_all_devices();
        self.inbound_pair_requests = Vec::new();
        assert(views(self.inbound_pair_requests@) =~= Seq::empty());
        removed
    }

    /// Merges a device into another at a time, and logs it.
    pub fn merge_devices_at(&mut self, from: &str, to: &str, now: &Timestamp) -> (r: Result<(), String>)
        ensures
            unit_outcome(r) == merge_refusal(old(self)@.db.devices, from@, to@),
            final(self)@ == (SyncManagerV {
                db: merged_and_logged(old(self)@.db, from@, to@, *now),
                ..old(self)@
            }),
    {
        proof {
            if merge_refusal(self@.db.devices, from@, to@) is Err {
                crate::storage::identity::law_refused_merger_changes_nothing(
                    self@.db,
                    from@,
                    to@,
                    time_text(*now),
                );
            }
        }
        match self.db.merge_device_at(from, to, now) {
            Ok(_) => {},
            Err(e) => {
                return Err(e);
            },
        }
        let mut message: String = "已把 ".to_string();
        message.append(from);
        message.append(" 归并进 ");
        message.append(to);
        message.append("（装机指纹相同，判定为同一台机器）");
        let entry: SyncLogEntry = http_log(
            SyncDirection::In,
            SyncEventType::Pairing,
            Some(to.to_string()),
            message,
            None,
            None,
            now,
        );
        let _ = self.db.add_log(&entry);
        Ok(())
    }

    /// Merges a device into another, and logs it.
    pub fn merge_devices(&mut self, from: &str, to: &str) -> (r: Result<(), String>)
        ensures
            unit_outcome(r) == merge_refusal(old(self)@.db.devices, from@, to@),
            exists|now: Timestamp|
                final(self)@ == (SyncManagerV {
                    db: #[trigger] merged_and_logged(old(self)@.db, from@, to@, now),
                    ..old(self)@
                }),
    {
        self.merge_devices_at(from, to, &clock())
    }

    /// Removes expired discoveries, and paired devices that were not synchronised for some
    /// days; gives how many of each, at a time in Unix seconds.
    pub fn purge_stale_devices_at(&mut self, days: i64, now: i64) -> (r: (usize, usize))
        ensures
            final(self)@ == (SyncManagerV {
                db: purged(old(self)@.db, days as int, now as int),
                ..old(self)@
            }),
            r.0 == old(self)@.db.devices.len() - without_expired(
                old(self)@.db.devices,
                now as int,
            ).len(),
            r.1 == without_expired(old(self)@.db.devices, now as int).len()
                - final(self)@.db.devices.len(),
    {
        let discovered: usize = self.db.purge_discovered_at(now);
        let paired: usize = self.db.purge_stale_paired_at(days, now);
        (discovered, paired)
    }

    /// Removes expired discoveries, and paired devices that were not synchronised for some
    /// days; gives how many of each.
    pub fn purge_stale_devices(&mut self, days: i64) -> (r: (usize, usize))
        ensures
            exists|now: i64|
                final(self)@ == (SyncManagerV {
                    db: #[trigger] purged(old(self)@.db, days as int, now as int),
                    ..old(self)@
                }) && r.0 == old(self)@.db.devices.len() - without_expired(
                    old(self)@.db.devices,
                    now as int,
                ).len(),
            r.0 + r.1 == old(self)@.db.devices.len() - final(self)@.db.devices.len(),
    {
        let now: Timestamp = clock();
        self.purge_stale_devices_at(days, now.secs)
    }

    /// Registers a device.
    pub fn save_device(&mut self, device: &Device)
        ensures
            final(self)@ == (SyncManagerV {
                db: SyncDbV {
                    devices: with_stored(old(self)@.db.devices, device@),
                    ..old(self)@.db
                },
                ..old(self)@
            }),
            times_read_back(device@),
    {
        self.db.upsert_device(device);
    }

    /// Sets the name that the user gives a device; says whether there is one.
    pub fn update_device_alias(&mut self, id: &str, alias: Option<&str>) -> (r: bool)
        ensures
            final(self)@ == (SyncManagerV {
                db: SyncDbV {
                    devices: with_change(
                        old(self)@.db.devices,
                        id@,
                        DeviceChangeV::Alias(opt_str(alias)),
                    ),
                    ..old(self)@.db
                },
                ..old(self)@
            }),
            r == has_device(old(self)@.db.devices, id@),
    {
        self.db.update_alias(id, alias)
    }

    // ---- the log ----

    /// The entries that a filter asks for, at a time.
    pub fn list_logs_at(&self, f: &LogFilter, now: &Timestamp) -> (r: Vec<SyncLogEntry>)
        ensures
            views(r@) == log_page(self@.db.logs, *f, *now),
    {
        self.db.get_logs_at(f, now)
    }

    /// The entries that a filter asks for.
    pub fn list_logs(&self, f: &LogFilter) -> (r: Vec<SyncLogEntry>)
        ensures
            exists|now: Timestamp| views(r@) == #[trigger] log_page(self@.db.logs, *f, now),
    {
        self.list_logs_at(f, &clock())
    }

    /// The number of entries.
    pub fn log_count(&self) -> (n: u64)
        ensures
            n == self@.db.logs.len(),
    {
        self.db.log_count()
    }

    /// Adds an entry.
    pub fn add_log(&mut self, e: &SyncLogEntry) -> (r: Result<i64, String>)
        ensures
            id_outcome(r) == next_log_id(old(self)@.db),
            final(self)@ == (SyncManagerV { db: with_log(old(self)@.db, e@), ..old(self)@ }),
    {
        self.db.add_log(e)
    }

    /// Removes all but the newest entries.
    pub fn truncate_logs(&mut self, keep: u64)
        ensures
            final(self)@ == (SyncManagerV {
                db: SyncDbV { logs: newest(old(self)@.db.logs, keep), ..old(self)@.db },
                ..old(self)@
            }),
    {
        self.db.truncate_logs(keep);
    }

    // ---- statistics, conflicts, the recycle bin ----

    /// The statistics on a device, at a time.
    pub fn get_device_sync_stats_at(&self, device_id: &str, now: &Timestamp) -> (r: Result<
        DeviceSyncStats,
        String,
    >)
        ensures
            stats_outcome(r) == stats_of(self@.db, device_id@, *now),
    {
        self.db.get_device_sync_stats_at(device_id, now)
    }

    /// The statistics on a device.
    pub fn get_device_sync_stats(&self, device_id: &str) -> (r: Result<DeviceSyncStats, String>)
        ensures
            exists|now: Timestamp|
                stats_outcome(r) == #[trigger] stats_of(self@.db, device_id@, now),
    {
        self.get_device_sync_stats_at(device_id, &clock())
    }

    /// The conflicts with a device, the newest first.
    pub fn get_device_conflicts(&self, device_id: &str) -> (r: Vec<ConflictSummary>)
        ensures
            views(r@) == conflicts_with(self@.db.conflicts, device_id@),
    {
        self.db.get_device_conflicts(device_id)
    }

    /// The entries of the recycle bin, the newest first; of one kind where one is given.
    pub fn list_trash(&self, kind: Option<&str>) -> (r: Vec<TrashEntry>)
        ensures
            views(r@) == trash_list(self@.db.trash, opt_str(kind)),
    {
        self.db.list_trash(kind)
    }

    /// Removes an entry of the recycle bin for good; says whether there was one.
    pub fn delete_trash(&mut self, id: i64) -> (r: bool)
        ensures
            final(self)@ == (SyncManagerV {
                db: SyncDbV {
                    trash: old(self)@.db.trash.filter(other_entry(id)),
                    ..old(self)@.db
                },
                ..old(self)@
            }),
            r == has_trash(old(self)@.db.trash, id),
    {
        self.db.delete_trash(id)
    }

    /// Removes all entries of the recycle bin for good; gives how many there were.
    pub fn clear_trash(&mut self) -> (removed: usize)
        ensures
            final(self)@ == (SyncManagerV {
                db: SyncDbV { trash: Seq::empty(), ..old(self)@.db },
                ..old(self)@
            }),
            removed == old(self)@.db.trash.len(),
    {
        let removed: usize = self.db.trash.len();
        self.db.trash = Vec::new();
        assert(views(self.db.trash@) =~= Seq::empty());
        removed
    }

    /// The number of entries of the recycle bin that were not restored.
    pub fn trash_count(&self) -> (n: u64)
        ensures
            n == self@.db.trash.filter(unrestored()).len(),
    {
        self.db.count_trash()
    }

    // ---- discovery ----

    /// Starts discovery with the program: the threads in any case, sending where the settings
    /// have it on.
    pub fn spawn_discovery(&mut self, forbidden: bool) -> (r: Option<ThreadPlan>)
        ensures
            r == thread_plan(old(self)@, forbidden),
            final(self)@ == discovery_on(
                old(self)@,
                forbidden,
                config_of(old(self)@.db.config).enabled,
            ),
    {
        let cfg: SyncConfig = self.get_config();
        switches::spawn_discovery(
            &mut self.discovery,
            forbidden,
            cfg.discovery_method.as_str(),
            cfg.udp_port,
            cfg.enabled,
        )
    }

    /// Switches discovery on for someone who looks at it.
    pub fn start_discovery(&mut self, forbidden: bool) -> (r: Option<ThreadPlan>)
        ensures
            r == thread_plan(old(self)@, forbidden),
            final(self)@ == discovery_on(old(self)@, forbidden, true),
    {
        let cfg: SyncConfig = self.get_config();
        switches::start_discovery(
            &mut self.discovery,
            forbidden,
            cfg.discovery_method.as_str(),
            cfg.udp_port,
        )
    }

    /// Switches discovery off where it does not stay on.
    pub fn stop_discovery(&mut self, kind: crate::models::DeviceKind)
        ensures
            final(self)@ == (SyncManagerV {
                discovery: if kind == crate::models::DeviceKind::Android {
                    DiscoverySwitch { active: false, ..old(self)@.discovery }
                } else {
                    old(self)@.discovery
                },
                ..old(self)@
            }),
    {
        switches::stop_discovery(&mut self.discovery, kind);
    }

    /// Opens the background window for some seconds, one at least and thirty at most, at a
    /// time in Unix milliseconds.
    pub fn start_discovery_burst(&mut self, secs: u64, forbidden: bool, now_ms: u64) -> (r: Option<
        ThreadPlan,
    >)
        requires
            now_ms <= u64::MAX - 30_000,
        ensures
            r == thread_plan(old(self)@, forbidden),
            final(self)@ == (SyncManagerV {
                discovery: DiscoverySwitch {
                    burst_until_ms: (now_ms + switches::burst_secs(secs) * 1000) as u64,
                    threads_started: old(self)@.discovery.threads_started || !forbidden,
                    ..old(self)@.discovery
                },
                ..old(self)@
            }),
    {
        let cfg: SyncConfig = self.get_config();
        let plan: Option<ThreadPlan> = switches::ensure_discovery_threads(
            &mut self.discovery,
            forbidden,
            cfg.discovery_method.as_str(),
            cfg.udp_port,
        );
        let _ = switches::start_discovery_burst(&mut self.discovery, secs, now_ms);
        plan
    }

    /// Closes the background window.
    pub fn stop_discovery_burst(&mut self)
        ensures
            final(self)@ == (SyncManagerV {
                discovery: DiscoverySwitch { burst_until_ms: 0, ..old(self)@.discovery },
                ..old(self)@
            }),
    {
        switches::stop_discovery_burst(&mut self.discovery);
    }
}

/// The state after expired discoveries and stale devices are removed.
pub open spec fn purged(db: SyncDbV, days: int, now: int) -> SyncDbV {
    without_stale(
        SyncDbV { devices: without_expired(db.devices, now), ..db },
        stale_cutoff(now, days),
    )
}

/// The state after the threads of discovery are asked for, and it is switched on where that is
/// wanted.
pub open spec fn discovery_on(m: SyncManagerV, forbidden: bool, wanted: bool) -> SyncManagerV {
    SyncManagerV {
        discovery: DiscoverySwitch {
            active: m.discovery.active || wanted,
            threads_started: m.discovery.threads_started || !forbidden,
            ..m.discovery
        },
        ..m
    }
}

/// The threads of discovery that are still to be started.
pub open spec fn thread_plan(m: SyncManagerV, forbidden: bool) -> Option<ThreadPlan> {
    let cfg = config_of(m.db.config);
    if forbidden || m.discovery.threads_started {
        None
    } else {
        Some(
            ThreadPlan {
                udp_port: if cfg.udp_port == 0 {
                    DEFAULT_UDP_PORT
                } else {
                    cfg.udp_port
                },
                mdns: cfg.discovery_method != "udp_only"@,
            },
        )
    }
}

// ---- laws ----

/// A merger that is made is logged as a pairing that came in, about the device that took over; a
/// merger that is refused leaves everything as it is.
pub proof fn law_merger_is_logged(db: SyncDbV, from: Seq<char>, to: Seq<char>, now: Timestamp)
    ensures
        merge_refusal(db.devices, from, to) is Err ==> merged_and_logged(db, from, to, now) == db,
        merge_refusal(db.devices, from, to) is Ok ==> {
            let after = merged_and_logged(db, from, to, now);
            let e = after.logs.last();
            &&& after.devices == merged(db, from, to, time_text(now)).devices
            &&& after.secrets == merged(db, from, to, time_text(now)).secrets
            &&& after.aliases == merged(db, from, to, time_text(now)).aliases
            &&& db.last_log_id < i64::MAX ==> {
                &&& after.logs.len() > 0
                &&& e.timestamp == time_text(now)
                &&& e.direction == "in"@
                &&& e.protocol == "http"@
                &&& e.event_type == "pairing"@
                &&& e.status == "success"@
                &&& e.peer_id == Some(to)
                &&& e.message == Some(
                    "已把 "@ + from + " 归并进 "@ + to
                        + "（装机指纹相同，判定为同一台机器）"@,
                )
            }
        },
{
}

/// The threads of discovery are started once and only where that is not forbidden: on the port of
/// the settings, and with multicast DNS unless the settings ask for broadcasts alone.
pub proof fn law_threads_follow_settings(m: SyncManagerV, forbidden: bool)
    ensures
        thread_plan(m, forbidden) is Some <==> !forbidden && !m.discovery.threads_started,
        thread_plan(m, forbidden) matches Some(plan) ==> {
            &&& plan.udp_port != 0
            &&& config_of(m.db.config).udp_port != 0 ==> plan.udp_port == config_of(
                m.db.config,
            ).udp_port
            &&& plan.mdns <==> config_of(m.db.config).discovery_method != "udp_only"@
        },
{
}

/// A purge removes what expired and what is stale: whatever it keeps was there before.
pub proof fn law_purge_adds_nothing(db: SyncDbV, days: int, now: int, r: crate::storage::DeviceRowV)
    ensures
        purged(db, days, now).devices.contains(r) ==> db.devices.contains(r),
        r.is_self && db.devices.contains(r) && crate::storage::identity::distinct_ids(
            without_expired(db.devices, now),
        ) ==> purged(db, days, now).devices.contains(r),
{
    let fresh = without_expired(db.devices, now);
    let rest = SyncDbV { devices: fresh, ..db };
    let cutoff = stale_cutoff(now, days);
    crate::storage::identity::law_expiry_spares_others(db.devices, now);
    if purged(db, days, now).devices.contains(r) {
        let after = purged(db, days, now).devices;
        let k = choose|k: int| 0 <= k < after.len() && after[k] == r;
        let ids = crate::storage::devices::row_ids(
            fresh.filter(crate::storage::devices::stale_before(cutoff)),
        );
        crate::storage::order::lemma_filter_member(
            fresh,
            crate::storage::devices::not_among(ids),
            k,
        );
        let j = choose|j: int| 0 <= j < fresh.len() && fresh[j] == r;
        assert(db.devices.contains(fresh[j]));
    }
    if r.is_self && db.devices.contains(r) && crate::storage::identity::distinct_ids(fresh) {
        let i = choose|i: int| 0 <= i < db.devices.len() && db.devices[i] == r;
        assert(fresh.contains(db.devices[i]));
        let j = choose|j: int| 0 <= j < fresh.len() && fresh[j] == r;
        crate::storage::identity::law_stale_removal_spares_others(rest, cutoff, j);
    }
}

/// A purge removes a discovery that is too old, whatever number of days is given.
pub proof fn law_purge_removes_old_discoveries(db: SyncDbV, days: int, now: int, i: int)
    requires
        0 <= i < db.devices.len(),
        !db.devices[i].paired,
        !db.devices[i].is_self,
        db.devices[i].seen_via is Some,
        db.devices[i].last_seen_epoch matches Some(t) && t < now
            - crate::storage::DISCOVERED_MAX_AGE_DAYS * 86400,
    ensures
        !purged(db, days, now).devices.contains(db.devices[i]),
{
    let r = db.devices[i];
    crate::storage::identity::law_old_discovery_is_removed(db.devices, now, i);
    let fresh = without_expired(db.devices, now);
    let after = purged(db, days, now).devices;
    if after.contains(r) {
        let k = choose|k: int| 0 <= k < after.len() && after[k] == r;
        let ids = crate::storage::devices::row_ids(
            fresh.filter(crate::storage::devices::stale_before(stale_cutoff(now, days))),
        );
        crate::storage::order::lemma_filter_member(
            fresh,
            crate::storage::devices::not_among(ids),
            k,
        );
    }
}

/// A manager listens on the port of the server, whatever was stored, and keeps every other
/// setting and all other data; at first nothing waits, nothing was seen and discovery is off.
pub proof fn law_manager_listens_on_its_port(db: SyncDbV, self_id: Seq<char>)
    ensures
        ({
            let m = manager_over(db, self_id);
            let c = config_of(m.db.config);
            let d = config_of(db.config);
            &&& m.self_id == self_id
            &&& c.listen_port == 5600
            &&& c == (SyncConfigV { listen_port: 5600, ..d })
            &&& m.db.devices == db.devices
            &&& m.db.secrets == db.secrets
            &&& m.db.logs == db.logs
            &&& m.db.trash == db.trash
            &&& m.inbound.len() == 0
            &&& m.seen.dom().len() == 0
            &&& m.revision.value == 0
            &&& !m.discovery.active && !m.discovery.threads_started
            &&& m.discovery.burst_until_ms == 0
        }),
{
    let d = config_of(db.config);
    crate::storage::config::law_config_reads_back(
        db.config,
        SyncConfigV { listen_port: DEFAULT_SYNC_PORT, ..d },
    );
}

/// Discovery is on where it was or is wanted; asking for its threads never closes a window, and
/// threads that run stay running.
pub proof fn law_discovery_is_switched_on(m: SyncManagerV, forbidden: bool, wanted: bool)
    ensures
        discovery_on(m, forbidden, wanted).discovery.active <==> m.discovery.active || wanted,
        discovery_on(m, forbidden, wanted).discovery.burst_until_ms == m.discovery.burst_until_ms,
        m.discovery.threads_started ==> discovery_on(
            m,
            forbidden,
            wanted,
        ).discovery.threads_started,
        forbidden && !m.discovery.threads_started ==> !discovery_on(
            m,
            forbidden,
            wanted,
        ).discovery.threads_started,
        !forbidden ==> thread_plan(discovery_on(m, forbidden, wanted), forbidden) is None,
        discovery_on(m, forbidden, wanted).db == m.db,
{
}

} // verus!
