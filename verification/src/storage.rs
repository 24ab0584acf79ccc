//! The synchronisation state: devices, secrets, pairing codes, the log, the settings,
//! conflicts and the recycle bin.
//!
//! Each table is a list of rows in the order in which they were added. Times are kept as
//! RFC 3339 texts, which sort like the times that they stand for.

use vstd::prelude::*;

use crate::models::{views, TrashEntry, TrashEntryV, DeviceKind, SyncDirection, SyncEventType, SyncProtocol, SyncStatus, Timestamp};
use crate::outside::{rfc3339_parse, rfc3339_time};
use crate::text::{opt_text, same};

pub mod bin;
pub mod codes;
pub mod config;
pub mod devices;
pub mod identity;
pub mod logs;
pub mod order;
pub mod secrets;
pub mod stats;

verus! {

/// How long a device that was just seen may not be marked as offline, in seconds.
pub const ONLINE_GRACE_SECS: i64 = 30;

/// How many days a device that was only discovered is kept after it was last seen.
pub const DISCOVERED_MAX_AGE_DAYS: i64 = 7;

/// How many devices that were only discovered are kept.
pub const DISCOVERED_KEEP: usize = 50;

/// How many log entries are kept when the log is cut.
pub const LOG_KEEP: u64 = 500;

// ---- rows ----

/// A row of the device table.
#[derive(Debug)]
pub struct DeviceRow {
    pub id: String,
    pub name: String,
    pub device_kind: String,
    pub ip: String,
    pub port: u16,
    pub paired_at: String,
    pub last_sync_at: Option<String>,
    pub last_seen_at: Option<String>,
    /// `last_seen_at` in Unix seconds.
    pub last_seen_epoch: Option<i64>,
    pub is_online: bool,
    pub is_self: bool,
    pub paired: bool,
    pub alias: Option<String>,
    /// Which way of discovery reported the device last.
    pub seen_via: Option<String>,
    /// When that was.
    pub seen_via_at: Option<String>,
    pub machine_uid: Option<String>,
    /// The row into which this one was merged.
    pub superseded_by: Option<String>,
}

/// The contents of a [`DeviceRow`].
#[verifier::ext_equal]
pub struct DeviceRowV {
    pub id: Seq<char>,
    pub name: Seq<char>,
    pub device_kind: Seq<char>,
    pub ip: Seq<char>,
    pub port: u16,
    pub paired_at: Seq<char>,
    pub last_sync_at: Option<Seq<char>>,
    pub last_seen_at: Option<Seq<char>>,
    pub last_seen_epoch: Option<i64>,
    pub is_online: bool,
    pub is_self: bool,
    pub paired: bool,
    pub alias: Option<Seq<char>>,
    pub seen_via: Option<Seq<char>>,
    pub seen_via_at: Option<Seq<char>>,
    pub machine_uid: Option<Seq<char>>,
    pub superseded_by: Option<Seq<char>>,
}

impl View for DeviceRow {
    type V = DeviceRowV;

    open spec fn view(&self) -> DeviceRowV {
        DeviceRowV {
            id: self.id@,
            name: self.name@,
            device_kind: self.device_kind@,
            ip: self.ip@,
            port: self.port,
            paired_at: self.paired_at@,
            last_sync_at: opt_text(self.last_sync_at),
            last_seen_at: opt_text(self.last_seen_at),
            last_seen_epoch: self.last_seen_epoch,
            is_online: self.is_online,
            is_self: self.is_self,
            paired: self.paired,
            alias: opt_text(self.alias),
            seen_via: opt_text(self.seen_via),
            seen_via_at: opt_text(self.seen_via_at),
            machine_uid: opt_text(self.machine_uid),
            superseded_by: opt_text(self.superseded_by),
        }
    }
}

impl Clone for DeviceRow {
    fn clone(&self) -> (r: DeviceRow)
        ensures
            r@ == self@,
    {
        DeviceRow {
            id: self.id.clone(),
            name: self.name.clone(),
            device_kind: self.device_kind.clone(),
            ip: self.ip.clone(),
            port: self.port,
            paired_at: self.paired_at.clone(),
            last_sync_at: self.last_sync_at.clone(),
            last_seen_at: self.last_seen_at.clone(),
            last_seen_epoch: self.last_seen_epoch,
            is_online: self.is_online,
            is_self: self.is_self,
            paired: self.paired,
            alias: self.alias.clone(),
            seen_via: self.seen_via.clone(),
            seen_via_at: self.seen_via_at.clone(),
            machine_uid: self.machine_uid.clone(),
            superseded_by: self.superseded_by.clone(),
        }
    }
}

/// A row of the table of shared secrets.
#[derive(Debug)]
pub struct SecretRow {
    pub device_id: String,
    pub secret: String,
    pub updated_at: String,
}

/// The contents of a [`SecretRow`].
#[verifier::ext_equal]
pub struct SecretRowV {
    pub device_id: Seq<char>,
    pub secret: Seq<char>,
    pub updated_at: Seq<char>,
}

impl View for SecretRow {
    type V = SecretRowV;

    open spec fn view(&self) -> SecretRowV {
        SecretRowV {
            device_id: self.device_id@,
            secret: self.secret@,
            updated_at: self.updated_at@,
        }
    }
}

/// A row of the table from merged device ids to the ids that took over.
#[derive(Debug)]
pub struct AliasRow {
    pub old_id: String,
    pub new_id: String,
    pub merged_at: String,
}

/// The contents of a [`AliasRow`].
#[verifier::ext_equal]
pub struct AliasRowV {
    pub old_id: Seq<char>,
    pub new_id: Seq<char>,
    pub merged_at: Seq<char>,
}

impl View for AliasRow {
    type V = AliasRowV;

    open spec fn view(&self) -> AliasRowV {
        AliasRowV {
            old_id: self.old_id@,
            new_id: self.new_id@,
            merged_at: self.merged_at@,
        }
    }
}

/// A row of the table of pairing codes.
#[derive(Debug)]
pub struct CodeRow {
    pub code: String,
    pub created_at: String,
    pub expires_at: String,
}

/// The contents of a [`CodeRow`].
#[verifier::ext_equal]
pub struct CodeRowV {
    pub code: Seq<char>,
    pub created_at: Seq<char>,
    pub expires_at: Seq<char>,
}

impl View for CodeRow {
    type V = CodeRowV;

    open spec fn view(&self) -> CodeRowV {
        CodeRowV {
            code: self.code@,
            created_at: self.created_at@,
            expires_at: self.expires_at@,
        }
    }
}

/// A row of the log table.
#[derive(Debug)]
pub struct LogRow {
    pub id: i64,
    pub timestamp: String,
    pub direction: String,
    pub protocol: String,
    pub peer_id: Option<String>,
    pub event_type: String,
    pub status: String,
    pub message: Option<String>,
    pub data_size: Option<i64>,
    pub details: Option<String>,
}

/// The contents of a [`LogRow`].
#[verifier::ext_equal]
pub struct LogRowV {
    pub id: i64,
    pub timestamp: Seq<char>,
    pub direction: Seq<char>,
    pub protocol: Seq<char>,
    pub peer_id: Option<Seq<char>>,
    pub event_type: Seq<char>,
    pub status: Seq<char>,
    pub message: Option<Seq<char>>,
    pub data_size: Option<i64>,
    pub details: Option<Seq<char>>,
}

impl View for LogRow {
    type V = LogRowV;

    open spec fn view(&self) -> LogRowV {
        LogRowV {
            id: self.id,
            timestamp: self.timestamp@,
            direction: self.direction@,
            protocol: self.protocol@,
            peer_id: opt_text(self.peer_id),
            event_type: self.event_type@,
            status: self.status@,
            message: opt_text(self.message),
            data_size: self.data_size,
            details: opt_text(self.details),
        }
    }
}

/// A row of the settings table.
#[derive(Debug)]
pub struct ConfigRow {
    pub key: String,
    pub value: String,
}

/// The contents of a [`ConfigRow`].
#[verifier::ext_equal]
pub struct ConfigRowV {
    pub key: Seq<char>,
    pub value: Seq<char>,
}

impl View for ConfigRow {
    type V = ConfigRowV;

    open spec fn view(&self) -> ConfigRowV {
        ConfigRowV {
            key: self.key@,
            value: self.value@,
        }
    }
}

/// A row of the conflict table.
#[derive(Debug)]
pub struct ConflictRow {
    pub id: i64,
    pub device_id: String,
    pub kind: String,
    pub logical_key: String,
    pub local_rev: Option<String>,
    pub remote_rev: Option<String>,
    pub resolution: String,
    pub archived_id: Option<i64>,
    pub created_at: String,
}

/// The contents of a [`ConflictRow`].
#[verifier::ext_equal]
pub struct ConflictRowV {
    pub id: i64,
    pub device_id: Seq<char>,
    pub kind: Seq<char>,
    pub logical_key: Seq<char>,
    pub local_rev: Option<Seq<char>>,
    pub remote_rev: Option<Seq<char>>,
    pub resolution: Seq<char>,
    pub archived_id: Option<i64>,
    pub created_at: Seq<char>,
}

impl View for ConflictRow {
    type V = ConflictRowV;

    open spec fn view(&self) -> ConflictRowV {
        ConflictRowV {
            id: self.id,
            device_id: self.device_id@,
            kind: self.kind@,
            logical_key: self.logical_key@,
            local_rev: opt_text(self.local_rev),
            remote_rev: opt_text(self.remote_rev),
            resolution: self.resolution@,
            archived_id: self.archived_id,
            created_at: self.created_at@,
        }
    }
}

// ---- the database ----

/// All tables.
#[derive(Debug)]
pub struct SyncDb {
    pub devices: Vec<DeviceRow>,
    pub secrets: Vec<SecretRow>,
    pub aliases: Vec<AliasRow>,
    pub codes: Vec<CodeRow>,
    /// In the order of their ids.
    pub logs: Vec<LogRow>,
    /// The highest log id ever given.
    pub last_log_id: i64,
    pub config: Vec<ConfigRow>,
    pub conflicts: Vec<ConflictRow>,
    /// The highest conflict id ever given.
    pub last_conflict_id: i64,
    pub trash: Vec<TrashEntry>,
    /// The highest id ever given in the recycle bin.
    pub last_trash_id: i64,
    /// How many notes there are, where they are kept beside these tables.
    pub inbox_notes: Option<u32>,
}

/// The contents of a [`SyncDb`].
#[verifier::ext_equal]
pub struct SyncDbV {
    pub devices: Seq<DeviceRowV>,
    pub secrets: Seq<SecretRowV>,
    pub aliases: Seq<AliasRowV>,
    pub codes: Seq<CodeRowV>,
    pub logs: Seq<LogRowV>,
    pub last_log_id: i64,
    pub config: Seq<ConfigRowV>,
    pub conflicts: Seq<ConflictRowV>,
    pub last_conflict_id: i64,
    pub trash: Seq<TrashEntryV>,
    pub last_trash_id: i64,
    pub inbox_notes: Option<u32>,
}

impl View for SyncDb {
    type V = SyncDbV;

    open spec fn view(&self) -> SyncDbV {
        SyncDbV {
            devices: views(self.devices@),
            secrets: views(self.secrets@),
            aliases: views(self.aliases@),
            codes: views(self.codes@),
            logs: views(self.logs@),
            last_log_id: self.last_log_id,
            config: views(self.config@),
            conflicts: views(self.conflicts@),
            last_conflict_id: self.last_conflict_id,
            trash: views(self.trash@),
            last_trash_id: self.last_trash_id,
            inbox_notes: self.inbox_notes,
        }
    }
}

/// The state of a fresh installation.
pub open spec fn empty_db() -> SyncDbV {
    SyncDbV {
        devices: Seq::empty(),
        secrets: Seq::empty(),
        aliases: Seq::empty(),
        codes: Seq::empty(),
        logs: Seq::empty(),
        last_log_id: 0,
        config: Seq::empty(),
        conflicts: Seq::empty(),
        last_conflict_id: 0,
        trash: Seq::empty(),
        last_trash_id: 0,
        inbox_notes: None,
    }
}

impl SyncDb {
    /// Empty tables.
    pub fn new() -> (r: SyncDb)
        ensures
            r@ == empty_db(),
    {
        let r: SyncDb = SyncDb {
            devices: Vec::new(),
            secrets: Vec::new(),
            aliases: Vec::new(),
            codes: Vec::new(),
            logs: Vec::new(),
            last_log_id: 0,
            config: Vec::new(),
            conflicts: Vec::new(),
            last_conflict_id: 0,
            trash: Vec::new(),
            last_trash_id: 0,
            inbox_notes: None,
        };
        assert(r@ =~= empty_db());
        r
    }
}

/// An error of the database: no further id can be given.
pub open spec fn full_error() -> Seq<char> {
    "database or disk is full"@
}

// ---- reading stored names ----

/// The kind of device with a stored name.
pub open spec fn kind_named(s: Seq<char>) -> DeviceKind {
    if s == "windows"@ {
        DeviceKind::Windows
    } else if s == "android"@ {
        DeviceKind::Android
    } else if s == "ios"@ {
        DeviceKind::Ios
    } else if s == "linux"@ {
        DeviceKind::Linux
    } else if s == "macos"@ {
        DeviceKind::Macos
    } else {
        DeviceKind::Unknown
    }
}

/// The kind of device with a stored name.
pub fn parse_device_kind(s: &str) -> (r: DeviceKind)
    ensures
        r == kind_named(s@),
{
    if same(s, "windows") {
        DeviceKind::Windows
    } else if same(s, "android") {
        DeviceKind::Android
    } else if same(s, "ios") {
        DeviceKind::Ios
    } else if same(s, "linux") {
        DeviceKind::Linux
    } else if same(s, "macos") {
        DeviceKind::Macos
    } else {
        DeviceKind::Unknown
    }
}

/// The direction with a stored name.
pub open spec fn direction_named(s: Seq<char>) -> SyncDirection {
    if s == "out"@ {
        SyncDirection::Out
    } else {
        SyncDirection::In
    }
}

/// The direction with a stored name.
pub fn parse_direction(s: &str) -> (r: SyncDirection)
    ensures
        r == direction_named(s@),
{
    if same(s, "out") {
        SyncDirection::Out
    } else {
        SyncDirection::In
    }
}

/// The protocol with a stored name.
pub open spec fn protocol_named(s: Seq<char>) -> SyncProtocol {
    if s == "udp_broadcast"@ {
        SyncProtocol::UdpBroadcast
    } else if s == "mdns"@ {
        SyncProtocol::Mdns
    } else {
        SyncProtocol::Http
    }
}

/// The protocol with a stored name.
pub fn parse_protocol(s: &str) -> (r: SyncProtocol)
    ensures
        r == protocol_named(s@),
{
    if same(s, "udp_broadcast") {
        SyncProtocol::UdpBroadcast
    } else if same(s, "mdns") {
        SyncProtocol::Mdns
    } else {
        SyncProtocol::Http
    }
}

/// The event type with a stored name.
pub open spec fn event_type_named(s: Seq<char>) -> SyncEventType {
    if s == "discovery"@ {
        SyncEventType::Discovery
    } else if s == "sync"@ {
        SyncEventType::Sync
    } else if s == "conflict"@ {
        SyncEventType::Conflict
    } else {
        SyncEventType::Pairing
    }
}

/// The event type with a stored name.
pub fn parse_event_type(s: &str) -> (r: SyncEventType)
    ensures
        r == event_type_named(s@),
{
    if same(s, "discovery") {
        SyncEventType::Discovery
    } else if same(s, "sync") {
        SyncEventType::Sync
    } else if same(s, "conflict") {
        SyncEventType::Conflict
    } else {
        SyncEventType::Pairing
    }
}

/// The status with a stored name.
pub open spec fn status_named(s: Seq<char>) -> SyncStatus {
    if s == "failed"@ {
        SyncStatus::Failed
    } else if s == "running"@ {
        SyncStatus::Running
    } else {
        SyncStatus::Success
    }
}

/// The status with a stored name.
pub fn parse_status(s: &str) -> (r: SyncStatus)
    ensures
        r == status_named(s@),
{
    if same(s, "failed") {
        SyncStatus::Failed
    } else if same(s, "running") {
        SyncStatus::Running
    } else {
        SyncStatus::Success
    }
}

/// The time that a stored text gives; `now` where it gives none.
pub open spec fn stored_time(s: Seq<char>, now: Timestamp) -> Timestamp {
    match rfc3339_time(s) {
        Some(t) => Timestamp { secs: t.0, nanos: t.1 },
        None => now,
    }
}

/// Reads a stored time; `now` stands in for what cannot be read.
pub fn parse_dt(s: &str, now: &Timestamp) -> (r: Timestamp)
    ensures
        r == stored_time(s@, *now),
{
    match rfc3339_parse(s) {
        Some(t) => t,
        None => *now,
    }
}

/// The time that a stored optional text gives.
pub open spec fn stored_opt_time(s: Option<Seq<char>>, now: Timestamp) -> Option<Timestamp> {
    match s {
        Some(t) => Some(stored_time(t, now)),
        None => None,
    }
}

/// Reads a stored optional time.
pub fn parse_opt_dt(s: &Option<String>, now: &Timestamp) -> (r: Option<Timestamp>)
    ensures
        r == stored_opt_time(opt_text(*s), *now),
{
    match s {
        Some(t) => Some(parse_dt(t.as_str(), now)),
        None => None,
    }
}

// ---- laws ----

/// Every kind of device reads back from the name under which it is stored.
pub proof fn law_kind_reads_back(k: DeviceKind)
    ensures
        kind_named(k.text()) == k,
{
    lemma_kind_names();
}

proof fn lemma_kind_names()
    ensures
        "windows"@.len() == 7,
        "android"@.len() == 7,
        "unknown"@.len() == 7,
        "linux"@.len() == 5,
        "macos"@.len() == 5,
        "ios"@.len() == 3,
        "windows"@[0] == 'w',
        "android"@[0] == 'a',
        "unknown"@[0] == 'u',
        "linux"@[0] == 'l',
        "macos"@[0] == 'm',
{
    reveal_strlit("windows");
    reveal_strlit("android");
    reveal_strlit("ios");
    reveal_strlit("linux");
    reveal_strlit("macos");
    reveal_strlit("unknown");
}

/// Every direction, event type and status, and every protocol but that of the cloud store,
/// reads back from the name under which it is stored.
pub proof fn law_names_read_back(
    d: SyncDirection,
    p: SyncProtocol,
    e: SyncEventType,
    s: SyncStatus,
)
    requires
        p != SyncProtocol::D1,
    ensures
        direction_named(d.text()) == d,
        protocol_named(p.text()) == p,
        event_type_named(e.text()) == e,
        status_named(s.text()) == s,
{
    reveal_strlit("in");
    reveal_strlit("out");
    reveal_strlit("http");
    reveal_strlit("mdns");
    reveal_strlit("udp_broadcast");
    reveal_strlit("discovery");
    reveal_strlit("pairing");
    reveal_strlit("sync");
    reveal_strlit("conflict");
    reveal_strlit("success");
    reveal_strlit("failed");
    reveal_strlit("running");
    assert("in"@.len() == 2 && "out"@.len() == 3);
    assert("http"@[0] == 'h' && "mdns"@[0] == 'm' && "udp_broadcast"@[0] == 'u');
    assert("discovery"@[0] == 'd' && "pairing"@[0] == 'p' && "sync"@[0] == 's' && "conflict"@[0]
        == 'c');
    assert("success"@[0] == 's' && "failed"@[0] == 'f' && "running"@[0] == 'r');
}

/// Each word is stored under its own name.
pub proof fn law_words_have_names(
    k: DeviceKind,
    d: SyncDirection,
    p: SyncProtocol,
    e: SyncEventType,
    s: SyncStatus,
)
    ensures
        k.text() == (match k {
            DeviceKind::Windows => "windows"@,
            DeviceKind::Android => "android"@,
            DeviceKind::Ios => "ios"@,
            DeviceKind::Linux => "linux"@,
            DeviceKind::Macos => "macos"@,
            DeviceKind::Unknown => "unknown"@,
        }),
        d == SyncDirection::In ==> d.text() == "in"@,
        d == SyncDirection::Out ==> d.text() == "out"@,
        p.text() == (match p {
            SyncProtocol::Http => "http"@,
            SyncProtocol::UdpBroadcast => "udp_broadcast"@,
            SyncProtocol::Mdns => "mdns"@,
            SyncProtocol::D1 => "d1"@,
        }),
        e.text() == (match e {
            SyncEventType::Discovery => "discovery"@,
            SyncEventType::Pairing => "pairing"@,
            SyncEventType::Sync => "sync"@,
            SyncEventType::Conflict => "conflict"@,
        }),
        s.text() == (match s {
            SyncStatus::Success => "success"@,
            SyncStatus::Failed => "failed"@,
            SyncStatus::Running => "running"@,
        }),
{
}

/// A stored text is read as a word exactly where it is the name of that word; any other text is
/// read as an unknown kind, as coming in, as HTTP, as a pairing and as a success.
pub proof fn law_unknown_names(
    x: Seq<char>,
    k: DeviceKind,
    d: SyncDirection,
    p: SyncProtocol,
    e: SyncEventType,
    s: SyncStatus,
)
    ensures
        k != DeviceKind::Unknown ==> (kind_named(x) == k <==> x == k.text()),
        d != SyncDirection::In ==> (direction_named(x) == d <==> x == d.text()),
        p == SyncProtocol::UdpBroadcast || p == SyncProtocol::Mdns ==> (protocol_named(x) == p
            <==> x == p.text()),
        protocol_named(x) != SyncProtocol::D1,
        e != SyncEventType::Pairing ==> (event_type_named(x) == e <==> x == e.text()),
        s != SyncStatus::Success ==> (status_named(x) == s <==> x == s.text()),
{
    law_kind_reads_back(k);
    let q = if p == SyncProtocol::D1 {
        SyncProtocol::Http
    } else {
        p
    };
    law_names_read_back(d, q, e, s);
}

} // verus!
