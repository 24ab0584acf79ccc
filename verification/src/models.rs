//! The records that devices exchange and keep.

use vstd::prelude::*;
use vstd::string::*;

use crate::text::{decimal, opt_text, push_decimal};

verus! {

/// The port that a synchronisation server listens on.
pub const DEFAULT_SYNC_PORT: u16 = 5600;

/// The port that stands in for one that was never configured.
pub const DEFAULT_HTTP_PORT: u16 = 5600;

/// The port of broadcast announcements.
pub const DEFAULT_UDP_PORT: u16 = 46000;

// ---- lists ----

/// The contents of the elements of a list.
pub open spec fn views<T: View>(list: Seq<T>) -> Seq<T::V> {
    Seq::new(list.len(), |i: int| list[i]@)
}

pub proof fn lemma_views_push<T: View>(list: Seq<T>, x: T)
    ensures
        views(list.push(x)) == views(list).push(x@),
{
    assert(views(list.push(x)) =~= views(list).push(x@));
}

/// A copy of a list of texts.
pub fn copy_texts(list: &Vec<String>) -> (r: Vec<String>)
    ensures
        views(r@) == views(list@),
{
    let mut r: Vec<String> = Vec::new();
    let mut i: usize = 0;
    while i < list.len()
        invariant
            i <= list.len(),
            views(r@) == views(list@).take(i as int),
        decreases list.len() - i,
    {
        let x: String = list[i].clone();
        proof {
            lemma_views_push(r@, x);
            assert(views(list@).take(i + 1) =~= views(list@).take(i as int).push(list@[i as int]@));
        }
        r.push(x);
        i = i + 1;
    }
    assert(views(list@).take(i as int) =~= views(list@));
    r
}

// ---- time ----

/// A point in time: seconds since 1970 in UTC, and nanoseconds within the second.
#[derive(Debug, Clone, Copy, PartialEq, Eq, Structural)]
pub struct Timestamp {
    pub secs: i64,
    pub nanos: u32,
}

impl Timestamp {
    /// Nanoseconds since 1970.
    pub open spec fn ns(self) -> int {
        self.secs * 1_000_000_000 + self.nanos
    }

    /// Whether this point in time is no later than another.
    pub fn no_later_than(&self, other: &Timestamp) -> (r: bool)
        ensures
            r == (self.ns() <= other.ns()),
    {
        self.total() <= other.total()
    }

    fn total(&self) -> (n: i128)
        ensures
            n == self.ns(),
    {
        self.secs as i128 * 1_000_000_000 + self.nanos as i128
    }

    /// The whole seconds from `earlier` to this point in time, towards zero.
    pub fn seconds_since(&self, earlier: &Timestamp) -> (n: i128)
        ensures
            n == seconds_between(earlier.ns(), self.ns()),
    {
        let d: i128 = self.total() - earlier.total();
        if d >= 0 {
            d / 1_000_000_000
        } else {
            -((-d) / 1_000_000_000)
        }
    }

    /// The whole minutes from `earlier` to this point in time, towards zero.
    pub fn minutes_since(&self, earlier: &Timestamp) -> (n: i128)
        ensures
            n == whole(seconds_between(earlier.ns(), self.ns()), 60),
            -0x1_0000_0000_0000_0000 < n < 0x1_0000_0000_0000_0000,
    {
        let s: i128 = self.seconds_since(earlier);
        if s >= 0 {
            s / 60
        } else {
            -((-s) / 60)
        }
    }

    /// The whole days from `earlier` to this point in time, towards zero.
    pub fn days_since(&self, earlier: &Timestamp) -> (n: i128)
        ensures
            n == whole(seconds_between(earlier.ns(), self.ns()), 86400),
    {
        let s: i128 = self.seconds_since(earlier);
        if s >= 0 {
            s / 86400
        } else {
            -((-s) / 86400)
        }
    }
}

/// `a / b` rounded towards zero.
pub open spec fn whole(a: int, b: int) -> int {
    if a >= 0 {
        a / b
    } else {
        -((-a) / b)
    }
}

/// The whole seconds between two points in time given in nanoseconds, towards zero.
pub open spec fn seconds_between(from: int, to: int) -> int {
    whole(to - from, 1_000_000_000)
}

// ---- kinds ----

/// What a device runs on.
#[derive(Debug, Clone, Copy, PartialEq, Eq, Structural)]
pub enum DeviceKind {
    Windows,
    Android,
    Ios,
    Linux,
    Macos,
    Unknown,
}

impl DeviceKind {
    /// The name under which it is stored and sent.
    pub open spec fn text(self) -> Seq<char> {
        match self {
            DeviceKind::Windows => "windows"@,
            DeviceKind::Android => "android"@,
            DeviceKind::Ios => "ios"@,
            DeviceKind::Linux => "linux"@,
            DeviceKind::Macos => "macos"@,
            DeviceKind::Unknown => "unknown"@,
        }
    }

    /// The name under which it is stored and sent.
    pub fn as_str(&self) -> (r: &'static str)
        ensures
            r@ == self.text(),
    {
        match self {
            DeviceKind::Windows => "windows",
            DeviceKind::Android => "android",
            DeviceKind::Ios => "ios",
            DeviceKind::Linux => "linux",
            DeviceKind::Macos => "macos",
            DeviceKind::Unknown => "unknown",
        }
    }
}

/// Which way a message went.
#[derive(Debug, Clone, Copy, PartialEq, Eq, Structural)]
pub enum SyncDirection {
    In,
    Out,
}

impl SyncDirection {
    /// The name under which it is stored and sent.
    pub open spec fn text(self) -> Seq<char> {
        match self {
            SyncDirection::In => "in"@,
            SyncDirection::Out => "out"@,
        }
    }

    /// The name under which it is stored and sent.
    pub fn as_str(&self) -> (r: &'static str)
        ensures
            r@ == self.text(),
    {
        match self {
            SyncDirection::In => "in",
            SyncDirection::Out => "out",
        }
    }
}

/// How a message travelled.
#[derive(Debug, Clone, Copy, PartialEq, Eq, Structural)]
pub enum SyncProtocol {
    Http,
    UdpBroadcast,
    Mdns,
    D1,
}

impl SyncProtocol {
    /// The name under which it is stored and sent.
    pub open spec fn text(self) -> Seq<char> {
        match self {
            SyncProtocol::Http => "http"@,
            SyncProtocol::UdpBroadcast => "udp_broadcast"@,
            SyncProtocol::Mdns => "mdns"@,
            SyncProtocol::D1 => "d1"@,
        }
    }

    /// The name under which it is stored and sent.
    pub fn as_str(&self) -> (r: &'static str)
        ensures
            r@ == self.text(),
    {
        match self {
            SyncProtocol::Http => "http",
            SyncProtocol::UdpBroadcast => "udp_broadcast",
            SyncProtocol::Mdns => "mdns",
            SyncProtocol::D1 => "d1",
        }
    }
}

/// What a log entry is about.
#[derive(Debug, Clone, Copy, PartialEq, Eq, Structural)]
pub enum SyncEventType {
    Discovery,
    Pairing,
    Sync,
    Conflict,
}

impl SyncEventType {
    /// The name under which it is stored and sent.
    pub open spec fn text(self) -> Seq<char> {
        match self {
            SyncEventType::Discovery => "discovery"@,
            SyncEventType::Pairing => "pairing"@,
            SyncEventType::Sync => "sync"@,
            SyncEventType::Conflict => "conflict"@,
        }
    }

    /// The name under which it is stored and sent.
    pub fn as_str(&self) -> (r: &'static str)
        ensures
            r@ == self.text(),
    {
        match self {
            SyncEventType::Discovery => "discovery",
            SyncEventType::Pairing => "pairing",
            SyncEventType::Sync => "sync",
            SyncEventType::Conflict => "conflict",
        }
    }
}

/// How an event ended.
#[derive(Debug, Clone, Copy, PartialEq, Eq, Structural)]
pub enum SyncStatus {
    Success,
    Failed,
    Running,
}

impl SyncStatus {
    /// The name under which it is stored and sent.
    pub open spec fn text(self) -> Seq<char> {
        match self {
            SyncStatus::Success => "success"@,
            SyncStatus::Failed => "failed"@,
            SyncStatus::Running => "running"@,
        }
    }

    /// The name under which it is stored and sent.
    pub fn as_str(&self) -> (r: &'static str)
        ensures
            r@ == self.text(),
    {
        match self {
            SyncStatus::Success => "success",
            SyncStatus::Failed => "failed",
            SyncStatus::Running => "running",
        }
    }
}

// ---- devices ----

/// A device as it is listed, announced and paired.
#[derive(Debug)]
pub struct Device {
    pub id: String,
    pub name: String,
    pub device_kind: DeviceKind,
    pub ip: String,
    pub port: u16,
    pub paired_at: Timestamp,
    pub last_sync_at: Option<Timestamp>,
    pub last_seen_at: Option<Timestamp>,
    pub is_online: bool,
    pub is_self: bool,
    pub paired: bool,
    /// The name the user gave it.
    pub alias: Option<String>,
    /// Only set in pairing messages.
    pub device_secret: Option<String>,
    /// Only set in pairing messages.
    pub machine_uid: Option<String>,
}

/// The contents of a [`Device`].
#[verifier::ext_equal]
pub struct DeviceV {
    pub id: Seq<char>,
    pub name: Seq<char>,
    pub device_kind: DeviceKind,
    pub ip: Seq<char>,
    pub port: u16,
    pub paired_at: Timestamp,
    pub last_sync_at: Option<Timestamp>,
    pub last_seen_at: Option<Timestamp>,
    pub is_online: bool,
    pub is_self: bool,
    pub paired: bool,
    pub alias: Option<Seq<char>>,
    pub device_secret: Option<Seq<char>>,
    pub machine_uid: Option<Seq<char>>,
}

impl View for Device {
    type V = DeviceV;

    open spec fn view(&self) -> DeviceV {
        DeviceV {
            id: self.id@,
            name: self.name@,
            device_kind: self.device_kind,
            ip: self.ip@,
            port: self.port,
            paired_at: self.paired_at,
            last_sync_at: self.last_sync_at,
            last_seen_at: self.last_seen_at,
            is_online: self.is_online,
            is_self: self.is_self,
            paired: self.paired,
            alias: opt_text(self.alias),
            device_secret: opt_text(self.device_secret),
            machine_uid: opt_text(self.machine_uid),
        }
    }
}

impl Clone for Device {
    fn clone(&self) -> (r: Device)
        ensures
            r@ == self@,
    {
        Device {
            id: self.id.clone(),
            name: self.name.clone(),
            device_kind: self.device_kind,
            ip: self.ip.clone(),
            port: self.port,
            paired_at: self.paired_at,
            last_sync_at: self.last_sync_at,
            last_seen_at: self.last_seen_at,
            is_online: self.is_online,
            is_self: self.is_self,
            paired: self.paired,
            alias: self.alias.clone(),
            device_secret: self.device_secret.clone(),
            machine_uid: self.machine_uid.clone(),
        }
    }
}

/// The base address of a device's synchronisation interface.
pub open spec fn endpoint_text(ip: Seq<char>, port: u16) -> Seq<char> {
    "http://"@ + ip + ":"@ + decimal(port as int) + "/api/0/sync"@
}

impl Device {
    /// The base address of the synchronisation interface.
    pub fn endpoint(&self) -> (r: String)
        ensures
            r@ == endpoint_text(self.ip@, self.port),
    {
        let mut s: String = "http://".to_string();
        s.append(self.ip.as_str());
        s.append(":");
        push_decimal(&mut s, self.port as i128);
        s.append("/api/0/sync");
        s
    }
}

// ---- the log ----

/// One record that was carried over, as it is listed in the log.
#[derive(Debug)]
pub struct TransferRecord {
    pub kind: String,
    pub logical_key: String,
    pub action: String,
}

/// The contents of a [`TransferRecord`].
#[verifier::ext_equal]
pub struct TransferRecordV {
    pub kind: Seq<char>,
    pub logical_key: Seq<char>,
    pub action: Seq<char>,
}

impl View for TransferRecord {
    type V = TransferRecordV;

    open spec fn view(&self) -> TransferRecordV {
        TransferRecordV {
            kind: self.kind@,
            logical_key: self.logical_key@,
            action: self.action@,
        }
    }
}

impl Clone for TransferRecord {
    fn clone(&self) -> (r: TransferRecord)
        ensures
            r@ == self@,
    {
        TransferRecord {
            kind: self.kind.clone(),
            logical_key: self.logical_key.clone(),
            action: self.action.clone(),
        }
    }
}

/// A copy of a list.
pub fn copy_records(list: &Vec<TransferRecord>) -> (r: Vec<TransferRecord>)
    ensures
        views(r@) == views(list@),
{
    let mut r: Vec<TransferRecord> = Vec::new();
    let mut i: usize = 0;
    while i < list.len()
        invariant
            i <= list.len(),
            views(r@) == views(list@).take(i as int),
        decreases list.len() - i,
    {
        let x: TransferRecord = list[i].clone();
        proof {
            lemma_views_push(r@, x);
            assert(views(list@).take(i + 1) =~= views(list@).take(i as int).push(list@[i as int]@));
        }
        r.push(x);
        i = i + 1;
    }
    assert(views(list@).take(i as int) =~= views(list@));
    r
}

/// An entry of the synchronisation log.
#[derive(Debug)]
pub struct SyncLogEntry {
    /// Set on entries that were read back.
    pub id: Option<i64>,
    pub timestamp: Timestamp,
    pub direction: SyncDirection,
    pub protocol: SyncProtocol,
    pub peer_id: Option<String>,
    pub event_type: SyncEventType,
    pub status: SyncStatus,
    pub message: Option<String>,
    pub data_size: Option<u64>,
    /// The records carried over, as JSON.
    pub details: Option<String>,
}

/// The contents of a [`SyncLogEntry`].
#[verifier::ext_equal]
pub struct SyncLogEntryV {
    pub id: Option<i64>,
    pub timestamp: Timestamp,
    pub direction: SyncDirection,
    pub protocol: SyncProtocol,
    pub peer_id: Option<Seq<char>>,
    pub event_type: SyncEventType,
    pub status: SyncStatus,
    pub message: Option<Seq<char>>,
    pub data_size: Option<u64>,
    pub details: Option<Seq<char>>,
}

impl View for SyncLogEntry {
    type V = SyncLogEntryV;

    open spec fn view(&self) -> SyncLogEntryV {
        SyncLogEntryV {
            id: self.id,
            timestamp: self.timestamp,
            direction: self.direction,
            protocol: self.protocol,
            peer_id: opt_text(self.peer_id),
            event_type: self.event_type,
            status: self.status,
            message: opt_text(self.message),
            data_size: self.data_size,
            details: opt_text(self.details),
        }
    }
}

impl Clone for SyncLogEntry {
    fn clone(&self) -> (r: SyncLogEntry)
        ensures
            r@ == self@,
    {
        SyncLogEntry {
            id: self.id,
            timestamp: self.timestamp,
            direction: self.direction,
            protocol: self.protocol,
            peer_id: self.peer_id.clone(),
            event_type: self.event_type,
            status: self.status,
            message: self.message.clone(),
            data_size: self.data_size,
            details: self.details.clone(),
        }
    }
}

// ---- pairing codes, the recycle bin, conflicts, statistics ----

/// A code that lets a device join.
#[derive(Debug)]
pub struct PairCode {
    pub code: String,
    pub created_at: Timestamp,
    pub expires_at: Timestamp,
}

/// The contents of a [`PairCode`].
#[verifier::ext_equal]
pub struct PairCodeV {
    pub code: Seq<char>,
    pub created_at: Timestamp,
    pub expires_at: Timestamp,
}

impl View for PairCode {
    type V = PairCodeV;

    open spec fn view(&self) -> PairCodeV {
        PairCodeV {
            code: self.code@,
            created_at: self.created_at,
            expires_at: self.expires_at,
        }
    }
}

impl Clone for PairCode {
    fn clone(&self) -> (r: PairCode)
        ensures
            r@ == self@,
    {
        PairCode {
            code: self.code.clone(),
            created_at: self.created_at,
            expires_at: self.expires_at,
        }
    }
}

/// A record that lost against a newer one and was put aside.
#[derive(Debug)]
pub struct TrashEntry {
    pub id: i64,
    pub kind: String,
    pub logical_key: String,
    /// The record as JSON.
    pub archived: String,
    pub winner_rev: Option<String>,
    pub reason: String,
    pub source_device: Option<String>,
    pub archived_at: String,
    pub restored: bool,
}

/// The contents of a [`TrashEntry`].
#[verifier::ext_equal]
pub struct TrashEntryV {
    pub id: i64,
    pub kind: Seq<char>,
    pub logical_key: Seq<char>,
    pub archived: Seq<char>,
    pub winner_rev: Option<Seq<char>>,
    pub reason: Seq<char>,
    pub source_device: Option<Seq<char>>,
    pub archived_at: Seq<char>,
    pub restored: bool,
}

impl View for TrashEntry {
    type V = TrashEntryV;

    open spec fn view(&self) -> TrashEntryV {
        TrashEntryV {
            id: self.id,
            kind: self.kind@,
            logical_key: self.logical_key@,
            archived: self.archived@,
            winner_rev: opt_text(self.winner_rev),
            reason: self.reason@,
            source_device: opt_text(self.source_device),
            archived_at: self.archived_at@,
            restored: self.restored,
        }
    }
}

impl Clone for TrashEntry {
    fn clone(&self) -> (r: TrashEntry)
        ensures
            r@ == self@,
    {
        TrashEntry {
            id: self.id,
            kind: self.kind.clone(),
            logical_key: self.logical_key.clone(),
            archived: self.archived.clone(),
            winner_rev: self.winner_rev.clone(),
            reason: self.reason.clone(),
            source_device: self.source_device.clone(),
            archived_at: self.archived_at.clone(),
            restored: self.restored,
        }
    }
}

/// A conflict as it is listed.
#[derive(Debug)]
pub struct ConflictSummary {
    pub note_id: i64,
    pub note_title: String,
    pub detected_at: String,
    pub resolved: bool,
    pub resolution: Option<String>,
}

/// The contents of a [`ConflictSummary`].
#[verifier::ext_equal]
pub struct ConflictSummaryV {
    pub note_id: i64,
    pub note_title: Seq<char>,
    pub detected_at: Seq<char>,
    pub resolved: bool,
    pub resolution: Option<Seq<char>>,
}

impl View for ConflictSummary {
    type V = ConflictSummaryV;

    open spec fn view(&self) -> ConflictSummaryV {
        ConflictSummaryV {
            note_id: self.note_id,
            note_title: self.note_title@,
            detected_at: self.detected_at@,
            resolved: self.resolved,
            resolution: opt_text(self.resolution),
        }
    }
}

impl Clone for ConflictSummary {
    fn clone(&self) -> (r: ConflictSummary)
        ensures
            r@ == self@,
    {
        ConflictSummary {
            note_id: self.note_id,
            note_title: self.note_title.clone(),
            detected_at: self.detected_at.clone(),
            resolved: self.resolved,
            resolution: self.resolution.clone(),
        }
    }
}

/// What is known of the synchronisation with a device.
#[derive(Debug)]
pub struct DeviceSyncStats {
    pub device_id: String,
    pub pending_push_count: i32,
    pub pending_conflict_count: i32,
    pub total_synced_count: i64,
    pub total_synced_size: i64,
    pub local_note_count: i32,
    pub remote_note_count: i32,
    pub last_sync_at: Option<String>,
    pub last_full_sync_at: Option<String>,
    pub sync_frequency_minutes: Option<i32>,
    pub last_error: Option<String>,
    pub last_error_at: Option<String>,
}

/// The contents of a [`DeviceSyncStats`].
#[verifier::ext_equal]
pub struct DeviceSyncStatsV {
    pub device_id: Seq<char>,
    pub pending_push_count: i32,
    pub pending_conflict_count: i32,
    pub total_synced_count: i64,
    pub total_synced_size: i64,
    pub local_note_count: i32,
    pub remote_note_count: i32,
    pub last_sync_at: Option<Seq<char>>,
    pub last_full_sync_at: Option<Seq<char>>,
    pub sync_frequency_minutes: Option<i32>,
    pub last_error: Option<Seq<char>>,
    pub last_error_at: Option<Seq<char>>,
}

impl View for DeviceSyncStats {
    type V = DeviceSyncStatsV;

    open spec fn view(&self) -> DeviceSyncStatsV {
        DeviceSyncStatsV {
            device_id: self.device_id@,
            pending_push_count: self.pending_push_count,
            pending_conflict_count: self.pending_conflict_count,
            total_synced_count: self.total_synced_count,
            total_synced_size: self.total_synced_size,
            local_note_count: self.local_note_count,
            remote_note_count: self.remote_note_count,
            last_sync_at: opt_text(self.last_sync_at),
            last_full_sync_at: opt_text(self.last_full_sync_at),
            sync_frequency_minutes: self.sync_frequency_minutes,
            last_error: opt_text(self.last_error),
            last_error_at: opt_text(self.last_error_at),
        }
    }
}

impl Clone for DeviceSyncStats {
    fn clone(&self) -> (r: DeviceSyncStats)
        ensures
            r@ == self@,
    {
        DeviceSyncStats {
            device_id: self.device_id.clone(),
            pending_push_count: self.pending_push_count,
            pending_conflict_count: self.pending_conflict_count,
            total_synced_count: self.total_synced_count,
            total_synced_size: self.total_synced_size,
            local_note_count: self.local_note_count,
            remote_note_count: self.remote_note_count,
            last_sync_at: self.last_sync_at.clone(),
            last_full_sync_at: self.last_full_sync_at.clone(),
            sync_frequency_minutes: self.sync_frequency_minutes,
            last_error: self.last_error.clone(),
            last_error_at: self.last_error_at.clone(),
        }
    }
}

// ---- settings ----

/// The synchronisation settings.
#[derive(Debug)]
pub struct SyncConfig {
    pub enabled: bool,
    pub http_enabled: bool,
    pub discovery_method: String,
    pub listen_port: u16,
    pub udp_port: u16,
    pub sync_inbox: bool,
    pub sync_activity: bool,
    pub sync_todo: bool,
    pub self_alias: String,
    pub probe_interval: u16,
    pub sync_interval: u64,
    pub d1_enabled: bool,
    pub d1_account_id: String,
    pub d1_database_id: String,
    pub d1_api_token: String,
    pub d1_sync_interval: i64,
}

/// The contents of a [`SyncConfig`].
#[verifier::ext_equal]
pub struct SyncConfigV {
    pub enabled: bool,
    pub http_enabled: bool,
    pub discovery_method: Seq<char>,
    pub listen_port: u16,
    pub udp_port: u16,
    pub sync_inbox: bool,
    pub sync_activity: bool,
    pub sync_todo: bool,
    pub self_alias: Seq<char>,
    pub probe_interval: u16,
    pub sync_interval: u64,
    pub d1_enabled: bool,
    pub d1_account_id: Seq<char>,
    pub d1_database_id: Seq<char>,
    pub d1_api_token: Seq<char>,
    pub d1_sync_interval: i64,
}

impl View for SyncConfig {
    type V = SyncConfigV;

    open spec fn view(&self) -> SyncConfigV {
        SyncConfigV {
            enabled: self.enabled,
            http_enabled: self.http_enabled,
            discovery_method: self.discovery_method@,
            listen_port: self.listen_port,
            udp_port: self.udp_port,
            sync_inbox: self.sync_inbox,
            sync_activity: self.sync_activity,
            sync_todo: self.sync_todo,
            self_alias: self.self_alias@,
            probe_interval: self.probe_interval,
            sync_interval: self.sync_interval,
            d1_enabled: self.d1_enabled,
            d1_account_id: self.d1_account_id@,
            d1_database_id: self.d1_database_id@,
            d1_api_token: self.d1_api_token@,
            d1_sync_interval: self.d1_sync_interval,
        }
    }
}

impl Clone for SyncConfig {
    fn clone(&self) -> (r: SyncConfig)
        ensures
            r@ == self@,
    {
        SyncConfig {
            enabled: self.enabled,
            http_enabled: self.http_enabled,
            discovery_method: self.discovery_method.clone(),
            listen_port: self.listen_port,
            udp_port: self.udp_port,
            sync_inbox: self.sync_inbox,
            sync_activity: self.sync_activity,
            sync_todo: self.sync_todo,
            self_alias: self.self_alias.clone(),
            probe_interval: self.probe_interval,
            sync_interval: self.sync_interval,
            d1_enabled: self.d1_enabled,
            d1_account_id: self.d1_account_id.clone(),
            d1_database_id: self.d1_database_id.clone(),
            d1_api_token: self.d1_api_token.clone(),
            d1_sync_interval: self.d1_sync_interval,
        }
    }
}

/// The settings of a fresh installation.
pub open spec fn default_config() -> SyncConfigV {
    SyncConfigV {
        enabled: false,
        http_enabled: true,
        discovery_method: "mdns"@,
        listen_port: DEFAULT_HTTP_PORT,
        udp_port: DEFAULT_UDP_PORT,
        sync_inbox: true,
        sync_activity: true,
        sync_todo: true,
        self_alias: ""@,
        probe_interval: 10,
        sync_interval: 10,
        d1_enabled: false,
        d1_account_id: ""@,
        d1_database_id: ""@,
        d1_api_token: ""@,
        d1_sync_interval: 300,
    }
}

impl Default for SyncConfig {
    fn default() -> (r: SyncConfig)
        ensures
            r@ == default_config(),
    {
        SyncConfig {
            enabled: false,
            http_enabled: true,
            discovery_method: "mdns".to_string(),
            listen_port: DEFAULT_HTTP_PORT,
            udp_port: DEFAULT_UDP_PORT,
            sync_inbox: true,
            sync_activity: true,
            sync_todo: true,
            self_alias: "".to_string(),
            probe_interval: 10,
            sync_interval: 10,
            d1_enabled: false,
            d1_account_id: "".to_string(),
            d1_database_id: "".to_string(),
            d1_api_token: "".to_string(),
            d1_sync_interval: 300,
        }
    }
}

// ---- merging ----

/// A local record that a merge replaced.
#[derive(Debug)]
pub struct ArchivedRow {
    pub kind: String,
    pub logical_key: String,
    pub archived_json: String,
    pub winner_rev: Option<String>,
    pub reason: String,
}

/// The contents of a [`ArchivedRow`].
#[verifier::ext_equal]
pub struct ArchivedRowV {
    pub kind: Seq<char>,
    pub logical_key: Seq<char>,
    pub archived_json: Seq<char>,
    pub winner_rev: Option<Seq<char>>,
    pub reason: Seq<char>,
}

impl View for ArchivedRow {
    type V = ArchivedRowV;

    open spec fn view(&self) -> ArchivedRowV {
        ArchivedRowV {
            kind: self.kind@,
            logical_key: self.logical_key@,
            archived_json: self.archived_json@,
            winner_rev: opt_text(self.winner_rev),
            reason: self.reason@,
        }
    }
}

impl Clone for ArchivedRow {
    fn clone(&self) -> (r: ArchivedRow)
        ensures
            r@ == self@,
    {
        ArchivedRow {
            kind: self.kind.clone(),
            logical_key: self.logical_key.clone(),
            archived_json: self.archived_json.clone(),
            winner_rev: self.winner_rev.clone(),
            reason: self.reason.clone(),
        }
    }
}

/// What importing one part of a snapshot did.
#[derive(Debug)]
pub struct ImportOutcome {
    pub applied: u64,
    pub created: u64,
    pub updated: u64,
    pub deleted: u64,
    pub ignored_stale: u64,
    pub ignored_dup: u64,
    pub archived: Vec<ArchivedRow>,
    pub errors: Vec<String>,
    pub records: Vec<TransferRecord>,
}

/// The contents of a [`ImportOutcome`].
#[verifier::ext_equal]
pub struct ImportOutcomeV {
    pub applied: u64,
    pub created: u64,
    pub updated: u64,
    pub deleted: u64,
    pub ignored_stale: u64,
    pub ignored_dup: u64,
    pub archived: Seq<ArchivedRowV>,
    pub errors: Seq<Seq<char>>,
    pub records: Seq<TransferRecordV>,
}

impl View for ImportOutcome {
    type V = ImportOutcomeV;

    open spec fn view(&self) -> ImportOutcomeV {
        ImportOutcomeV {
            applied: self.applied,
            created: self.created,
            updated: self.updated,
            deleted: self.deleted,
            ignored_stale: self.ignored_stale,
            ignored_dup: self.ignored_dup,
            archived: views(self.archived@),
            errors: views(self.errors@),
            records: views(self.records@),
        }
    }
}

/// What applying a snapshot did.
#[derive(Debug)]
pub struct ApplyResult {
    pub applied: u64,
    pub created: u64,
    pub updated: u64,
    pub deleted: u64,
    pub ignored: u64,
    pub conflicts: u64,
    pub archived: u64,
    pub errors: Vec<String>,
    pub records: Vec<TransferRecord>,
}

/// The contents of a [`ApplyResult`].
#[verifier::ext_equal]
pub struct ApplyResultV {
    pub applied: u64,
    pub created: u64,
    pub updated: u64,
    pub deleted: u64,
    pub ignored: u64,
    pub conflicts: u64,
    pub archived: u64,
    pub errors: Seq<Seq<char>>,
    pub records: Seq<TransferRecordV>,
}

impl View for ApplyResult {
    type V = ApplyResultV;

    open spec fn view(&self) -> ApplyResultV {
        ApplyResultV {
            applied: self.applied,
            created: self.created,
            updated: self.updated,
            deleted: self.deleted,
            ignored: self.ignored,
            conflicts: self.conflicts,
            archived: self.archived,
            errors: views(self.errors@),
            records: views(self.records@),
        }
    }
}

impl Clone for ApplyResult {
    fn clone(&self) -> (r: ApplyResult)
        ensures
            r@ == self@,
    {
        ApplyResult {
            applied: self.applied,
            created: self.created,
            updated: self.updated,
            deleted: self.deleted,
            ignored: self.ignored,
            conflicts: self.conflicts,
            archived: self.archived,
            errors: copy_texts(&self.errors),
            records: copy_records(&self.records),
        }
    }
}

// ---- laws ----

/// Whole seconds between two points in time count what is over: a part of a second does not.
pub proof fn law_whole_seconds(from: int, to: int)
    ensures
        to >= from ==> seconds_between(from, to) * 1_000_000_000 <= to - from < (seconds_between(
            from,
            to,
        ) + 1) * 1_000_000_000,
        seconds_between(from, to) == -seconds_between(to, from),
{
}

/// A device is reached under its address and port, at the interface for synchronisation.
pub proof fn law_endpoint(ip: Seq<char>, port: u16)
    ensures
        endpoint_text(ip, port) == "http://"@ + ip + ":"@ + decimal(port as int) + "/api/0/sync"@,
{
}

} // verus!
