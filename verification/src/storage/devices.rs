//! The device table: registration, arbitration data, merging and expiry.

use vstd::prelude::*;
use vstd::string::*;

use crate::models::{lemma_views_push, views, Device, DeviceV, Timestamp};
use crate::outside::{clock, in_calendar, rfc3339_format, rfc3339_parse, rfc3339_text, rfc3339_time};
use crate::storage::order::{holds, lemma_filter_ends, lemma_filter_step};
use crate::storage::secrets::{apart_from, not_of, not_of_any, with_alias};
use crate::storage::{kind_named, parse_device_kind, parse_dt, parse_opt_dt, stored_opt_time, stored_time, AliasRowV, DeviceRow, DeviceRowV, SecretRowV, SyncDb, SyncDbV, DISCOVERED_KEEP, DISCOVERED_MAX_AGE_DAYS, ONLINE_GRACE_SECS};
use crate::text::{le, opt_text, same, text_le, unit_outcome, Outcome};

verus! {

// ---- time columns ----

/// The text under which a time is stored: empty where the calendar does not reach.
pub open spec fn time_text(t: Timestamp) -> Seq<char> {
    match rfc3339_text(t.secs, t.nanos) {
        Some(text) => text,
        None => ""@,
    }
}

/// Whether a time reads back from the text under which it is stored.
pub open spec fn reads_back(t: Timestamp) -> bool {
    rfc3339_time(time_text(t)) == Some((t.secs, t.nanos))
}

/// Whether the times of a device read back, each where it lies in the calendar.
pub open spec fn times_read_back(d: DeviceV) -> bool {
    &&& in_calendar(d.paired_at) ==> reads_back(d.paired_at)
    &&& d.last_sync_at matches Some(t) ==> in_calendar(t) ==> reads_back(t)
    &&& d.last_seen_at matches Some(t) ==> in_calendar(t) ==> reads_back(t)
}

/// The text under which a time is stored.
pub(crate) fn format_time(t: &Timestamp) -> (r: String)
    ensures
        r@ == time_text(*t),
        in_calendar(*t) ==> reads_back(*t),
{
    match rfc3339_format(t) {
        Some(text) => text,
        None => "".to_string(),
    }
}

/// The text under which an optional time is stored.
pub open spec fn opt_time_text(t: Option<Timestamp>) -> Option<Seq<char>> {
    match t {
        Some(t) => Some(time_text(t)),
        None => None,
    }
}

/// The seconds of an optional time.
pub open spec fn opt_secs(t: Option<Timestamp>) -> Option<i64> {
    match t {
        Some(t) => Some(t.secs),
        None => None,
    }
}

pub(crate) fn format_opt(t: &Option<Timestamp>) -> (r: Option<String>)
    ensures
        opt_text(r) == opt_time_text(*t),
        t matches Some(at) ==> in_calendar(*at) ==> reads_back(*at),
{
    match t {
        Some(t) => Some(format_time(t)),
        None => None,
    }
}

fn secs_opt(t: &Option<Timestamp>) -> (r: Option<i64>)
    ensures
        r == opt_secs(*t),
{
    match t {
        Some(t) => Some(t.secs),
        None => None,
    }
}

// ---- changes to one device ----

/// A change to the row of a device.
pub enum DeviceChange {
    /// A new alias, or none.
    Alias(Option<String>),
    /// Paired or not.
    Paired(bool),
    /// Online or not.
    Online(bool),
    /// A successful synchronisation at a time.
    Synced(String),
    /// Seen at a time, given as a text and in seconds. The own row stays as it is.
    Seen(String, i64),
    /// Merged into another row.
    Superseded(String),
    /// What a row takes over from one that is merged into it.
    Inherit(DeviceRow),
    /// Registered again.
    Stored(DeviceRow),
    /// Discovered again.
    Discovered(DeviceRow),
}

/// The contents of a [`DeviceChange`].
pub enum DeviceChangeV {
    Alias(Option<Seq<char>>),
    Paired(bool),
    Online(bool),
    Synced(Seq<char>),
    Seen(Seq<char>, i64),
    Superseded(Seq<char>),
    Inherit(DeviceRowV),
    Stored(DeviceRowV),
    Discovered(DeviceRowV),
}

impl View for DeviceChange {
    type V = DeviceChangeV;

    open spec fn view(&self) -> DeviceChangeV {
        match self {
            DeviceChange::Alias(a) => DeviceChangeV::Alias(opt_text(*a)),
            DeviceChange::Paired(b) => DeviceChangeV::Paired(*b),
            DeviceChange::Online(b) => DeviceChangeV::Online(*b),
            DeviceChange::Synced(t) => DeviceChangeV::Synced(t@),
            DeviceChange::Seen(t, s) => DeviceChangeV::Seen(t@, *s),
            DeviceChange::Superseded(to) => DeviceChangeV::Superseded(to@),
            DeviceChange::Inherit(r) => DeviceChangeV::Inherit(r@),
            DeviceChange::Stored(r) => DeviceChangeV::Stored(r@),
            DeviceChange::Discovered(r) => DeviceChangeV::Discovered(r@),
        }
    }
}

/// The first text that is there.
pub open spec fn either(a: Option<Seq<char>>, b: Option<Seq<char>>) -> Option<Seq<char>> {
    if a is Some {
        a
    } else {
        b
    }
}

fn either_text(a: Option<String>, b: &Option<String>) -> (r: Option<String>)
    ensures
        opt_text(r) == either(opt_text(a), opt_text(*b)),
{
    match a {
        Some(t) => Some(t),
        None => b.clone(),
    }
}

/// The lesser text.
pub open spec fn lesser(a: Seq<char>, b: Seq<char>) -> Seq<char> {
    if text_le(a, b) {
        a
    } else {
        b
    }
}

/// A row after a change.
pub open spec fn changed(r: DeviceRowV, c: DeviceChangeV) -> DeviceRowV {
    match c {
        DeviceChangeV::Alias(a) => DeviceRowV { alias: a, ..r },
        DeviceChangeV::Paired(b) => DeviceRowV { paired: b, ..r },
        DeviceChangeV::Online(b) => DeviceRowV { is_online: b, ..r },
        DeviceChangeV::Synced(t) => DeviceRowV { last_sync_at: Some(t), is_online: true, ..r },
        DeviceChangeV::Seen(t, s) => if r.is_self {
            r
        } else {
            DeviceRowV { last_seen_at: Some(t), last_seen_epoch: Some(s), is_online: true, ..r }
        },
        DeviceChangeV::Superseded(to) => DeviceRowV {
            superseded_by: Some(to),
            is_online: false,
            ..r
        },
        DeviceChangeV::Inherit(from) => DeviceRowV {
            alias: either(r.alias, from.alias),
            paired: r.paired || from.paired,
            paired_at: lesser(r.paired_at, from.paired_at),
            last_sync_at: either(r.last_sync_at, from.last_sync_at),
            machine_uid: either(r.machine_uid, from.machine_uid),
            ..r
        },
        DeviceChangeV::Stored(n) => DeviceRowV {
            paired_at: r.paired_at,
            seen_via: r.seen_via,
            seen_via_at: r.seen_via_at,
            machine_uid: either(n.machine_uid, r.machine_uid),
            superseded_by: r.superseded_by,
            ..n
        },
        DeviceChangeV::Discovered(n) => DeviceRowV {
            name: if r.paired {
                r.name
            } else {
                n.name
            },
            device_kind: n.device_kind,
            ip: n.ip,
            port: n.port,
            last_seen_at: n.last_seen_at,
            last_seen_epoch: n.last_seen_epoch,
            is_online: true,
            is_self: false,
            seen_via: n.seen_via,
            seen_via_at: n.seen_via_at,
            ..r
        },
    }
}

fn change_row(r: DeviceRow, c: &DeviceChange) -> (res: DeviceRow)
    ensures
        res@ == changed(r@, c@),
        res@.id == (if c is Stored {
            c->Stored_0@.id
        } else {
            r@.id
        }),
{
    let mut row: DeviceRow = r;
    match c {
        DeviceChange::Alias(a) => {
            row.alias = a.clone();
        },
        DeviceChange::Paired(b) => {
            row.paired = *b;
        },
        DeviceChange::Online(b) => {
            row.is_online = *b;
        },
        DeviceChange::Synced(t) => {
            row.last_sync_at = Some(t.clone());
            row.is_online = true;
        },
        DeviceChange::Seen(t, s) => {
            if !row.is_self {
                row.last_seen_at = Some(t.clone());
                row.last_seen_epoch = Some(*s);
                row.is_online = true;
            }
        },
        DeviceChange::Superseded(to) => {
            row.superseded_by = Some(to.clone());
            row.is_online = false;
        },
        DeviceChange::Inherit(from) => {
            row.alias = either_text(row.alias, &from.alias);
            row.paired = row.paired || from.paired;
            if !le(row.paired_at.as_str(), from.paired_at.as_str()) {
                row.paired_at = from.paired_at.clone();
            }
            row.last_sync_at = either_text(row.last_sync_at, &from.last_sync_at);
            row.machine_uid = either_text(row.machine_uid, &from.machine_uid);
        },
        DeviceChange::Stored(n) => {
            let new: DeviceRow = n.clone();
            row = DeviceRow {
                paired_at: row.paired_at,
                seen_via: row.seen_via,
                seen_via_at: row.seen_via_at,
                machine_uid: either_text(new.machine_uid, &row.machine_uid),
                superseded_by: row.superseded_by,
                id: new.id,
                name: new.name,
                device_kind: new.device_kind,
                ip: new.ip,
                port: new.port,
                last_sync_at: new.last_sync_at,
                last_seen_at: new.last_seen_at,
                last_seen_epoch: new.last_seen_epoch,
                is_online: new.is_online,
                is_self: new.is_self,
                paired: new.paired,
                alias: new.alias,
            };
        },
        DeviceChange::Discovered(n) => {
            if !row.paired {
                row.name = n.name.clone();
            }
            row.device_kind = n.device_kind.clone();
            row.ip = n.ip.clone();
            row.port = n.port;
            row.last_seen_at = n.last_seen_at.clone();
            row.last_seen_epoch = n.last_seen_epoch;
            row.is_online = true;
            row.is_self = false;
            row.seen_via = n.seen_via.clone();
            row.seen_via_at = n.seen_via_at.clone();
        },
    }
    row
}

/// The device table after a change to the row with an id.
pub open spec fn with_change(rows: Seq<DeviceRowV>, id: Seq<char>, c: DeviceChangeV) -> Seq<
    DeviceRowV,
> {
    Seq::new(
        rows.len(),
        |i: int|
            if rows[i].id == id {
                changed(rows[i], c)
            } else {
                rows[i]
            },
    )
}

/// Whether there is a row with an id.
pub open spec fn has_device(rows: Seq<DeviceRowV>, id: Seq<char>) -> bool {
    exists|i: int| 0 <= i < rows.len() && (#[trigger] rows[i]).id == id
}

/// The row with an id.
pub open spec fn device_row(rows: Seq<DeviceRowV>, id: Seq<char>) -> Option<DeviceRowV>
    decreases rows.len(),
{
    if rows.len() == 0 {
        None
    } else if rows[0].id == id {
        Some(rows[0])
    } else {
        device_row(rows.drop_first(), id)
    }
}

pub proof fn lemma_device_row(rows: Seq<DeviceRowV>, id: Seq<char>)
    ensures
        device_row(rows, id) is Some <==> has_device(rows, id),
        device_row(rows, id) matches Some(r) ==> r.id == id && rows.contains(r),
    decreases rows.len(),
{
    if rows.len() > 0 {
        let rest = rows.drop_first();
        lemma_device_row(rest, id);
        if rows[0].id == id {
            assert(rows.contains(rows[0]));
        } else {
            if has_device(rest, id) {
                let i = choose|i: int| 0 <= i < rest.len() && (#[trigger] rest[i]).id == id;
                assert(rows[i + 1].id == id);
                let r = device_row(rest, id)->0;
                let j = choose|j: int| 0 <= j < rest.len() && rest[j] == r;
                assert(rows[j + 1] == r);
            }
            if has_device(rows, id) {
                let i = choose|i: int| 0 <= i < rows.len() && (#[trigger] rows[i]).id == id;
                assert(rest[i - 1].id == id);
            }
        }
    }
}

impl SyncDb {
    /// Changes the row with an id; tells whether there is one.
    pub fn change_device(&mut self, id: &str, c: &DeviceChange) -> (r: bool)
        ensures
            final(self)@ == (SyncDbV {
                devices: with_change(old(self)@.devices, id@, c@),
                ..old(self)@
            }),
            r == has_device(old(self)@.devices, id@),
    {
        let mut rows: Vec<DeviceRow> = Vec::new();
        let mut out: Vec<DeviceRow> = Vec::new();
        std::mem::swap(&mut rows, &mut self.devices);
        let ghost before = views(rows@);
        let ghost list = rows@;
        let mut hit: bool = false;
        for row in it: rows
            invariant
                it.seq() == list,
                before == views(list),
                views(out@) == with_change(before, id@, c@).take(it.index()),
                hit <==> exists|j: int| 0 <= j < it.index() && (#[trigger] before[j]).id == id@,
        {
            let ghost i = it.index();
            assert(row@ == before[i]);
            let mine: bool = same(row.id.as_str(), id);
            let next: DeviceRow = if mine { change_row(row, c) } else { row };
            proof {
                lemma_views_push(out@, next);
                assert(with_change(before, id@, c@).take(i + 1) =~= with_change(
                    before,
                    id@,
                    c@,
                ).take(i).push(next@));
            }
            out.push(next);
            if mine {
                assert(before[i].id == id@);
                hit = true;
            }
        }
        assert(with_change(before, id@, c@).take(before.len() as int) =~= with_change(
            before,
            id@,
            c@,
        ));
        self.devices = out;
        hit
    }

    /// The row with an id.
    pub fn find_device(&self, id: &str) -> (r: Option<&DeviceRow>)
        ensures
            match r {
                Some(row) => device_row(self@.devices, id@) == Some(row@),
                None => device_row(self@.devices, id@) is None,
            },
    {
        let ghost rows = self@.devices;
        let mut i: usize = 0;
        assert(rows.skip(0) =~= rows);
        while i < self.devices.len()
            invariant
                i <= self.devices.len(),
                rows == views(self.devices@),
                device_row(rows, id@) == device_row(rows.skip(i as int), id@),
            decreases self.devices.len() - i,
        {
            assert(rows.skip(i as int)[0] == self.devices@[i as int]@);
            assert(rows.skip(i as int).drop_first() =~= rows.skip(i + 1));
            if same(self.devices[i].id.as_str(), id) {
                return Some(&self.devices[i]);
            }
            i = i + 1;
        }
        None
    }
}

// ---- registering ----

/// The row of a device that is registered for the first time.
pub open spec fn stored_row(d: DeviceV) -> DeviceRowV {
    DeviceRowV {
        id: d.id,
        name: d.name,
        device_kind: d.device_kind.text(),
        ip: d.ip,
        port: d.port,
        paired_at: time_text(d.paired_at),
        last_sync_at: opt_time_text(d.last_sync_at),
        last_seen_at: opt_time_text(d.last_seen_at),
        last_seen_epoch: opt_secs(d.last_seen_at),
        is_online: d.is_online,
        is_self: d.is_self,
        paired: d.paired,
        alias: d.alias,
        seen_via: None,
        seen_via_at: None,
        machine_uid: d.machine_uid,
        superseded_by: None,
    }
}

/// The row of a device that is discovered for the first time.
pub open spec fn discovered_row(d: DeviceV, seen_via: Seq<char>) -> DeviceRowV {
    DeviceRowV {
        last_sync_at: None,
        is_online: false,
        is_self: false,
        paired: false,
        alias: None,
        seen_via: Some(seen_via),
        seen_via_at: opt_time_text(d.last_seen_at),
        machine_uid: None,
        ..stored_row(d)
    }
}

/// The device table after a device is registered.
pub open spec fn with_stored(rows: Seq<DeviceRowV>, d: DeviceV) -> Seq<DeviceRowV> {
    if has_device(rows, d.id) {
        with_change(rows, d.id, DeviceChangeV::Stored(stored_row(d)))
    } else {
        rows.push(stored_row(d))
    }
}

/// The device table after a device is discovered.
pub open spec fn with_discovered(rows: Seq<DeviceRowV>, d: DeviceV, seen_via: Seq<char>) -> Seq<
    DeviceRowV,
> {
    if has_device(rows, d.id) {
        with_change(rows, d.id, DeviceChangeV::Discovered(discovered_row(d, seen_via)))
    } else {
        rows.push(discovered_row(d, seen_via))
    }
}

fn row_of(d: &Device) -> (r: DeviceRow)
    ensures
        r@ == stored_row(d@),
        times_read_back(d@),
{
    DeviceRow {
        id: d.id.clone(),
        name: d.name.clone(),
        device_kind: d.device_kind.as_str().to_string(),
        ip: d.ip.clone(),
        port: d.port,
        paired_at: format_time(&d.paired_at),
        last_sync_at: format_opt(&d.last_sync_at),
        last_seen_at: format_opt(&d.last_seen_at),
        last_seen_epoch: secs_opt(&d.last_seen_at),
        is_online: d.is_online,
        is_self: d.is_self,
        paired: d.paired,
        alias: d.alias.clone(),
        seen_via: None,
        seen_via_at: None,
        machine_uid: d.machine_uid.clone(),
        superseded_by: None,
    }
}

// ---- reading ----

/// A device as it is listed. Neither the secret nor the machine fingerprint comes out.
pub open spec fn device_of(r: DeviceRowV, now: Timestamp) -> DeviceV {
    DeviceV {
        id: r.id,
        name: r.name,
        device_kind: kind_named(r.device_kind),
        ip: r.ip,
        port: r.port,
        paired_at: stored_time(r.paired_at, now),
        last_sync_at: stored_opt_time(r.last_sync_at, now),
        last_seen_at: stored_opt_time(r.last_seen_at, now),
        is_online: r.is_online,
        is_self: r.is_self,
        paired: r.paired,
        alias: r.alias,
        device_secret: None,
        machine_uid: None,
    }
}

/// A row as a device.
pub fn row_to_device(r: &DeviceRow, now: &Timestamp) -> (d: Device)
    ensures
        d@ == device_of(r@, *now),
{
    Device {
        id: r.id.clone(),
        name: r.name.clone(),
        device_kind: parse_device_kind(r.device_kind.as_str()),
        ip: r.ip.clone(),
        port: r.port,
        paired_at: parse_dt(r.paired_at.as_str(), now),
        last_sync_at: parse_opt_dt(&r.last_sync_at, now),
        last_seen_at: parse_opt_dt(&r.last_seen_at, now),
        is_online: r.is_online,
        is_self: r.is_self,
        paired: r.paired,
        alias: r.alias.clone(),
        device_secret: None,
        machine_uid: None,
    }
}

/// Rows as devices.
pub open spec fn devices_of(rows: Seq<DeviceRowV>, now: Timestamp) -> Seq<DeviceV> {
    Seq::new(rows.len(), |i: int| device_of(rows[i], now))
}

/// The rows that were not merged into others.
pub open spec fn live() -> spec_fn(DeviceRowV) -> bool {
    |r: DeviceRowV| r.superseded_by is None
}

/// The devices that are listed.
pub open spec fn listed(rows: Seq<DeviceRowV>, now: Timestamp) -> Seq<DeviceV> {
    devices_of(rows.filter(live()), now)
}

/// The device with an id.
pub open spec fn device_with_id(rows: Seq<DeviceRowV>, id: Seq<char>, now: Timestamp) -> Option<
    DeviceV,
> {
    match device_row(rows, id) {
        Some(r) => Some(device_of(r, now)),
        None => None,
    }
}

/// The contents of an optional device.
pub open spec fn opt_device(d: Option<Device>) -> Option<DeviceV> {
    match d {
        Some(d) => Some(d@),
        None => None,
    }
}

/// The way of discovery that reported a device last, and when, as far as that can be read.
pub open spec fn seen_source(rows: Seq<DeviceRowV>, id: Seq<char>) -> Option<
    (Seq<char>, Option<Timestamp>),
> {
    match device_row(rows, id) {
        Some(r) => Some(
            (
                match r.seen_via {
                    Some(v) => v,
                    None => ""@,
                },
                match r.seen_via_at {
                    Some(t) => match rfc3339_time(t) {
                        Some(p) => Some(Timestamp { secs: p.0, nanos: p.1 }),
                        None => None,
                    },
                    None => None,
                },
            ),
        ),
        None => None,
    }
}

/// The contents of what [`SyncDb::device_seen_source`] returns.
pub open spec fn source_view(s: Option<(String, Option<Timestamp>)>) -> Option<
    (Seq<char>, Option<Timestamp>),
> {
    match s {
        Some(p) => Some((p.0@, p.1)),
        None => None,
    }
}

/// The machine fingerprint registered for a device.
pub open spec fn uid_of(rows: Seq<DeviceRowV>, id: Seq<char>) -> Option<Seq<char>> {
    match device_row(rows, id) {
        Some(r) => match r.machine_uid {
            Some(u) => if u.len() > 0 {
                Some(u)
            } else {
                None
            },
            None => None,
        },
        None => None,
    }
}

impl SyncDb {
    /// Registers a device, or refreshes its row.
    pub fn upsert_device(&mut self, d: &Device)
        ensures
            final(self)@ == (SyncDbV {
                devices: with_stored(old(self)@.devices, d@),
                ..old(self)@
            }),
            times_read_back(d@),
    {
        let row: DeviceRow = row_of(d);
        let known: bool = self.find_device(d.id.as_str()).is_some();
        proof {
            lemma_device_row(self@.devices, d@.id);
        }
        if known {
            self.change_device(d.id.as_str(), &DeviceChange::Stored(row));
        } else {
            proof {
                lemma_views_push(self.devices@, row);
            }
            self.devices.push(row);
        }
    }

    /// Registers a device that was discovered, or refreshes how it can be reached. A paired
    /// device keeps its name.
    pub fn upsert_discovered(&mut self, d: &Device, seen_via: &str)
        ensures
            final(self)@ == (SyncDbV {
                devices: with_discovered(old(self)@.devices, d@, seen_via@),
                ..old(self)@
            }),
            times_read_back(d@),
    {
        let row: DeviceRow = DeviceRow {
            last_sync_at: None,
            is_online: false,
            is_self: false,
            paired: false,
            alias: None,
            seen_via: Some(seen_via.to_string()),
            seen_via_at: format_opt(&d.last_seen_at),
            machine_uid: None,
            ..row_of(d)
        };
        let known: bool = self.find_device(d.id.as_str()).is_some();
        proof {
            lemma_device_row(self@.devices, d@.id);
        }
        if known {
            self.change_device(d.id.as_str(), &DeviceChange::Discovered(row));
        } else {
            proof {
                lemma_views_push(self.devices@, row);
            }
            self.devices.push(row);
        }
    }

    /// The listed devices; `now` stands in for times that cannot be read.
    pub fn get_devices_at(&self, now: &Timestamp) -> (r: Vec<Device>)
        ensures
            views(r@) == listed(self@.devices, *now),
    {
        let ghost rows = self@.devices;
        let mut out: Vec<Device> = Vec::new();
        let mut i: usize = 0;
        proof {
            lemma_filter_ends(rows, live());
        }
        assert(views(out@) =~= devices_of(rows.take(0).filter(live()), *now));
        while i < self.devices.len()
            invariant
                i <= self.devices.len(),
                rows == views(self.devices@),
                views(out@) == devices_of(rows.take(i as int).filter(live()), *now),
            decreases self.devices.len() - i,
        {
            proof {
                lemma_filter_step(rows, i as int, live());
            }
            if self.devices[i].superseded_by.is_none() {
                let d: Device = row_to_device(&self.devices[i], now);
                proof {
                    lemma_views_push(out@, d);
                    assert(devices_of(rows.take(i + 1).filter(live()), *now) =~= devices_of(
                        rows.take(i as int).filter(live()),
                        *now,
                    ).push(d@));
                }
                out.push(d);
            }
            i = i + 1;
        }
        proof {
            lemma_filter_ends(rows, live());
        }
        out
    }

    /// The listed devices.
    pub fn get_devices(&self) -> (r: Vec<Device>)
        ensures
            exists|now: Timestamp| views(r@) == #[trigger] listed(self@.devices, now),
    {
        let now: Timestamp = clock();
        self.get_devices_at(&now)
    }

    /// All devices, with those that were merged into others.
    pub fn get_devices_including_superseded_at(&self, now: &Timestamp) -> (r: Vec<Device>)
        ensures
            views(r@) == devices_of(self@.devices, *now),
    {
        let ghost rows = self@.devices;
        let mut out: Vec<Device> = Vec::new();
        let mut i: usize = 0;
        while i < self.devices.len()
            invariant
                i <= self.devices.len(),
                rows == views(self.devices@),
                views(out@) == devices_of(rows, *now).take(i as int),
            decreases self.devices.len() - i,
        {
            let d: Device = row_to_device(&self.devices[i], now);
            proof {
                lemma_views_push(out@, d);
                assert(devices_of(rows, *now).take(i + 1) =~= devices_of(rows, *now).take(
                    i as int,
                ).push(d@));
            }
            out.push(d);
            i = i + 1;
        }
        assert(devices_of(rows, *now).take(rows.len() as int) =~= devices_of(rows, *now));
        out
    }

    /// All devices, with those that were merged into others.
    pub fn get_devices_including_superseded(&self) -> (r: Vec<Device>)
        ensures
            exists|now: Timestamp| views(r@) == #[trigger] devices_of(self@.devices, now),
    {
        let now: Timestamp = clock();
        self.get_devices_including_superseded_at(&now)
    }

    /// The device with an id; `now` stands in for times that cannot be read.
    pub fn get_device_at(&self, id: &str, now: &Timestamp) -> (r: Option<Device>)
        ensures
            opt_device(r) == device_with_id(self@.devices, id@, *now),
    {
        match self.find_device(id) {
            Some(row) => Some(row_to_device(row, now)),
            None => None,
        }
    }

    /// The device with an id.
    pub fn get_device(&self, id: &str) -> (r: Option<Device>)
        ensures
            exists|now: Timestamp|
                opt_device(r) == #[trigger] device_with_id(self@.devices, id@, now),
    {
        let now: Timestamp = clock();
        self.get_device_at(id, &now)
    }

    /// Which way of discovery reported a device last, and when.
    pub fn device_seen_source(&self, id: &str) -> (r: Option<(String, Option<Timestamp>)>)
        ensures
            source_view(r) == seen_source(self@.devices, id@),
    {
        match self.find_device(id) {
            Some(row) => {
                let via: String = match &row.seen_via {
                    Some(v) => v.clone(),
                    None => "".to_string(),
                };
                let at: Option<Timestamp> = match &row.seen_via_at {
                    Some(t) => rfc3339_parse(t.as_str()),
                    None => None,
                };
                Some((via, at))
            },
            None => None,
        }
    }

    /// Marks a device as seen at a time. How it can be reached stays as it is.
    pub fn touch_seen_at(&mut self, id: &str, now: &Timestamp)
        ensures
            final(self)@ == (SyncDbV {
                devices: with_change(
                    old(self)@.devices,
                    id@,
                    DeviceChangeV::Seen(time_text(*now), now.secs),
                ),
                ..old(self)@
            }),
    {
        self.change_device(id, &DeviceChange::Seen(format_time(now), now.secs));
    }

    /// Marks a device as seen now.
    pub fn touch_seen(&mut self, id: &str)
        ensures
            exists|now: Timestamp|
                final(self)@ == (SyncDbV {
                    devices: with_change(
                        old(self)@.devices,
                        id@,
                        DeviceChangeV::Seen(#[trigger] time_text(now), now.secs),
                    ),
                    ..old(self)@
                }),
    {
        let now: Timestamp = clock();
        self.touch_seen_at(id, &now);
    }

    /// Sets or clears the alias of a device; tells whether there is one with that id.
    pub fn update_alias(&mut self, id: &str, alias: Option<&str>) -> (r: bool)
        ensures
            final(self)@ == (SyncDbV {
                devices: with_change(
                    old(self)@.devices,
                    id@,
                    DeviceChangeV::Alias(crate::text::opt_str(alias)),
                ),
                ..old(self)@
            }),
            r == has_device(old(self)@.devices, id@),
    {
        let owned: Option<String> = match alias {
            Some(a) => Some(a.to_string()),
            None => None,
        };
        self.change_device(id, &DeviceChange::Alias(owned))
    }

    /// Sets whether a device is paired; tells whether there is one with that id.
    pub fn set_paired(&mut self, id: &str, paired: bool) -> (r: bool)
        ensures
            final(self)@ == (SyncDbV {
                devices: with_change(old(self)@.devices, id@, DeviceChangeV::Paired(paired)),
                ..old(self)@
            }),
            r == has_device(old(self)@.devices, id@),
    {
        self.change_device(id, &DeviceChange::Paired(paired))
    }

    /// Notes a successful synchronisation with a device.
    pub fn mark_synced(&mut self, id: &str, at: &Timestamp)
        ensures
            final(self)@ == (SyncDbV {
                devices: with_change(
                    old(self)@.devices,
                    id@,
                    DeviceChangeV::Synced(time_text(*at)),
                ),
                ..old(self)@
            }),
            in_calendar(*at) ==> reads_back(*at),
    {
        self.change_device(id, &DeviceChange::Synced(format_time(at)));
    }

    /// The machine fingerprint registered for a device.
    pub fn machine_uid_of(&self, id: &str) -> (r: Option<String>)
        ensures
            opt_text(r) == uid_of(self@.devices, id@),
    {
        match self.find_device(id) {
            Some(row) => match &row.machine_uid {
                Some(u) => if crate::text::chars_of(u.as_str()).len() > 0 {
                    Some(u.clone())
                } else {
                    None
                },
                None => None,
            },
            None => None,
        }
    }
}

// ---- online or not ----

/// Whether a device was seen within the grace period.
pub open spec fn seen_lately(rows: Seq<DeviceRowV>, id: Seq<char>, now: int) -> bool {
    exists|i: int|
        0 <= i < rows.len() && (#[trigger] rows[i]).id == id && (rows[i].last_seen_epoch matches Some(
            at,
        ) && at > now - ONLINE_GRACE_SECS)
}

/// The device table after a probe. A device that was seen within the grace period is not
/// marked as offline.
pub open spec fn with_probe(
    rows: Seq<DeviceRowV>,
    id: Seq<char>,
    online: bool,
    now: int,
) -> Seq<DeviceRowV> {
    if !online && seen_lately(rows, id, now) {
        rows
    } else {
        with_change(rows, id, DeviceChangeV::Online(online))
    }
}

impl SyncDb {
    fn recently_seen(&self, id: &str, now: i64) -> (r: bool)
        ensures
            r == seen_lately(self@.devices, id@, now as int),
    {
        let ghost rows = self@.devices;
        let mut i: usize = 0;
        while i < self.devices.len()
            invariant
                i <= self.devices.len(),
                rows == views(self.devices@),
                forall|j: int|
                    0 <= j < i ==> !((#[trigger] rows[j]).id == id@ && (
                    rows[j].last_seen_epoch matches Some(at) && at > now - ONLINE_GRACE_SECS)),
            decreases self.devices.len() - i,
        {
            assert(rows[i as int] == self.devices@[i as int]@);
            if same(self.devices[i].id.as_str(), id) {
                match self.devices[i].last_seen_epoch {
                    Some(at) => if at as i128 > now as i128 - ONLINE_GRACE_SECS as i128 {
                        return true;
                    },
                    None => {},
                }
            }
            i = i + 1;
        }
        false
    }

    /// Notes the result of a probe at a time.
    pub fn touch_online_at(&mut self, id: &str, online: bool, now: i64)
        ensures
            final(self)@ == (SyncDbV {
                devices: with_probe(old(self)@.devices, id@, online, now as int),
                ..old(self)@
            }),
    {
        if !online && self.recently_seen(id, now) {
            return;
        }
        self.change_device(id, &DeviceChange::Online(online));
    }

    /// Notes the result of a probe.
    pub fn touch_online(&mut self, id: &str, online: bool)
        ensures
            exists|now: i64|
                final(self)@ == (SyncDbV {
                    devices: #[trigger] with_probe(old(self)@.devices, id@, online, now as int),
                    ..old(self)@
                }),
    {
        let now: i64 = clock().secs;
        self.touch_online_at(id, online, now);
    }
}

// ---- removing ----

/// A test for rows that stay.
pub enum Keep {
    /// Rows with another id.
    OtherThan(String),
    /// The own row.
    Own,
    /// Rows that are not only discovered, or were seen since a time in seconds.
    FreshSince(i128),
    /// Rows whose id is not among some.
    NotAmong(Vec<String>),
}

/// Whether a row was put there by discovery alone.
pub open spec fn only_discovered(r: DeviceRowV) -> bool {
    !r.paired && !r.is_self && r.seen_via is Some
}

/// When a row was last seen in seconds; zero where that is not known.
pub open spec fn last_seen(r: DeviceRowV) -> int {
    match r.last_seen_epoch {
        Some(t) => t as int,
        None => 0,
    }
}

/// The test for rows with another id.
pub open spec fn other_id(id: Seq<char>) -> spec_fn(DeviceRowV) -> bool {
    |r: DeviceRowV| r.id != id
}

/// The test for the own row.
pub open spec fn own() -> spec_fn(DeviceRowV) -> bool {
    |r: DeviceRowV| r.is_self
}

/// The test for rows that discovery alone put there and that were not seen since a time do
/// not pass.
pub open spec fn fresh_since(cutoff: int) -> spec_fn(DeviceRowV) -> bool {
    |r: DeviceRowV| !(only_discovered(r) && last_seen(r) < cutoff)
}

/// The test for rows whose id is not among some.
pub open spec fn not_among(ids: Seq<Seq<char>>) -> spec_fn(DeviceRowV) -> bool {
    |r: DeviceRowV| !ids.contains(r.id)
}

impl Keep {
    /// The test as a function.
    pub open spec fn test(self) -> spec_fn(DeviceRowV) -> bool {
        match self {
            Keep::OtherThan(id) => other_id(id@),
            Keep::Own => own(),
            Keep::FreshSince(cutoff) => fresh_since(cutoff as int),
            Keep::NotAmong(ids) => not_among(views(ids@)),
        }
    }

    fn passes(&self, r: &DeviceRow) -> (b: bool)
        ensures
            b == (self.test())(r@),
    {
        match self {
            Keep::OtherThan(id) => !same(r.id.as_str(), id.as_str()),
            Keep::Own => r.is_self,
            Keep::FreshSince(cutoff) => {
                let at: i64 = match r.last_seen_epoch {
                    Some(t) => t,
                    None => 0,
                };
                !(!r.paired && !r.is_self && r.seen_via.is_some() && (at as i128) < *cutoff)
            },
            Keep::NotAmong(ids) => !holds(ids, r.id.as_str()),
        }
    }
}

impl SyncDb {
    fn keep_devices(&mut self, keep: &Keep) -> (removed: usize)
        ensures
            final(self)@ == (SyncDbV {
                devices: old(self)@.devices.filter(keep.test()),
                ..old(self)@
            }),
            removed == old(self)@.devices.len() - final(self)@.devices.len(),
    {
        let ghost before = self@.devices;
        let ghost p = keep.test();
        let mut rows: Vec<DeviceRow> = Vec::new();
        let mut out: Vec<DeviceRow> = Vec::new();
        std::mem::swap(&mut rows, &mut self.devices);
        let ghost list = rows@;
        let mut removed: usize = 0;
        let total: usize = rows.len();
        proof {
            lemma_filter_ends(before, p);
        }
        assert(views(out@) =~= before.take(0).filter(p));
        for row in it: rows
            invariant
                it.seq() == list,
                before == views(list),
                p == keep.test(),
                total == before.len(),
                views(out@) == before.take(it.index()).filter(p),
                removed + out@.len() == it.index(),
        {
            proof {
                assert(row@ == before[it.index()]);
                lemma_filter_step(before, it.index(), p);
                lemma_views_push(out@, row);
            }
            if keep.passes(&row) {
                out.push(row);
            } else {
                removed = removed + 1;
            }
        }
        proof {
            lemma_filter_ends(before, p);
        }
        self.devices = out;
        removed
    }

    /// Removes a device with its secret; tells whether there was one with that id.
    pub fn delete_device(&mut self, id: &str) -> (r: bool)
        ensures
            final(self)@ == without_device(old(self)@, id@),
            r == has_device(old(self)@.devices, id@),
    {
        proof {
            lemma_device_row(self@.devices, id@);
        }
        let known: bool = self.find_device(id).is_some();
        self.keep_devices(&Keep::OtherThan(id.to_string()));
        self.delete_device_secret(id);
        known
    }

    /// Removes all devices but the own one, all secrets, and what is known of merged ids;
    /// gives the number of devices removed.
    pub fn delete_all_devices(&mut self) -> (removed: usize)
        ensures
            final(self)@ == without_devices(old(self)@),
            removed == old(self)@.devices.len() - final(self)@.devices.len(),
    {
        let removed: usize = self.keep_devices(&Keep::Own);
        self.secrets = Vec::new();
        self.aliases = Vec::new();
        assert(self@.secrets =~= Seq::<SecretRowV>::empty());
        assert(self@.aliases =~= Seq::<AliasRowV>::empty());
        removed
    }
}

/// The state without a device and its secret.
pub open spec fn without_device(db: SyncDbV, id: Seq<char>) -> SyncDbV {
    SyncDbV {
        devices: db.devices.filter(other_id(id)),
        secrets: db.secrets.filter(not_of(id)),
        ..db
    }
}

/// The state without any device but the own one.
pub open spec fn without_devices(db: SyncDbV) -> SyncDbV {
    SyncDbV {
        devices: db.devices.filter(own()),
        secrets: Seq::empty(),
        aliases: Seq::empty(),
        ..db
    }
}

// ---- merging ----

/// Whether a row may be the earlier row of a machine that now has the id `new_id`.
pub open spec fn is_twin(r: DeviceRowV, uid: Seq<char>, new_id: Seq<char>) -> bool {
    r.machine_uid == Some(uid) && r.id != new_id && r.paired && !r.is_self && r.superseded_by is None
}

/// Among the rows that may be an earlier row of a machine, the one that was paired first.
pub open spec fn merge_candidate(rows: Seq<DeviceRowV>, uid: Seq<char>, new_id: Seq<char>) -> Option<
    DeviceRowV,
>
    decreases rows.len(),
{
    if rows.len() == 0 {
        None
    } else {
        let best = merge_candidate(rows.drop_last(), uid, new_id);
        let r = rows.last();
        if !is_twin(r, uid, new_id) {
            best
        } else {
            match best {
                Some(b) => if text_le(b.paired_at, r.paired_at) {
                    best
                } else {
                    Some(r)
                },
                None => Some(r),
            }
        }
    }
}

/// The row that a device may be merged with, as a device.
pub open spec fn candidate_device(
    rows: Seq<DeviceRowV>,
    uid: Seq<char>,
    new_id: Seq<char>,
    now: Timestamp,
) -> Option<DeviceV> {
    match merge_candidate(rows, uid, new_id) {
        Some(r) => Some(device_of(r, now)),
        None => None,
    }
}

impl SyncDb {
    /// The paired row with the same machine fingerprint and another id that was paired first;
    /// `now` stands in for times that cannot be read.
    pub fn find_merge_candidate_at(&self, uid: &str, new_id: &str, now: &Timestamp) -> (r: Option<
        Device,
    >)
        ensures
            opt_device(r) == candidate_device(self@.devices, uid@, new_id@, *now),
    {
        let ghost rows = self@.devices;
        let mut best: Option<usize> = None;
        let mut i: usize = 0;
        while i < self.devices.len()
            invariant
                i <= self.devices.len(),
                rows == views(self.devices@),
                match best {
                    Some(b) => b < i && merge_candidate(rows.take(i as int), uid@, new_id@)
                        == Some(rows[b as int]),
                    None => merge_candidate(rows.take(i as int), uid@, new_id@) is None,
                },
            decreases self.devices.len() - i,
        {
            let r: &DeviceRow = &self.devices[i];
            proof {
                assert(rows[i as int] == r@);
                assert(rows.take(i + 1).drop_last() =~= rows.take(i as int));
                assert(rows.take(i + 1).last() == r@);
            }
            let same_machine: bool = match &r.machine_uid {
                Some(u) => same(u.as_str(), uid),
                None => false,
            };
            let twin: bool = same_machine && !same(r.id.as_str(), new_id) && r.paired && !r.is_self
                && r.superseded_by.is_none();
            if twin {
                match best {
                    Some(b) => {
                        if !le(self.devices[b].paired_at.as_str(), r.paired_at.as_str()) {
                            best = Some(i);
                        }
                    },
                    None => {
                        best = Some(i);
                    },
                }
            }
            i = i + 1;
        }
        assert(rows.take(rows.len() as int) =~= rows);
        match best {
            Some(b) => Some(row_to_device(&self.devices[b], now)),
            None => None,
        }
    }

    /// The paired row with the same machine fingerprint and another id that was paired first.
    pub fn find_merge_candidate(&self, uid: &str, new_id: &str) -> (r: Option<Device>)
        ensures
            exists|now: Timestamp|
                opt_device(r) == #[trigger] candidate_device(
                    self@.devices,
                    uid@,
                    new_id@,
                    now,
                ),
    {
        let now: Timestamp = clock();
        self.find_merge_candidate_at(uid, new_id, &now)
    }
}

/// Why a row cannot take part in a merger, or whether it is paired.
pub open spec fn merge_check(rows: Seq<DeviceRowV>, id: Seq<char>) -> Outcome<bool> {
    match device_row(rows, id) {
        None => Err("找不到设备 "@ + id),
        Some(r) => if r.is_self {
            Err(id + " 是本机，不能参与归并"@)
        } else if r.superseded_by is Some {
            Err(id + " 已被归并过"@)
        } else {
            Ok(r.paired)
        },
    }
}

/// Why two rows cannot be merged.
pub open spec fn merge_refusal(rows: Seq<DeviceRowV>, from: Seq<char>, to: Seq<char>) -> Outcome<()> {
    if from == to {
        Err("不能与自己合并"@)
    } else {
        match merge_check(rows, from) {
            Err(e) => Err(e),
            Ok(from_paired) => match merge_check(rows, to) {
                Err(e) => Err(e),
                Ok(to_paired) => if !to_paired && !from_paired {
                    Err("两边都没配对，没有归并的意义"@)
                } else {
                    Ok(())
                },
            },
        }
    }
}

/// The device table after a merger: the old row is kept, marked and offline, and the new one
/// takes over what it lacks.
pub open spec fn merged_rows(rows: Seq<DeviceRowV>, from: Seq<char>, to: Seq<char>) -> Seq<
    DeviceRowV,
> {
    let marked = with_change(rows, from, DeviceChangeV::Superseded(to));
    with_change(marked, to, DeviceChangeV::Inherit(device_row(rows, from)->0))
}

/// The state after a merger, or the unchanged state where it is refused.
pub open spec fn merged(db: SyncDbV, from: Seq<char>, to: Seq<char>, at: Seq<char>) -> SyncDbV {
    if merge_refusal(db.devices, from, to) is Ok {
        SyncDbV {
            devices: merged_rows(db.devices, from, to),
            secrets: db.secrets.filter(not_of(from)),
            aliases: with_alias(db.aliases, from, to, at),
            ..db
        }
    } else {
        db
    }
}

impl SyncDb {
    fn check_mergeable(&self, id: &str) -> (r: Result<bool, String>)
        ensures
            match r {
                Ok(paired) => merge_check(self@.devices, id@) == Outcome::<bool>::Ok(paired),
                Err(e) => merge_check(self@.devices, id@) == Outcome::<bool>::Err(e@),
            },
    {
        match self.find_device(id) {
            None => {
                let mut m: String = "找不到设备 ".to_string();
                m.append(id);
                Err(m)
            },
            Some(row) => {
                if row.is_self {
                    let mut m: String = id.to_string();
                    m.append(" 是本机，不能参与归并");
                    return Err(m);
                }
                if row.superseded_by.is_some() {
                    let mut m: String = id.to_string();
                    m.append(" 已被归并过");
                    return Err(m);
                }
                Ok(row.paired)
            },
        }
    }

    /// Merges the row `from` into the row `to`: the secret of `from` is void, its row is kept
    /// for old data, its id is noted as merged, and `to` takes over alias, pairing, the
    /// earlier pairing time, the last synchronisation and the fingerprint where it lacks them.
    pub fn merge_device_at(&mut self, from: &str, to: &str, now: &Timestamp) -> (r: Result<(), String>)
        ensures
            unit_outcome(r) == merge_refusal(old(self)@.devices, from@, to@),
            final(self)@ == merged(old(self)@, from@, to@, time_text(*now)),
    {
        if same(from, to) {
            return Err("不能与自己合并".to_string());
        }
        let from_paired: bool = match self.check_mergeable(from) {
            Ok(b) => b,
            Err(e) => {
                return Err(e);
            },
        };
        let to_paired: bool = match self.check_mergeable(to) {
            Ok(b) => b,
            Err(e) => {
                return Err(e);
            },
        };
        if !to_paired && !from_paired {
            return Err("两边都没配对，没有归并的意义".to_string());
        }
        let source: DeviceRow = match self.find_device(from) {
            Some(row) => row.clone(),
            None => {
                return Err("找不到设备".to_string());
            },
        };
        self.delete_device_secret(from);
        self.change_device(from, &DeviceChange::Superseded(to.to_string()));
        let at: String = format_time(now);
        self.set_alias_row(from, to, at.as_str());
        self.change_device(to, &DeviceChange::Inherit(source));
        Ok(())
    }

    /// Merges the row `from` into the row `to`.
    pub fn merge_device(&mut self, from: &str, to: &str) -> (r: Result<(), String>)
        ensures
            unit_outcome(r) == merge_refusal(old(self)@.devices, from@, to@),
            exists|now: Timestamp|
                final(self)@ == merged(old(self)@, from@, to@, #[trigger] time_text(now)),
    {
        let now: Timestamp = clock();
        self.merge_device_at(from, to, &now)
    }
}

// ---- expiry ----

/// Whether a paired row was last synchronised before a time in seconds.
pub open spec fn is_stale(r: DeviceRowV, cutoff: int) -> bool {
    r.paired && !r.is_self && r.superseded_by is None && (r.last_sync_at matches Some(t) && (
    rfc3339_time(t) matches Some(p) && p.0 < cutoff))
}

/// The test for paired rows that were last synchronised before a time.
pub open spec fn stale_before(cutoff: int) -> spec_fn(DeviceRowV) -> bool {
    |r: DeviceRowV| is_stale(r, cutoff)
}

/// The ids of rows.
pub open spec fn row_ids(rows: Seq<DeviceRowV>) -> Seq<Seq<char>> {
    Seq::new(rows.len(), |i: int| rows[i].id)
}

/// The time before which a paired device is stale.
pub open spec fn stale_cutoff(now: int, days: int) -> int {
    now - (if days < 1 {
        1
    } else {
        days
    }) * 24 * 3600
}

/// The state without the paired devices that are stale.
pub open spec fn without_stale(db: SyncDbV, cutoff: int) -> SyncDbV {
    let ids = row_ids(db.devices.filter(stale_before(cutoff)));
    SyncDbV {
        devices: db.devices.filter(not_among(ids)),
        secrets: db.secrets.filter(not_of_any(ids)),
        aliases: db.aliases.filter(apart_from(ids)),
        ..db
    }
}

impl SyncDb {
    fn stale_ids(&self, cutoff: i128) -> (r: Vec<String>)
        ensures
            views(r@) == row_ids(self@.devices.filter(stale_before(cutoff as int))),
    {
        let ghost rows = self@.devices;
        let ghost p = stale_before(cutoff as int);
        let mut out: Vec<String> = Vec::new();
        let mut i: usize = 0;
        proof {
            lemma_filter_ends(rows, p);
        }
        assert(views(out@) =~= row_ids(rows.take(0).filter(p)));
        while i < self.devices.len()
            invariant
                i <= self.devices.len(),
                rows == views(self.devices@),
                p == stale_before(cutoff as int),
                views(out@) == row_ids(rows.take(i as int).filter(p)),
            decreases self.devices.len() - i,
        {
            let r: &DeviceRow = &self.devices[i];
            assert(rows[i as int] == r@);
            proof {
                lemma_filter_step(rows, i as int, p);
            }
            let old: bool = match &r.last_sync_at {
                Some(t) => match rfc3339_parse(t.as_str()) {
                    Some(time) => (time.secs as i128) < cutoff,
                    None => false,
                },
                None => false,
            };
            if r.paired && !r.is_self && r.superseded_by.is_none() && old {
                let id: String = r.id.clone();
                proof {
                    lemma_views_push(out@, id);
                    assert(row_ids(rows.take(i + 1).filter(p)) =~= row_ids(
                        rows.take(i as int).filter(p),
                    ).push(id@));
                }
                out.push(id);
            }
            i = i + 1;
        }
        proof {
            lemma_filter_ends(rows, p);
        }
        out
    }

    /// Removes the paired devices, with their secrets and merged ids, that were last
    /// synchronised more than `days` days ago. A device that was never synchronised stays.
    pub fn purge_stale_paired_at(&mut self, days: i64, now: i64) -> (removed: usize)
        ensures
            final(self)@ == without_stale(old(self)@, stale_cutoff(now as int, days as int)),
            removed == old(self)@.devices.len() - final(self)@.devices.len(),
    {
        let d: i128 = if days < 1 { 1 } else { days as i128 };
        let cutoff: i128 = now as i128 - d * 24 * 3600;
        let ids: Vec<String> = self.stale_ids(cutoff);
        self.delete_secrets_of(&ids);
        self.delete_aliases_of(&ids);
        self.keep_devices(&Keep::NotAmong(ids))
    }

    /// Removes the paired devices that were last synchronised more than `days` days ago.
    pub fn purge_stale_paired(&mut self, days: i64) -> (removed: usize)
        ensures
            exists|now: i64|
                final(self)@ == without_stale(
                    old(self)@,
                    #[trigger] stale_cutoff(now as int, days as int),
                ),
            removed == old(self)@.devices.len() - final(self)@.devices.len(),
    {
        let now: i64 = clock().secs;
        self.purge_stale_paired_at(days, now)
    }
}

/// Whether the row `j` is kept in favour of the row `i`: it was seen later, or as late and
/// stands before it.
pub open spec fn ahead(rows: Seq<DeviceRowV>, j: int, i: int) -> bool {
    only_discovered(rows[j]) && (last_seen(rows[j]) > last_seen(rows[i]) || (last_seen(rows[j])
        == last_seen(rows[i]) && j < i))
}

/// How many of the first `n` rows are kept in favour of the row `i`.
pub open spec fn ahead_count(rows: Seq<DeviceRowV>, i: int, n: nat) -> nat
    decreases n,
{
    if n == 0 {
        0
    } else {
        ahead_count(rows, i, (n - 1) as nat) + (if ahead(rows, n - 1, i) {
            1nat
        } else {
            0nat
        })
    }
}

/// Whether a row stays when the number of discovered rows is limited.
pub open spec fn within_limit(rows: Seq<DeviceRowV>, i: int) -> bool {
    !only_discovered(rows[i]) || ahead_count(rows, i, rows.len()) < DISCOVERED_KEEP
}

/// The first `n` rows without those over the limit.
pub open spec fn limited_upto(rows: Seq<DeviceRowV>, n: nat) -> Seq<DeviceRowV>
    decreases n,
{
    if n == 0 {
        Seq::empty()
    } else {
        let before = limited_upto(rows, (n - 1) as nat);
        if within_limit(rows, n - 1) {
            before.push(rows[n - 1])
        } else {
            before
        }
    }
}

/// The rows after the number of those that discovery alone put there is limited: those seen
/// last stay.
pub open spec fn limited(rows: Seq<DeviceRowV>) -> Seq<DeviceRowV> {
    limited_upto(rows, rows.len())
}

/// The time before which a discovered device has expired.
pub open spec fn discovered_cutoff(now: int) -> int {
    now - DISCOVERED_MAX_AGE_DAYS * 24 * 3600
}

/// The device table without expired discoveries: first those not seen for long, then those
/// over the limit.
pub open spec fn without_expired(rows: Seq<DeviceRowV>, now: int) -> Seq<DeviceRowV> {
    limited(rows.filter(fresh_since(discovered_cutoff(now))))
}

impl SyncDb {
    fn count_ahead(&self, i: usize) -> (n: usize)
        requires
            i < self.devices.len(),
        ensures
            n == ahead_count(self@.devices, i as int, self@.devices.len()),
    {
        let ghost rows = self@.devices;
        let mut n: usize = 0;
        let mut j: usize = 0;
        let mine: i64 = match self.devices[i].last_seen_epoch {
            Some(t) => t,
            None => 0,
        };
        assert(rows[i as int] == self.devices@[i as int]@);
        while j < self.devices.len()
            invariant
                j <= self.devices.len(),
                i < self.devices.len(),
                rows == views(self.devices@),
                mine == last_seen(rows[i as int]),
                n <= j,
                n == ahead_count(rows, i as int, j as nat),
            decreases self.devices.len() - j,
        {
            let r: &DeviceRow = &self.devices[j];
            assert(rows[j as int] == r@);
            let at: i64 = match r.last_seen_epoch {
                Some(t) => t,
                None => 0,
            };
            let before: bool = !r.paired && !r.is_self && r.seen_via.is_some() && (at > mine || (at
                == mine && j < i));
            if before {
                n = n + 1;
            }
            j = j + 1;
        }
        n
    }

    fn limit_discovered(&mut self) -> (removed: usize)
        ensures
            final(self)@ == (SyncDbV { devices: limited(old(self)@.devices), ..old(self)@ }),
            removed == old(self)@.devices.len() - final(self)@.devices.len(),
    {
        let ghost before = self@.devices;
        let mut stays: Vec<bool> = Vec::new();
        let mut i: usize = 0;
        while i < self.devices.len()
            invariant
                i <= self.devices.len(),
                before == views(self.devices@),
                before == self@.devices,
                stays.len() == i,
                forall|j: int| 0 <= j < i ==> #[trigger] stays@[j] == within_limit(before, j),
            decreases self.devices.len() - i,
        {
            let r: &DeviceRow = &self.devices[i];
            assert(before[i as int] == r@);
            let only: bool = !r.paired && !r.is_self && r.seen_via.is_some();
            let stay: bool = !only || self.count_ahead(i) < DISCOVERED_KEEP;
            stays.push(stay);
            i = i + 1;
        }
        let mut rows: Vec<DeviceRow> = Vec::new();
        let mut out: Vec<DeviceRow> = Vec::new();
        std::mem::swap(&mut rows, &mut self.devices);
        let ghost list = rows@;
        let mut removed: usize = 0;
        let total: usize = rows.len();
        let mut k: usize = 0;
        assert(views(out@) =~= limited_upto(before, 0));
        for row in it: rows
            invariant
                it.seq() == list,
                before == views(list),
                total == before.len(),
                k == it.index(),
                k <= total,
                stays.len() == before.len(),
                forall|j: int|
                    0 <= j < before.len() ==> #[trigger] stays@[j] == within_limit(before, j),
                views(out@) == limited_upto(before, k as nat),
                removed + out@.len() == k,
        {
            proof {
                assert(row@ == before[it.index()]);
                lemma_views_push(out@, row);
            }
            if stays[k] {
                out.push(row);
            } else {
                removed = removed + 1;
            }
            k = k + 1;
        }
        self.devices = out;
        removed
    }

    /// Removes the devices that discovery alone put there and that were not seen for days, and
    /// of those that are left all but the ones seen last; gives the number removed.
    pub fn purge_discovered_at(&mut self, now: i64) -> (removed: usize)
        ensures
            final(self)@ == (SyncDbV {
                devices: without_expired(old(self)@.devices, now as int),
                ..old(self)@
            }),
            removed == old(self)@.devices.len() - final(self)@.devices.len(),
    {
        let cutoff: i128 = now as i128 - DISCOVERED_MAX_AGE_DAYS as i128 * 24 * 3600;
        let total: usize = self.devices.len();
        self.keep_devices(&Keep::FreshSince(cutoff));
        self.limit_discovered();
        let left: usize = self.devices.len();
        assert(self@.devices.len() == left);
        total - left
    }

    /// Removes expired discoveries.
    pub fn purge_discovered(&mut self) -> (removed: usize)
        ensures
            exists|now: i64|
                final(self)@ == (SyncDbV {
                    devices: #[trigger] without_expired(old(self)@.devices, now as int),
                    ..old(self)@
                }),
            removed == old(self)@.devices.len() - final(self)@.devices.len(),
    {
        let now: i64 = clock().secs;
        self.purge_discovered_at(now)
    }
}

} // verus!
