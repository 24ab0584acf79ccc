//! The log table.

use vstd::prelude::*;

use crate::models::{lemma_views_push, views, SyncDirection, SyncEventType, SyncLogEntry, SyncLogEntryV, SyncProtocol, SyncStatus, Timestamp};
use crate::outside::clock;
use crate::storage::devices::{format_time, reads_back, time_text};
use crate::storage::{direction_named, event_type_named, full_error, law_names_read_back, parse_direction, parse_dt, parse_event_type, parse_protocol, parse_status, protocol_named, status_named, stored_time, LogRow, LogRowV, SyncDb, SyncDbV, LOG_KEEP};
use crate::text::{same, Outcome};

verus! {

/// Which log entries are asked for.
#[derive(Debug, Clone, Copy, PartialEq, Eq, Structural)]
pub struct LogFilter {
    pub direction: Option<SyncDirection>,
    pub protocol: Option<SyncProtocol>,
    pub event_type: Option<SyncEventType>,
    /// How many at most; zero counts as one.
    pub limit: u64,
    /// How many of the newest are passed over.
    pub offset: u64,
}

impl Default for LogFilter {
    fn default() -> (r: LogFilter)
        ensures
            r == (LogFilter {
                direction: None,
                protocol: None,
                event_type: None,
                limit: 0,
                offset: 0,
            }),
    {
        LogFilter { direction: None, protocol: None, event_type: None, limit: 0, offset: 0 }
    }
}

// ---- sizes ----

/// An unsigned number as the signed one with the same bits.
pub open spec fn signed(n: u64) -> int {
    if n <= i64::MAX {
        n as int
    } else {
        n - 0x1_0000_0000_0000_0000
    }
}

/// A signed number as the unsigned one with the same bits.
pub open spec fn unsigned(n: i64) -> int {
    if n >= 0 {
        n as int
    } else {
        n + 0x1_0000_0000_0000_0000
    }
}

fn to_signed(n: u64) -> (r: i64)
    ensures
        r == signed(n),
{
    if n <= i64::MAX as u64 {
        n as i64
    } else {
        (n - 0x8000_0000_0000_0000) as i64 + i64::MIN
    }
}

pub(crate) fn to_unsigned(n: i64) -> (r: u64)
    ensures
        r == unsigned(n),
{
    if n >= 0 {
        n as u64
    } else {
        (n - i64::MIN) as u64 + 0x8000_0000_0000_0000
    }
}

/// A size reads back as it was written.
pub proof fn law_size_reads_back(n: u64)
    ensures
        i64::MIN <= signed(n) <= i64::MAX,
        unsigned(signed(n) as i64) == n,
{
}

// ---- writing ----

/// The row of an entry.
pub open spec fn log_row(e: SyncLogEntryV, id: i64) -> LogRowV {
    LogRowV {
        id,
        timestamp: time_text(e.timestamp),
        direction: e.direction.text(),
        protocol: e.protocol.text(),
        peer_id: e.peer_id,
        event_type: e.event_type.text(),
        status: e.status.text(),
        message: e.message,
        data_size: match e.data_size {
            Some(n) => Some(signed(n) as i64),
            None => None,
        },
        details: e.details,
    }
}

/// The newest `keep` rows; a number too large for the database keeps all.
pub open spec fn newest(rows: Seq<LogRowV>, keep: u64) -> Seq<LogRowV> {
    if keep > i64::MAX || rows.len() <= keep {
        rows
    } else {
        rows.skip(rows.len() - keep)
    }
}

/// The id that the next entry gets.
pub open spec fn next_log_id(db: SyncDbV) -> Outcome<i64> {
    if db.last_log_id < i64::MAX {
        Ok((db.last_log_id + 1) as i64)
    } else {
        Err(full_error())
    }
}

/// The state after an entry is added. With every hundredth entry the log is cut.
pub open spec fn with_log(db: SyncDbV, e: SyncLogEntryV) -> SyncDbV {
    match next_log_id(db) {
        Ok(id) => {
            let rows = db.logs.push(log_row(e, id));
            SyncDbV {
                logs: if id % 100 == 0 {
                    newest(rows, LOG_KEEP)
                } else {
                    rows
                },
                last_log_id: id,
                ..db
            }
        },
        Err(_) => db,
    }
}

/// The outcome of giving an id.
pub open spec fn id_outcome(r: Result<i64, String>) -> Outcome<i64> {
    match r {
        Ok(id) => Ok(id),
        Err(e) => Err(e@),
    }
}

fn row_of_entry(e: &SyncLogEntry, id: i64) -> (r: LogRow)
    ensures
        r@ == log_row(e@, id),
{
    LogRow {
        id,
        timestamp: format_time(&e.timestamp),
        direction: e.direction.as_str().to_string(),
        protocol: e.protocol.as_str().to_string(),
        peer_id: e.peer_id.clone(),
        event_type: e.event_type.as_str().to_string(),
        status: e.status.as_str().to_string(),
        message: e.message.clone(),
        data_size: match e.data_size {
            Some(n) => Some(to_signed(n)),
            None => None,
        },
        details: e.details.clone(),
    }
}

impl SyncDb {
    /// Adds an entry and gives its id. The ids of entries that were removed are not used
    /// again.
    pub fn add_log(&mut self, e: &SyncLogEntry) -> (r: Result<i64, String>)
        ensures
            id_outcome(r) == next_log_id(old(self)@),
            final(self)@ == with_log(old(self)@, e@),
    {
        if self.last_log_id == i64::MAX {
            return Err("database or disk is full".to_string());
        }
        let id: i64 = self.last_log_id + 1;
        let row: LogRow = row_of_entry(e, id);
        proof {
            lemma_views_push(self.logs@, row);
        }
        self.logs.push(row);
        self.last_log_id = id;
        if id % 100 == 0 {
            self.truncate_logs(LOG_KEEP);
        }
        Ok(id)
    }

    /// Removes all but the newest entries.
    pub fn truncate_logs(&mut self, keep: u64)
        ensures
            final(self)@ == (SyncDbV { logs: newest(old(self)@.logs, keep), ..old(self)@ }),
    {
        if keep > i64::MAX as u64 || self.logs.len() as u64 <= keep {
            return;
        }
        let ghost before = self@.logs;
        let cut: usize = self.logs.len() - keep as usize;
        let mut rows: Vec<LogRow> = Vec::new();
        let mut out: Vec<LogRow> = Vec::new();
        std::mem::swap(&mut rows, &mut self.logs);
        let ghost list = rows@;
        let mut i: usize = 0;
        let total: usize = rows.len();
        for row in it: rows
            invariant
                it.seq() == list,
                before == views(list),
                total == list.len(),
                i == it.index(),
                i <= total,
                cut <= total,
                views(out@) == (if i <= cut {
                    Seq::empty()
                } else {
                    before.subrange(cut as int, i as int)
                }),
        {
            assert(row@ == before[it.index()]);
            if i >= cut {
                proof {
                    lemma_views_push(out@, row);
                    assert(before.subrange(cut as int, i + 1) =~= before.subrange(
                        cut as int,
                        i as int,
                    ).push(row@));
                    assert(i == cut ==> before.subrange(cut as int, i as int) =~= Seq::empty());
                }
                out.push(row);
            }
            i = i + 1;
        }
        assert(before.subrange(cut as int, total as int) =~= before.skip(cut as int));
        assert(cut == total ==> before.skip(cut as int) =~= Seq::empty());
        self.logs = out;
    }

    /// The number of entries.
    pub fn log_count(&self) -> (n: u64)
        ensures
            n == self@.logs.len(),
    {
        self.logs.len() as u64
    }

    /// Cuts a log that grew too long before it was cut regularly.
    pub fn migrate(&mut self)
        ensures
            final(self)@ == (SyncDbV { logs: newest(old(self)@.logs, LOG_KEEP), ..old(self)@ }),
    {
        if self.log_count() > LOG_KEEP {
            self.truncate_logs(LOG_KEEP);
        }
    }
}

// ---- reading ----

/// A row as an entry.
pub open spec fn entry_of(r: LogRowV, now: Timestamp) -> SyncLogEntryV {
    SyncLogEntryV {
        id: Some(r.id),
        timestamp: stored_time(r.timestamp, now),
        direction: direction_named(r.direction),
        protocol: protocol_named(r.protocol),
        peer_id: r.peer_id,
        event_type: event_type_named(r.event_type),
        status: status_named(r.status),
        message: r.message,
        data_size: match r.data_size {
            Some(n) => Some(unsigned(n) as u64),
            None => None,
        },
        details: r.details,
    }
}

/// Whether a row is among those asked for.
pub open spec fn passes(r: LogRowV, f: LogFilter) -> bool {
    &&& f.direction matches Some(d) ==> r.direction == d.text()
    &&& f.protocol matches Some(p) ==> r.protocol == p.text()
    &&& f.event_type matches Some(e) ==> r.event_type == e.text()
}

/// The entries asked for among rows, the newest first.
pub open spec fn matching(rows: Seq<LogRowV>, f: LogFilter, now: Timestamp) -> Seq<SyncLogEntryV>
    decreases rows.len(),
{
    if rows.len() == 0 {
        Seq::empty()
    } else {
        let older = matching(rows.drop_last(), f, now);
        if passes(rows.last(), f) {
            seq![entry_of(rows.last(), now)] + older
        } else {
            older
        }
    }
}

/// How many of the matching entries are passed over.
pub open spec fn page_start(len: nat, f: LogFilter) -> int {
    let offset = if f.offset > i64::MAX {
        0
    } else {
        f.offset as int
    };
    if offset > len {
        len as int
    } else {
        offset
    }
}

/// Where the entries asked for end.
pub open spec fn page_end(len: nat, f: LogFilter) -> int {
    let limit = if f.limit < 1 {
        1
    } else {
        f.limit as int
    };
    if f.limit > i64::MAX || page_start(len, f) + limit > len {
        len as int
    } else {
        page_start(len, f) + limit
    }
}

/// The entries asked for.
pub open spec fn log_page(rows: Seq<LogRowV>, f: LogFilter, now: Timestamp) -> Seq<SyncLogEntryV> {
    let all = matching(rows, f, now);
    all.subrange(page_start(all.len(), f), page_end(all.len(), f))
}

fn entry_of_row(r: &LogRow, now: &Timestamp) -> (e: SyncLogEntry)
    ensures
        e@ == entry_of(r@, *now),
{
    SyncLogEntry {
        id: Some(r.id),
        timestamp: parse_dt(r.timestamp.as_str(), now),
        direction: parse_direction(r.direction.as_str()),
        protocol: parse_protocol(r.protocol.as_str()),
        peer_id: r.peer_id.clone(),
        event_type: parse_event_type(r.event_type.as_str()),
        status: parse_status(r.status.as_str()),
        message: r.message.clone(),
        data_size: match r.data_size {
            Some(n) => Some(to_unsigned(n)),
            None => None,
        },
        details: r.details.clone(),
    }
}

fn asked_for(r: &LogRow, f: &LogFilter) -> (b: bool)
    ensures
        b == passes(r@, *f),
{
    let direction: bool = match f.direction {
        Some(d) => same(r.direction.as_str(), d.as_str()),
        None => true,
    };
    let protocol: bool = match f.protocol {
        Some(p) => same(r.protocol.as_str(), p.as_str()),
        None => true,
    };
    let event_type: bool = match f.event_type {
        Some(e) => same(r.event_type.as_str(), e.as_str()),
        None => true,
    };
    direction && protocol && event_type
}

impl SyncDb {
    /// The entries asked for, the newest first; `now` stands in for times that cannot be read.
    pub fn get_logs_at(&self, f: &LogFilter, now: &Timestamp) -> (r: Vec<SyncLogEntry>)
        ensures
            views(r@) == log_page(self@.logs, *f, *now),
    {
        let ghost rows = self@.logs;
        let ghost target = matching(rows, *f, *now);
        let mut all: Vec<SyncLogEntry> = Vec::new();
        let mut i: usize = self.logs.len();
        assert(rows.take(i as int) =~= rows);
        assert(views(all@) + matching(rows, *f, *now) =~= target);
        while i > 0
            invariant
                i <= self.logs.len(),
                rows == views(self.logs@),
                views(all@) + matching(rows.take(i as int), *f, *now) == target,
            decreases i,
        {
            let r: &LogRow = &self.logs[i - 1];
            let ghost older = matching(rows.take(i - 1), *f, *now);
            proof {
                assert(rows.take(i as int).last() == r@);
                assert(rows.take(i as int).drop_last() =~= rows.take(i - 1));
            }
            if asked_for(r, f) {
                let e: SyncLogEntry = entry_of_row(r, now);
                proof {
                    lemma_views_push(all@, e);
                    assert(views(all@) + (seq![e@] + older) =~= views(all@).push(e@) + older);
                }
                all.push(e);
            }
            i = i - 1;
        }
        assert(views(all@) =~= target);
        let len: usize = all.len();
        let offset: u64 = if f.offset > i64::MAX as u64 { 0 } else { f.offset };
        let start: usize = if offset > len as u64 { len } else { offset as usize };
        let limit: u64 = if f.limit < 1 { 1 } else { f.limit };
        let end: usize = if f.limit > i64::MAX as u64 || limit > (len - start) as u64 {
            len
        } else {
            start + limit as usize
        };
        let mut out: Vec<SyncLogEntry> = Vec::new();
        let mut k: usize = start;
        assert(target.subrange(start as int, k as int) =~= Seq::empty());
        while k < end
            invariant
                start <= k <= end,
                end <= all.len(),
                views(all@) == target,
                views(out@) == target.subrange(start as int, k as int),
            decreases end - k,
        {
            let e: SyncLogEntry = all[k].clone();
            proof {
                lemma_views_push(out@, e);
                assert(e@ == target[k as int]);
                assert(target.subrange(start as int, k + 1) =~= target.subrange(
                    start as int,
                    k as int,
                ).push(e@));
            }
            out.push(e);
            k = k + 1;
        }
        out
    }

    /// The entries asked for, the newest first.
    pub fn get_logs(&self, f: &LogFilter) -> (r: Vec<SyncLogEntry>)
        ensures
            exists|now: Timestamp| views(r@) == #[trigger] log_page(self@.logs, *f, now),
    {
        let now: Timestamp = clock();
        self.get_logs_at(f, &now)
    }
}

// ---- laws ----

/// Whether the ids of log rows rise, up to the highest that was given.
pub open spec fn ids_rise(db: SyncDbV) -> bool {
    &&& forall|i: int, j: int|
        0 <= i < j < db.logs.len() ==> (#[trigger] db.logs[i]).id < (#[trigger] db.logs[j]).id
    &&& forall|i: int| 0 <= i < db.logs.len() ==> (#[trigger] db.logs[i]).id <= db.last_log_id
}

/// Adding and cutting keep the ids rising.
pub proof fn law_log_ids_rise(db: SyncDbV, e: SyncLogEntryV, keep: u64)
    requires
        ids_rise(db),
    ensures
        ids_rise(with_log(db, e)),
        ids_rise(SyncDbV { logs: newest(db.logs, keep), ..db }),
{
}

/// Whether the log holds no more than what a cut keeps and what was added since.
pub open spec fn bounded(db: SyncDbV) -> bool {
    &&& 0 <= db.last_log_id
    &&& db.logs.len() <= LOG_KEEP + db.last_log_id % 100
}

/// The log stays within the entries kept at a cut and those added since.
pub proof fn law_log_stays_bounded(db: SyncDbV, e: SyncLogEntryV)
    requires
        bounded(db),
    ensures
        bounded(with_log(db, e)),
        with_log(db, e).logs.len() < LOG_KEEP + 100,
{
}

/// An entry that was added is the newest of those asked for without conditions.
pub proof fn law_added_entry_is_newest(db: SyncDbV, e: SyncLogEntryV, now: Timestamp)
    requires
        next_log_id(db) is Ok,
    ensures
        with_log(db, e).logs.last() == log_row(e, next_log_id(db)->Ok_0),
        matching(
            with_log(db, e).logs,
            LogFilter { direction: None, protocol: None, event_type: None, limit: 0, offset: 0 },
            now,
        )[0] == entry_of(log_row(e, next_log_id(db)->Ok_0), now),
{
    let f = LogFilter { direction: None, protocol: None, event_type: None, limit: 0, offset: 0 };
    let rows = with_log(db, e).logs;
    assert(rows.len() > 0);
    assert(matching(rows, f, now) == seq![entry_of(rows.last(), now)] + matching(
        rows.drop_last(),
        f,
        now,
    ));
}

proof fn lemma_matching_member(rows: Seq<LogRowV>, f: LogFilter, now: Timestamp, i: int) -> (k: int)
    requires
        0 <= i < matching(rows, f, now).len(),
    ensures
        0 <= k < rows.len(),
        passes(rows[k], f),
        matching(rows, f, now)[i] == entry_of(rows[k], now),
    decreases rows.len(),
{
    let rest = rows.drop_last();
    if passes(rows.last(), f) {
        if i == 0 {
            rows.len() - 1
        } else {
            lemma_matching_member(rest, f, now, i - 1)
        }
    } else {
        lemma_matching_member(rest, f, now, i)
    }
}

proof fn lemma_matching_keeps(rows: Seq<LogRowV>, f: LogFilter, now: Timestamp, k: int) -> (i: int)
    requires
        0 <= k < rows.len(),
        passes(rows[k], f),
    ensures
        0 <= i < matching(rows, f, now).len(),
        matching(rows, f, now)[i] == entry_of(rows[k], now),
    decreases rows.len(),
{
    let rest = rows.drop_last();
    if k == rows.len() - 1 {
        0
    } else {
        let i = lemma_matching_keeps(rest, f, now, k);
        if passes(rows.last(), f) {
            i + 1
        } else {
            i
        }
    }
}

proof fn lemma_matching_len(rows: Seq<LogRowV>, f: LogFilter, now: Timestamp)
    ensures
        matching(rows, f, now).len() <= rows.len(),
    decreases rows.len(),
{
    if rows.len() > 0 {
        lemma_matching_len(rows.drop_last(), f, now);
    }
}

proof fn lemma_matching_order(rows: Seq<LogRowV>, f: LogFilter, now: Timestamp, i: int, j: int)
    requires
        forall|a: int, b: int|
            0 <= a < b < rows.len() ==> (#[trigger] rows[a]).id < (#[trigger] rows[b]).id,
        0 <= i < j < matching(rows, f, now).len(),
    ensures
        matching(rows, f, now)[i].id->0 > matching(rows, f, now)[j].id->0,
    decreases rows.len(),
{
    let rest = rows.drop_last();
    assert forall|a: int, b: int| 0 <= a < b < rest.len() implies (#[trigger] rest[a]).id < (
    #[trigger] rest[b]).id by {
        assert(rest[a] == rows[a] && rest[b] == rows[b]);
    }
    if passes(rows.last(), f) {
        if i == 0 {
            let k = lemma_matching_member(rest, f, now, j - 1);
            assert(rest[k] == rows[k]);
            assert(rows[k].id < rows[rows.len() - 1].id);
        } else {
            lemma_matching_order(rest, f, now, i - 1, j - 1);
        }
    } else {
        lemma_matching_order(rest, f, now, i, j);
    }
}

/// Every entry of a page has the direction, the protocol and the event type that were asked
/// for, each where one was. (The protocol of the cloud store has no name to read back from.)
pub proof fn law_page_has_what_was_asked(rows: Seq<LogRowV>, f: LogFilter, now: Timestamp, i: int)
    requires
        0 <= i < log_page(rows, f, now).len(),
    ensures
        f.direction matches Some(d) ==> log_page(rows, f, now)[i].direction == d,
        f.event_type matches Some(e) ==> log_page(rows, f, now)[i].event_type == e,
        f.protocol matches Some(p) ==> p != SyncProtocol::D1 ==> log_page(rows, f, now)[i].protocol
            == p,
{
    let all = matching(rows, f, now);
    let k = lemma_matching_member(rows, f, now, page_start(all.len(), f) + i);
    let d = match f.direction {
        Some(d) => d,
        None => SyncDirection::In,
    };
    let p = match f.protocol {
        Some(p) => if p == SyncProtocol::D1 {
            SyncProtocol::Http
        } else {
            p
        },
        None => SyncProtocol::Http,
    };
    let e = match f.event_type {
        Some(e) => e,
        None => SyncEventType::Sync,
    };
    law_names_read_back(d, p, e, SyncStatus::Success);
}

/// Whether an entry tells what a row holds: its id, its peer, its text, its details and its
/// size, and its words by the names under which they are stored.
pub open spec fn tells(e: SyncLogEntryV, r: LogRowV) -> bool {
    &&& e.id == Some(r.id)
    &&& e.peer_id == r.peer_id
    &&& e.message == r.message
    &&& e.details == r.details
    &&& r.data_size is None <==> e.data_size is None
    &&& forall|d: SyncDirection| r.direction == #[trigger] d.text() ==> e.direction == d
    &&& forall|p: SyncProtocol|
        r.protocol == #[trigger] p.text() && p != SyncProtocol::D1 ==> e.protocol == p
    &&& forall|t: SyncEventType| r.event_type == #[trigger] t.text() ==> e.event_type == t
    &&& forall|s: SyncStatus| r.status == #[trigger] s.text() ==> e.status == s
    &&& forall|t: Timestamp|
        r.timestamp == #[trigger] time_text(t) && reads_back(t) ==> e.timestamp == t
}

proof fn lemma_entry_tells(r: LogRowV, now: Timestamp)
    ensures
        tells(entry_of(r, now), r),
{
    let e = entry_of(r, now);
    assert forall|d: SyncDirection| r.direction == #[trigger] d.text() implies e.direction == d by {
        law_names_read_back(d, SyncProtocol::Http, SyncEventType::Sync, SyncStatus::Success);
    }
    assert forall|p: SyncProtocol|
        r.protocol == #[trigger] p.text() && p != SyncProtocol::D1 implies e.protocol == p by {
        law_names_read_back(SyncDirection::In, p, SyncEventType::Sync, SyncStatus::Success);
    }
    assert forall|t: SyncEventType| r.event_type == #[trigger] t.text() implies e.event_type
        == t by {
        law_names_read_back(SyncDirection::In, SyncProtocol::Http, t, SyncStatus::Success);
    }
    assert forall|s: SyncStatus| r.status == #[trigger] s.text() implies e.status == s by {
        law_names_read_back(SyncDirection::In, SyncProtocol::Http, SyncEventType::Sync, s);
    }
}

/// Every entry of a page tells a row of the log, one with the words asked for.
pub proof fn law_page_tells_rows(
    rows: Seq<LogRowV>,
    f: LogFilter,
    now: Timestamp,
    i: int,
) -> (k: int)
    requires
        0 <= i < log_page(rows, f, now).len(),
    ensures
        0 <= k < rows.len(),
        tells(log_page(rows, f, now)[i], rows[k]),
        f.direction matches Some(d) ==> rows[k].direction == d.text(),
        f.protocol matches Some(p) ==> rows[k].protocol == p.text(),
        f.event_type matches Some(e) ==> rows[k].event_type == e.text(),
{
    let all = matching(rows, f, now);
    let k = lemma_matching_member(rows, f, now, page_start(all.len(), f) + i);
    lemma_entry_tells(rows[k], now);
    k
}

/// A page from the start that is long enough leaves no row out that has the words asked for.
pub proof fn law_page_leaves_nothing_out(
    rows: Seq<LogRowV>,
    f: LogFilter,
    now: Timestamp,
    k: int,
) -> (i: int)
    requires
        0 <= k < rows.len(),
        f.offset == 0,
        rows.len() <= f.limit,
        f.direction matches Some(d) ==> rows[k].direction == d.text(),
        f.protocol matches Some(p) ==> rows[k].protocol == p.text(),
        f.event_type matches Some(e) ==> rows[k].event_type == e.text(),
    ensures
        0 <= i < log_page(rows, f, now).len(),
        tells(log_page(rows, f, now)[i], rows[k]),
{
    lemma_matching_len(rows, f, now);
    lemma_entry_tells(rows[k], now);
    lemma_matching_keeps(rows, f, now, k)
}

/// Without a condition a page that is long enough has every row of the log.
pub proof fn law_whole_log_is_shown(rows: Seq<LogRowV>, f: LogFilter, now: Timestamp)
    requires
        f.offset == 0,
        rows.len() <= f.limit,
        f.direction is None && f.protocol is None && f.event_type is None,
    ensures
        log_page(rows, f, now).len() == rows.len(),
    decreases rows.len(),
{
    if rows.len() > 0 {
        law_whole_log_is_shown(rows.drop_last(), f, now);
    }
    lemma_matching_len(rows, f, now);
}

/// A page has the newest entries first.
pub proof fn law_page_is_newest_first(
    db: SyncDbV,
    f: LogFilter,
    now: Timestamp,
    i: int,
    j: int,
)
    requires
        ids_rise(db),
        0 <= i < j < log_page(db.logs, f, now).len(),
    ensures
        log_page(db.logs, f, now)[i].id->0 > log_page(db.logs, f, now)[j].id->0,
{
    let start = page_start(matching(db.logs, f, now).len(), f);
    lemma_matching_order(db.logs, f, now, start + i, start + j);
}

/// A page has no more entries than its limit, a limit of nothing counting as one; the pages
/// that follow one another have together what one page of both lengths has.
pub proof fn law_pages_join(rows: Seq<LogRowV>, f: LogFilter, more: u64, now: Timestamp)
    requires
        1 <= f.limit,
        1 <= more,
        f.offset + f.limit <= i64::MAX,
        f.limit + more <= i64::MAX,
    ensures
        log_page(rows, f, now).len() <= f.limit,
        log_page(rows, LogFilter { limit: (f.limit + more) as u64, ..f }, now) == log_page(
            rows,
            f,
            now,
        ) + log_page(
            rows,
            LogFilter { offset: (f.offset + f.limit) as u64, limit: more, ..f },
            now,
        ),
        log_page(rows, LogFilter { limit: 0, ..f }, now) == log_page(
            rows,
            LogFilter { limit: 1, ..f },
            now,
        ),
{
    let g = LogFilter { limit: (f.limit + more) as u64, ..f };
    let h = LogFilter { offset: (f.offset + f.limit) as u64, limit: more, ..f };
    let z = LogFilter { limit: 0, ..f };
    let o = LogFilter { limit: 1, ..f };
    lemma_same_matching(rows, f, g, now);
    lemma_same_matching(rows, f, h, now);
    lemma_same_matching(rows, f, z, now);
    lemma_same_matching(rows, f, o, now);
    assert(log_page(rows, g, now) =~= log_page(rows, f, now) + log_page(rows, h, now));
}

proof fn lemma_same_matching(rows: Seq<LogRowV>, f: LogFilter, g: LogFilter, now: Timestamp)
    requires
        f.direction == g.direction,
        f.protocol == g.protocol,
        f.event_type == g.event_type,
    ensures
        matching(rows, f, now) == matching(rows, g, now),
    decreases rows.len(),
{
    if rows.len() > 0 {
        lemma_same_matching(rows.drop_last(), f, g, now);
    }
}

/// A cut keeps the newest rows as they are, and as many as it is told, as far as there are
/// that many; other tables stay.
pub proof fn law_cut_keeps_the_newest(rows: Seq<LogRowV>, keep: u64)
    ensures
        rows.len() <= keep ==> newest(rows, keep) == rows,
        keep <= rows.len() && keep <= i64::MAX ==> newest(rows, keep).len() == keep,
        forall|i: int|
            0 <= i < newest(rows, keep).len() ==> #[trigger] newest(rows, keep)[i] == rows[rows.len()
                - newest(rows, keep).len() + i],
{
}

/// An entry that was added is the first of the page that is asked for without conditions, and
/// of the page asked for with its own words, and it reads back as it was written, under the id
/// that was given. Up to the next cut the older rows stay.
pub proof fn law_added_entry_reads_back(
    db: SyncDbV,
    e: SyncLogEntryV,
    f: LogFilter,
    now: Timestamp,
)
    requires
        db.last_log_id < i64::MAX,
        f.offset == 0,
        f.direction matches Some(d) ==> d == e.direction,
        f.protocol matches Some(p) ==> p == e.protocol,
        f.event_type matches Some(t) ==> t == e.event_type,
    ensures
        next_log_id(db) == Ok::<i64, Seq<char>>((db.last_log_id + 1) as i64),
        with_log(db, e).last_log_id == db.last_log_id + 1,
        ({
            let page = log_page(with_log(db, e).logs, f, now);
            &&& page.len() > 0
            &&& page[0].id == Some((db.last_log_id + 1) as i64)
            &&& page[0].direction == e.direction
            &&& e.protocol != SyncProtocol::D1 ==> page[0].protocol == e.protocol
            &&& page[0].event_type == e.event_type
            &&& page[0].status == e.status
            &&& page[0].peer_id == e.peer_id
            &&& page[0].message == e.message
            &&& page[0].data_size == e.data_size
            &&& page[0].details == e.details
            &&& reads_back(e.timestamp) ==> page[0].timestamp == e.timestamp
        }),
        (db.last_log_id + 1) % 100 != 0 ==> with_log(db, e).logs.drop_last() == db.logs,
        (db.last_log_id + 1) % 100 == 0 ==> with_log(db, e).logs.len() <= LOG_KEEP,
{
    let rows = with_log(db, e).logs;
    let all = matching(rows, f, now);
    assert(rows.len() > 0);
    assert(passes(rows.last(), f));
    assert(all == seq![entry_of(rows.last(), now)] + matching(rows.drop_last(), f, now));
    let p = if e.protocol == SyncProtocol::D1 {
        SyncProtocol::Http
    } else {
        e.protocol
    };
    law_names_read_back(e.direction, p, e.event_type, e.status);
    match e.data_size {
        Some(n) => {
            law_size_reads_back(n);
        },
        None => {},
    }
    if (db.last_log_id + 1) % 100 != 0 {
        assert(rows.drop_last() =~= db.logs);
    }
}

/// The log leaves the other tables alone.
pub proof fn law_log_is_apart(db: SyncDbV, e: SyncLogEntryV)
    ensures
        with_log(db, e) == (SyncDbV {
            logs: with_log(db, e).logs,
            last_log_id: with_log(db, e).last_log_id,
            ..db
        }),
        db.last_log_id == i64::MAX ==> with_log(db, e) == db && next_log_id(db) == Err::<
            i64,
            Seq<char>,
        >("database or disk is full"@),
{
}

} // verus!
