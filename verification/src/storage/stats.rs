//! Statistics on the synchronisation with a device, worked out from the log.

use vstd::prelude::*;

use crate::models::{lemma_views_push, seconds_between, views, whole, DeviceSyncStats, DeviceSyncStatsV, SyncDirection, SyncEventType, SyncLogEntryV, SyncStatus, Timestamp};
use crate::outside::clock;
use crate::storage::bin::with_conflict;
use crate::storage::devices::{device_row, time_text};
use crate::storage::logs::{log_row, with_log};
use crate::storage::order::{in_order, ints, law_newest_first, lemma_filter_ends, lemma_filter_len, lemma_filter_member, lemma_filter_step, newest_first, order_newest_first};
use crate::storage::{parse_dt, stored_time, ConflictRowV, LogRow, LogRowV, SyncDb, SyncDbV};
use crate::text::{all_digits, ascii_lowered, chars_of, contains, decimal, digits_value, is_digit, le, lemma_digits, lemma_text_le_antisymmetric, lemma_text_le_total, occurs_in, same, skip_chars, text_le, to_ascii_lower, Outcome};

verus! {

// ---- numbers in messages ----

/// Where a character first occurs.
pub open spec fn position(s: Seq<char>, c: char) -> Option<int>
    decreases s.len(),
{
    if s.len() == 0 {
        None
    } else if s[0] == c {
        Some(0)
    } else {
        match position(s.drop_first(), c) {
            Some(i) => Some(i + 1),
            None => None,
        }
    }
}

/// What follows the first colon; all of it where there is none.
pub open spec fn after_colon(s: Seq<char>) -> Seq<char> {
    match position(s, ':') {
        Some(i) => s.skip(i + 1),
        None => s,
    }
}

/// White space that may stand before a number.
pub open spec fn is_blank(c: char) -> bool {
    c == ' ' || 9 <= c as int <= 13
}

/// `s` without leading blanks.
pub open spec fn unindented(s: Seq<char>) -> Seq<char>
    decreases s.len(),
{
    if s.len() > 0 && is_blank(s[0]) {
        unindented(s.drop_first())
    } else {
        s
    }
}

/// The value of the digits at the start of `s`, continued from `acc` and cut off at `cap`.
pub open spec fn leading_value(s: Seq<char>, acc: int, cap: int) -> int
    decreases s.len(),
{
    if s.len() > 0 && is_digit(s[0]) {
        let next = acc * 10 + (s[0] as int - 48);
        leading_value(
            s.drop_first(),
            if next > cap {
                cap
            } else {
                next
            },
            cap,
        )
    } else {
        acc
    }
}

/// The integer at the start of a text, after blanks and a sign: zero where there is none, and
/// held within 64 bits.
pub open spec fn leading_integer(s: Seq<char>) -> int {
    let t = unindented(s);
    if t.len() > 0 && t[0] == '-' {
        -leading_value(t.drop_first(), 0, i64::MAX + 1)
    } else if t.len() > 0 && t[0] == '+' {
        leading_value(t.drop_first(), 0, i64::MAX as int)
    } else {
        leading_value(t, 0, i64::MAX as int)
    }
}

fn read_leading_value(chars: &Vec<char>, from: usize, cap: i128) -> (r: i128)
    requires
        from <= chars.len(),
        0 < cap <= 0x8000_0000_0000_0000,
    ensures
        r == leading_value(chars@.skip(from as int), 0, cap as int),
        0 <= r <= cap,
{
    let mut acc: i128 = 0;
    let mut i: usize = from;
    while i < chars.len() && '0' <= chars[i] && chars[i] <= '9'
        invariant
            from <= i <= chars.len(),
            0 <= acc <= cap,
            0 < cap <= 0x8000_0000_0000_0000,
            leading_value(chars@.skip(from as int), 0, cap as int) == leading_value(
                chars@.skip(i as int),
                acc as int,
                cap as int,
            ),
        decreases chars.len() - i,
    {
        let c: char = chars[i];
        assert(chars@.skip(i as int)[0] == c);
        assert(chars@.skip(i as int).drop_first() =~= chars@.skip(i + 1));
        let d: u32 = c as u32 - 48;
        let next: i128 = acc * 10 + d as i128;
        acc = if next > cap { cap } else { next };
        i = i + 1;
    }
    acc
}

fn blank(c: char) -> (r: bool)
    ensures
        r == is_blank(c),
{
    let n: u32 = c as u32;
    c == ' ' || (9 <= n && n <= 13)
}

fn read_leading_integer(s: &str) -> (r: i64)
    ensures
        r == leading_integer(s@),
{
    let chars: Vec<char> = chars_of(s);
    let mut i: usize = 0;
    assert(chars@.skip(0) =~= s@);
    while i < chars.len() && blank(chars[i])
        invariant
            i <= chars.len(),
            unindented(s@) == unindented(chars@.skip(i as int)),
        decreases chars.len() - i,
    {
        assert(chars@.skip(i as int)[0] == chars@[i as int]);
        assert(chars@.skip(i as int).drop_first() =~= chars@.skip(i + 1));
        i = i + 1;
    }
    let ghost t = chars@.skip(i as int);
    assert(unindented(s@) == t);
    if i < chars.len() {
        assert(t[0] == chars@[i as int]);
        assert(t.drop_first() =~= chars@.skip(i + 1));
        if chars[i] == '-' {
            return (-read_leading_value(&chars, i + 1, 0x8000_0000_0000_0000)) as i64;
        }
        if chars[i] == '+' {
            return read_leading_value(&chars, i + 1, i64::MAX as i128) as i64;
        }
    }
    read_leading_value(&chars, i, i64::MAX as i128) as i64
}

fn text_after_colon(s: &str) -> (r: String)
    ensures
        r@ == after_colon(s@),
{
    let chars: Vec<char> = chars_of(s);
    let mut i: usize = 0;
    assert(chars@.skip(0) =~= s@);
    while i < chars.len()
        invariant
            i <= chars.len(),
            chars@ == s@,
            position(s@, ':') == (match position(chars@.skip(i as int), ':') {
                Some(k) => Some(k + i),
                None => None,
            }),
        decreases chars.len() - i,
    {
        assert(chars@.skip(i as int)[0] == chars@[i as int]);
        assert(chars@.skip(i as int).drop_first() =~= chars@.skip(i + 1));
        if chars[i] == ':' {
            return skip_chars(s, i + 1);
        }
        i = i + 1;
    }
    s.to_string()
}

// ---- sums ----

/// The sum of numbers; none where it, or a sum on the way to it, leaves 64 bits.
pub open spec fn checked_sum(s: Seq<int>) -> Option<int>
    decreases s.len(),
{
    if s.len() == 0 {
        Some(0)
    } else {
        match checked_sum(s.drop_last()) {
            Some(t) => if i64::MIN <= t + s.last() <= i64::MAX {
                Some(t + s.last())
            } else {
                None
            },
            None => None,
        }
    }
}

// ---- selections of the log ----

/// The test for synchronisations with a device that ended in a given way.
pub open spec fn syncs(device_id: Seq<char>, status: Seq<char>) -> spec_fn(LogRowV) -> bool {
    |r: LogRowV| r.peer_id == Some(device_id) && r.event_type == "sync"@ && r.status == status
}

/// The test for synchronisations with a device that succeeded and carried everything over.
pub open spec fn full_syncs(device_id: Seq<char>) -> spec_fn(LogRowV) -> bool {
    |r: LogRowV| (syncs(device_id, "success"@))(r) && (r.message matches Some(m) && is_full(m))
}

/// Whether a message speaks of a full synchronisation.
pub open spec fn is_full(m: Seq<char>) -> bool {
    occurs_in("全量"@, m) || occurs_in("full"@, ascii_lowered(m))
}

/// The test for successful synchronisations that came from a device.
pub open spec fn incoming_syncs(device_id: Seq<char>) -> spec_fn(LogRowV) -> bool {
    |r: LogRowV| (syncs(device_id, "success"@))(r) && r.direction == "in"@
}

/// The sizes noted in rows; zero where none is.
pub open spec fn sizes(rows: Seq<LogRowV>) -> Seq<int> {
    Seq::new(
        rows.len(),
        |i: int|
            match rows[i].data_size {
                Some(n) => n as int,
                None => 0,
            },
    )
}

/// The numbers noted in the messages of rows; zero where there is no message.
pub open spec fn message_numbers(rows: Seq<LogRowV>) -> Seq<int> {
    Seq::new(
        rows.len(),
        |i: int|
            match rows[i].message {
                Some(m) => leading_integer(after_colon(m)),
                None => 0,
            },
    )
}

/// The times of rows, as they are stored.
pub open spec fn stamps(rows: Seq<LogRowV>) -> Seq<Seq<char>> {
    Seq::new(rows.len(), |i: int| rows[i].timestamp)
}

/// The row with the latest time; the first of several.
pub open spec fn latest(rows: Seq<LogRowV>) -> Option<LogRowV>
    decreases rows.len(),
{
    if rows.len() == 0 {
        None
    } else {
        match latest(rows.drop_last()) {
            Some(b) => if text_le(rows.last().timestamp, b.timestamp) {
                Some(b)
            } else {
                Some(rows.last())
            },
            None => Some(rows.last()),
        }
    }
}

// ---- frequency ----

/// The times of the latest rows, ten at most, the latest first.
pub open spec fn latest_times(rows: Seq<LogRowV>, now: Timestamp) -> Seq<Timestamp> {
    let order = newest_first(stamps(rows));
    Seq::new(
        if order.len() < 10 {
            order.len()
        } else {
            10
        },
        |k: int| stored_time(rows[order[k]].timestamp, now),
    )
}

/// The sum of the first `n` gaps between times, in whole minutes.
pub open spec fn gap_minutes(times: Seq<Timestamp>, n: nat) -> int
    decreases n,
{
    if n == 0 {
        0
    } else {
        gap_minutes(times, (n - 1) as nat) + whole(
            seconds_between(times[n as int].ns(), times[n - 1].ns()),
            60,
        )
    }
}

/// The average gap between the latest synchronisations, in minutes; none where there are
/// fewer than two.
pub open spec fn frequency(rows: Seq<LogRowV>, now: Timestamp) -> Option<i32> {
    let times = latest_times(rows, now);
    if times.len() < 2 {
        None
    } else {
        Some(whole(gap_minutes(times, (times.len() - 1) as nat), times.len() - 1) as i32)
    }
}

// ---- all of it ----

/// The test for conflicts with a device that are still being handled: nothing is noted on them,
/// or that they are unresolved.
pub open spec fn open_conflicts(device_id: Seq<char>) -> spec_fn(ConflictRowV) -> bool {
    |r: ConflictRowV|
        r.device_id == device_id && (r.resolution.len() == 0 || r.resolution == "unresolved"@)
}

/// The number of local notes; zero where it is not known or too large.
pub open spec fn local_notes(n: Option<u32>) -> i32 {
    match n {
        Some(n) => if n <= i32::MAX {
            n as i32
        } else {
            0
        },
        None => 0,
    }
}

/// The number of notes that came from a device, as far as its messages tell; zero where it is
/// too large.
pub open spec fn remote_notes(rows: Seq<LogRowV>, device_id: Seq<char>) -> i32 {
    match checked_sum(message_numbers(rows.filter(incoming_syncs(device_id)))) {
        Some(n) => if i32::MIN <= n <= i32::MAX {
            n as i32
        } else {
            0
        },
        None => 0,
    }
}

/// The statistics on a device, or why there are none.
pub open spec fn stats_of(db: SyncDbV, id: Seq<char>, now: Timestamp) -> Outcome<DeviceSyncStatsV> {
    let done = db.logs.filter(syncs(id, "success"@));
    match checked_sum(sizes(done)) {
        None => Err("integer overflow"@),
        Some(size) => match device_row(db.devices, id) {
            None => Err("Query returned no rows"@),
            Some(row) => {
                let error = match latest(db.logs.filter(syncs(id, "failed"@))) {
                    Some(r) => match r.message {
                        Some(m) => Some((m, r.timestamp)),
                        None => None,
                    },
                    None => None,
                };
                Ok(
                    DeviceSyncStatsV {
                        device_id: id,
                        pending_push_count: 0,
                        pending_conflict_count: db.conflicts.filter(
                            open_conflicts(id),
                        ).len() as i32,
                        total_synced_count: done.len() as i64,
                        total_synced_size: size as i64,
                        local_note_count: local_notes(db.inbox_notes),
                        remote_note_count: remote_notes(db.logs, id),
                        last_sync_at: row.last_sync_at,
                        last_full_sync_at: match latest(db.logs.filter(full_syncs(id))) {
                            Some(r) => Some(r.timestamp),
                            None => None,
                        },
                        sync_frequency_minutes: frequency(done, now),
                        last_error: match error {
                            Some(p) => Some(p.0),
                            None => None,
                        },
                        last_error_at: match error {
                            Some(p) => Some(p.1),
                            None => None,
                        },
                    },
                )
            },
        },
    }
}

/// The outcome of working out statistics.
pub open spec fn stats_outcome(r: Result<DeviceSyncStats, String>) -> Outcome<DeviceSyncStatsV> {
    match r {
        Ok(s) => Ok(s@),
        Err(e) => Err(e@),
    }
}

/// Which log rows are asked for.
enum Pick {
    Done,
    Failed,
    Full,
    Incoming,
}

impl Pick {
    spec fn test(self, id: Seq<char>) -> spec_fn(LogRowV) -> bool {
        match self {
            Pick::Done => syncs(id, "success"@),
            Pick::Failed => syncs(id, "failed"@),
            Pick::Full => full_syncs(id),
            Pick::Incoming => incoming_syncs(id),
        }
    }

    fn passes(&self, id: &str, r: &LogRow) -> (b: bool)
        ensures
            b == (self.test(id@))(r@),
    {
        let peer: bool = match &r.peer_id {
            Some(p) => same(p.as_str(), id),
            None => false,
        };
        if !peer || !same(r.event_type.as_str(), "sync") {
            return false;
        }
        match self {
            Pick::Done => same(r.status.as_str(), "success"),
            Pick::Failed => same(r.status.as_str(), "failed"),
            Pick::Full => same(r.status.as_str(), "success") && match &r.message {
                Some(m) => contains(m.as_str(), "全量") || contains(
                    to_ascii_lower(m.as_str()).as_str(),
                    "full",
                ),
                None => false,
            },
            Pick::Incoming => same(r.status.as_str(), "success") && same(
                r.direction.as_str(),
                "in",
            ),
        }
    }
}

/// The rows at some positions.
spec fn at_positions(rows: Seq<LogRowV>, picked: Seq<usize>) -> Seq<LogRowV> {
    Seq::new(picked.len(), |k: int| rows[picked[k] as int])
}

impl SyncDb {
    fn pick_logs(&self, pick: &Pick, id: &str) -> (r: Vec<usize>)
        ensures
            forall|k: int| 0 <= k < r.len() ==> #[trigger] r@[k] < self.logs.len(),
            at_positions(self@.logs, r@) == self@.logs.filter(pick.test(id@)),
    {
        let ghost rows = self@.logs;
        let ghost p = pick.test(id@);
        let mut out: Vec<usize> = Vec::new();
        let mut i: usize = 0;
        proof {
            lemma_filter_ends(rows, p);
        }
        assert(at_positions(rows, out@) =~= rows.take(0).filter(p));
        while i < self.logs.len()
            invariant
                i <= self.logs.len(),
                rows == views(self.logs@),
                p == pick.test(id@),
                forall|k: int| 0 <= k < out.len() ==> #[trigger] out@[k] < i,
                at_positions(rows, out@) == rows.take(i as int).filter(p),
            decreases self.logs.len() - i,
        {
            assert(rows[i as int] == self.logs@[i as int]@);
            proof {
                lemma_filter_step(rows, i as int, p);
            }
            if pick.passes(id, &self.logs[i]) {
                let ghost before = out@;
                out.push(i);
                assert(at_positions(rows, out@) =~= at_positions(rows, before).push(
                    rows[i as int],
                ));
            }
            i = i + 1;
        }
        proof {
            lemma_filter_ends(rows, p);
        }
        out
    }

    fn sum_sizes(&self, picked: &Vec<usize>) -> (r: Option<i64>)
        requires
            forall|k: int| 0 <= k < picked.len() ==> #[trigger] picked@[k] < self.logs.len(),
        ensures
            match r {
                Some(n) => checked_sum(sizes(at_positions(self@.logs, picked@))) == Some(n as int),
                None => checked_sum(sizes(at_positions(self@.logs, picked@))) is None,
            },
    {
        let ghost all = sizes(at_positions(self@.logs, picked@));
        let mut sum: i64 = 0;
        let mut k: usize = 0;
        while k < picked.len()
            invariant
                k <= picked.len(),
                all == sizes(at_positions(self@.logs, picked@)),
                forall|j: int| 0 <= j < picked.len() ==> #[trigger] picked@[j] < self.logs.len(),
                checked_sum(all.take(k as int)) == Some(sum as int),
            decreases picked.len() - k,
        {
            let n: i64 = match self.logs[picked[k]].data_size {
                Some(n) => n,
                None => 0,
            };
            proof {
                assert(all[k as int] == n);
                assert(all.take(k + 1).drop_last() =~= all.take(k as int));
                assert(all.take(k + 1).last() == n);
            }
            match sum.checked_add(n) {
                Some(s) => {
                    sum = s;
                },
                None => {
                    proof {
                        lemma_sum_stays_lost(all, k + 1);
                    }
                    return None;
                },
            }
            k = k + 1;
        }
        assert(all.take(k as int) =~= all);
        Some(sum)
    }

    fn sum_message_numbers(&self, picked: &Vec<usize>) -> (r: Option<i64>)
        requires
            forall|k: int| 0 <= k < picked.len() ==> #[trigger] picked@[k] < self.logs.len(),
        ensures
            match r {
                Some(n) => checked_sum(message_numbers(at_positions(self@.logs, picked@))) == Some(
                    n as int,
                ),
                None => checked_sum(message_numbers(at_positions(self@.logs, picked@))) is None,
            },
    {
        let ghost all = message_numbers(at_positions(self@.logs, picked@));
        let mut sum: i64 = 0;
        let mut k: usize = 0;
        while k < picked.len()
            invariant
                k <= picked.len(),
                all == message_numbers(at_positions(self@.logs, picked@)),
                forall|j: int| 0 <= j < picked.len() ==> #[trigger] picked@[j] < self.logs.len(),
                checked_sum(all.take(k as int)) == Some(sum as int),
            decreases picked.len() - k,
        {
            let n: i64 = match &self.logs[picked[k]].message {
                Some(m) => read_leading_integer(text_after_colon(m.as_str()).as_str()),
                None => 0,
            };
            proof {
                assert(all[k as int] == n);
                assert(all.take(k + 1).drop_last() =~= all.take(k as int));
                assert(all.take(k + 1).last() == n);
            }
            match sum.checked_add(n) {
                Some(s) => {
                    sum = s;
                },
                None => {
                    proof {
                        lemma_sum_stays_lost(all, k + 1);
                    }
                    return None;
                },
            }
            k = k + 1;
        }
        assert(all.take(k as int) =~= all);
        Some(sum)
    }

    fn latest_of(&self, picked: &Vec<usize>) -> (r: Option<usize>)
        requires
            forall|k: int| 0 <= k < picked.len() ==> #[trigger] picked@[k] < self.logs.len(),
        ensures
            match r {
                Some(i) => i < self.logs.len() && latest(at_positions(self@.logs, picked@)) == Some(
                    self@.logs[i as int],
                ),
                None => latest(at_positions(self@.logs, picked@)) is None,
            },
    {
        let ghost all = at_positions(self@.logs, picked@);
        let mut best: Option<usize> = None;
        let mut k: usize = 0;
        while k < picked.len()
            invariant
                k <= picked.len(),
                all == at_positions(self@.logs, picked@),
                forall|j: int| 0 <= j < picked.len() ==> #[trigger] picked@[j] < self.logs.len(),
                match best {
                    Some(i) => i < self.logs.len() && latest(all.take(k as int)) == Some(
                        self@.logs[i as int],
                    ),
                    None => latest(all.take(k as int)) is None,
                },
            decreases picked.len() - k,
        {
            let at: usize = picked[k];
            proof {
                assert(all.take(k + 1).drop_last() =~= all.take(k as int));
                assert(all.take(k + 1).last() == self@.logs[at as int]);
            }
            match best {
                Some(b) => {
                    if !le(self.logs[at].timestamp.as_str(), self.logs[b].timestamp.as_str()) {
                        best = Some(at);
                    }
                },
                None => {
                    best = Some(at);
                },
            }
            k = k + 1;
        }
        assert(all.take(k as int) =~= all);
        best
    }

    fn calculate_sync_frequency(&self, picked: &Vec<usize>, now: &Timestamp) -> (r: Option<i32>)
        requires
            forall|k: int| 0 <= k < picked.len() ==> #[trigger] picked@[k] < self.logs.len(),
        ensures
            r == frequency(at_positions(self@.logs, picked@), *now),
    {
        let ghost rows = at_positions(self@.logs, picked@);
        let mut keys: Vec<String> = Vec::new();
        let mut k: usize = 0;
        while k < picked.len()
            invariant
                k <= picked.len(),
                rows == at_positions(self@.logs, picked@),
                forall|j: int| 0 <= j < picked.len() ==> #[trigger] picked@[j] < self.logs.len(),
                views(keys@) == stamps(rows).take(k as int),
            decreases picked.len() - k,
        {
            let key: String = self.logs[picked[k]].timestamp.clone();
            proof {
                lemma_views_push(keys@, key);
                assert(stamps(rows).take(k + 1) =~= stamps(rows).take(k as int).push(key@));
            }
            keys.push(key);
            k = k + 1;
        }
        assert(stamps(rows).take(k as int) =~= stamps(rows));
        let order: Vec<usize> = order_newest_first(&keys);
        let n: usize = if order.len() < 10 { order.len() } else { 10 };
        let ghost target = latest_times(rows, *now);
        let mut times: Vec<Timestamp> = Vec::new();
        let mut i: usize = 0;
        while i < n
            invariant
                i <= n,
                n <= order.len(),
                n == target.len(),
                order.len() == keys.len(),
                keys.len() == picked.len(),
                rows == at_positions(self@.logs, picked@),
                views(keys@) == stamps(rows),
                ints(order@) == newest_first(stamps(rows)),
                target == latest_times(rows, *now),
                forall|j: int| 0 <= j < order.len() ==> #[trigger] order@[j] < keys.len(),
                times@ == target.take(i as int),
            decreases n - i,
        {
            let t: Timestamp = parse_dt(keys[order[i]].as_str(), now);
            proof {
                assert(ints(order@)[i as int] == order@[i as int]);
                assert(views(keys@)[order@[i as int] as int] == rows[order@[i as int] as int].timestamp);
                assert(t == target[i as int]);
                assert(target.take(i + 1) =~= target.take(i as int).push(t));
            }
            times.push(t);
            i = i + 1;
        }
        assert(times@ =~= target);
        if times.len() < 2 {
            return None;
        }
        let mut total: i128 = 0;
        let mut g: usize = 0;
        while g < times.len() - 1
            invariant
                times.len() <= 10,
                2 <= times.len(),
                g <= times.len() - 1,
                total == gap_minutes(times@, g as nat),
                -0x1_0000_0000_0000_0000 * g <= total <= 0x1_0000_0000_0000_0000 * g,
            decreases times.len() - g,
        {
            total = total + times[g].minutes_since(&times[g + 1]);
            g = g + 1;
        }
        let gaps: i128 = (times.len() - 1) as i128;
        let average: i128 = if total >= 0 { total / gaps } else { -((-total) / gaps) };
        Some(average as i32)
    }

    fn count_open_conflicts(&self, id: &str) -> (n: usize)
        ensures
            n == self@.conflicts.filter(open_conflicts(id@)).len(),
    {
        let ghost rows = self@.conflicts;
        let ghost p = open_conflicts(id@);
        let mut n: usize = 0;
        let mut i: usize = 0;
        proof {
            lemma_filter_ends(rows, p);
        }
        while i < self.conflicts.len()
            invariant
                i <= self.conflicts.len(),
                rows == views(self.conflicts@),
                p == open_conflicts(id@),
                n <= i,
                n == rows.take(i as int).filter(p).len(),
            decreases self.conflicts.len() - i,
        {
            assert(rows[i as int] == self.conflicts@[i as int]@);
            proof {
                lemma_filter_step(rows, i as int, p);
            }
            let resolution: &str = self.conflicts[i].resolution.as_str();
            if same(self.conflicts[i].device_id.as_str(), id) && (chars_of(resolution).len() == 0
                || same(resolution, "unresolved")) {
                n = n + 1;
            }
            i = i + 1;
        }
        proof {
            lemma_filter_ends(rows, p);
        }
        n
    }

    /// The number of local notes.
    pub fn get_local_note_count(&self) -> (n: i32)
        ensures
            n == local_notes(self@.inbox_notes),
    {
        match self.inbox_notes {
            Some(n) => if n <= i32::MAX as u32 {
                n as i32
            } else {
                0
            },
            None => 0,
        }
    }

    /// The number of notes that came from a device, as far as the log tells.
    pub fn get_remote_note_count(&self, device_id: &str) -> (n: i32)
        ensures
            n == remote_notes(self@.logs, device_id@),
    {
        let picked: Vec<usize> = self.pick_logs(&Pick::Incoming, device_id);
        match self.sum_message_numbers(&picked) {
            Some(n) => if i32::MIN as i64 <= n && n <= i32::MAX as i64 {
                n as i32
            } else {
                0
            },
            None => 0,
        }
    }

    /// The statistics on a device; `now` stands in for times that cannot be read.
    pub fn get_device_sync_stats_at(&self, device_id: &str, now: &Timestamp) -> (r: Result<
        DeviceSyncStats,
        String,
    >)
        ensures
            stats_outcome(r) == stats_of(self@, device_id@, *now),
    {
        let done: Vec<usize> = self.pick_logs(&Pick::Done, device_id);
        assert(at_positions(self@.logs, done@).len() == done.len());
        let size: i64 = match self.sum_sizes(&done) {
            Some(n) => n,
            None => {
                return Err("integer overflow".to_string());
            },
        };
        let last_sync_at: Option<String> = match self.find_device(device_id) {
            Some(row) => row.last_sync_at.clone(),
            None => {
                return Err("Query returned no rows".to_string());
            },
        };
        let full: Vec<usize> = self.pick_logs(&Pick::Full, device_id);
        let last_full_sync_at: Option<String> = match self.latest_of(&full) {
            Some(i) => Some(self.logs[i].timestamp.clone()),
            None => None,
        };
        let failed: Vec<usize> = self.pick_logs(&Pick::Failed, device_id);
        let mut last_error: Option<String> = None;
        let mut last_error_at: Option<String> = None;
        match self.latest_of(&failed) {
            Some(i) => match &self.logs[i].message {
                Some(m) => {
                    last_error = Some(m.clone());
                    last_error_at = Some(self.logs[i].timestamp.clone());
                },
                None => {},
            },
            None => {},
        }
        let frequency: Option<i32> = self.calculate_sync_frequency(&done, now);
        Ok(
            DeviceSyncStats {
                device_id: device_id.to_string(),
                pending_push_count: 0,
                pending_conflict_count: self.count_open_conflicts(device_id) as i32,
                total_synced_count: done.len() as i64,
                total_synced_size: size,
                local_note_count: self.get_local_note_count(),
                remote_note_count: self.get_remote_note_count(device_id),
                last_sync_at,
                last_full_sync_at,
                sync_frequency_minutes: frequency,
                last_error,
                last_error_at,
            },
        )
    }

    /// The statistics on a device.
    pub fn get_device_sync_stats(&self, device_id: &str) -> (r: Result<DeviceSyncStats, String>)
        ensures
            exists|now: Timestamp|
                stats_outcome(r) == #[trigger] stats_of(self@, device_id@, now),
    {
        let now: Timestamp = clock();
        self.get_device_sync_stats_at(device_id, &now)
    }
}

proof fn lemma_sum_stays_lost(s: Seq<int>, k: int)
    requires
        0 <= k <= s.len(),
        checked_sum(s.take(k)) is None,
    ensures
        checked_sum(s) is None,
    decreases s.len() - k,
{
    if k < s.len() {
        assert(s.take(k + 1).drop_last() =~= s.take(k));
        lemma_sum_stays_lost(s, k + 1);
    } else {
        assert(s.take(k) =~= s);
    }
}

/// The latest row is a row, and no row is later.
pub proof fn law_latest(rows: Seq<LogRowV>)
    ensures
        rows.len() > 0 ==> (latest(rows) matches Some(r) && rows.contains(r) && forall|i: int|
            0 <= i < rows.len() ==> text_le((#[trigger] rows[i]).timestamp, r.timestamp)),
    decreases rows.len(),
{
    if rows.len() > 0 {
        let rest = rows.drop_last();
        law_latest(rest);
        let last = rows.last();
        assert(rows[rows.len() - 1] == last);
        assert forall|i: int| 0 <= i < rest.len() implies #[trigger] rows[i] == rest[i] by {}
        crate::text::lemma_text_le_total(last.timestamp, last.timestamp);
        if rest.len() > 0 {
            let b = latest(rest)->0;
            let j = choose|j: int| 0 <= j < rest.len() && rest[j] == b;
            assert(rows[j] == b);
            crate::text::lemma_text_le_total(last.timestamp, b.timestamp);
            assert forall|i: int| 0 <= i < rows.len() implies text_le(
                (#[trigger] rows[i]).timestamp,
                (latest(rows)->0).timestamp,
            ) by {
                if i < rest.len() {
                    assert(rest[i] == rows[i]);
                    if !text_le(last.timestamp, b.timestamp) {
                        crate::text::lemma_text_le_transitive(
                            rows[i].timestamp,
                            b.timestamp,
                            last.timestamp,
                        );
                    }
                }
            }
        }
    }
}

// ---- laws of counting ----

proof fn lemma_sum_of_one_more(s: Seq<int>, x: int)
    ensures
        checked_sum(s.push(x)) == (match checked_sum(s) {
            Some(t) => if i64::MIN <= t + x <= i64::MAX {
                Some(t + x)
            } else {
                None
            },
            None => None,
        }),
{
    assert(s.push(x).drop_last() =~= s);
}

/// Where there is no such device, or the sizes leave 64 bits, there are no statistics; else there
/// are, on that device and with what is noted of its last synchronisation.
pub proof fn law_statistics_are_on_the_device(db: SyncDbV, id: Seq<char>, now: Timestamp)
    ensures
        device_row(db.devices, id) is None ==> stats_of(db, id, now) is Err,
        stats_of(db, id, now) is Ok <==> device_row(db.devices, id) is Some && checked_sum(
            sizes(db.logs.filter(syncs(id, "success"@))),
        ) is Some,
        stats_of(db, id, now) matches Ok(s) ==> {
            &&& s.device_id == id
            &&& s.last_sync_at == (device_row(db.devices, id)->0).last_sync_at
            &&& s.pending_push_count == 0
            &&& (db.inbox_notes matches Some(n) && n <= i32::MAX) ==> s.local_note_count
                == db.inbox_notes->0
            &&& db.inbox_notes is None ==> s.local_note_count == 0
        },
{
}

/// A synchronisation with a device that succeeded counts for one and adds its size; one that
/// came from the device adds the number that its message tells, and one that went there none.
pub proof fn law_success_is_counted(
    db: SyncDbV,
    e: SyncLogEntryV,
    id: Seq<char>,
    now: Timestamp,
)
    requires
        0 <= db.last_log_id < i64::MAX,
        (db.last_log_id + 1) % 100 != 0,
        db.logs.len() < i64::MAX,
        e.event_type == SyncEventType::Sync,
        e.status == SyncStatus::Success,
        e.peer_id == Some(id),
        e.data_size matches Some(n) && n <= i64::MAX,
        stats_of(db, id, now) is Ok,
        (stats_of(db, id, now)->Ok_0).total_synced_size + e.data_size->0 <= i64::MAX,
    ensures
        ({
            let s = stats_of(db, id, now)->Ok_0;
            let t = stats_of(with_log(db, e), id, now)->Ok_0;
            &&& stats_of(with_log(db, e), id, now) is Ok
            &&& t.total_synced_count == s.total_synced_count + 1
            &&& t.total_synced_size == s.total_synced_size + e.data_size->0
            &&& t.pending_conflict_count == s.pending_conflict_count
            &&& t.last_error == s.last_error
            &&& t.last_error_at == s.last_error_at
            &&& e.direction == SyncDirection::Out ==> t.remote_note_count == s.remote_note_count
            &&& e.direction == SyncDirection::In && checked_sum(
                message_numbers(db.logs.filter(incoming_syncs(id))),
            ) == Some(s.remote_note_count as int) && (e.message matches Some(m) && i32::MIN
                <= s.remote_note_count + leading_integer(after_colon(m)) <= i32::MAX)
                ==> t.remote_note_count == s.remote_note_count + leading_integer(
                after_colon(e.message->0),
            )
        }),
{
    lemma_words_differ();
    let row = log_row(e, (db.last_log_id + 1) as i64);
    let after = with_log(db, e);
    assert(after.logs == db.logs.push(row));
    let p = syncs(id, "success"@);
    let q = syncs(id, "failed"@);
    let f = incoming_syncs(id);
    db.logs.lemma_filter_push(row, p);
    db.logs.lemma_filter_push(row, q);
    db.logs.lemma_filter_push(row, f);
    let done = db.logs.filter(p);
    let incoming = db.logs.filter(f);
    lemma_filter_len(db.logs, p);
    assert(sizes(done.push(row)) =~= sizes(done).push(e.data_size->0 as int));
    lemma_sum_of_one_more(sizes(done), e.data_size->0 as int);
    lemma_sum_within(sizes(done));
    if e.direction == SyncDirection::In && e.message is Some {
        let n = leading_integer(after_colon(e.message->0));
        assert(message_numbers(incoming.push(row)) =~= message_numbers(incoming).push(n));
        lemma_sum_of_one_more(message_numbers(incoming), n);
    }
}

proof fn lemma_sum_within(s: Seq<int>)
    ensures
        checked_sum(s) matches Some(t) ==> i64::MIN <= t <= i64::MAX,
    decreases s.len(),
{
    if s.len() > 0 {
        lemma_sum_within(s.drop_last());
    }
}

proof fn lemma_words_differ()
    ensures
        "success"@ != "failed"@,
        "success"@ != "running"@,
        "failed"@ != "running"@,
        "in"@ != "out"@,
        "sync"@ != "pairing"@,
        "sync"@ != "discovery"@,
        "sync"@ != "conflict"@,
{
    reveal_strlit("success");
    reveal_strlit("failed");
    reveal_strlit("running");
    reveal_strlit("in");
    reveal_strlit("out");
    reveal_strlit("sync");
    reveal_strlit("pairing");
    reveal_strlit("discovery");
    reveal_strlit("conflict");
    assert("success"@[0] == 's' && "failed"@[0] == 'f' && "running"@[0] == 'r');
    assert("in"@[0] == 'i' && "out"@[0] == 'o');
    assert("sync"@[0] == 's' && "pairing"@[0] == 'p' && "discovery"@[0] == 'd' && "conflict"@[0]
        == 'c');
}

/// What is logged of other devices and of other events does not change the statistics on a
/// device.
pub proof fn law_other_entries_do_not_count(
    db: SyncDbV,
    e: SyncLogEntryV,
    id: Seq<char>,
    now: Timestamp,
)
    requires
        0 <= db.last_log_id < i64::MAX,
        (db.last_log_id + 1) % 100 != 0,
        e.event_type != SyncEventType::Sync || e.peer_id != Some(id) || e.status
            == SyncStatus::Running,
    ensures
        stats_of(with_log(db, e), id, now) == stats_of(db, id, now),
{
    lemma_words_differ();
    let row = log_row(e, (db.last_log_id + 1) as i64);
    assert(with_log(db, e).logs == db.logs.push(row));
    db.logs.lemma_filter_push(row, syncs(id, "success"@));
    db.logs.lemma_filter_push(row, syncs(id, "failed"@));
    db.logs.lemma_filter_push(row, full_syncs(id));
    db.logs.lemma_filter_push(row, incoming_syncs(id));
}

/// A synchronisation that failed is told as the last error where none is later, with its message
/// and its time, and counts for nothing else.
pub proof fn law_failure_is_told(
    db: SyncDbV,
    e: SyncLogEntryV,
    id: Seq<char>,
    now: Timestamp,
)
    requires
        0 <= db.last_log_id < i64::MAX,
        (db.last_log_id + 1) % 100 != 0,
        e.event_type == SyncEventType::Sync,
        e.status == SyncStatus::Failed,
        e.peer_id == Some(id),
        e.message is Some,
        forall|i: int|
            0 <= i < db.logs.len() ==> !text_le(
                time_text(e.timestamp),
                (#[trigger] db.logs[i]).timestamp,
            ),
        stats_of(db, id, now) is Ok,
    ensures
        stats_of(with_log(db, e), id, now) == Outcome::<DeviceSyncStatsV>::Ok(
            DeviceSyncStatsV {
                last_error: e.message,
                last_error_at: Some(time_text(e.timestamp)),
                ..stats_of(db, id, now)->Ok_0
            },
        ),
{
    lemma_words_differ();
    let row = log_row(e, (db.last_log_id + 1) as i64);
    assert(with_log(db, e).logs == db.logs.push(row));
    let q = syncs(id, "failed"@);
    db.logs.lemma_filter_push(row, syncs(id, "success"@));
    db.logs.lemma_filter_push(row, q);
    db.logs.lemma_filter_push(row, full_syncs(id));
    db.logs.lemma_filter_push(row, incoming_syncs(id));
    lemma_newer_is_latest(db.logs, q, row);
}

proof fn lemma_newer_is_latest(rows: Seq<LogRowV>, p: spec_fn(LogRowV) -> bool, row: LogRowV)
    requires
        forall|i: int|
            0 <= i < rows.len() ==> !text_le(row.timestamp, (#[trigger] rows[i]).timestamp),
    ensures
        latest(rows.filter(p).push(row)) == Some(row),
{
    let kept = rows.filter(p);
    law_latest(kept);
    assert(kept.push(row).drop_last() =~= kept);
    if kept.len() > 0 {
        let b = latest(kept)->0;
        let k = choose|k: int| 0 <= k < kept.len() && kept[k] == b;
        lemma_filter_member(rows, p, k);
        let i = choose|i: int| 0 <= i < rows.len() && rows[i] == b;
        assert(!text_le(row.timestamp, rows[i].timestamp));
    }
}

/// A synchronisation that succeeded and whose message says that it was a full one is told as the
/// last full one where none is later; one whose message does not say so leaves that as it was.
pub proof fn law_full_synchronisation_is_told(
    db: SyncDbV,
    e: SyncLogEntryV,
    id: Seq<char>,
    now: Timestamp,
)
    requires
        0 <= db.last_log_id < i64::MAX,
        (db.last_log_id + 1) % 100 != 0,
        e.event_type == SyncEventType::Sync,
        e.status == SyncStatus::Success,
        e.peer_id == Some(id),
        e.message is Some,
        forall|i: int|
            0 <= i < db.logs.len() ==> !text_le(
                time_text(e.timestamp),
                (#[trigger] db.logs[i]).timestamp,
            ),
        stats_of(db, id, now) is Ok,
        stats_of(with_log(db, e), id, now) is Ok,
    ensures
        ({
            let m = e.message->0;
            let full = occurs_in("全量"@, m) || occurs_in("full"@, ascii_lowered(m));
            let t = stats_of(with_log(db, e), id, now)->Ok_0;
            &&& full ==> t.last_full_sync_at == Some(time_text(e.timestamp))
            &&& !full ==> t.last_full_sync_at == (stats_of(db, id, now)->Ok_0).last_full_sync_at
        }),
{
    let row = log_row(e, (db.last_log_id + 1) as i64);
    assert(with_log(db, e).logs == db.logs.push(row));
    db.logs.lemma_filter_push(row, full_syncs(id));
    lemma_newer_is_latest(db.logs, full_syncs(id), row);
}

/// A conflict with a device is pending where nothing is noted on how it ended, or that it did
/// not; any other conflict is not.
pub proof fn law_open_conflict_is_pending(
    db: SyncDbV,
    c: ConflictRowV,
    id: Seq<char>,
    now: Timestamp,
)
    requires
        db.last_conflict_id < i64::MAX,
        db.conflicts.len() < i32::MAX,
        stats_of(db, id, now) is Ok,
    ensures
        ({
            let s = stats_of(db, id, now)->Ok_0;
            let t = stats_of(with_conflict(db, c), id, now)->Ok_0;
            &&& stats_of(with_conflict(db, c), id, now) is Ok
            &&& t == (DeviceSyncStatsV { pending_conflict_count: t.pending_conflict_count, ..s })
            &&& c.device_id == id && (c.resolution == ""@ || c.resolution == "unresolved"@)
                ==> t.pending_conflict_count == s.pending_conflict_count + 1
            &&& c.device_id != id || (c.resolution != ""@ && c.resolution != "unresolved"@)
                ==> t.pending_conflict_count == s.pending_conflict_count
        }),
{
    reveal_strlit("");
    assert(c.resolution.len() == 0 <==> c.resolution =~= ""@);
    let p = open_conflicts(id);
    let row = ConflictRowV { id: (db.last_conflict_id + 1) as i64, ..c };
    assert(with_conflict(db, c).conflicts == db.conflicts.push(row));
    db.conflicts.lemma_filter_push(row, p);
    lemma_filter_len(db.conflicts, p);
}

/// A number that stands behind the first colon of a message, with a blank before it, is read as
/// it was written.
pub proof fn law_number_in_message_is_read(before: Seq<char>, n: int)
    requires
        forall|i: int| 0 <= i < before.len() ==> #[trigger] before[i] != ':',
        0 <= n <= i64::MAX,
    ensures
        leading_integer(after_colon(before + ": "@ + decimal(n))) == n,
{
    reveal_strlit(": ");
    let d = decimal(n);
    let m = before + ": "@ + d;
    lemma_first_colon(m, before.len() as int);
    let rest = m.skip(before.len() as int + 1);
    assert(rest =~= seq![' '] + d);
    assert(rest.drop_first() =~= d);
    lemma_digits(n as nat);
    assert(unindented(rest) == unindented(d));
    assert(is_digit(d[0]));
    assert(unindented(d) == d);
    lemma_leading_digits(d, Seq::empty(), 0, i64::MAX as int);
    assert(Seq::<char>::empty() + d =~= d);
}

proof fn lemma_first_colon(s: Seq<char>, k: int)
    requires
        0 <= k < s.len(),
        s[k] == ':',
        forall|i: int| 0 <= i < k ==> #[trigger] s[i] != ':',
    ensures
        position(s, ':') == Some(k),
    decreases k,
{
    if k > 0 {
        let rest = s.drop_first();
        assert(s[0] != ':');
        assert forall|i: int| 0 <= i < k - 1 implies #[trigger] rest[i] != ':' by {
            assert(rest[i] == s[i + 1]);
        }
        lemma_first_colon(rest, k - 1);
    }
}

proof fn lemma_leading_digits(s: Seq<char>, before: Seq<char>, acc: int, cap: int)
    requires
        all_digits(s),
        all_digits(before),
        acc == digits_value(before),
        digits_value(before + s) <= cap,
    ensures
        leading_value(s, acc, cap) == digits_value(before + s),
    decreases s.len(),
{
    if s.len() == 0 {
        assert(before + s =~= before);
    } else {
        let more = before.push(s[0]);
        let rest = s.drop_first();
        assert(is_digit(s[0]));
        assert(before + s =~= more + rest);
        assert(more.drop_last() =~= before);
        assert forall|i: int| 0 <= i < rest.len() implies is_digit(#[trigger] rest[i]) by {
            assert(rest[i] == s[i + 1]);
        }
        assert forall|i: int| 0 <= i < more.len() implies is_digit(#[trigger] more[i]) by {
            if i < before.len() {
                assert(more[i] == before[i]);
            }
        }
        lemma_value_grows(more, rest);
        lemma_leading_digits(rest, more, acc * 10 + (s[0] as int - 48), cap);
    }
}

proof fn lemma_value_grows(a: Seq<char>, b: Seq<char>)
    requires
        all_digits(a),
        all_digits(b),
    ensures
        0 <= digits_value(a) <= digits_value(a + b),
    decreases b.len(),
{
    if b.len() == 0 {
        assert(a + b =~= a);
        lemma_value_is_natural(a);
    } else {
        let rest = b.drop_last();
        assert((a + b).drop_last() =~= a + rest);
        assert(is_digit(b[b.len() - 1]));
        assert forall|i: int| 0 <= i < rest.len() implies is_digit(#[trigger] rest[i]) by {
            assert(rest[i] == b[i]);
        }
        lemma_value_grows(a, rest);
    }
}

proof fn lemma_value_is_natural(a: Seq<char>)
    requires
        all_digits(a),
    ensures
        0 <= digits_value(a),
    decreases a.len(),
{
    if a.len() > 0 {
        let rest = a.drop_last();
        assert(is_digit(a[a.len() - 1]));
        assert forall|i: int| 0 <= i < rest.len() implies is_digit(#[trigger] rest[i]) by {
            assert(rest[i] == a[i]);
        }
        lemma_value_is_natural(rest);
    }
}

/// The times that the frequency is worked out from are those of the latest rows, ten at most, the
/// latest first.
pub proof fn law_latest_times(rows: Seq<LogRowV>, now: Timestamp)
    ensures
        rows.len() <= 10 ==> latest_times(rows, now).len() == rows.len(),
        rows.len() > 10 ==> latest_times(rows, now).len() == 10,
        rows.len() > 0 ==> (latest(rows) matches Some(r) && latest_times(rows, now)[0]
            == stored_time(r.timestamp, now)),
{
    let keys = stamps(rows);
    let order = newest_first(keys);
    law_newest_first(keys);
    law_latest(rows);
    if rows.len() > 0 {
        let r = latest(rows)->0;
        let i = choose|i: int| 0 <= i < rows.len() && rows[i] == r;
        assert(order.contains(i));
        let k = choose|k: int| 0 <= k < order.len() && order[k] == i;
        let first = rows[order[0]];
        assert(text_le(first.timestamp, r.timestamp));
        if k > 0 {
            assert(in_order(keys, order[0], order[k]));
            lemma_text_le_total(keys[order[0]], keys[order[k]]);
        } else {
            lemma_text_le_total(first.timestamp, first.timestamp);
        }
        lemma_text_le_antisymmetric(first.timestamp, r.timestamp);
    }
}

/// Synchronisations that lie an equal number of minutes apart have that frequency; fewer than two
/// have none.
pub proof fn law_frequency_is_the_gap(rows: Seq<LogRowV>, now: Timestamp, m: int)
    requires
        i32::MIN <= m <= i32::MAX,
        forall|k: int|
            0 <= k < latest_times(rows, now).len() - 1 ==> whole(
                seconds_between(
                    latest_times(rows, now)[k + 1].ns(),
                    (#[trigger] latest_times(rows, now)[k]).ns(),
                ),
                60,
            ) == m,
    ensures
        rows.len() < 2 ==> frequency(rows, now) is None,
        rows.len() >= 2 ==> frequency(rows, now) == Some(m as i32),
{
    law_latest_times(rows, now);
    let times = latest_times(rows, now);
    if times.len() >= 2 {
        let n = (times.len() - 1) as nat;
        lemma_equal_gaps(times, n, m);
        assert(whole(m * n, n as int) == m) by (nonlinear_arith)
            requires
                n > 0,
        {
            if m * n >= 0 {
                vstd::arithmetic::div_mod::lemma_div_by_multiple(m, n as int);
            } else {
                assert(-(m * n) == (-m) * n);
                vstd::arithmetic::div_mod::lemma_div_by_multiple(-m, n as int);
            }
        }
    }
}

proof fn lemma_equal_gaps(times: Seq<Timestamp>, n: nat, m: int)
    requires
        n < times.len(),
        forall|k: int|
            0 <= k < times.len() - 1 ==> whole(
                seconds_between(times[k + 1].ns(), (#[trigger] times[k]).ns()),
                60,
            ) == m,
    ensures
        gap_minutes(times, n) == m * n,
    decreases n,
{
    if n > 0 {
        lemma_equal_gaps(times, (n - 1) as nat, m);
        assert(times[n - 1] == times[n - 1]);
        assert(m * n == m * (n - 1) + m) by (nonlinear_arith);
    } else {
        assert(m * 0 == 0);
    }
}

/// A number with a minus sign is read as it was written, and so is one with blanks before it; a
/// text that begins otherwise is read as zero.
pub proof fn law_signed_number_is_read(n: int, s: Seq<char>)
    requires
        0 <= n <= i64::MAX,
    ensures
        leading_integer(seq!['-'] + decimal(n)) == -n,
        leading_integer(seq!['+'] + decimal(n)) == n,
        leading_integer(decimal(n)) == n,
        leading_integer(seq![' '] + s) == leading_integer(s),
        s.len() == 0 ==> leading_integer(s) == 0,
        s.len() > 0 && !is_digit(s[0]) && s[0] != '-' && s[0] != '+' && s[0] != ' ' && !(9
            <= s[0] as int <= 13) ==> leading_integer(s) == 0,
{
    let d = decimal(n);
    let e = Seq::<char>::empty();
    lemma_digits(n as nat);
    assert(is_digit(d[0]));
    lemma_leading_digits(d, e, 0, i64::MAX as int);
    lemma_leading_digits(d, e, 0, i64::MAX + 1);
    assert(e + d =~= d);
    assert((seq!['-'] + d).drop_first() =~= d);
    assert((seq!['+'] + d).drop_first() =~= d);
    assert((seq![' '] + s).drop_first() =~= s);
}

} // verus!
