//! Conflicts and the recycle bin.

use vstd::prelude::*;

use crate::models::{lemma_views_push, views, ConflictSummary, ConflictSummaryV, Timestamp, TrashEntry, TrashEntryV};
use crate::outside::clock;
use crate::storage::devices::{format_time, time_text};
use crate::storage::logs::id_outcome;
use crate::storage::order::{in_order, ints, law_newest_first, lemma_filter_ends, lemma_filter_keeps, lemma_filter_member, lemma_filter_step, newest_first, order_newest_first};
use crate::storage::{full_error, ConflictRow, ConflictRowV, SyncDb, SyncDbV};
use crate::text::{chars_of, decimal, law_decimal_reads_back, le, lemma_text_le_total, opt_str, opt_text, parse_integer, parsed_integer, same, text_le, text_lt, Outcome};

verus! {

// ---- conflicts ----

/// The id that comes after the highest one given.
pub open spec fn next_id(last: i64) -> Outcome<i64> {
    if last < i64::MAX {
        Ok((last + 1) as i64)
    } else {
        Err(full_error())
    }
}

/// The state after a conflict is noted.
pub open spec fn with_conflict(db: SyncDbV, c: ConflictRowV) -> SyncDbV {
    match next_id(db.last_conflict_id) {
        Ok(id) => SyncDbV {
            conflicts: db.conflicts.push(ConflictRowV { id, ..c }),
            last_conflict_id: id,
            ..db
        },
        Err(_) => db,
    }
}

/// The test for conflicts with a device.
pub open spec fn with_peer(device_id: Seq<char>) -> spec_fn(ConflictRowV) -> bool {
    |r: ConflictRowV| r.device_id == device_id
}

/// A conflict as it is listed: it is resolved where a resolution is noted that says so.
pub open spec fn summary_of(r: ConflictRowV) -> ConflictSummaryV {
    ConflictSummaryV {
        note_id: match parsed_integer(r.logical_key, true, i64::MIN as int, i64::MAX as int) {
            Some(n) => n as i64,
            None => 0,
        },
        note_title: r.logical_key,
        detected_at: r.created_at,
        resolved: r.resolution.len() > 0 && r.resolution != "unresolved"@,
        resolution: Some(r.resolution),
    }
}

/// When conflicts were noted.
pub open spec fn created_keys(rows: Seq<ConflictRowV>) -> Seq<Seq<char>> {
    Seq::new(rows.len(), |i: int| rows[i].created_at)
}

/// Rows of conflicts as they are listed, the newest first.
pub open spec fn summaries(rows: Seq<ConflictRowV>) -> Seq<ConflictSummaryV> {
    let order = newest_first(created_keys(rows));
    Seq::new(rows.len(), |k: int| summary_of(rows[order[k]]))
}

/// The conflicts with a device, the newest first.
pub open spec fn conflicts_with(rows: Seq<ConflictRowV>, device_id: Seq<char>) -> Seq<
    ConflictSummaryV,
> {
    summaries(rows.filter(with_peer(device_id)))
}

fn summary_of_row(r: &ConflictRow) -> (s: ConflictSummary)
    ensures
        s@ == summary_of(r@),
{
    let note_id: i64 = match parse_integer(
        r.logical_key.as_str(),
        true,
        i64::MIN as i128,
        i64::MAX as i128,
    ) {
        Some(n) => n as i64,
        None => 0,
    };
    ConflictSummary {
        note_id,
        note_title: r.logical_key.clone(),
        detected_at: r.created_at.clone(),
        resolved: chars_of(r.resolution.as_str()).len() > 0 && !same(
            r.resolution.as_str(),
            "unresolved",
        ),
        resolution: Some(r.resolution.clone()),
    }
}

fn owned(s: Option<&str>) -> (r: Option<String>)
    ensures
        opt_text(r) == opt_str(s),
{
    match s {
        Some(t) => Some(t.to_string()),
        None => None,
    }
}

impl SyncDb {
    /// Notes a conflict and gives its id.
    pub fn insert_conflict_at(
        &mut self,
        device_id: &str,
        kind: &str,
        logical_key: &str,
        local_rev: Option<&str>,
        remote_rev: Option<&str>,
        resolution: &str,
        archived_id: Option<i64>,
        now: &Timestamp,
    ) -> (r: Result<i64, String>)
        ensures
            id_outcome(r) == next_id(old(self)@.last_conflict_id),
            final(self)@ == with_conflict(
                old(self)@,
                ConflictRowV {
                    id: 0,
                    device_id: device_id@,
                    kind: kind@,
                    logical_key: logical_key@,
                    local_rev: opt_str(local_rev),
                    remote_rev: opt_str(remote_rev),
                    resolution: resolution@,
                    archived_id,
                    created_at: time_text(*now),
                },
            ),
    {
        if self.last_conflict_id == i64::MAX {
            return Err("database or disk is full".to_string());
        }
        let id: i64 = self.last_conflict_id + 1;
        let row: ConflictRow = ConflictRow {
            id,
            device_id: device_id.to_string(),
            kind: kind.to_string(),
            logical_key: logical_key.to_string(),
            local_rev: owned(local_rev),
            remote_rev: owned(remote_rev),
            resolution: resolution.to_string(),
            archived_id,
            created_at: format_time(now),
        };
        proof {
            lemma_views_push(self.conflicts@, row);
        }
        self.conflicts.push(row);
        self.last_conflict_id = id;
        Ok(id)
    }

    /// Notes a conflict and gives its id.
    pub fn insert_conflict(
        &mut self,
        device_id: &str,
        kind: &str,
        logical_key: &str,
        local_rev: Option<&str>,
        remote_rev: Option<&str>,
        resolution: &str,
        archived_id: Option<i64>,
    ) -> (r: Result<i64, String>)
        ensures
            id_outcome(r) == next_id(old(self)@.last_conflict_id),
            exists|now: Timestamp|
                final(self)@ == with_conflict(
                    old(self)@,
                    ConflictRowV {
                        id: 0,
                        device_id: device_id@,
                        kind: kind@,
                        logical_key: logical_key@,
                        local_rev: opt_str(local_rev),
                        remote_rev: opt_str(remote_rev),
                        resolution: resolution@,
                        archived_id,
                        created_at: #[trigger] time_text(now),
                    },
                ),
    {
        let now: Timestamp = clock();
        self.insert_conflict_at(
            device_id,
            kind,
            logical_key,
            local_rev,
            remote_rev,
            resolution,
            archived_id,
            &now,
        )
    }

    /// The conflicts with a device, the newest first.
    pub fn get_device_conflicts(&self, device_id: &str) -> (r: Vec<ConflictSummary>)
        ensures
            views(r@) == conflicts_with(self@.conflicts, device_id@),
    {
        let ghost rows = self@.conflicts;
        let ghost p = with_peer(device_id@);
        let mut picked: Vec<usize> = Vec::new();
        let mut keys: Vec<String> = Vec::new();
        let mut i: usize = 0;
        proof {
            lemma_filter_ends(rows, p);
        }
        while i < self.conflicts.len()
            invariant
                i <= self.conflicts.len(),
                rows == views(self.conflicts@),
                p == with_peer(device_id@),
                keys.len() == picked.len(),
                rows.take(i as int).filter(p).len() == picked.len(),
                forall|k: int|
                    0 <= k < picked.len() ==> {
                        &&& (#[trigger] picked@[k]) < i
                        &&& rows.take(i as int).filter(p)[k] == rows[picked@[k] as int]
                        &&& keys@[k]@ == rows[picked@[k] as int].created_at
                    },
            decreases self.conflicts.len() - i,
        {
            assert(rows[i as int] == self.conflicts@[i as int]@);
            proof {
                lemma_filter_step(rows, i as int, p);
            }
            if same(self.conflicts[i].device_id.as_str(), device_id) {
                picked.push(i);
                keys.push(self.conflicts[i].created_at.clone());
            }
            i = i + 1;
        }
        proof {
            lemma_filter_ends(rows, p);
        }
        let ghost chosen = rows.filter(p);
        assert forall|k: int| 0 <= k < chosen.len() implies #[trigger] views(keys@)[k]
            == created_keys(chosen)[k] by {
            let at = picked@[k];
        }
        assert(views(keys@) =~= created_keys(chosen));
        let order: Vec<usize> = order_newest_first(&keys);
        let ghost target = summaries(chosen);
        let mut out: Vec<ConflictSummary> = Vec::new();
        let mut k: usize = 0;
        while k < order.len()
            invariant
                k <= order.len(),
                order.len() == picked.len(),
                picked.len() == chosen.len(),
                rows == views(self.conflicts@),
                ints(order@) == newest_first(created_keys(chosen)),
                target == summaries(chosen),
                forall|j: int| 0 <= j < order.len() ==> #[trigger] order@[j] < picked.len(),
                forall|j: int|
                    0 <= j < picked.len() ==> (#[trigger] picked@[j]) < self.conflicts.len()
                        && chosen[j] == rows[picked@[j] as int],
                views(out@) == target.take(k as int),
            decreases order.len() - k,
        {
            let at: usize = picked[order[k]];
            let s: ConflictSummary = summary_of_row(&self.conflicts[at]);
            proof {
                lemma_views_push(out@, s);
                assert(ints(order@)[k as int] == order@[k as int]);
                assert(s@ == target[k as int]);
                assert(target.take(k + 1) =~= target.take(k as int).push(s@));
            }
            out.push(s);
            k = k + 1;
        }
        assert(target.take(k as int) =~= target);
        out
    }
}

// ---- the recycle bin ----

/// The state after a record is put aside.
pub open spec fn with_trash(db: SyncDbV, t: TrashEntryV) -> SyncDbV {
    match next_id(db.last_trash_id) {
        Ok(id) => SyncDbV {
            trash: db.trash.push(TrashEntryV { id, ..t }),
            last_trash_id: id,
            ..db
        },
        Err(_) => db,
    }
}

/// The test for entries of a kind; without one, all pass.
pub open spec fn of_kind(kind: Option<Seq<char>>) -> spec_fn(TrashEntryV) -> bool {
    |t: TrashEntryV| kind matches Some(k) ==> t.kind == k
}

/// When entries were put aside.
pub open spec fn archived_keys(rows: Seq<TrashEntryV>) -> Seq<Seq<char>> {
    Seq::new(rows.len(), |i: int| rows[i].archived_at)
}

/// Entries, the newest first.
pub open spec fn newest_trash(rows: Seq<TrashEntryV>) -> Seq<TrashEntryV> {
    let order = newest_first(archived_keys(rows));
    Seq::new(rows.len(), |k: int| rows[order[k]])
}

/// The entries of a kind, the newest first.
pub open spec fn trash_list(rows: Seq<TrashEntryV>, kind: Option<Seq<char>>) -> Seq<TrashEntryV> {
    newest_trash(rows.filter(of_kind(kind)))
}

/// The entry with an id.
pub open spec fn trash_entry(rows: Seq<TrashEntryV>, id: i64) -> Option<TrashEntryV>
    decreases rows.len(),
{
    if rows.len() == 0 {
        None
    } else if rows[0].id == id {
        Some(rows[0])
    } else {
        trash_entry(rows.drop_first(), id)
    }
}

/// Whether there is an entry with an id.
pub open spec fn has_trash(rows: Seq<TrashEntryV>, id: i64) -> bool {
    exists|i: int| 0 <= i < rows.len() && (#[trigger] rows[i]).id == id
}

/// The entries after one is marked as restored.
pub open spec fn with_restored(rows: Seq<TrashEntryV>, id: i64) -> Seq<TrashEntryV> {
    Seq::new(
        rows.len(),
        |i: int|
            if rows[i].id == id {
                TrashEntryV { restored: true, ..rows[i] }
            } else {
                rows[i]
            },
    )
}

/// The test for entries other than one.
pub open spec fn other_entry(id: i64) -> spec_fn(TrashEntryV) -> bool {
    |t: TrashEntryV| t.id != id
}

/// The test for entries that are restored or not as given and were put aside before a time do
/// not pass.
pub open spec fn spared(restored: bool, cutoff: Seq<char>) -> spec_fn(TrashEntryV) -> bool {
    |t: TrashEntryV| !(t.restored == restored && text_lt(t.archived_at, cutoff))
}

/// The test for entries that were not restored.
pub open spec fn unrestored() -> spec_fn(TrashEntryV) -> bool {
    |t: TrashEntryV| !t.restored
}

/// The contents of an optional entry.
pub open spec fn opt_trash(t: Option<TrashEntry>) -> Option<TrashEntryV> {
    match t {
        Some(t) => Some(t@),
        None => None,
    }
}

impl SyncDb {
    /// Puts a record aside and gives the id of the entry; the id in the argument is not used.
    pub fn insert_trash(&mut self, t: &TrashEntry) -> (r: Result<i64, String>)
        ensures
            id_outcome(r) == next_id(old(self)@.last_trash_id),
            final(self)@ == with_trash(old(self)@, t@),
    {
        if self.last_trash_id == i64::MAX {
            return Err("database or disk is full".to_string());
        }
        let id: i64 = self.last_trash_id + 1;
        let mut row: TrashEntry = t.clone();
        row.id = id;
        proof {
            lemma_views_push(self.trash@, row);
        }
        self.trash.push(row);
        self.last_trash_id = id;
        Ok(id)
    }

    /// The entries of a kind, or all, the newest first.
    pub fn list_trash(&self, kind: Option<&str>) -> (r: Vec<TrashEntry>)
        ensures
            views(r@) == trash_list(self@.trash, opt_str(kind)),
    {
        let ghost rows = self@.trash;
        let ghost p = of_kind(opt_str(kind));
        let mut picked: Vec<usize> = Vec::new();
        let mut keys: Vec<String> = Vec::new();
        let mut i: usize = 0;
        proof {
            lemma_filter_ends(rows, p);
        }
        while i < self.trash.len()
            invariant
                i <= self.trash.len(),
                rows == views(self.trash@),
                p == of_kind(opt_str(kind)),
                keys.len() == picked.len(),
                rows.take(i as int).filter(p).len() == picked.len(),
                forall|k: int|
                    0 <= k < picked.len() ==> {
                        &&& (#[trigger] picked@[k]) < i
                        &&& rows.take(i as int).filter(p)[k] == rows[picked@[k] as int]
                        &&& keys@[k]@ == rows[picked@[k] as int].archived_at
                    },
            decreases self.trash.len() - i,
        {
            assert(rows[i as int] == self.trash@[i as int]@);
            proof {
                lemma_filter_step(rows, i as int, p);
            }
            let wanted: bool = match kind {
                Some(k) => same(self.trash[i].kind.as_str(), k),
                None => true,
            };
            if wanted {
                picked.push(i);
                keys.push(self.trash[i].archived_at.clone());
            }
            i = i + 1;
        }
        proof {
            lemma_filter_ends(rows, p);
        }
        let ghost chosen = rows.filter(p);
        assert forall|k: int| 0 <= k < chosen.len() implies #[trigger] views(keys@)[k]
            == archived_keys(chosen)[k] by {
            let at = picked@[k];
        }
        assert(views(keys@) =~= archived_keys(chosen));
        let order: Vec<usize> = order_newest_first(&keys);
        let ghost target = newest_trash(chosen);
        let mut out: Vec<TrashEntry> = Vec::new();
        let mut k: usize = 0;
        while k < order.len()
            invariant
                k <= order.len(),
                order.len() == picked.len(),
                picked.len() == chosen.len(),
                rows == views(self.trash@),
                ints(order@) == newest_first(archived_keys(chosen)),
                target == newest_trash(chosen),
                forall|j: int| 0 <= j < order.len() ==> #[trigger] order@[j] < picked.len(),
                forall|j: int|
                    0 <= j < picked.len() ==> (#[trigger] picked@[j]) < self.trash.len()
                        && chosen[j] == rows[picked@[j] as int],
                views(out@) == target.take(k as int),
            decreases order.len() - k,
        {
            let at: usize = picked[order[k]];
            let t: TrashEntry = self.trash[at].clone();
            proof {
                lemma_views_push(out@, t);
                assert(ints(order@)[k as int] == order@[k as int]);
                assert(t@ == target[k as int]);
                assert(target.take(k + 1) =~= target.take(k as int).push(t@));
            }
            out.push(t);
            k = k + 1;
        }
        assert(target.take(k as int) =~= target);
        out
    }

    /// The entry with an id.
    pub fn get_trash(&self, id: i64) -> (r: Option<TrashEntry>)
        ensures
            opt_trash(r) == trash_entry(self@.trash, id),
    {
        let ghost rows = self@.trash;
        let mut i: usize = 0;
        assert(rows.skip(0) =~= rows);
        while i < self.trash.len()
            invariant
                i <= self.trash.len(),
                rows == views(self.trash@),
                trash_entry(rows, id) == trash_entry(rows.skip(i as int), id),
            decreases self.trash.len() - i,
        {
            assert(rows.skip(i as int)[0] == self.trash@[i as int]@);
            assert(rows.skip(i as int).drop_first() =~= rows.skip(i + 1));
            if self.trash[i].id == id {
                return Some(self.trash[i].clone());
            }
            i = i + 1;
        }
        None
    }

    /// Marks an entry as restored; tells whether there is one with that id.
    pub fn mark_trash_restored(&mut self, id: i64) -> (r: bool)
        ensures
            final(self)@ == (SyncDbV {
                trash: with_restored(old(self)@.trash, id),
                ..old(self)@
            }),
            r == has_trash(old(self)@.trash, id),
    {
        let ghost before = self@.trash;
        let ghost target = with_restored(before, id);
        let mut rows: Vec<TrashEntry> = Vec::new();
        let mut out: Vec<TrashEntry> = Vec::new();
        std::mem::swap(&mut rows, &mut self.trash);
        let ghost list = rows@;
        let mut hit: bool = false;
        for row in it: rows
            invariant
                it.seq() == list,
                before == views(list),
                target == with_restored(before, id),
                views(out@) == target.take(it.index()),
                hit <==> exists|j: int| 0 <= j < it.index() && (#[trigger] before[j]).id == id,
        {
            let ghost i = it.index();
            assert(row@ == before[i]);
            let mine: bool = row.id == id;
            let mut next: TrashEntry = row;
            if mine {
                next.restored = true;
            }
            proof {
                lemma_views_push(out@, next);
                assert(next@ == target[i]);
                assert(target.take(i + 1) =~= target.take(i).push(next@));
            }
            out.push(next);
            if mine {
                assert(before[i].id == id);
                hit = true;
            }
        }
        assert(target.take(before.len() as int) =~= target);
        self.trash = out;
        hit
    }

    /// Removes an entry; gives the number removed.
    fn drop_trash(&mut self, id: i64) -> (removed: usize)
        ensures
            final(self)@ == (SyncDbV {
                trash: old(self)@.trash.filter(other_entry(id)),
                ..old(self)@
            }),
            removed == old(self)@.trash.len() - final(self)@.trash.len(),
    {
        let ghost before = self@.trash;
        let ghost p = other_entry(id);
        let mut rows: Vec<TrashEntry> = Vec::new();
        let mut out: Vec<TrashEntry> = Vec::new();
        std::mem::swap(&mut rows, &mut self.trash);
        let ghost list = rows@;
        let total: usize = rows.len();
        let mut removed: usize = 0;
        proof {
            lemma_filter_ends(before, p);
        }
        assert(views(out@) =~= before.take(0).filter(p));
        for row in it: rows
            invariant
                it.seq() == list,
                before == views(list),
                total == list.len(),
                p == other_entry(id),
                views(out@) == before.take(it.index()).filter(p),
                removed + out@.len() == it.index(),
        {
            proof {
                assert(row@ == before[it.index()]);
                lemma_filter_step(before, it.index(), p);
                lemma_views_push(out@, row);
            }
            if row.id != id {
                out.push(row);
            } else {
                removed = removed + 1;
            }
        }
        proof {
            lemma_filter_ends(before, p);
        }
        self.trash = out;
        removed
    }

    /// Removes an entry; tells whether there was one with that id.
    pub fn delete_trash(&mut self, id: i64) -> (r: bool)
        ensures
            final(self)@ == (SyncDbV {
                trash: old(self)@.trash.filter(other_entry(id)),
                ..old(self)@
            }),
            r == has_trash(old(self)@.trash, id),
    {
        proof {
            lemma_trash_removed(self@.trash, id);
        }
        self.drop_trash(id) > 0
    }

    /// Removes the entries that are restored or not as given and were put aside before a time.
    fn purge_before(&mut self, restored: bool, cutoff: &str) -> (removed: usize)
        ensures
            final(self)@ == (SyncDbV {
                trash: old(self)@.trash.filter(spared(restored, cutoff@)),
                ..old(self)@
            }),
            removed == old(self)@.trash.len() - final(self)@.trash.len(),
    {
        let ghost before = self@.trash;
        let ghost p = spared(restored, cutoff@);
        let mut rows: Vec<TrashEntry> = Vec::new();
        let mut out: Vec<TrashEntry> = Vec::new();
        std::mem::swap(&mut rows, &mut self.trash);
        let ghost list = rows@;
        let total: usize = rows.len();
        let mut removed: usize = 0;
        proof {
            lemma_filter_ends(before, p);
        }
        assert(views(out@) =~= before.take(0).filter(p));
        for row in it: rows
            invariant
                it.seq() == list,
                before == views(list),
                total == list.len(),
                p == spared(restored, cutoff@),
                views(out@) == before.take(it.index()).filter(p),
                removed + out@.len() == it.index(),
        {
            proof {
                assert(row@ == before[it.index()]);
                lemma_filter_step(before, it.index(), p);
                lemma_views_push(out@, row);
            }
            if !(row.restored == restored && !le(cutoff, row.archived_at.as_str())) {
                out.push(row);
            } else {
                removed = removed + 1;
            }
        }
        proof {
            lemma_filter_ends(before, p);
        }
        self.trash = out;
        removed
    }

    /// Removes the entries that were put aside before a time and not restored.
    pub fn purge_trash_before(&mut self, cutoff: &str) -> (removed: usize)
        ensures
            final(self)@ == (SyncDbV {
                trash: old(self)@.trash.filter(spared(false, cutoff@)),
                ..old(self)@
            }),
            removed == old(self)@.trash.len() - final(self)@.trash.len(),
    {
        self.purge_before(false, cutoff)
    }

    /// Removes the entries that were put aside before a time and restored.
    pub fn purge_restored_before(&mut self, cutoff: &str) -> (removed: usize)
        ensures
            final(self)@ == (SyncDbV {
                trash: old(self)@.trash.filter(spared(true, cutoff@)),
                ..old(self)@
            }),
            removed == old(self)@.trash.len() - final(self)@.trash.len(),
    {
        self.purge_before(true, cutoff)
    }

    /// The number of entries that were not restored.
    pub fn count_trash(&self) -> (n: u64)
        ensures
            n == self@.trash.filter(unrestored()).len(),
    {
        let ghost rows = self@.trash;
        let mut n: u64 = 0;
        let mut i: usize = 0;
        proof {
            lemma_filter_ends(rows, unrestored());
        }
        while i < self.trash.len()
            invariant
                i <= self.trash.len(),
                rows == views(self.trash@),
                0 <= n <= i,
                n == rows.take(i as int).filter(unrestored()).len(),
            decreases self.trash.len() - i,
        {
            assert(rows[i as int] == self.trash@[i as int]@);
            proof {
                lemma_filter_step(rows, i as int, unrestored());
            }
            if !self.trash[i].restored {
                n = n + 1;
            }
            i = i + 1;
        }
        proof {
            lemma_filter_ends(rows, unrestored());
        }
        n
    }
}

// ---- laws ----

proof fn lemma_trash_removed(rows: Seq<TrashEntryV>, id: i64)
    ensures
        rows.filter(other_entry(id)).len() <= rows.len(),
        rows.filter(other_entry(id)).len() < rows.len() <==> has_trash(rows, id),
    decreases rows.len(),
{
    reveal(Seq::filter);
    if rows.len() > 0 {
        let rest = rows.drop_last();
        lemma_trash_removed(rest, id);
        if has_trash(rest, id) {
            let i = choose|i: int| 0 <= i < rest.len() && (#[trigger] rest[i]).id == id;
            assert(rows[i].id == id);
        }
        if rows.last().id == id {
            assert(rows[rows.len() - 1].id == id);
        }
        if has_trash(rows, id) && rows.last().id != id {
            let i = choose|i: int| 0 <= i < rows.len() && (#[trigger] rows[i]).id == id;
            assert(rest[i].id == id);
        }
    }
}

proof fn lemma_entry_last(rows: Seq<TrashEntryV>, last: TrashEntryV, id: i64)
    ensures
        trash_entry(rows.push(last), id) == (if trash_entry(rows, id) is Some {
            trash_entry(rows, id)
        } else if last.id == id {
            Some(last)
        } else {
            None
        }),
    decreases rows.len(),
{
    if rows.len() > 0 {
        assert(rows.push(last).drop_first() =~= rows.drop_first().push(last));
        lemma_entry_last(rows.drop_first(), last, id);
    } else {
        assert(rows.push(last).drop_first() =~= rows);
    }
}

/// Whether no entry has an id that was not given yet.
pub open spec fn trash_ids_given(db: SyncDbV) -> bool {
    forall|i: int| 0 <= i < db.trash.len() ==> (#[trigger] db.trash[i]).id <= db.last_trash_id
}

proof fn lemma_id_not_given(rows: Seq<TrashEntryV>, last: int, id: i64)
    requires
        forall|i: int| 0 <= i < rows.len() ==> (#[trigger] rows[i]).id <= last,
        id > last,
    ensures
        trash_entry(rows, id) is None,
    decreases rows.len(),
{
    if rows.len() > 0 {
        assert(rows[0].id <= last);
        lemma_id_not_given(rows.drop_first(), last, id);
    }
}

/// A record that was put aside is found under the id that was given, and every other entry as
/// before.
pub proof fn law_archived_entry_is_found(db: SyncDbV, t: TrashEntryV, other: i64)
    requires
        trash_ids_given(db),
        next_id(db.last_trash_id) is Ok,
    ensures
        trash_entry(with_trash(db, t).trash, next_id(db.last_trash_id)->Ok_0) == Some(
            TrashEntryV { id: next_id(db.last_trash_id)->Ok_0, ..t },
        ),
        other <= db.last_trash_id ==> trash_entry(with_trash(db, t).trash, other) == trash_entry(
            db.trash,
            other,
        ),
        trash_ids_given(with_trash(db, t)),
{
    let id = next_id(db.last_trash_id)->Ok_0;
    let added = TrashEntryV { id, ..t };
    lemma_id_not_given(db.trash, db.last_trash_id as int, id);
    lemma_entry_last(db.trash, added, id);
    lemma_entry_last(db.trash, added, other);
}

/// An entry that is marked as restored is found restored, and nothing else of it changes.
pub proof fn law_restored_entry(rows: Seq<TrashEntryV>, id: i64)
    ensures
        trash_entry(with_restored(rows, id), id) == (match trash_entry(rows, id) {
            Some(t) => Some(TrashEntryV { restored: true, ..t }),
            None => None,
        }),
    decreases rows.len(),
{
    if rows.len() > 0 {
        law_restored_entry(rows.drop_first(), id);
        assert(with_restored(rows, id).drop_first() =~= with_restored(rows.drop_first(), id));
    }
}

/// A purge removes entries that were put aside before the time and no others.
pub proof fn law_purge_is_exact(rows: Seq<TrashEntryV>, restored: bool, cutoff: Seq<char>, t: TrashEntryV)
    ensures
        rows.filter(spared(restored, cutoff)).contains(t) <==> rows.contains(t) && !(t.restored
            == restored && text_lt(t.archived_at, cutoff)),
{
    let p = spared(restored, cutoff);
    if rows.contains(t) && p(t) {
        lemma_filter_keeps(rows, p, t);
    }
    if rows.filter(p).contains(t) {
        let k = choose|k: int| 0 <= k < rows.filter(p).len() && rows.filter(p)[k] == t;
        lemma_filter_member(rows, p, k);
    }
}

/// A conflict that is noted stands last among the conflicts, with the words it came with and
/// the next id; the others stay, and so do the other tables.
pub proof fn law_conflict_is_noted(db: SyncDbV, c: ConflictRowV)
    requires
        db.last_conflict_id < i64::MAX,
    ensures
        next_id(db.last_conflict_id) == Ok::<i64, Seq<char>>((db.last_conflict_id + 1) as i64),
        ({
            let after = with_conflict(db, c);
            let r = after.conflicts.last();
            &&& after.conflicts.drop_last() == db.conflicts
            &&& after.conflicts.len() == db.conflicts.len() + 1
            &&& after.last_conflict_id == db.last_conflict_id + 1
            &&& r.id == db.last_conflict_id + 1
            &&& r.device_id == c.device_id
            &&& r.kind == c.kind
            &&& r.logical_key == c.logical_key
            &&& r.local_rev == c.local_rev
            &&& r.remote_rev == c.remote_rev
            &&& r.resolution == c.resolution
            &&& r.archived_id == c.archived_id
            &&& r.created_at == c.created_at
            &&& after == (SyncDbV {
                conflicts: after.conflicts,
                last_conflict_id: after.last_conflict_id,
                ..db
            })
        }),
{
    assert(with_conflict(db, c).conflicts.drop_last() =~= db.conflicts);
}

/// Whether a summary tells a conflict: its key, its time and its resolution, the number that its
/// key is, and whether it is resolved.
pub open spec fn sums_up(s: ConflictSummaryV, r: ConflictRowV) -> bool {
    &&& s.note_title == r.logical_key
    &&& s.detected_at == r.created_at
    &&& s.resolution == Some(r.resolution)
    &&& s.resolved <==> r.resolution != ""@ && r.resolution != "unresolved"@
    &&& forall|n: int|
        i64::MIN <= n <= i64::MAX && r.logical_key == #[trigger] decimal(n) ==> s.note_id == n
    &&& r.logical_key.len() == 0 ==> s.note_id == 0
}

proof fn lemma_summary(r: ConflictRowV)
    ensures
        sums_up(summary_of(r), r),
{
    reveal_strlit("");
    let s = summary_of(r);
    assert(r.resolution.len() == 0 ==> r.resolution =~= ""@);
    assert forall|n: int|
        i64::MIN <= n <= i64::MAX && r.logical_key == #[trigger] decimal(n) implies s.note_id
        == n by {
        law_decimal_reads_back(n, true, i64::MIN as int, i64::MAX as int);
    }
}

/// Every conflict in the list of those with a device is one with that device.
pub proof fn law_listed_conflict_is_there(
    rows: Seq<ConflictRowV>,
    device_id: Seq<char>,
    k: int,
) -> (i: int)
    requires
        0 <= k < conflicts_with(rows, device_id).len(),
    ensures
        0 <= i < rows.len(),
        rows[i].device_id == device_id,
        sums_up(conflicts_with(rows, device_id)[k], rows[i]),
{
    let p = with_peer(device_id);
    let kept = rows.filter(p);
    let order = newest_first(created_keys(kept));
    law_newest_first(created_keys(kept));
    lemma_filter_member(rows, p, order[k]);
    let i = choose|i: int| 0 <= i < rows.len() && rows[i] == kept[order[k]];
    lemma_summary(rows[i]);
    i
}

/// Every conflict with a device is in the list of those with it.
pub proof fn law_conflict_is_listed(
    rows: Seq<ConflictRowV>,
    device_id: Seq<char>,
    i: int,
) -> (k: int)
    requires
        0 <= i < rows.len(),
        rows[i].device_id == device_id,
    ensures
        0 <= k < conflicts_with(rows, device_id).len(),
        sums_up(conflicts_with(rows, device_id)[k], rows[i]),
{
    let p = with_peer(device_id);
    let kept = rows.filter(p);
    let order = newest_first(created_keys(kept));
    law_newest_first(created_keys(kept));
    lemma_filter_keeps(rows, p, rows[i]);
    let j = choose|j: int| 0 <= j < kept.len() && kept[j] == rows[i];
    assert(order.contains(j));
    lemma_summary(rows[i]);
    choose|k: int| 0 <= k < order.len() && order[k] == j
}

/// The conflicts with a device are listed with the newest first.
pub proof fn law_conflicts_are_newest_first(
    rows: Seq<ConflictRowV>,
    device_id: Seq<char>,
    a: int,
    b: int,
)
    requires
        0 <= a < b < conflicts_with(rows, device_id).len(),
    ensures
        text_le(
            conflicts_with(rows, device_id)[b].detected_at,
            conflicts_with(rows, device_id)[a].detected_at,
        ),
{
    let keys = created_keys(rows.filter(with_peer(device_id)));
    let order = newest_first(keys);
    law_newest_first(keys);
    assert(in_order(keys, order[a], order[b]));
    lemma_text_le_total(keys[order[a]], keys[order[b]]);
}

/// The list of the recycle bin has every entry of the kind asked for and no other, the newest
/// first; asked for without a kind, it has as many as there are.
pub proof fn law_bin_is_listed(rows: Seq<TrashEntryV>, kind: Option<Seq<char>>)
    ensures
        forall|t: TrashEntryV| #[trigger]
            trash_list(rows, kind).contains(t) <==> rows.contains(t) && (kind matches Some(k)
                ==> t.kind == k),
        forall|a: int, b: int|
            0 <= a < b < trash_list(rows, kind).len() ==> text_le(
                (#[trigger] trash_list(rows, kind)[b]).archived_at,
                (#[trigger] trash_list(rows, kind)[a]).archived_at,
            ),
        kind is None ==> trash_list(rows, kind).len() == rows.len(),
{
    let p = of_kind(kind);
    let kept = rows.filter(p);
    let keys = archived_keys(kept);
    let order = newest_first(keys);
    let list = trash_list(rows, kind);
    law_newest_first(keys);
    assert forall|t: TrashEntryV| #[trigger] list.contains(t) <==> rows.contains(t) && (
    kind matches Some(k) ==> t.kind == k) by {
        if list.contains(t) {
            let k = choose|k: int| 0 <= k < list.len() && list[k] == t;
            lemma_filter_member(rows, p, order[k]);
        }
        if rows.contains(t) && p(t) {
            lemma_filter_keeps(rows, p, t);
            let j = choose|j: int| 0 <= j < kept.len() && kept[j] == t;
            assert(order.contains(j));
            let k = choose|k: int| 0 <= k < order.len() && order[k] == j;
            assert(list[k] == t);
        }
    }
    assert forall|a: int, b: int| 0 <= a < b < list.len() implies text_le(
        (#[trigger] list[b]).archived_at,
        (#[trigger] list[a]).archived_at,
    ) by {
        assert(in_order(keys, order[a], order[b]));
        lemma_text_le_total(list[a].archived_at, list[b].archived_at);
    }
    if kind is None {
        lemma_all_kept(rows);
    }
}

proof fn lemma_all_kept(rows: Seq<TrashEntryV>)
    ensures
        rows.filter(of_kind(None)) == rows,
    decreases rows.len(),
{
    reveal(Seq::filter);
    if rows.len() > 0 {
        lemma_all_kept(rows.drop_last());
        assert(rows.drop_last().push(rows.last()) =~= rows);
    } else {
        assert(rows.filter(of_kind(None)) =~= rows);
    }
}

/// An entry that is found has the id asked for and is one of the entries; one is found where
/// there is one.
pub proof fn law_found_entry_is_there(rows: Seq<TrashEntryV>, id: i64)
    ensures
        trash_entry(rows, id) matches Some(t) ==> t.id == id && rows.contains(t),
        trash_entry(rows, id) is Some <==> exists|i: int|
            0 <= i < rows.len() && (#[trigger] rows[i]).id == id,
    decreases rows.len(),
{
    if rows.len() > 0 {
        let rest = rows.drop_first();
        law_found_entry_is_there(rest, id);
        if rows[0].id != id {
            match trash_entry(rest, id) {
                Some(t) => {
                    let i = choose|i: int| 0 <= i < rest.len() && rest[i] == t;
                    assert(rows[i + 1] == t);
                },
                None => {},
            }
            if exists|i: int| 0 <= i < rows.len() && (#[trigger] rows[i]).id == id {
                let i = choose|i: int| 0 <= i < rows.len() && (#[trigger] rows[i]).id == id;
                assert(rest[i - 1].id == id);
            }
        }
    }
}

/// An entry that is deleted is gone, and every other entry stays.
pub proof fn law_deleted_entry_is_gone(rows: Seq<TrashEntryV>, id: i64, t: TrashEntryV)
    ensures
        trash_entry(rows.filter(other_entry(id)), id) is None,
        rows.filter(other_entry(id)).contains(t) <==> rows.contains(t) && t.id != id,
{
    let p = other_entry(id);
    let kept = rows.filter(p);
    law_found_entry_is_there(kept, id);
    assert forall|i: int| 0 <= i < kept.len() implies (#[trigger] kept[i]).id != id by {
        lemma_filter_member(rows, p, i);
    }
    if rows.contains(t) && p(t) {
        lemma_filter_keeps(rows, p, t);
    }
    if kept.contains(t) {
        let k = choose|k: int| 0 <= k < kept.len() && kept[k] == t;
        lemma_filter_member(rows, p, k);
    }
}

/// What is counted is what was not restored: an entry that is put aside counts for one, and one
/// that is marked as restored counts no more.
pub proof fn law_count_follows_the_bin(rows: Seq<TrashEntryV>, t: TrashEntryV)
    ensures
        Seq::<TrashEntryV>::empty().filter(unrestored()).len() == 0,
        rows.push(t).filter(unrestored()).len() == rows.filter(unrestored()).len() + (if t.restored {
            0int
        } else {
            1int
        }),
        forall|k: int|
            0 <= k < rows.filter(unrestored()).len() ==> !(#[trigger] rows.filter(
                unrestored(),
            )[k]).restored,
{
    reveal(Seq::filter);
    rows.lemma_filter_push(t, unrestored());
    assert forall|k: int| 0 <= k < rows.filter(unrestored()).len() implies !(
    #[trigger] rows.filter(unrestored())[k]).restored by {
        lemma_filter_member(rows, unrestored(), k);
    }
}

/// Marking an entry as restored leaves the others as they are.
pub proof fn law_restoring_is_local(rows: Seq<TrashEntryV>, id: i64, other: i64)
    requires
        other != id,
    ensures
        with_restored(rows, id).len() == rows.len(),
        trash_entry(with_restored(rows, id), other) == trash_entry(rows, other),
    decreases rows.len(),
{
    if rows.len() > 0 {
        law_restoring_is_local(rows.drop_first(), id, other);
        assert(with_restored(rows, id).drop_first() =~= with_restored(rows.drop_first(), id));
    }
}

} // verus!
