//! Snapshots of other devices: taking them over, and what a run of synchronisation leaves.

use vstd::prelude::*;
use vstd::string::*;
use vstd::utf8::encode_utf8;

use crate::manager::switches::{bump_data_revision, bumped};
use crate::manager::{http_entry, http_log, SyncManager, SyncManagerV};
use crate::models::{views, ApplyResult, ApplyResultV, ArchivedRow, ArchivedRowV, Device, DeviceV, ImportOutcome, ImportOutcomeV, SyncConfigV, SyncDirection, SyncEventType, SyncLogEntry, SyncLogEntryV, Timestamp, TransferRecord, TrashEntry, TrashEntryV};
use crate::outside::clock;
use crate::storage::bin::{next_id, trash_entry, trash_ids_given, with_conflict, with_restored, with_trash};
use crate::storage::config::{config_of, law_config_reads_back, lemma_true_is_not_false, setting, with_config};
use crate::storage::devices::{device_row, device_with_id, format_time, time_text, with_change, DeviceChangeV};
use crate::storage::identity::lemma_row_changed;
use crate::storage::logs::{next_log_id, signed, with_log};
use crate::storage::secrets::secret_of;
use crate::storage::{ConflictRowV, DeviceRowV, SyncDb, SyncDbV};
use crate::text::{decimal, opt_str, opt_text, push_decimal, same, Outcome};

verus! {

// ---- counting ----

/// A count, which stops at the largest number.
pub open spec fn capped(n: int) -> u64 {
    if n <= u64::MAX {
        n as u64
    } else {
        u64::MAX
    }
}

fn plus(a: u64, b: u64) -> (r: u64)
    ensures
        r == capped(a + b),
{
    a.saturating_add(b)
}

/// The counts after an import is added to them.
pub open spec fn counted(r: ApplyResultV, o: ImportOutcomeV) -> ApplyResultV {
    ApplyResultV {
        applied: capped(r.applied + o.applied),
        created: capped(r.created + o.created),
        updated: capped(r.updated + o.updated),
        deleted: capped(r.deleted + o.deleted),
        ignored: capped(r.ignored + o.ignored_stale + o.ignored_dup),
        conflicts: capped(r.conflicts + o.archived.len()),
        archived: capped(r.archived + o.archived.len()),
        errors: r.errors + o.errors,
        records: r.records + o.records,
    }
}

// ---- the recycle bin ----

/// A record that lost as it goes to the recycle bin.
pub open spec fn trash_of(a: ArchivedRowV, src: Option<Seq<char>>, now: Timestamp) -> TrashEntryV {
    TrashEntryV {
        id: 0,
        kind: a.kind,
        logical_key: a.logical_key,
        archived: a.archived_json,
        winner_rev: a.winner_rev,
        reason: a.reason,
        source_device: src,
        archived_at: time_text(now),
        restored: false,
    }
}

/// The conflict that is noted for a record that lost.
pub open spec fn conflict_of(a: ArchivedRowV, src: Option<Seq<char>>, tid: i64, now: Timestamp) -> ConflictRowV {
    ConflictRowV {
        id: 0,
        device_id: match src {
            Some(id) => id,
            None => "unknown"@,
        },
        kind: a.kind,
        logical_key: a.logical_key,
        local_rev: None,
        remote_rev: a.winner_rev,
        resolution: a.reason,
        archived_id: Some(tid),
        created_at: time_text(now),
    }
}

/// The state after a record that lost is put aside and its conflict noted.
pub open spec fn put_aside(db: SyncDbV, a: ArchivedRowV, src: Option<Seq<char>>, now: Timestamp) -> SyncDbV {
    match next_id(db.last_trash_id) {
        Ok(tid) => with_conflict(
            with_trash(db, trash_of(a, src, now)),
            conflict_of(a, src, tid, now),
        ),
        Err(_) => db,
    }
}

/// The state after the first `n` of the records that lost are put aside.
pub open spec fn all_put_aside(
    db: SyncDbV,
    list: Seq<ArchivedRowV>,
    n: nat,
    src: Option<Seq<char>>,
    now: Timestamp,
) -> SyncDbV
    decreases n,
{
    if n == 0 {
        db
    } else {
        put_aside(all_put_aside(db, list, (n - 1) as nat, src, now), list[n - 1], src, now)
    }
}

// ---- taking over a snapshot ----

/// The outcome of importing a part of a snapshot; none where the snapshot has no such part.
pub open spec fn part_view(p: Option<Result<ImportOutcome, String>>) -> Option<
    Outcome<ImportOutcomeV>,
> {
    match p {
        Some(Ok(o)) => Some(Ok(o@)),
        Some(Err(e)) => Some(Err(e@)),
        None => None,
    }
}

/// The result and the state after a part is taken over.
pub open spec fn part_taken(
    r: ApplyResultV,
    db: SyncDbV,
    label: Seq<char>,
    part: Option<Outcome<ImportOutcomeV>>,
    src: Option<Seq<char>>,
    now: Timestamp,
) -> (ApplyResultV, SyncDbV) {
    match part {
        Some(Ok(o)) => (counted(r, o), all_put_aside(db, o.archived, o.archived.len(), src, now)),
        Some(Err(e)) => (ApplyResultV { errors: r.errors.push(label + ": "@ + e), ..r }, db),
        None => (r, db),
    }
}

/// Nothing taken over.
pub open spec fn nothing_taken() -> ApplyResultV {
    ApplyResultV {
        applied: 0,
        created: 0,
        updated: 0,
        deleted: 0,
        ignored: 0,
        conflicts: 0,
        archived: 0,
        errors: Seq::empty(),
        records: Seq::empty(),
    }
}

/// The result and the state after the three parts of a snapshot are taken over.
pub open spec fn parts_taken(
    db: SyncDbV,
    src: Option<Seq<char>>,
    activity: Option<Outcome<ImportOutcomeV>>,
    inbox: Option<Outcome<ImportOutcomeV>>,
    todo: Option<Outcome<ImportOutcomeV>>,
    now: Timestamp,
) -> (ApplyResultV, SyncDbV) {
    let (r1, db1) = part_taken(nothing_taken(), db, "activity"@, activity, src, now);
    let (r2, db2) = part_taken(r1, db1, "inbox"@, inbox, src, now);
    part_taken(r2, db2, "todo"@, todo, src, now)
}

/// The name of the sender of a snapshot.
pub open spec fn source_name(source: Option<DeviceV>) -> Seq<char> {
    match source {
        Some(d) => d.name + "("@ + d.id + ")"@,
        None => "未知设备"@,
    }
}

/// The id of the sender of a snapshot.
pub open spec fn source_id(source: Option<DeviceV>) -> Option<Seq<char>> {
    match source {
        Some(d) => Some(d.id),
        None => None,
    }
}

/// The log entry on records that were put aside.
pub open spec fn aside_entry(source: Option<DeviceV>, archived: u64, now: Timestamp) -> SyncLogEntryV {
    http_entry(
        SyncDirection::In,
        SyncEventType::Conflict,
        source_id(source),
        "合并来自 "@ + source_name(source) + " 的同步："@ + decimal(archived as int)
            + " 条进入回收站（自动仲裁，无需人工处理）"@,
        None,
        None,
        now,
    )
}

/// The result and the state after a snapshot is taken over. What was put aside is logged, and
/// the revision rises where anything changed.
pub open spec fn snapshot_taken(
    m: SyncManagerV,
    source: Option<DeviceV>,
    activity: Option<Outcome<ImportOutcomeV>>,
    inbox: Option<Outcome<ImportOutcomeV>>,
    todo: Option<Outcome<ImportOutcomeV>>,
    now: Timestamp,
) -> (ApplyResultV, SyncManagerV) {
    let (r, db) = parts_taken(m.db, source_id(source), activity, inbox, todo, now);
    (
        r,
        SyncManagerV {
            db: if r.archived > 0 {
                with_log(db, aside_entry(source, r.archived, now))
            } else {
                db
            },
            revision: if r.applied > 0 || r.archived > 0 {
                bumped(m.revision)
            } else {
                m.revision
            },
            ..m
        },
    )
}

/// The contents of an optional device.
pub open spec fn opt_source(d: Option<&Device>) -> Option<DeviceV> {
    match d {
        Some(x) => Some(x@),
        None => None,
    }
}

fn append_texts(list: &mut Vec<String>, more: Vec<String>)
    ensures
        views(final(list)@) == views(old(list)@) + views(more@),
{
    let ghost before = views(list@);
    let ghost all = more@;
    assert(before + views(all).take(0) =~= before);
    for x in it: more
        invariant
            it.seq() == all,
            views(list@) == before + views(all).take(it.index()),
    {
        let ghost i = it.index();
        proof {
            crate::models::lemma_views_push(list@, x);
            assert((before + views(all).take(i)).push(x@) =~= before + views(all).take(i + 1));
        }
        list.push(x);
    }
    assert(views(all).take(all.len() as int) =~= views(all));
}

fn append_records(list: &mut Vec<TransferRecord>, more: Vec<TransferRecord>)
    ensures
        views(final(list)@) == views(old(list)@) + views(more@),
{
    let ghost before = views(list@);
    let ghost all = more@;
    assert(before + views(all).take(0) =~= before);
    for x in it: more
        invariant
            it.seq() == all,
            views(list@) == before + views(all).take(it.index()),
    {
        let ghost i = it.index();
        proof {
            crate::models::lemma_views_push(list@, x);
            assert((before + views(all).take(i)).push(x@) =~= before + views(all).take(i + 1));
        }
        list.push(x);
    }
    assert(views(all).take(all.len() as int) =~= views(all));
}

fn owned(s: Option<&str>) -> (r: Option<String>)
    ensures
        opt_text(r) == opt_str(s),
{
    match s {
        Some(x) => Some(x.to_string()),
        None => None,
    }
}

fn put_row_aside(db: &mut SyncDb, a: &ArchivedRow, src: Option<&str>, now: &Timestamp)
    ensures
        final(db)@ == put_aside(old(db)@, a@, opt_str(src), *now),
{
    let trash: TrashEntry = TrashEntry {
        id: 0,
        kind: a.kind.clone(),
        logical_key: a.logical_key.clone(),
        archived: a.archived_json.clone(),
        winner_rev: a.winner_rev.clone(),
        reason: a.reason.clone(),
        source_device: owned(src),
        archived_at: format_time(now),
        restored: false,
    };
    assert(trash@ == trash_of(a@, opt_str(src), *now));
    match db.insert_trash(&trash) {
        Ok(tid) => {
            let device_id: &str = match src {
                Some(id) => id,
                None => "unknown",
            };
            let remote_rev: Option<&str> = match &a.winner_rev {
                Some(rev) => Some(rev.as_str()),
                None => None,
            };
            assert(opt_str(remote_rev) == a@.winner_rev);
            let _ = db.insert_conflict_at(
                device_id,
                a.kind.as_str(),
                a.logical_key.as_str(),
                None,
                remote_rev,
                a.reason.as_str(),
                Some(tid),
                now,
            );
        },
        Err(_) => {},
    }
}

/// Adds an import to a result, and puts aside the records that lost in it.
pub fn persist_outcome(
    result: &mut ApplyResult,
    out: ImportOutcome,
    src_id: Option<&str>,
    db: &mut SyncDb,
    now: &Timestamp,
)
    ensures
        final(result)@ == counted(old(result)@, out@),
        final(db)@ == all_put_aside(
            old(db)@,
            out@.archived,
            out@.archived.len(),
            opt_str(src_id),
            *now,
        ),
{
    let ghost start = db@;
    let ghost list = out@.archived;
    let lost: u64 = out.archived.len() as u64;
    result.applied = plus(result.applied, out.applied);
    result.created = plus(result.created, out.created);
    result.updated = plus(result.updated, out.updated);
    result.deleted = plus(result.deleted, out.deleted);
    result.ignored = plus(plus(result.ignored, out.ignored_stale), out.ignored_dup);
    result.conflicts = plus(result.conflicts, lost);
    result.archived = plus(result.archived, lost);
    append_texts(&mut result.errors, out.errors);
    append_records(&mut result.records, out.records);
    let rows: Vec<ArchivedRow> = out.archived;
    let mut i: usize = 0;
    while i < rows.len()
        invariant
            i <= rows.len(),
            list == views(rows@),
            db@ == all_put_aside(start, list, i as nat, opt_str(src_id), *now),
        decreases rows.len() - i,
    {
        assert(list[i as int] == rows@[i as int]@);
        put_row_aside(db, &rows[i], src_id, now);
        i = i + 1;
    }
}

fn take_part(
    result: &mut ApplyResult,
    db: &mut SyncDb,
    label: &str,
    part: Option<Result<ImportOutcome, String>>,
    src_id: Option<&str>,
    now: &Timestamp,
)
    ensures
        (final(result)@, final(db)@) == part_taken(
            old(result)@,
            old(db)@,
            label@,
            part_view(part),
            opt_str(src_id),
            *now,
        ),
{
    match part {
        Some(Ok(out)) => {
            persist_outcome(result, out, src_id, db, now);
        },
        Some(Err(e)) => {
            let mut m: String = label.to_string();
            m.append(": ");
            m.append(e.as_str());
            proof {
                crate::models::lemma_views_push(result.errors@, m);
            }
            result.errors.push(m);
        },
        None => {},
    }
}

fn no_result() -> (r: ApplyResult)
    ensures
        r@ == nothing_taken(),
{
    let r: ApplyResult = ApplyResult {
        applied: 0,
        created: 0,
        updated: 0,
        deleted: 0,
        ignored: 0,
        conflicts: 0,
        archived: 0,
        errors: Vec::new(),
        records: Vec::new(),
    };
    assert(r@.errors =~= Seq::empty());
    assert(r@.records =~= Seq::empty());
    r
}

/// Which parts a snapshot of this device has.
#[derive(Debug, Clone, Copy, PartialEq, Eq, Structural)]
pub struct ExportPlan {
    pub activity: bool,
    pub inbox: bool,
    pub todo: bool,
}

/// Which parts a snapshot of this device has, by the settings.
pub open spec fn export_plan(m: SyncManagerV) -> ExportPlan {
    let cfg = config_of(m.db.config);
    ExportPlan { activity: cfg.sync_activity, inbox: cfg.sync_inbox, todo: cfg.sync_todo }
}

// ---- a run of synchronisation ----

/// A run of synchronisation with a device: its snapshot is fetched and taken over, and then
/// the own one is pushed.
#[derive(Debug)]
pub struct SyncRun {
    /// The device.
    pub peer: Device,
    /// The secret shared with it.
    pub secret: Option<String>,
    /// What was taken over.
    pub applied: ApplyResult,
}

/// The contents of a [`SyncRun`].
pub struct SyncRunV {
    pub peer: DeviceV,
    pub secret: Option<Seq<char>>,
    pub applied: ApplyResultV,
}

impl View for SyncRun {
    type V = SyncRunV;

    open spec fn view(&self) -> SyncRunV {
        SyncRunV { peer: self.peer@, secret: opt_text(self.secret), applied: self.applied@ }
    }
}

/// The contents of a run, or why there is none.
pub open spec fn run_outcome(r: Result<SyncRun, String>) -> Outcome<SyncRunV> {
    match r {
        Ok(x) => Ok(x@),
        Err(e) => Err(e@),
    }
}

/// A run that begins.
pub open spec fn run_begun(m: SyncManagerV, peer_id: Seq<char>, now: Timestamp) -> Outcome<SyncRunV> {
    match device_with_id(m.db.devices, peer_id, now) {
        Some(d) => Ok(
            SyncRunV {
                peer: d,
                secret: secret_of(m.db.secrets, d.id),
                applied: nothing_taken(),
            },
        ),
        None => Err("未找到目标设备"@),
    }
}

/// How many records were pushed; a push that failed counts for none.
pub open spec fn pushed_count(pushed: Option<u64>) -> u64 {
    match pushed {
        Some(n) => n,
        None => 0,
    }
}

/// Whether a run changed nothing on either side.
pub open spec fn idle(applied: ApplyResultV, pushed: Option<u64>) -> bool {
    applied.applied == 0 && pushed_count(pushed) == 0 && applied.archived == 0
}

/// The message on a run.
pub open spec fn run_message(
    self_id: Seq<char>,
    peer: DeviceV,
    applied: ApplyResultV,
    pushed: Option<u64>,
) -> Seq<char> {
    "本机("@ + self_id + ") 与 "@ + peer.name + "("@ + peer.id + ") 双向同步完成: 拉取应用 "@ + decimal(
        applied.applied as int,
    ) + " 条(新增"@ + decimal(applied.created as int) + " 更新"@ + decimal(applied.updated as int)
        + " 删除"@ + decimal(applied.deleted as int) + ")，推送 "@ + decimal(
        pushed_count(pushed) as int,
    ) + " 条，归档 "@ + decimal(applied.archived as int) + " 条"@
}

/// The log entry on a run.
pub open spec fn run_entry(
    self_id: Seq<char>,
    peer: DeviceV,
    applied: ApplyResultV,
    pushed: Option<u64>,
    size: u64,
    records_json: Seq<char>,
    now: Timestamp,
) -> SyncLogEntryV {
    http_entry(
        SyncDirection::Out,
        SyncEventType::Sync,
        Some(peer.id),
        run_message(self_id, peer, applied, pushed),
        Some(size),
        if applied.records.len() == 0 {
            None
        } else {
            Some(records_json)
        },
        now,
    )
}

/// The state after a run. A run that changed nothing is logged only where that is asked for.
pub open spec fn run_noted(
    m: SyncManagerV,
    peer: DeviceV,
    applied: ApplyResultV,
    pushed: Option<u64>,
    size: u64,
    records_json: Seq<char>,
    log_noop: bool,
    now: Timestamp,
) -> SyncManagerV {
    let db = SyncDbV {
        devices: with_change(m.db.devices, peer.id, DeviceChangeV::Synced(time_text(now))),
        ..m.db
    };
    SyncManagerV {
        db: if log_noop || !idle(applied, pushed) {
            with_log(
                db,
                run_entry(m.self_id, peer, applied, pushed, size, records_json, now),
            )
        } else {
            db
        },
        ..m
    }
}

/// The number of bytes of a part of a snapshot.
pub open spec fn part_size(part: Option<Seq<char>>) -> int {
    match part {
        Some(text) => encode_utf8(text).len() as int,
        None => 0,
    }
}

fn size_of_part(part: Option<&str>) -> (r: u64)
    ensures
        r == part_size(opt_str(part)),
{
    match part {
        Some(text) => text.as_bytes().len() as u64,
        None => 0,
    }
}

/// The number of bytes of a snapshot.
pub fn snapshot_size(activity: Option<&str>, inbox: Option<&str>, todo: Option<&str>) -> (r: u64)
    ensures
        r == capped(
            part_size(opt_str(activity)) + part_size(opt_str(inbox)) + part_size(opt_str(todo)),
        ),
{
    plus(plus(size_of_part(activity), size_of_part(inbox)), size_of_part(todo))
}

// ---- restoring ----

/// What to do to restore an entry of the recycle bin.
#[derive(Debug)]
pub enum RestoreStep {
    /// Nothing: it was restored before.
    Done,
    /// Write the note back.
    Note(TrashEntry),
    /// Write the task back.
    Todo(TrashEntry),
}

/// The contents of a [`RestoreStep`].
pub enum RestoreStepV {
    Done,
    Note(TrashEntryV),
    Todo(TrashEntryV),
}

impl View for RestoreStep {
    type V = RestoreStepV;

    open spec fn view(&self) -> RestoreStepV {
        match self {
            RestoreStep::Done => RestoreStepV::Done,
            RestoreStep::Note(t) => RestoreStepV::Note(t@),
            RestoreStep::Todo(t) => RestoreStepV::Todo(t@),
        }
    }
}

/// The contents of a step, or why there is none.
pub open spec fn restore_outcome(r: Result<RestoreStep, String>) -> Outcome<RestoreStepV> {
    match r {
        Ok(s) => Ok(s@),
        Err(e) => Err(e@),
    }
}

/// What to do to restore an entry.
pub open spec fn restore_step(entry: Option<TrashEntryV>) -> Outcome<RestoreStepV> {
    match entry {
        None => Err("回收站条目不存在"@),
        Some(t) => if t.restored {
            Ok(RestoreStepV::Done)
        } else if t.kind == "note"@ {
            Ok(RestoreStepV::Note(t))
        } else if t.kind == "todo"@ {
            Ok(RestoreStepV::Todo(t))
        } else {
            Err("未知归档类型 "@ + t.kind)
        },
    }
}

/// The state after an entry was restored.
pub open spec fn restored(m: SyncManagerV, t: TrashEntryV, now: Timestamp) -> SyncManagerV {
    SyncManagerV {
        db: with_log(
            SyncDbV { trash: with_restored(m.db.trash, t.id), ..m.db },
            http_entry(
                SyncDirection::In,
                SyncEventType::Conflict,
                t.source_device,
                "已从回收站恢复 "@ + t.kind + "（逻辑键 "@ + t.logical_key + "）"@,
                None,
                None,
                now,
            ),
        ),
        ..m
    }
}

impl SyncManager {
    /// Which parts a snapshot of this device has, by the settings.
    pub fn export(&self) -> (r: ExportPlan)
        ensures
            r == export_plan(self@),
    {
        let cfg: crate::models::SyncConfig = self.get_config();
        ExportPlan { activity: cfg.sync_activity, inbox: cfg.sync_inbox, todo: cfg.sync_todo }
    }

    /// Takes over a snapshot at a time, given what importing its parts led to.
    pub fn apply_snapshot_at(
        &mut self,
        source: Option<&Device>,
        activity: Option<Result<ImportOutcome, String>>,
        inbox: Option<Result<ImportOutcome, String>>,
        todo: Option<Result<ImportOutcome, String>>,
        now: &Timestamp,
    ) -> (r: ApplyResult)
        ensures
            (r@, final(self)@) == snapshot_taken(
                old(self)@,
                opt_source(source),
                part_view(activity),
                part_view(inbox),
                part_view(todo),
                *now,
            ),
    {
        let src_id: Option<&str> = match source {
            Some(d) => Some(d.id.as_str()),
            None => None,
        };
        assert(opt_str(src_id) == source_id(opt_source(source)));
        let mut result: ApplyResult = no_result();
        take_part(&mut result, &mut self.db, "activity", activity, src_id, now);
        take_part(&mut result, &mut self.db, "inbox", inbox, src_id, now);
        take_part(&mut result, &mut self.db, "todo", todo, src_id, now);
        if result.archived > 0 {
            let mut message: String = "合并来自 ".to_string();
            match source {
                Some(d) => {
                    let mut name: String = d.name.clone();
                    name.append("(");
                    name.append(d.id.as_str());
                    name.append(")");
                    message.append(name.as_str());
                },
                None => {
                    message.append("未知设备");
                },
            }
            message.append(" 的同步：");
            push_decimal(&mut message, result.archived as i128);
            message.append(" 条进入回收站（自动仲裁，无需人工处理）");
            let entry: SyncLogEntry = http_log(
                SyncDirection::In,
                SyncEventType::Conflict,
                owned(src_id),
                message,
                None,
                None,
                now,
            );
            let _ = self.db.add_log(&entry);
        }
        if result.applied > 0 || result.archived > 0 {
            bump_data_revision(&mut self.revision);
        }
        result
    }

    /// Takes over a snapshot, given what importing its parts led to.
    pub fn apply_snapshot(
        &mut self,
        source: Option<&Device>,
        activity: Option<Result<ImportOutcome, String>>,
        inbox: Option<Result<ImportOutcome, String>>,
        todo: Option<Result<ImportOutcome, String>>,
    ) -> (r: ApplyResult)
        ensures
            exists|now: Timestamp|
                (r@, final(self)@) == #[trigger] snapshot_taken(
                    old(self)@,
                    opt_source(source),
                    part_view(activity),
                    part_view(inbox),
                    part_view(todo),
                    now,
                ),
    {
        self.apply_snapshot_at(source, activity, inbox, todo, &clock())
    }

    /// Begins a run of synchronisation with a device.
    pub fn sync_to_unlocked(&self, peer_id: &str, now: &Timestamp) -> (r: Result<SyncRun, String>)
        ensures
            run_outcome(r) == run_begun(self@, peer_id@, *now),
    {
        match self.get_device_at(peer_id, now) {
            Some(peer) => {
                let secret: Option<String> = self.device_secret(peer.id.as_str());
                Ok(SyncRun { peer, secret, applied: no_result() })
            },
            None => Err("未找到目标设备".to_string()),
        }
    }

    /// Says what to do to restore an entry of the recycle bin.
    pub fn restore_trash(&self, id: i64) -> (r: Result<RestoreStep, String>)
        ensures
            restore_outcome(r) == restore_step(trash_entry(self@.db.trash, id)),
    {
        let entry: TrashEntry = match self.db.get_trash(id) {
            Some(t) => t,
            None => {
                return Err("回收站条目不存在".to_string());
            },
        };
        if entry.restored {
            return Ok(RestoreStep::Done);
        }
        if same(entry.kind.as_str(), "note") {
            return Ok(RestoreStep::Note(entry));
        }
        if same(entry.kind.as_str(), "todo") {
            return Ok(RestoreStep::Todo(entry));
        }
        let mut m: String = "未知归档类型 ".to_string();
        m.append(entry.kind.as_str());
        Err(m)
    }

    /// Notes whether an entry of the recycle bin was written back, and logs it.
    pub fn trash_restored(&mut self, entry: &TrashEntry, ok: bool, now: &Timestamp)
        ensures
            final(self)@ == (if ok {
                restored(old(self)@, entry@, *now)
            } else {
                old(self)@
            }),
    {
        if !ok {
            return;
        }
        let _ = self.db.mark_trash_restored(entry.id);
        let mut message: String = "已从回收站恢复 ".to_string();
        message.append(entry.kind.as_str());
        message.append("（逻辑键 ");
        message.append(entry.logical_key.as_str());
        message.append("）");
        let log: SyncLogEntry = http_log(
            SyncDirection::In,
            SyncEventType::Conflict,
            entry.source_device.clone(),
            message,
            None,
            None,
            now,
        );
        let _ = self.db.add_log(&log);
    }
}

/// What a run took over, or why it failed.
pub open spec fn applied_outcome(r: Result<ApplyResult, String>) -> Outcome<ApplyResultV> {
    match r {
        Ok(x) => Ok(x@),
        Err(e) => Err(e@),
    }
}

impl SyncRun {
    /// Goes on once the snapshot of the device was fetched and its parts were imported.
    pub fn fetched(
        &mut self,
        m: &mut SyncManager,
        source: Option<&Device>,
        activity: Option<Result<ImportOutcome, String>>,
        inbox: Option<Result<ImportOutcome, String>>,
        todo: Option<Result<ImportOutcome, String>>,
        now: &Timestamp,
    ) -> (r: ExportPlan)
        ensures
            (final(self)@.applied, final(m)@) == snapshot_taken(
                old(m)@,
                opt_source(source),
                part_view(activity),
                part_view(inbox),
                part_view(todo),
                *now,
            ),
            final(self)@.peer == old(self)@.peer,
            final(self)@.secret == old(self)@.secret,
            r == export_plan(final(m)@),
    {
        self.applied = m.apply_snapshot_at(source, activity, inbox, todo, now);
        m.export()
    }

    /// Ends the run once the own snapshot was pushed: notes it at the device and in the log.
    /// `pushed` is none where the push failed; `records_json` lists the records that were taken
    /// over.
    pub fn pushed(
        self,
        m: &mut SyncManager,
        pushed: Option<u64>,
        size: u64,
        records_json: &str,
        log_noop: bool,
        now: &Timestamp,
    ) -> (r: Result<ApplyResult, String>)
        ensures
            final(m)@ == run_noted(
                old(m)@,
                self@.peer,
                self@.applied,
                pushed,
                size,
                records_json@,
                log_noop,
                *now,
            ),
            applied_outcome(r) == (if log_noop || !idle(self@.applied, pushed) {
                match next_log_id(old(m)@.db) {
                    Ok(_) => Ok(self@.applied),
                    Err(e) => Err(e),
                }
            } else {
                Ok(self@.applied)
            }),
    {
        let peer: Device = self.peer;
        let applied: ApplyResult = self.applied;
        let count: u64 = match pushed {
            Some(n) => n,
            None => 0,
        };
        m.db.mark_synced(peer.id.as_str(), now);
        let noop: bool = applied.applied == 0 && count == 0 && applied.archived == 0;
        if !log_noop && noop {
            return Ok(applied);
        }
        let mut message: String = "本机(".to_string();
        message.append(m.self_id.as_str());
        message.append(") 与 ");
        message.append(peer.name.as_str());
        message.append("(");
        message.append(peer.id.as_str());
        message.append(") 双向同步完成: 拉取应用 ");
        push_decimal(&mut message, applied.applied as i128);
        message.append(" 条(新增");
        push_decimal(&mut message, applied.created as i128);
        message.append(" 更新");
        push_decimal(&mut message, applied.updated as i128);
        message.append(" 删除");
        push_decimal(&mut message, applied.deleted as i128);
        message.append(")，推送 ");
        push_decimal(&mut message, count as i128);
        message.append(" 条，归档 ");
        push_decimal(&mut message, applied.archived as i128);
        message.append(" 条");
        let details: Option<String> = if applied.records.len() == 0 {
            None
        } else {
            Some(records_json.to_string())
        };
        let entry: SyncLogEntry = http_log(
            SyncDirection::Out,
            SyncEventType::Sync,
            Some(peer.id.clone()),
            message,
            Some(size),
            details,
            now,
        );
        match m.db.add_log(&entry) {
            Ok(_) => Ok(applied),
            Err(e) => Err(e),
        }
    }
}

// ---- laws ----

/// A snapshot that brings nothing changes nothing, and the revision rises exactly where a
/// snapshot brings or displaces something.
pub proof fn law_revision_follows_changes(
    m: SyncManagerV,
    source: Option<DeviceV>,
    activity: Option<Outcome<ImportOutcomeV>>,
    inbox: Option<Outcome<ImportOutcomeV>>,
    todo: Option<Outcome<ImportOutcomeV>>,
    now: Timestamp,
)
    ensures
        ({
            let (r, after) = snapshot_taken(m, source, activity, inbox, todo, now);
            &&& (after.revision != m.revision <==> r.applied > 0 || r.archived > 0)
            &&& r.archived == 0 ==> after.db == m.db
        }),
{
    let src = source_id(source);
    let (r1, db1) = part_taken(nothing_taken(), m.db, "activity"@, activity, src, now);
    let (r2, db2) = part_taken(r1, db1, "inbox"@, inbox, src, now);
    let (r3, db3) = part_taken(r2, db2, "todo"@, todo, src, now);
    assert(r1.archived == 0 ==> db1 == m.db);
    assert(r2.archived == 0 ==> r1.archived == 0 && db2 == db1);
    assert(r3.archived == 0 ==> r2.archived == 0 && db3 == db2);
}

/// Every record that lost is kept: as many entries are in the recycle bin more as records
/// lost, none that was there is changed, and each has a conflict that refers to it.
pub proof fn law_losers_are_kept(
    db: SyncDbV,
    list: Seq<ArchivedRowV>,
    n: nat,
    src: Option<Seq<char>>,
    now: Timestamp,
)
    requires
        n <= list.len(),
        db.last_trash_id + n <= i64::MAX,
        db.last_conflict_id + n <= i64::MAX,
    ensures
        ({
            let after = all_put_aside(db, list, n, src, now);
            &&& after.trash.len() == db.trash.len() + n
            &&& after.conflicts.len() == db.conflicts.len() + n
            &&& after.last_trash_id == db.last_trash_id + n
            &&& after.last_conflict_id == db.last_conflict_id + n
            &&& after.trash.take(db.trash.len() as int) == db.trash
            &&& after.conflicts.take(db.conflicts.len() as int) == db.conflicts
            &&& forall|i: int|
                #![trigger list[i]]
                0 <= i < n ==> {
                    let t = after.trash[db.trash.len() + i];
                    let c = after.conflicts[db.conflicts.len() + i];
                    &&& t.id == db.last_trash_id + 1 + i
                    &&& t.kind == list[i].kind
                    &&& t.logical_key == list[i].logical_key
                    &&& t.archived == list[i].archived_json
                    &&& t.winner_rev == list[i].winner_rev
                    &&& t.reason == list[i].reason
                    &&& t.source_device == src
                    &&& t.archived_at == time_text(now)
                    &&& !t.restored
                    &&& c.id == db.last_conflict_id + 1 + i
                    &&& c.archived_id == Some(t.id)
                    &&& src matches Some(id) ==> c.device_id == id
                    &&& src is None ==> c.device_id == "unknown"@
                    &&& c.kind == list[i].kind
                    &&& c.logical_key == list[i].logical_key
                    &&& c.local_rev is None
                    &&& c.remote_rev == list[i].winner_rev
                    &&& c.resolution == list[i].reason
                    &&& c.created_at == time_text(now)
                }
            &&& after == (SyncDbV {
                trash: after.trash,
                conflicts: after.conflicts,
                last_trash_id: after.last_trash_id,
                last_conflict_id: after.last_conflict_id,
                ..db
            })
        }),
    decreases n,
{
    if n == 0 {
        assert(db.trash.take(db.trash.len() as int) =~= db.trash);
        assert(db.conflicts.take(db.conflicts.len() as int) =~= db.conflicts);
    } else {
        law_losers_are_kept(db, list, (n - 1) as nat, src, now);
        let before = all_put_aside(db, list, (n - 1) as nat, src, now);
        let after = all_put_aside(db, list, n, src, now);
        assert(after.trash.take(db.trash.len() as int) =~= before.trash.take(
            db.trash.len() as int,
        ));
        assert(after.conflicts.take(db.conflicts.len() as int) =~= before.conflicts.take(
            db.conflicts.len() as int,
        ));
    }
}

/// A run that changed nothing on either side leaves no log entry unless it is asked for.
pub proof fn law_idle_run_is_silent(
    m: SyncManagerV,
    peer: DeviceV,
    applied: ApplyResultV,
    pushed: Option<u64>,
    size: u64,
    records_json: Seq<char>,
    now: Timestamp,
)
    requires
        idle(applied, pushed),
    ensures
        run_noted(m, peer, applied, pushed, size, records_json, false, now).db.logs == m.db.logs,
{
}

/// An entry that was restored is not restored again.
pub proof fn law_restored_once(m: SyncManagerV, id: i64, t: TrashEntryV, now: Timestamp)
    requires
        trash_entry(m.db.trash, id) == Some(t),
        t.id == id,
    ensures
        restore_step(trash_entry(restored(m, t, now).db.trash, id)) == Outcome::<RestoreStepV>::Ok(
            RestoreStepV::Done,
        ),
{
    crate::storage::bin::law_restored_entry(m.db.trash, id);
}

/// The records that lost in a part of a snapshot.
pub open spec fn lost(part: Option<Outcome<ImportOutcomeV>>) -> Seq<ArchivedRowV> {
    match part {
        Some(Ok(o)) => o.archived,
        _ => Seq::empty(),
    }
}

proof fn lemma_aside_prefix(
    db: SyncDbV,
    a: Seq<ArchivedRowV>,
    b: Seq<ArchivedRowV>,
    n: nat,
    src: Option<Seq<char>>,
    now: Timestamp,
)
    requires
        n <= a.len(),
    ensures
        all_put_aside(db, a + b, n, src, now) == all_put_aside(db, a, n, src, now),
    decreases n,
{
    if n > 0 {
        lemma_aside_prefix(db, a, b, (n - 1) as nat, src, now);
        assert((a + b)[n - 1] == a[n - 1]);
    }
}

proof fn lemma_aside_joined(
    db: SyncDbV,
    a: Seq<ArchivedRowV>,
    b: Seq<ArchivedRowV>,
    n: nat,
    src: Option<Seq<char>>,
    now: Timestamp,
)
    requires
        n <= b.len(),
    ensures
        all_put_aside(all_put_aside(db, a, a.len(), src, now), b, n, src, now) == all_put_aside(
            db,
            a + b,
            (a.len() + n) as nat,
            src,
            now,
        ),
    decreases n,
{
    if n == 0 {
        lemma_aside_prefix(db, a, b, a.len(), src, now);
    } else {
        lemma_aside_joined(db, a, b, (n - 1) as nat, src, now);
        assert((a + b)[a.len() + n - 1] == b[n - 1]);
    }
}

proof fn lemma_first_with_id(rows: Seq<TrashEntryV>, k: int)
    requires
        0 <= k < rows.len(),
        forall|j: int| 0 <= j < k ==> (#[trigger] rows[j]).id != rows[k].id,
    ensures
        trash_entry(rows, rows[k].id) == Some(rows[k]),
    decreases k,
{
    if k > 0 {
        let rest = rows.drop_first();
        assert(rows[0].id != rows[k].id);
        assert forall|j: int| 0 <= j < k - 1 implies (#[trigger] rest[j]).id != rest[k - 1].id by {
            assert(rest[j] == rows[j + 1]);
        }
        lemma_first_with_id(rest, k - 1);
    }
}

proof fn lemma_parts_aside(
    db: SyncDbV,
    src: Option<Seq<char>>,
    activity: Option<Outcome<ImportOutcomeV>>,
    inbox: Option<Outcome<ImportOutcomeV>>,
    todo: Option<Outcome<ImportOutcomeV>>,
    now: Timestamp,
)
    ensures
        ({
            let losers = lost(activity) + lost(inbox) + lost(todo);
            parts_taken(db, src, activity, inbox, todo, now).1 == all_put_aside(
                db,
                losers,
                losers.len(),
                src,
                now,
            )
        }),
{
    let a = lost(activity);
    let b = lost(inbox);
    let c = lost(todo);
    lemma_aside_joined(db, a, b, b.len(), src, now);
    lemma_aside_joined(db, a + b, c, c.len(), src, now);
    let (r1, db1) = part_taken(nothing_taken(), db, "activity"@, activity, src, now);
    assert(db1 == all_put_aside(db, a, a.len(), src, now));
    let (r2, db2) = part_taken(r1, db1, "inbox"@, inbox, src, now);
    assert(db2 == all_put_aside(db1, b, b.len(), src, now));
    let (r3, db3) = part_taken(r2, db2, "todo"@, todo, src, now);
    assert(db3 == all_put_aside(db2, c, c.len(), src, now));
}

/// After a snapshot is taken over, every record that lost in one of its parts is in the recycle
/// bin under the next id: with its kind, its logical key and its text as they were, as put aside
/// now, because of the sender and not restored. A conflict refers to it. A note and a task can be
/// restored from there, and what is handed out for that is the text that was put aside.
pub proof fn law_losers_can_be_restored(
    m: SyncManagerV,
    source: Option<DeviceV>,
    activity: Option<Outcome<ImportOutcomeV>>,
    inbox: Option<Outcome<ImportOutcomeV>>,
    todo: Option<Outcome<ImportOutcomeV>>,
    now: Timestamp,
    k: int,
)
    requires
        trash_ids_given(m.db),
        0 <= k < (lost(activity) + lost(inbox) + lost(todo)).len(),
        m.db.last_trash_id + (lost(activity) + lost(inbox) + lost(todo)).len() <= i64::MAX,
        m.db.last_conflict_id + (lost(activity) + lost(inbox) + lost(todo)).len() <= i64::MAX,
    ensures
        ({
            let after = snapshot_taken(m, source, activity, inbox, todo, now).1;
            let a = (lost(activity) + lost(inbox) + lost(todo))[k];
            let id = (m.db.last_trash_id + 1 + k) as i64;
            let entry = trash_entry(after.db.trash, id);
            let t = entry->0;
            let c = after.db.conflicts[m.db.conflicts.len() + k];
            let step = restore_step(entry);
            &&& entry is Some
            &&& t.id == id
            &&& t.kind == a.kind
            &&& t.logical_key == a.logical_key
            &&& t.archived == a.archived_json
            &&& t.winner_rev == a.winner_rev
            &&& t.reason == a.reason
            &&& source matches Some(d) ==> t.source_device == Some(d.id)
            &&& source is None ==> t.source_device is None
            &&& t.archived_at == time_text(now)
            &&& !t.restored
            &&& after.db.conflicts.len() > m.db.conflicts.len() + k
            &&& c.archived_id == Some(id)
            &&& source matches Some(d) ==> c.device_id == d.id
            &&& source is None ==> c.device_id == "unknown"@
            &&& c.kind == a.kind
            &&& c.logical_key == a.logical_key
            &&& c.remote_rev == a.winner_rev
            &&& c.resolution == a.reason
            &&& c.created_at == time_text(now)
            &&& a.kind == "note"@ ==> step is Ok && (step->Ok_0 matches RestoreStepV::Note(x)
                && x.id == id && x.archived == a.archived_json && x.logical_key == a.logical_key)
            &&& a.kind == "todo"@ ==> step is Ok && (step->Ok_0 matches RestoreStepV::Todo(x)
                && x.id == id && x.archived == a.archived_json && x.logical_key == a.logical_key)
            &&& a.kind != "note"@ && a.kind != "todo"@ ==> step is Err
        }),
{
    let src = source_id(source);
    let losers = lost(activity) + lost(inbox) + lost(todo);
    let (r, db) = parts_taken(m.db, src, activity, inbox, todo, now);
    let after = snapshot_taken(m, source, activity, inbox, todo, now).1;
    lemma_parts_aside(m.db, src, activity, inbox, todo, now);
    law_losers_are_kept(m.db, losers, losers.len(), src, now);
    crate::storage::logs::law_log_is_apart(db, aside_entry(source, r.archived, now));
    assert(after.db.trash == db.trash && after.db.conflicts == db.conflicts);
    assert(losers[k] == losers[k]);
    let at = m.db.trash.len() + k;
    assert forall|j: int| 0 <= j < at implies (#[trigger] db.trash[j]).id != db.trash[at].id by {
        if j < m.db.trash.len() {
            assert(db.trash[j] == db.trash.take(m.db.trash.len() as int)[j]);
            assert(m.db.trash[j].id <= m.db.last_trash_id);
        } else {
            let i = j - m.db.trash.len();
            assert(losers[i] == losers[i]);
            assert(db.trash[m.db.trash.len() + i].id == m.db.last_trash_id + 1 + i);
        }
    }
    lemma_first_with_id(db.trash, at);
    reveal_strlit("note");
    reveal_strlit("todo");
    assert("note"@[0] == 'n' && "todo"@[0] == 't');
}

/// What was in the recycle bin and what conflicts were noted stays as it is when a snapshot is
/// taken over, and so do the devices, the secrets and the settings.
pub proof fn law_snapshot_spares_the_rest(
    m: SyncManagerV,
    source: Option<DeviceV>,
    activity: Option<Outcome<ImportOutcomeV>>,
    inbox: Option<Outcome<ImportOutcomeV>>,
    todo: Option<Outcome<ImportOutcomeV>>,
    now: Timestamp,
)
    requires
        m.db.last_trash_id + (lost(activity) + lost(inbox) + lost(todo)).len() <= i64::MAX,
        m.db.last_conflict_id + (lost(activity) + lost(inbox) + lost(todo)).len() <= i64::MAX,
    ensures
        ({
            let after = snapshot_taken(m, source, activity, inbox, todo, now).1;
            let n = (lost(activity) + lost(inbox) + lost(todo)).len();
            &&& after.db.trash.take(m.db.trash.len() as int) == m.db.trash
            &&& after.db.trash.len() == m.db.trash.len() + n
            &&& after.db.conflicts.take(m.db.conflicts.len() as int) == m.db.conflicts
            &&& after.db.conflicts.len() == m.db.conflicts.len() + n
            &&& after.db.devices == m.db.devices
            &&& after.db.secrets == m.db.secrets
            &&& after.db.config == m.db.config
            &&& after.self_id == m.self_id
            &&& after.inbound == m.inbound
            &&& after.seen == m.seen
            &&& after.discovery == m.discovery
        }),
{
    let src = source_id(source);
    let losers = lost(activity) + lost(inbox) + lost(todo);
    let (r, db) = parts_taken(m.db, src, activity, inbox, todo, now);
    lemma_parts_aside(m.db, src, activity, inbox, todo, now);
    law_losers_are_kept(m.db, losers, losers.len(), src, now);
    crate::storage::logs::law_log_is_apart(db, aside_entry(source, r.archived, now));
}

/// What an import of a part counts; nothing where there is no part or its import failed.
pub open spec fn share(part: Option<Outcome<ImportOutcomeV>>) -> ImportOutcomeV {
    match part {
        Some(Ok(o)) => o,
        _ => ImportOutcomeV {
            applied: 0,
            created: 0,
            updated: 0,
            deleted: 0,
            ignored_stale: 0,
            ignored_dup: 0,
            archived: Seq::empty(),
            errors: Seq::empty(),
            records: Seq::empty(),
        },
    }
}

/// The counts of a snapshot are the sums of the counts of its parts, up to the largest number;
/// stale records and duplicates count as ignored, and each record that lost counts both as put
/// aside and as a conflict. The records are those of the parts one after another, and a part
/// whose import failed is told by its name and the reason.
pub proof fn law_counts_are_sums(
    m: SyncManagerV,
    source: Option<DeviceV>,
    activity: Option<Outcome<ImportOutcomeV>>,
    inbox: Option<Outcome<ImportOutcomeV>>,
    todo: Option<Outcome<ImportOutcomeV>>,
    now: Timestamp,
)
    ensures
        ({
            let r = snapshot_taken(m, source, activity, inbox, todo, now).0;
            let (a, b, c) = (share(activity), share(inbox), share(todo));
            let ignored = a.ignored_stale + a.ignored_dup + b.ignored_stale + b.ignored_dup
                + c.ignored_stale + c.ignored_dup;
            let lost = a.archived.len() + b.archived.len() + c.archived.len();
            &&& a.applied + b.applied + c.applied <= u64::MAX ==> r.applied == a.applied + b.applied
                + c.applied
            &&& a.applied + b.applied + c.applied > u64::MAX ==> r.applied == u64::MAX
            &&& a.created + b.created + c.created <= u64::MAX ==> r.created == a.created + b.created
                + c.created
            &&& a.updated + b.updated + c.updated <= u64::MAX ==> r.updated == a.updated + b.updated
                + c.updated
            &&& a.deleted + b.deleted + c.deleted <= u64::MAX ==> r.deleted == a.deleted + b.deleted
                + c.deleted
            &&& ignored <= u64::MAX ==> r.ignored == ignored
            &&& lost <= u64::MAX ==> r.archived == lost && r.conflicts == lost
            &&& r.records == a.records + b.records + c.records
            &&& (activity matches Some(Err(e)) ==> r.errors.contains("activity: "@ + e))
            &&& (inbox matches Some(Err(e)) ==> r.errors.contains("inbox: "@ + e))
            &&& (todo matches Some(Err(e)) ==> r.errors.contains("todo: "@ + e))
            &&& !(activity matches Some(Err(_))) && !(inbox matches Some(Err(_))) && !(
            todo matches Some(Err(_))) ==> r.errors == a.errors + b.errors + c.errors
        }),
{
    let src = source_id(source);
    let (a, b, c) = (share(activity), share(inbox), share(todo));
    let (r1, db1) = part_taken(nothing_taken(), m.db, "activity"@, activity, src, now);
    let (r2, db2) = part_taken(r1, db1, "inbox"@, inbox, src, now);
    let (r3, db3) = part_taken(r2, db2, "todo"@, todo, src, now);
    assert(r3.records =~= a.records + b.records + c.records);
    reveal_strlit("activity");
    reveal_strlit("inbox");
    reveal_strlit("todo");
    reveal_strlit(": ");
    reveal_strlit("activity: ");
    reveal_strlit("inbox: ");
    reveal_strlit("todo: ");
    assert("activity"@ + ": "@ =~= "activity: "@);
    assert("inbox"@ + ": "@ =~= "inbox: "@);
    assert("todo"@ + ": "@ =~= "todo: "@);
    match activity {
        Some(Err(e)) => {
            assert(r3.errors[0] == "activity: "@ + e);
        },
        _ => {},
    }
    match inbox {
        Some(Err(e)) => {
            assert(r3.errors[r1.errors.len() as int] == "inbox: "@ + e);
        },
        _ => {},
    }
    match todo {
        Some(Err(e)) => {
            assert(r3.errors[r2.errors.len() as int] == "todo: "@ + e);
        },
        _ => {},
    }
    if !(activity matches Some(Err(_))) && !(inbox matches Some(Err(_))) && !(
    todo matches Some(Err(_))) {
        assert(r3.errors =~= a.errors + b.errors + c.errors);
    }
}

/// That records were put aside is logged: as coming in from the sender, as a conflict that was
/// settled, with their number. Where none was, nothing is logged.
pub proof fn law_losers_are_logged(
    m: SyncManagerV,
    source: Option<DeviceV>,
    activity: Option<Outcome<ImportOutcomeV>>,
    inbox: Option<Outcome<ImportOutcomeV>>,
    todo: Option<Outcome<ImportOutcomeV>>,
    now: Timestamp,
)
    ensures
        ({
            let (r, after) = snapshot_taken(m, source, activity, inbox, todo, now);
            let e = after.db.logs.last();
            &&& r.archived == 0 ==> after.db.logs == m.db.logs
            &&& r.archived > 0 && m.db.last_log_id < i64::MAX ==> {
                &&& after.db.logs.len() > 0
                &&& e.id == m.db.last_log_id + 1
                &&& e.timestamp == time_text(now)
                &&& e.direction == "in"@
                &&& e.protocol == "http"@
                &&& e.event_type == "conflict"@
                &&& e.status == "success"@
                &&& e.data_size is None
                &&& e.details is None
                &&& source matches Some(d) ==> e.peer_id == Some(d.id) && e.message == Some(
                    "合并来自 "@ + (d.name + "("@ + d.id + ")"@) + " 的同步："@ + decimal(
                        r.archived as int,
                    ) + " 条进入回收站（自动仲裁，无需人工处理）"@,
                )
                &&& source is None ==> e.peer_id is None && e.message == Some(
                    "合并来自 "@ + "未知设备"@ + " 的同步："@ + decimal(r.archived as int)
                        + " 条进入回收站（自动仲裁，无需人工处理）"@,
                )
            }
        }),
{
    let src = source_id(source);
    let (r, db) = parts_taken(m.db, src, activity, inbox, todo, now);
    let (r1, db1) = part_taken(nothing_taken(), m.db, "activity"@, activity, src, now);
    let (r2, db2) = part_taken(r1, db1, "inbox"@, inbox, src, now);
    lemma_aside_leaves_log(m.db, lost(activity), lost(activity).len(), src, now);
    lemma_aside_leaves_log(db1, lost(inbox), lost(inbox).len(), src, now);
    lemma_aside_leaves_log(db2, lost(todo), lost(todo).len(), src, now);
    assert(db.logs == m.db.logs && db.last_log_id == m.db.last_log_id);
}

proof fn lemma_aside_leaves_log(
    db: SyncDbV,
    list: Seq<ArchivedRowV>,
    n: nat,
    src: Option<Seq<char>>,
    now: Timestamp,
)
    ensures
        all_put_aside(db, list, n, src, now).logs == db.logs,
        all_put_aside(db, list, n, src, now).last_log_id == db.last_log_id,
    decreases n,
{
    if n > 0 {
        lemma_aside_leaves_log(db, list, (n - 1) as nat, src, now);
    }
}

/// Once settings are stored, a snapshot of this device has a part for the inbox and one for the
/// activity if and only if they say so; whether to-dos are synchronised is not stored, and a
/// snapshot always has them.
pub proof fn law_snapshot_follows_stored_settings(m: SyncManagerV, cfg: SyncConfigV)
    ensures
        ({
            let after = SyncManagerV {
                db: SyncDbV { config: with_config(m.db.config, cfg), ..m.db },
                ..m
            };
            &&& export_plan(after).inbox <==> cfg.sync_inbox
            &&& export_plan(after).activity <==> cfg.sync_activity
            &&& export_plan(after).todo
        }),
{
    law_config_reads_back(m.db.config, cfg);
}

/// A snapshot of this device has the parts that the settings, as they are read, say.
pub proof fn law_snapshot_follows_settings(m: SyncManagerV)
    ensures
        export_plan(m).inbox <==> config_of(m.db.config).sync_inbox,
        export_plan(m).activity <==> config_of(m.db.config).sync_activity,
        export_plan(m).todo <==> config_of(m.db.config).sync_todo,
        setting(m.db.config, "sync_inbox"@) == Some("false"@) ==> !export_plan(m).inbox,
        setting(m.db.config, "sync_inbox"@) == Some("true"@) ==> export_plan(m).inbox,
        setting(m.db.config, "sync_activity"@) == Some("false"@) ==> !export_plan(m).activity,
        setting(m.db.config, "sync_activity"@) == Some("true"@) ==> export_plan(m).activity,
{
    lemma_true_is_not_false();
}

/// A run begins with the device asked for, as it is stored, and with the secret shared with it,
/// and with nothing taken over; with a device that is not known it does not.
pub proof fn law_run_begins_with_the_device(m: SyncManagerV, peer_id: Seq<char>, now: Timestamp)
    ensures
        run_begun(m, peer_id, now) is Ok <==> device_with_id(m.db.devices, peer_id, now) is Some,
        run_begun(m, peer_id, now) matches Ok(run) ==> {
            &&& Some(run.peer) == device_with_id(m.db.devices, peer_id, now)
            &&& run.secret == secret_of(m.db.secrets, run.peer.id)
            &&& run.applied.applied == 0
            &&& run.applied.archived == 0
            &&& run.applied.created == 0
            &&& run.applied.updated == 0
            &&& run.applied.deleted == 0
            &&& run.applied.ignored == 0
            &&& run.applied.conflicts == 0
            &&& run.applied.errors.len() == 0
            &&& run.applied.records.len() == 0
        },
{
}

/// A run that is over is noted at its device, which was synchronised now and is online, and
/// nothing else of the device changes, nor any other device.
pub proof fn law_run_is_noted_at_the_device(
    m: SyncManagerV,
    peer: DeviceV,
    applied: ApplyResultV,
    pushed: Option<u64>,
    size: u64,
    records_json: Seq<char>,
    log_noop: bool,
    now: Timestamp,
    other: Seq<char>,
)
    ensures
        ({
            let after = run_noted(m, peer, applied, pushed, size, records_json, log_noop, now);
            &&& device_row(m.db.devices, peer.id) matches Some(r) ==> device_row(
                after.db.devices,
                peer.id,
            ) == Some(
                DeviceRowV { last_sync_at: Some(time_text(now)), is_online: true, ..r },
            )
            &&& other != peer.id ==> device_row(after.db.devices, other) == device_row(
                m.db.devices,
                other,
            )
            &&& after.db.secrets == m.db.secrets
            &&& after.db.config == m.db.config
            &&& after.db.trash == m.db.trash
            &&& after.revision == m.revision
        }),
{
    lemma_row_changed(m.db.devices, peer.id, DeviceChangeV::Synced(time_text(now)), peer.id);
    lemma_row_changed(m.db.devices, peer.id, DeviceChangeV::Synced(time_text(now)), other);
}

/// A run that changed something on one of the sides, or is to be logged in any case, is logged:
/// as going out to its device, with its size, and with the records where there are any.
pub proof fn law_run_is_logged(
    m: SyncManagerV,
    peer: DeviceV,
    applied: ApplyResultV,
    pushed: Option<u64>,
    size: u64,
    records_json: Seq<char>,
    log_noop: bool,
    now: Timestamp,
)
    requires
        m.db.last_log_id < i64::MAX,
        log_noop || applied.applied > 0 || applied.archived > 0 || (pushed matches Some(n) && n > 0),
    ensures
        ({
            let after = run_noted(m, peer, applied, pushed, size, records_json, log_noop, now);
            let e = after.db.logs.last();
            let count = if pushed is Some {
                pushed->0 as int
            } else {
                0
            };
            &&& after.db.logs.len() > 0
            &&& e.id == m.db.last_log_id + 1
            &&& e.timestamp == time_text(now)
            &&& e.direction == "out"@
            &&& e.protocol == "http"@
            &&& e.event_type == "sync"@
            &&& e.status == "success"@
            &&& e.peer_id == Some(peer.id)
            &&& e.data_size == Some(signed(size) as i64)
            &&& applied.records.len() == 0 ==> e.details is None
            &&& applied.records.len() > 0 ==> e.details == Some(records_json)
            &&& e.message == Some(
                "本机("@ + m.self_id + ") 与 "@ + peer.name + "("@ + peer.id
                    + ") 双向同步完成: 拉取应用 "@ + decimal(applied.applied as int) + " 条(新增"@
                    + decimal(applied.created as int) + " 更新"@ + decimal(applied.updated as int)
                    + " 删除"@ + decimal(applied.deleted as int) + ")，推送 "@ + decimal(count)
                    + " 条，归档 "@ + decimal(applied.archived as int) + " 条"@,
            )
        }),
{
}

/// A note and a task that were not restored are handed out to be restored as they are; what was
/// restored is not handed out again, and nothing else is handed out.
pub proof fn law_restoring_hands_out_the_entry(rows: Seq<TrashEntryV>, id: i64)
    ensures
        trash_entry(rows, id) is None ==> restore_step(trash_entry(rows, id)) is Err,
        trash_entry(rows, id) matches Some(t) ==> {
            let step = restore_step(trash_entry(rows, id));
            &&& t.restored ==> step == Outcome::<RestoreStepV>::Ok(RestoreStepV::Done)
            &&& !t.restored && t.kind == "note"@ ==> step == Outcome::<RestoreStepV>::Ok(
                RestoreStepV::Note(t),
            )
            &&& !t.restored && t.kind == "todo"@ ==> step == Outcome::<RestoreStepV>::Ok(
                RestoreStepV::Todo(t),
            )
            &&& !t.restored && t.kind != "note"@ && t.kind != "todo"@ ==> step is Err
        },
{
    reveal_strlit("note");
    reveal_strlit("todo");
    assert("note"@[0] == 'n' && "todo"@[0] == 't');
}

/// That an entry was restored is marked and logged, and the other entries stay as they are.
pub proof fn law_restoring_is_noted(m: SyncManagerV, t: TrashEntryV, now: Timestamp, other: i64)
    ensures
        ({
            let after = restored(m, t, now);
            let e = after.db.logs.last();
            &&& trash_entry(m.db.trash, t.id) matches Some(x) ==> trash_entry(
                after.db.trash,
                t.id,
            ) == Some(TrashEntryV { restored: true, ..x })
            &&& other != t.id ==> trash_entry(after.db.trash, other) == trash_entry(
                m.db.trash,
                other,
            )
            &&& m.db.last_log_id < i64::MAX ==> {
                &&& after.db.logs.len() > 0
                &&& e.id == m.db.last_log_id + 1
                &&& e.timestamp == time_text(now)
                &&& e.direction == "in"@
                &&& e.protocol == "http"@
                &&& e.event_type == "conflict"@
                &&& e.status == "success"@
                &&& e.peer_id == t.source_device
                &&& e.message == Some(
                    "已从回收站恢复 "@ + t.kind + "（逻辑键 "@ + t.logical_key + "）"@,
                )
            }
            &&& after.db.devices == m.db.devices
            &&& after.db.secrets == m.db.secrets
            &&& after.db.conflicts == m.db.conflicts
            &&& after.revision == m.revision
        }),
{
    crate::storage::bin::law_restored_entry(m.db.trash, t.id);
    if other != t.id {
        crate::storage::bin::law_restoring_is_local(m.db.trash, t.id, other);
    }
}

/// The size of a snapshot is the number of bytes of its parts together; a part that is not there
/// has none. A count that is too large stays at the largest number.
pub proof fn law_sizes_count_bytes(text: Seq<char>, n: int)
    ensures
        part_size(Some(text)) == encode_utf8(text).len(),
        part_size(None) == 0,
        0 <= n <= u64::MAX ==> capped(n) == n,
        n > u64::MAX ==> capped(n) == u64::MAX,
{
}

/// Why a run does not begin and why an entry is not restored.
pub proof fn law_refusals_tell_why(
    m: SyncManagerV,
    peer_id: Seq<char>,
    now: Timestamp,
    entry: Option<TrashEntryV>,
)
    ensures
        device_with_id(m.db.devices, peer_id, now) is None ==> run_begun(m, peer_id, now) == Err::<
            SyncRunV,
            Seq<char>,
        >("未找到目标设备"@),
        entry is None ==> restore_step(entry) == Err::<RestoreStepV, Seq<char>>(
            "回收站条目不存在"@,
        ),
        (entry matches Some(t) && !t.restored && t.kind != "note"@ && t.kind != "todo"@)
            ==> restore_step(entry) == Err::<RestoreStepV, Seq<char>>(
            "未知归档类型 "@ + (entry->0).kind,
        ),
{
}

} // verus!
