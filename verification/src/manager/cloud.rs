//! Synchronisation with the cloud store.

use vstd::prelude::*;
use vstd::string::*;

use crate::models::{SyncConfig, SyncConfigV, SyncDirection, SyncEventType, SyncLogEntry, SyncLogEntryV, SyncProtocol, SyncStatus, Timestamp};
use crate::manager::auto::opt_config;
use crate::storage::config::with_last_sync;
use crate::storage::devices::{format_time, time_text};
use crate::storage::logs::with_log;
use crate::storage::{SyncDb, SyncDbV};
use crate::text::{chars_of, decimal, push_decimal, trim, trimmed};

verus! {

/// What one run of the cloud synchronisation did.
#[derive(Debug, Clone, Copy, PartialEq, Eq, Structural)]
pub struct D1SyncResult {
    pub ok: bool,
    pub pushed_notes: u64,
    pub pushed_todos: u64,
    pub pulled_notes: u64,
    pub pulled_todos: u64,
    pub conflicts: u64,
}

/// What a round of the loop does before it waits.
#[derive(Debug, Clone, Copy, PartialEq, Eq, Structural)]
pub enum D1Step {
    /// Nothing: it is off.
    Off,
    /// Nothing: the account, the database or the token is missing.
    Incomplete,
    /// Synchronise.
    Sync,
}

/// Whether account, database and token are all there.
pub open spec fn complete(c: SyncConfigV) -> bool {
    trimmed(c.d1_account_id).len() > 0 && trimmed(c.d1_database_id).len() > 0 && trimmed(
        c.d1_api_token,
    ).len() > 0
}

/// What a round of the loop does, and how long it waits then, in seconds.
pub open spec fn d1_round_of(cfg: Option<SyncConfigV>) -> (D1Step, u64) {
    match cfg {
        Some(c) => (
            if !c.d1_enabled {
                D1Step::Off
            } else if !complete(c) {
                D1Step::Incomplete
            } else {
                D1Step::Sync
            },
            if c.d1_sync_interval < 10 {
                10
            } else {
                c.d1_sync_interval as u64
            },
        ),
        None => (D1Step::Off, 300),
    }
}

fn blank(s: &str) -> (r: bool)
    ensures
        r == (trimmed(s@).len() == 0),
{
    chars_of(trim(s).as_str()).len() == 0
}

/// Decides what a round of the loop does, by the settings.
pub fn d1_round(cfg: &Option<SyncConfig>) -> (r: (D1Step, u64))
    ensures
        r == d1_round_of(opt_config(*cfg)),
{
    match cfg {
        Some(c) => {
            let wait: u64 = if c.d1_sync_interval < 10 { 10 } else { c.d1_sync_interval as u64 };
            if !c.d1_enabled {
                return (D1Step::Off, wait);
            }
            if blank(c.d1_account_id.as_str()) || blank(c.d1_database_id.as_str()) || blank(
                c.d1_api_token.as_str(),
            ) {
                return (D1Step::Incomplete, wait);
            }
            (D1Step::Sync, wait)
        },
        None => (D1Step::Off, 300),
    }
}

/// The message for a run of the cloud synchronisation.
pub open spec fn d1_message(r: D1SyncResult, full: bool) -> Seq<char> {
    (if full {
        "[全量] "@
    } else {
        ""@
    }) + "推送 "@ + decimal(r.pushed_notes as int) + " 笔记 / "@ + decimal(r.pushed_todos as int)
        + " TODO · 拉取 "@ + decimal(r.pulled_notes as int) + " 笔记 / "@ + decimal(
        r.pulled_todos as int,
    ) + " TODO · 冲突 "@ + decimal(r.conflicts as int)
}

/// The log entry for a run of the cloud synchronisation.
pub open spec fn d1_entry(r: D1SyncResult, full: bool, now: Timestamp) -> SyncLogEntryV {
    SyncLogEntryV {
        id: None,
        timestamp: now,
        direction: SyncDirection::Out,
        protocol: SyncProtocol::D1,
        peer_id: None,
        event_type: SyncEventType::Sync,
        status: if r.ok {
            SyncStatus::Success
        } else {
            SyncStatus::Failed
        },
        message: Some(d1_message(r, full)),
        data_size: None,
        details: None,
    }
}

/// The state after a run of the cloud synchronisation: it is logged, and a successful one is
/// noted as the last.
pub open spec fn with_d1_result(db: SyncDbV, r: D1SyncResult, full: bool, now: Timestamp) -> SyncDbV {
    let logged = with_log(db, d1_entry(r, full, now));
    if r.ok {
        SyncDbV { config: with_last_sync(logged.config, time_text(now)), ..logged }
    } else {
        logged
    }
}

fn message_of(r: &D1SyncResult, full: bool) -> (m: String)
    ensures
        m@ == d1_message(*r, full),
{
    let mut s: String = if full { "[全量] ".to_string() } else { "".to_string() };
    s.append("推送 ");
    push_decimal(&mut s, r.pushed_notes as i128);
    s.append(" 笔记 / ");
    push_decimal(&mut s, r.pushed_todos as i128);
    s.append(" TODO · 拉取 ");
    push_decimal(&mut s, r.pulled_notes as i128);
    s.append(" 笔记 / ");
    push_decimal(&mut s, r.pulled_todos as i128);
    s.append(" TODO · 冲突 ");
    push_decimal(&mut s, r.conflicts as i128);
    s
}

/// Notes a run of the cloud synchronisation at a time.
pub fn note_d1_result(db: &mut SyncDb, r: &D1SyncResult, full: bool, now: &Timestamp)
    ensures
        final(db)@ == with_d1_result(old(db)@, *r, full, *now),
{
    let entry: SyncLogEntry = SyncLogEntry {
        id: None,
        timestamp: *now,
        direction: SyncDirection::Out,
        protocol: SyncProtocol::D1,
        peer_id: None,
        event_type: SyncEventType::Sync,
        status: if r.ok {
            SyncStatus::Success
        } else {
            SyncStatus::Failed
        },
        message: Some(message_of(r, full)),
        data_size: None,
        details: None,
    };
    let _ = db.add_log(&entry);
    if r.ok {
        let at: String = format_time(now);
        db.set_d1_last_sync(at.as_str());
    }
}

/// A run that succeeded is noted as the last; one that failed leaves the last one as it was.
pub proof fn law_last_run_is_noted(db: SyncDbV, r: D1SyncResult, full: bool, now: Timestamp)
    ensures
        r.ok ==> crate::storage::config::setting(
            with_d1_result(db, r, full, now).config,
            "d1_last_sync"@,
        ) == Some(time_text(now)),
        !r.ok ==> with_d1_result(db, r, full, now).config == db.config,
{
    crate::storage::config::law_last_sync_reads_back(db.config, time_text(now));
}

/// A round synchronises with the cloud store exactly where that is on and account, database and
/// token are more than white space. It waits for the interval of the settings, but ten seconds at
/// least, and without settings for five minutes.
pub proof fn law_cloud_round(c: SyncConfigV)
    ensures
        d1_round_of(Some(c)).0 == D1Step::Sync <==> c.d1_enabled && trimmed(c.d1_account_id).len() > 0
            && trimmed(c.d1_database_id).len() > 0 && trimmed(c.d1_api_token).len() > 0,
        d1_round_of(Some(c)).0 == D1Step::Off <==> !c.d1_enabled,
        d1_round_of(Some(c)).1 >= 10,
        c.d1_sync_interval >= 10 ==> d1_round_of(Some(c)).1 == c.d1_sync_interval,
        c.d1_sync_interval < 10 ==> d1_round_of(Some(c)).1 == 10,
        d1_round_of(None) == (D1Step::Off, 300u64),
{
}

/// Once settings are stored that switch the cloud store on and name account, database and token,
/// rounds synchronise with it.
pub proof fn law_stored_cloud_settings_count(
    rows: Seq<crate::storage::ConfigRowV>,
    cfg: SyncConfigV,
)
    ensures
        ({
            let c = crate::storage::config::config_of(
                crate::storage::config::with_config(rows, cfg),
            );
            &&& d1_round_of(Some(c)).0 == D1Step::Sync <==> cfg.d1_enabled && trimmed(
                cfg.d1_account_id,
            ).len() > 0 && trimmed(cfg.d1_database_id).len() > 0 && trimmed(cfg.d1_api_token).len()
                > 0
            &&& cfg.d1_sync_interval >= 10 ==> d1_round_of(Some(c)).1 == cfg.d1_sync_interval
        }),
{
    crate::storage::config::law_config_reads_back(rows, cfg);
}

/// A run is logged under the cloud store as going out, as a success or a failure, with what was
/// pushed, pulled and in conflict; and it is the first that is found among the entries of the
/// cloud store.
pub proof fn law_cloud_run_is_logged(
    db: SyncDbV,
    r: D1SyncResult,
    full: bool,
    now: Timestamp,
    at: Timestamp,
)
    requires
        db.last_log_id < i64::MAX,
    ensures
        ({
            let after = with_d1_result(db, r, full, now);
            let e = after.logs.last();
            let page = crate::storage::logs::log_page(
                after.logs,
                crate::storage::logs::LogFilter {
                    direction: None,
                    protocol: Some(SyncProtocol::D1),
                    event_type: None,
                    limit: 20,
                    offset: 0,
                },
                at,
            );
            let message = (if full {
                "[全量] "@
            } else {
                ""@
            }) + "推送 "@ + decimal(r.pushed_notes as int) + " 笔记 / "@ + decimal(
                r.pushed_todos as int,
            ) + " TODO · 拉取 "@ + decimal(r.pulled_notes as int) + " 笔记 / "@ + decimal(
                r.pulled_todos as int,
            ) + " TODO · 冲突 "@ + decimal(r.conflicts as int);
            &&& after.logs.len() > 0
            &&& e.timestamp == time_text(now)
            &&& e.direction == "out"@
            &&& e.protocol == "d1"@
            &&& e.event_type == "sync"@
            &&& r.ok ==> e.status == "success"@
            &&& !r.ok ==> e.status == "failed"@
            &&& e.peer_id is None
            &&& e.message == Some(message)
            &&& page.len() > 0
            &&& page[0].message == Some(message)
            &&& page[0].status == (if r.ok {
                SyncStatus::Success
            } else {
                SyncStatus::Failed
            })
        }),
{
    crate::storage::logs::law_added_entry_reads_back(
        db,
        d1_entry(r, full, now),
        crate::storage::logs::LogFilter {
            direction: None,
            protocol: Some(SyncProtocol::D1),
            event_type: None,
            limit: 20,
            offset: 0,
        },
        at,
    );
}

} // verus!
