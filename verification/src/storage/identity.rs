//! Laws of the device table.

use vstd::prelude::*;

use crate::models::{DeviceV, Timestamp};
use crate::outside::rfc3339_time;
use crate::storage::devices::{ahead, ahead_count, changed, device_row, device_with_id, devices_of, discovered_cutoff, discovered_row, fresh_since, has_device, is_twin, last_seen, lemma_device_row, limited_upto, listed, live, merge_candidate, merge_refusal, merged, not_among, only_discovered, opt_secs, opt_time_text, other_id, own, reads_back, row_ids, seen_lately, seen_source, stale_before, stale_cutoff, stored_row, time_text, uid_of, with_change, with_discovered, with_probe, with_stored, without_device, without_devices, without_expired, without_stale, within_limit, DeviceChangeV};
use crate::storage::order::{lemma_filter_keeps, lemma_filter_member};
use crate::storage::codes::distinct_codes;
use crate::storage::config::distinct_settings;
use crate::storage::secrets::{alias_of, distinct_mergers, distinct_secrets, law_merged_id_resolves, law_one_merger_per_id, law_one_secret_per_device, law_secret_dropped, resolved, secret_of};
use crate::storage::{empty_db, law_kind_reads_back, DeviceRowV, SyncDbV, DISCOVERED_KEEP, DISCOVERED_MAX_AGE_DAYS, ONLINE_GRACE_SECS};
use crate::text::{lemma_text_le_total, lemma_text_le_transitive, text_le};

verus! {

/// Whether no id occurs twice.
pub open spec fn distinct_ids(rows: Seq<DeviceRowV>) -> bool {
    forall|i: int, j: int|
        0 <= i < j < rows.len() ==> (#[trigger] rows[i]).id != (#[trigger] rows[j]).id
}

// ---- one row per id ----

proof fn lemma_change_keeps_ids(rows: Seq<DeviceRowV>, id: Seq<char>, c: DeviceChangeV)
    requires
        c matches DeviceChangeV::Stored(n) ==> n.id == id,
    ensures
        with_change(rows, id, c).len() == rows.len(),
        forall|i: int|
            0 <= i < rows.len() ==> (#[trigger] with_change(rows, id, c)[i]).id == rows[i].id,
{
}

/// Registering, discovering and changing a device keep one row per id.
pub proof fn law_one_row_per_id(
    rows: Seq<DeviceRowV>,
    d: DeviceV,
    seen_via: Seq<char>,
    id: Seq<char>,
    c: DeviceChangeV,
)
    requires
        distinct_ids(rows),
        c matches DeviceChangeV::Stored(n) ==> n.id == id,
    ensures
        distinct_ids(with_stored(rows, d)),
        distinct_ids(with_discovered(rows, d, seen_via)),
        distinct_ids(with_change(rows, id, c)),
{
    lemma_change_keeps_ids(rows, id, c);
    lemma_change_keeps_ids(rows, d.id, DeviceChangeV::Stored(stored_row(d)));
    lemma_change_keeps_ids(rows, d.id, DeviceChangeV::Discovered(discovered_row(d, seen_via)));
}

proof fn lemma_filter_distinct(rows: Seq<DeviceRowV>, p: spec_fn(DeviceRowV) -> bool)
    requires
        distinct_ids(rows),
    ensures
        distinct_ids(rows.filter(p)),
    decreases rows.len(),
{
    reveal(Seq::filter);
    if rows.len() > 0 {
        let rest = rows.drop_last();
        lemma_filter_distinct(rest, p);
        if p(rows.last()) {
            assert forall|i: int, j: int| 0 <= i < j < rows.filter(p).len() implies (
            #[trigger] rows.filter(p)[i]).id != (#[trigger] rows.filter(p)[j]).id by {
                if j == rest.filter(p).len() {
                    lemma_filter_member(rest, p, i);
                    let x = rest.filter(p)[i];
                    let k = choose|k: int| 0 <= k < rest.len() && rest[k] == x;
                    assert(rows[k].id != rows[rows.len() - 1].id);
                }
            }
        }
    }
}

/// Removing devices, merging and expiry keep one row per id.
pub proof fn law_one_row_per_id_after_removal(
    db: SyncDbV,
    id: Seq<char>,
    to: Seq<char>,
    at: Seq<char>,
    cutoff: int,
    now: int,
)
    requires
        distinct_ids(db.devices),
    ensures
        distinct_ids(without_device(db, id).devices),
        distinct_ids(without_devices(db).devices),
        distinct_ids(without_stale(db, cutoff).devices),
        distinct_ids(merged(db, id, to, at).devices),
        distinct_ids(without_expired(db.devices, now)),
{
    let fresh = db.devices.filter(fresh_since(discovered_cutoff(now)));
    lemma_filter_distinct(db.devices, fresh_since(discovered_cutoff(now)));
    lemma_limited_distinct(fresh, fresh.len());
    lemma_filter_distinct(db.devices, other_id(id));
    lemma_filter_distinct(db.devices, own());
    lemma_filter_distinct(
        db.devices,
        not_among(row_ids(db.devices.filter(stale_before(cutoff)))),
    );
    let marked = with_change(db.devices, id, DeviceChangeV::Superseded(to));
    lemma_change_keeps_ids(db.devices, id, DeviceChangeV::Superseded(to));
    lemma_change_keeps_ids(
        marked,
        to,
        DeviceChangeV::Inherit(device_row(db.devices, id)->0),
    );
}

proof fn lemma_limited_distinct(rows: Seq<DeviceRowV>, n: nat)
    requires
        n <= rows.len(),
        distinct_ids(rows),
    ensures
        distinct_ids(limited_upto(rows, n)),
    decreases n,
{
    if n > 0 {
        lemma_limited_distinct(rows, (n - 1) as nat);
        lemma_limited_member(rows, (n - 1) as nat);
        let before = limited_upto(rows, (n - 1) as nat);
        assert forall|k: int| 0 <= k < before.len() implies (#[trigger] before[k]).id
            != rows[n - 1].id by {
            assert(stands_within_limit(rows, before[k], (n - 1) as nat));
            let i = choose|i: int|
                0 <= i < n - 1 && within_limit(rows, i) && #[trigger] rows[i] == before[k];
            assert(rows[i].id != rows[n - 1].id);
        }
    }
}

/// Whether every table holds each of its keys once.
pub open spec fn distinct_keys(db: SyncDbV) -> bool {
    &&& distinct_ids(db.devices)
    &&& distinct_secrets(db.secrets)
    &&& distinct_mergers(db.aliases)
    &&& distinct_codes(db.codes)
    &&& distinct_settings(db.config)
}

/// The tables of a fresh installation hold each key once, and so do those after devices are
/// removed, merged or have expired.
pub proof fn law_keys_stay_distinct(
    db: SyncDbV,
    id: Seq<char>,
    to: Seq<char>,
    at: Seq<char>,
    cutoff: int,
    now: int,
)
    ensures
        distinct_keys(empty_db()),
        distinct_keys(db) ==> {
            &&& distinct_keys(without_device(db, id))
            &&& distinct_keys(without_devices(db))
            &&& distinct_keys(without_stale(db, cutoff))
            &&& distinct_keys(merged(db, id, to, at))
            &&& distinct_keys(SyncDbV { devices: without_expired(db.devices, now), ..db })
        },
{
    if distinct_keys(db) {
        let ids = row_ids(db.devices.filter(stale_before(cutoff)));
        law_one_row_per_id_after_removal(db, id, to, at, cutoff, now);
        law_one_secret_per_device(db.secrets, id, at, at, ids);
        law_one_merger_per_id(db.aliases, id, to, at, ids);
    }
}

// ---- finding rows ----

/// The row of a device after a change, and that of another.
pub proof fn lemma_row_changed(rows: Seq<DeviceRowV>, id: Seq<char>, c: DeviceChangeV, other: Seq<char>)
    requires
        c matches DeviceChangeV::Stored(n) ==> n.id == id,
    ensures
        device_row(with_change(rows, id, c), id) == (match device_row(rows, id) {
            Some(r) => Some(changed(r, c)),
            None => None,
        }),
        other != id ==> device_row(with_change(rows, id, c), other) == device_row(rows, other),
    decreases rows.len(),
{
    if rows.len() > 0 {
        lemma_row_changed(rows.drop_first(), id, c, other);
        assert(with_change(rows, id, c).drop_first() =~= with_change(rows.drop_first(), id, c));
    }
}

/// The row of a device after one is added.
pub proof fn lemma_row_added(rows: Seq<DeviceRowV>, r: DeviceRowV, id: Seq<char>)
    ensures
        device_row(rows.push(r), id) == (match device_row(rows, id) {
            Some(x) => Some(x),
            None => if r.id == id {
                Some(r)
            } else {
                None
            },
        }),
    decreases rows.len(),
{
    if rows.len() > 0 {
        assert(rows.push(r).drop_first() =~= rows.drop_first().push(r));
        lemma_row_added(rows.drop_first(), r, id);
    } else {
        assert(rows.push(r).drop_first() =~= rows);
    }
}

/// A change touches the row with its id and no other.
pub proof fn law_change_is_local(
    rows: Seq<DeviceRowV>,
    id: Seq<char>,
    c: DeviceChangeV,
    other: Seq<char>,
)
    requires
        c matches DeviceChangeV::Stored(n) ==> n.id == id,
        other != id,
    ensures
        device_row(with_change(rows, id, c), other) == device_row(rows, other),
        device_row(rows, id) is None ==> device_row(with_change(rows, id, c), id) is None,
        device_row(rows, id) matches Some(r) ==> device_row(with_change(rows, id, c), id) == Some(
            changed(r, c),
        ),
{
    lemma_row_changed(rows, id, c, other);
}

/// A device that was registered is found with what was registered. Its pairing time is the
/// first one, and a known fingerprint is not lost.
pub proof fn law_registered_reads_back(rows: Seq<DeviceRowV>, d: DeviceV)
    ensures
        device_row(with_stored(rows, d), d.id) matches Some(r) && {
            &&& r.name == d.name
            &&& r.device_kind == d.device_kind.text()
            &&& r.ip == d.ip
            &&& r.port == d.port
            &&& r.is_online == d.is_online
            &&& r.is_self == d.is_self
            &&& r.paired == d.paired
            &&& r.alias == d.alias
            &&& r.last_sync_at == opt_time_text(d.last_sync_at)
            &&& r.last_seen_at == opt_time_text(d.last_seen_at)
            &&& r.last_seen_epoch == opt_secs(d.last_seen_at)
            &&& r.paired_at == (match device_row(rows, d.id) {
                Some(known) => known.paired_at,
                None => stored_row(d).paired_at,
            })
            &&& r.machine_uid == (match device_row(rows, d.id) {
                Some(known) => if d.machine_uid is Some {
                    d.machine_uid
                } else {
                    known.machine_uid
                },
                None => d.machine_uid,
            })
        },
{
    lemma_device_row(rows, d.id);
    if has_device(rows, d.id) {
        lemma_row_changed(rows, d.id, DeviceChangeV::Stored(stored_row(d)), d.id);
    } else {
        lemma_row_added(rows, stored_row(d), d.id);
    }
}

/// A device that was registered reads back as it was registered, but for the secret and the
/// fingerprint, where its times read back. The time of pairing is the first one.
pub proof fn law_registered_device_reads_back(rows: Seq<DeviceRowV>, d: DeviceV, now: Timestamp)
    requires
        reads_back(d.paired_at),
        d.last_sync_at matches Some(t) ==> reads_back(t),
        d.last_seen_at matches Some(t) ==> reads_back(t),
    ensures
        device_with_id(with_stored(rows, d), d.id, now) == Some(
            DeviceV {
                paired_at: match device_with_id(rows, d.id, now) {
                    Some(known) => known.paired_at,
                    None => d.paired_at,
                },
                device_secret: None,
                machine_uid: None,
                ..d
            },
        ),
{
    law_registered_reads_back(rows, d);
    law_kind_reads_back(d.device_kind);
    lemma_device_row(rows, d.id);
    lemma_device_row(with_stored(rows, d), d.id);
}

// ---- what discovery may do ----

/// Discovery never writes a fingerprint, an alias, a pairing or a synchronisation: a known
/// device keeps its own, a new one has none. A paired device keeps its name.
pub proof fn law_discovery_is_harmless(rows: Seq<DeviceRowV>, d: DeviceV, seen_via: Seq<char>)
    ensures
        uid_of(with_discovered(rows, d, seen_via), d.id) == uid_of(rows, d.id),
        device_row(with_discovered(rows, d, seen_via), d.id) matches Some(r) && (match device_row(
            rows,
            d.id,
        ) {
            Some(known) => r.paired == known.paired && r.alias == known.alias && r.last_sync_at
                == known.last_sync_at && r.paired_at == known.paired_at && r.superseded_by
                == known.superseded_by && (known.paired ==> r.name == known.name),
            None => !r.paired && !r.is_self && r.alias is None && r.last_sync_at is None
                && r.machine_uid is None,
        }),
        forall|other: Seq<char>|
            other != d.id ==> #[trigger] device_row(with_discovered(rows, d, seen_via), other)
                == device_row(rows, other),
{
    lemma_device_row(rows, d.id);
    let c = DeviceChangeV::Discovered(discovered_row(d, seen_via));
    if has_device(rows, d.id) {
        lemma_row_changed(rows, d.id, c, d.id);
    } else {
        lemma_row_added(rows, discovered_row(d, seen_via), d.id);
    }
    assert forall|other: Seq<char>| other != d.id implies #[trigger] device_row(
        with_discovered(rows, d, seen_via),
        other,
    ) == device_row(rows, other) by {
        if has_device(rows, d.id) {
            lemma_row_changed(rows, d.id, c, other);
        } else {
            lemma_row_added(rows, discovered_row(d, seen_via), other);
        }
    }
}

/// An announcement that lost against a preferred one marks the device as seen, and does not
/// renew the source that the next announcement is held against.
pub proof fn law_losing_announcement_keeps_source(
    rows: Seq<DeviceRowV>,
    id: Seq<char>,
    at: Seq<char>,
    secs: i64,
)
    ensures
        seen_source(with_change(rows, id, DeviceChangeV::Seen(at, secs)), id) == seen_source(
            rows,
            id,
        ),
        device_row(rows, id) matches Some(r) && !r.is_self ==> device_row(
            with_change(rows, id, DeviceChangeV::Seen(at, secs)),
            id,
        ) == Some(
            DeviceRowV {
                last_seen_at: Some(at),
                last_seen_epoch: Some(secs),
                is_online: true,
                ..device_row(rows, id)->0
            },
        ),
{
    lemma_row_changed(rows, id, DeviceChangeV::Seen(at, secs), id);
}

/// Neither a secret nor a machine fingerprint is ever listed.
pub proof fn law_listing_keeps_secrets(rows: Seq<DeviceRowV>, id: Seq<char>, now: Timestamp)
    ensures
        forall|i: int|
            0 <= i < listed(rows, now).len() ==> (#[trigger] listed(rows, now)[i]).device_secret
                is None && listed(rows, now)[i].machine_uid is None,
        forall|i: int|
            0 <= i < devices_of(rows, now).len() ==> (#[trigger] devices_of(
                rows,
                now,
            )[i]).device_secret is None && devices_of(rows, now)[i].machine_uid is None,
        device_with_id(rows, id, now) matches Some(d) ==> d.device_secret is None && d.machine_uid
            is None,
{
}

// ---- online or not ----

/// A failed probe leaves a device alone that was seen within the grace period, marks it as
/// offline otherwise, and a successful one always marks it as online.
pub proof fn law_probe(rows: Seq<DeviceRowV>, i: int, now: int)
    requires
        distinct_ids(rows),
        0 <= i < rows.len(),
    ensures
        ({
            let id = rows[i].id;
            let fresh = rows[i].last_seen_epoch matches Some(at) && at > now - ONLINE_GRACE_SECS;
            &&& with_probe(rows, id, true, now)[i].is_online
            &&& fresh ==> with_probe(rows, id, false, now) == rows
            &&& !fresh ==> !with_probe(rows, id, false, now)[i].is_online
        }),
{
    let id = rows[i].id;
    if seen_lately(rows, id, now) {
        let k = choose|k: int|
            0 <= k < rows.len() && (#[trigger] rows[k]).id == id && (
            rows[k].last_seen_epoch matches Some(at) && at > now - ONLINE_GRACE_SECS);
        assert(k == i);
    }
}

// ---- expiry ----

/// Whether a row is one of the first `n` that stay within the limit.
spec fn stands_within_limit(rows: Seq<DeviceRowV>, r: DeviceRowV, n: nat) -> bool {
    exists|i: int| 0 <= i < n && within_limit(rows, i) && #[trigger] rows[i] == r
}

proof fn lemma_limited_member(rows: Seq<DeviceRowV>, n: nat)
    requires
        n <= rows.len(),
    ensures
        forall|k: int|
            0 <= k < limited_upto(rows, n).len() ==> rows.contains(
                #[trigger] limited_upto(rows, n)[k],
            ),
        forall|k: int|
            0 <= k < limited_upto(rows, n).len() ==> stands_within_limit(
                rows,
                #[trigger] limited_upto(rows, n)[k],
                n,
            ),
        forall|i: int|
            0 <= i < n && within_limit(rows, i) ==> limited_upto(rows, n).contains(
                #[trigger] rows[i],
            ),
    decreases n,
{
    if n > 0 {
        lemma_limited_member(rows, (n - 1) as nat);
        let before = limited_upto(rows, (n - 1) as nat);
        let after = limited_upto(rows, n);
        assert(rows[n - 1] == rows[n - 1]);
        assert forall|k: int| 0 <= k < after.len() implies rows.contains(#[trigger] after[k]) by {
            if k < before.len() {
                assert(after[k] == before[k]);
            }
        }
        assert forall|k: int| 0 <= k < after.len() implies stands_within_limit(
            rows,
            #[trigger] after[k],
            n,
        ) by {
            if k < before.len() {
                assert(after[k] == before[k]);
                assert(stands_within_limit(rows, before[k], (n - 1) as nat));
            } else {
                assert(after[k] == rows[n - 1]);
            }
        }
        assert forall|i: int| 0 <= i < n && within_limit(rows, i) implies after.contains(
            #[trigger] rows[i],
        ) by {
            if i == n - 1 {
                assert(after[before.len() as int] == rows[i]);
            } else {
                assert(before.contains(rows[i]));
                let k = choose|k: int| 0 <= k < before.len() && before[k] == rows[i];
                assert(after[k] == rows[i]);
            }
        }
    }
}

/// Expiry leaves every row alone that is paired, the own one, or was not put there by
/// discovery; and what is left of discoveries was seen within the time limit.
pub proof fn law_expiry_spares_others(rows: Seq<DeviceRowV>, now: int)
    ensures
        forall|i: int|
            0 <= i < rows.len() && !only_discovered(rows[i]) ==> without_expired(
                rows,
                now,
            ).contains(#[trigger] rows[i]),
        forall|k: int|
            0 <= k < without_expired(rows, now).len() ==> {
                let r = #[trigger] without_expired(rows, now)[k];
                rows.contains(r) && (only_discovered(r) ==> last_seen(r) >= discovered_cutoff(now))
            },
{
    let p = fresh_since(discovered_cutoff(now));
    let fresh = rows.filter(p);
    lemma_limited_member(fresh, fresh.len());
    assert forall|i: int| 0 <= i < rows.len() && !only_discovered(rows[i]) implies without_expired(
        rows,
        now,
    ).contains(#[trigger] rows[i]) by {
        lemma_filter_keeps(rows, p, rows[i]);
        let k = choose|k: int| 0 <= k < fresh.len() && fresh[k] == rows[i];
        assert(within_limit(fresh, k));
    }
    assert forall|k: int| 0 <= k < without_expired(rows, now).len() implies {
        let r = #[trigger] without_expired(rows, now)[k];
        rows.contains(r) && (only_discovered(r) ==> last_seen(r) >= discovered_cutoff(now))
    } by {
        let r = without_expired(rows, now)[k];
        assert(fresh.contains(r));
        let j = choose|j: int| 0 <= j < fresh.len() && fresh[j] == r;
        lemma_filter_member(rows, p, j);
    }
}

/// The discovered rows among the first `n` that stay within the limit.
spec fn staying(rows: Seq<DeviceRowV>, n: nat) -> Set<int> {
    Set::new(|i: int| 0 <= i < n && only_discovered(rows[i]) && within_limit(rows, i))
}

proof fn lemma_staying_count(rows: Seq<DeviceRowV>, n: nat)
    requires
        n <= rows.len(),
    ensures
        staying(rows, n).finite(),
        staying(rows, n).len() == limited_upto(rows, n).filter(
            |r: DeviceRowV| only_discovered(r),
        ).len(),
    decreases n,
{
    reveal(Seq::filter);
    let p = |r: DeviceRowV| only_discovered(r);
    if n == 0 {
        assert(staying(rows, n) =~= Set::empty());
    } else {
        lemma_staying_count(rows, (n - 1) as nat);
        let before = limited_upto(rows, (n - 1) as nat);
        if within_limit(rows, n - 1) {
            before.lemma_filter_push(rows[n - 1], p);
        }
        if only_discovered(rows[n - 1]) && within_limit(rows, n - 1) {
            assert(staying(rows, n) =~= staying(rows, (n - 1) as nat).insert(n - 1));
        } else {
            assert(staying(rows, n) =~= staying(rows, (n - 1) as nat));
        }
    }
}

proof fn lemma_ahead_count(rows: Seq<DeviceRowV>, i: int, j: int, n: nat)
    requires
        n <= rows.len(),
        0 <= i < rows.len(),
        0 <= j < rows.len(),
        ahead(rows, i, j),
        only_discovered(rows[j]),
    ensures
        ahead_count(rows, i, n) <= ahead_count(rows, j, n),
        i < n ==> ahead_count(rows, i, n) < ahead_count(rows, j, n),
    decreases n,
{
    if n > 0 {
        lemma_ahead_count(rows, i, j, (n - 1) as nat);
    }
}

/// The discovered rows among the first `n`.
spec fn discoveries(rows: Seq<DeviceRowV>, n: nat) -> Set<int> {
    Set::new(|i: int| 0 <= i < n && only_discovered(rows[i]))
}

proof fn lemma_discoveries(rows: Seq<DeviceRowV>, n: nat)
    requires
        n <= rows.len(),
    ensures
        discoveries(rows, n).finite(),
        discoveries(rows, n).len() == rows.take(n as int).filter(
            |r: DeviceRowV| only_discovered(r),
        ).len(),
    decreases n,
{
    reveal(Seq::filter);
    let p = |r: DeviceRowV| only_discovered(r);
    if n == 0 {
        assert(discoveries(rows, n) =~= Set::empty());
    } else {
        lemma_discoveries(rows, (n - 1) as nat);
        let before = rows.take(n - 1);
        assert(rows.take(n as int) =~= before.push(rows[n - 1]));
        before.lemma_filter_push(rows[n - 1], p);
        if only_discovered(rows[n - 1]) {
            assert(discoveries(rows, n) =~= discoveries(rows, (n - 1) as nat).insert(n - 1));
        } else {
            assert(discoveries(rows, n) =~= discoveries(rows, (n - 1) as nat));
        }
    }
}

proof fn lemma_rank_below(rows: Seq<DeviceRowV>, i: int, n: nat)
    requires
        n <= rows.len(),
        0 <= i < rows.len(),
        only_discovered(rows[i]),
    ensures
        ahead_count(rows, i, n) + (if i < n {
            1int
        } else {
            0int
        }) <= discoveries(rows, n).len(),
    decreases n,
{
    lemma_discoveries(rows, n);
    if n > 0 {
        lemma_rank_below(rows, i, (n - 1) as nat);
        lemma_discoveries(rows, (n - 1) as nat);
        if only_discovered(rows[n - 1]) {
            assert(discoveries(rows, n) =~= discoveries(rows, (n - 1) as nat).insert(n - 1));
        } else {
            assert(discoveries(rows, n) =~= discoveries(rows, (n - 1) as nat));
        }
    }
}

proof fn lemma_ranks_differ(rows: Seq<DeviceRowV>, s: Set<int>)
    requires
        s.subset_of(discoveries(rows, rows.len())),
    ensures
        vstd::relations::injective_on(|i: int| ahead_count(rows, i, rows.len()) as int, s),
{
    let n = rows.len();
    let rank = |i: int| ahead_count(rows, i, n) as int;
    assert forall|a: int, b: int| s.contains(a) && s.contains(b) && a != b implies #[trigger] rank(a)
        != #[trigger] rank(b) by {
        assert(discoveries(rows, n).contains(a) && discoveries(rows, n).contains(b));
        if ahead(rows, a, b) {
            lemma_ahead_count(rows, a, b, n);
        } else {
            lemma_ahead_count(rows, b, a, n);
        }
    }
}

proof fn lemma_limited_count(rows: Seq<DeviceRowV>)
    ensures
        limited_upto(rows, rows.len()).filter(|r: DeviceRowV| only_discovered(r)).len() == (if rows.filter(
            |r: DeviceRowV| only_discovered(r),
        ).len() < DISCOVERED_KEEP {
            rows.filter(|r: DeviceRowV| only_discovered(r)).len() as int
        } else {
            DISCOVERED_KEEP as int
        }),
{
    let n = rows.len();
    let all = discoveries(rows, n);
    let s = staying(rows, n);
    let rank = |i: int| ahead_count(rows, i, n) as int;
    lemma_discoveries(rows, n);
    lemma_staying_count(rows, n);
    assert(rows.take(n as int) =~= rows);
    let m = all.len() as int;
    let kept = if m < DISCOVERED_KEEP {
        m
    } else {
        DISCOVERED_KEEP as int
    };
    lemma_ranks_differ(rows, all);
    lemma_ranks_differ(rows, s);
    vstd::set_lib::lemma_map_size(all, all.map(rank), rank);
    vstd::set_lib::lemma_map_size(s, s.map(rank), rank);
    vstd::set_lib::lemma_int_range(0, m);
    vstd::set_lib::lemma_int_range(0, kept);
    let ranks = vstd::set_lib::set_int_range(0, m);
    assert forall|r: int| all.map(rank).contains(r) implies ranks.contains(r) by {
        let i = choose|i: int| all.contains(i) && rank(i) == r;
        lemma_rank_below(rows, i, n);
    }
    vstd::set_lib::lemma_subset_equality(all.map(rank), ranks);
    assert forall|r: int| s.map(rank).contains(r) <==> 0 <= r < kept by {
        if s.map(rank).contains(r) {
            let i = choose|i: int| s.contains(i) && rank(i) == r;
            assert(all.contains(i));
            assert(all.map(rank).contains(rank(i)));
        }
        if 0 <= r < kept {
            assert(ranks.contains(r));
            assert(all.map(rank).contains(r));
            let i = choose|i: int| all.contains(i) && rank(i) == r;
            assert(s.contains(i));
            assert(s.map(rank).contains(rank(i)));
        }
    }
    assert(s.map(rank) =~= vstd::set_lib::set_int_range(0, kept));
}

/// Expiry keeps as many of the fresh discoveries as the limit allows, all of them where there
/// are no more; and those that it keeps were seen no earlier than those that it drops.
pub proof fn law_discoveries_are_limited(rows: Seq<DeviceRowV>, now: int)
    ensures
        ({
            let fresh = rows.filter(fresh_since(discovered_cutoff(now)));
            let found = fresh.filter(|r: DeviceRowV| only_discovered(r)).len();
            let after = without_expired(rows, now);
            &&& after.filter(|r: DeviceRowV| only_discovered(r)).len() == (if found
                < DISCOVERED_KEEP {
                found as int
            } else {
                DISCOVERED_KEEP as int
            })
            &&& forall|r: DeviceRowV, x: DeviceRowV|
                #![trigger after.contains(r), fresh.contains(x)]
                after.contains(r) && only_discovered(r) && fresh.contains(x) && only_discovered(x)
                    && !after.contains(x) ==> last_seen(r) >= last_seen(x)
        }),
{
    let fresh = rows.filter(fresh_since(discovered_cutoff(now)));
    let after = without_expired(rows, now);
    let n = fresh.len();
    lemma_limited_count(fresh);
    lemma_limited_member(fresh, n);
    assert forall|r: DeviceRowV, x: DeviceRowV|
        #![trigger after.contains(r), fresh.contains(x)]
        after.contains(r) && only_discovered(r) && fresh.contains(x) && only_discovered(x)
            && !after.contains(x) implies last_seen(r) >= last_seen(x) by {
        let k = choose|k: int| 0 <= k < after.len() && after[k] == r;
        assert(stands_within_limit(fresh, after[k], n));
        let i = choose|i: int| 0 <= i < n && within_limit(fresh, i) && #[trigger] fresh[i] == r;
        let j = choose|j: int| 0 <= j < n && fresh[j] == x;
        assert(!within_limit(fresh, j));
        if last_seen(r) < last_seen(x) {
            assert(ahead(fresh, j, i));
            lemma_ahead_count(fresh, j, i, n);
        }
    }
}

/// A paired device that was never synchronised, one that is not paired, and the own row stay
/// when stale devices are removed.
pub proof fn law_stale_removal_spares_others(db: SyncDbV, cutoff: int, i: int)
    requires
        distinct_ids(db.devices),
        0 <= i < db.devices.len(),
        !db.devices[i].paired || db.devices[i].is_self || db.devices[i].last_sync_at is None,
    ensures
        without_stale(db, cutoff).devices.contains(db.devices[i]),
        secret_of(without_stale(db, cutoff).secrets, db.devices[i].id) == secret_of(
            db.secrets,
            db.devices[i].id,
        ),
{
    let p = stale_before(cutoff);
    let gone = db.devices.filter(p);
    let ids = row_ids(gone);
    let r = db.devices[i];
    if ids.contains(r.id) {
        let k = choose|k: int| 0 <= k < ids.len() && ids[k] == r.id;
        lemma_filter_member(db.devices, p, k);
        let x = gone[k];
        let j = choose|j: int| 0 <= j < db.devices.len() && db.devices[j] == x;
        assert(db.devices[j].id == db.devices[i].id);
        assert(j == i);
    }
    lemma_filter_keeps(db.devices, not_among(ids), r);
    lemma_secret_kept(db.secrets, ids, r.id);
}

proof fn lemma_secret_kept(
    rows: Seq<crate::storage::SecretRowV>,
    ids: Seq<Seq<char>>,
    id: Seq<char>,
)
    requires
        !ids.contains(id),
    ensures
        secret_of(rows.filter(crate::storage::secrets::not_of_any(ids)), id) == secret_of(rows, id),
    decreases rows.len(),
{
    reveal(Seq::filter);
    let p = crate::storage::secrets::not_of_any(ids);
    if rows.len() > 0 {
        let rest = rows.drop_last();
        lemma_secret_kept(rest, ids, id);
        crate::storage::secrets::lemma_secret_last(rest, rows.last(), id);
        crate::storage::secrets::lemma_secret_last(rest.filter(p), rows.last(), id);
        assert(rows =~= rest.push(rows.last()));
    }
}

// ---- merging ----

/// The row offered for a merger has the same fingerprint and another id, is paired, and no
/// other such row was paired before it.
pub proof fn law_merge_candidate(rows: Seq<DeviceRowV>, uid: Seq<char>, new_id: Seq<char>)
    ensures
        match merge_candidate(rows, uid, new_id) {
            Some(r) => is_twin(r, uid, new_id) && rows.contains(r) && forall|i: int|
                0 <= i < rows.len() && is_twin(rows[i], uid, new_id) ==> text_le(
                    r.paired_at,
                    (#[trigger] rows[i]).paired_at,
                ),
            None => forall|i: int|
                0 <= i < rows.len() ==> !is_twin(#[trigger] rows[i], uid, new_id),
        },
    decreases rows.len(),
{
    if rows.len() > 0 {
        let rest = rows.drop_last();
        law_merge_candidate(rest, uid, new_id);
        assert forall|i: int| 0 <= i < rest.len() implies #[trigger] rows[i] == rest[i] by {}
        let last = rows.last();
        assert(rows[rows.len() - 1] == last);
        lemma_text_le_total(last.paired_at, last.paired_at);
        match merge_candidate(rest, uid, new_id) {
            Some(b) => {
                let j = choose|j: int| 0 <= j < rest.len() && rest[j] == b;
                assert(rows[j] == b);
                lemma_text_le_total(b.paired_at, last.paired_at);
                if is_twin(last, uid, new_id) && !text_le(b.paired_at, last.paired_at) {
                    assert forall|i: int| 0 <= i < rows.len() && is_twin(rows[i], uid, new_id)
                        implies text_le(last.paired_at, (#[trigger] rows[i]).paired_at) by {
                        if i < rest.len() {
                            assert(rest[i] == rows[i]);
                            lemma_text_le_transitive(
                                last.paired_at,
                                b.paired_at,
                                rows[i].paired_at,
                            );
                        }
                    }
                } else {
                    assert forall|i: int| 0 <= i < rows.len() && is_twin(rows[i], uid, new_id)
                        implies text_le(b.paired_at, (#[trigger] rows[i]).paired_at) by {
                        if i < rest.len() {
                            assert(rest[i] == rows[i]);
                        }
                    }
                }
            },
            None => {
                assert forall|i: int| 0 <= i < rows.len() && is_twin(rows[i], uid, new_id)
                    implies i == rows.len() - 1 by {
                    if i < rest.len() {
                        assert(rest[i] == rows[i]);
                    }
                }
            },
        }
    }
}

/// A merger voids the secret of the old id and no other, keeps the old row and hides it from
/// the list, cannot be done twice, and leaves every other row as it was.
pub proof fn law_merger(
    db: SyncDbV,
    from: Seq<char>,
    to: Seq<char>,
    at: Seq<char>,
    other: Seq<char>,
)
    requires
        merge_refusal(db.devices, from, to) is Ok,
    ensures
        secret_of(merged(db, from, to, at).secrets, from) is None,
        other != from ==> secret_of(merged(db, from, to, at).secrets, other) == secret_of(
            db.secrets,
            other,
        ),
        device_row(merged(db, from, to, at).devices, from) == Some(
            DeviceRowV {
                superseded_by: Some(to),
                is_online: false,
                ..device_row(db.devices, from)->0
            },
        ),
        device_row(merged(db, from, to, at).devices, to) == Some(
            changed(
                device_row(db.devices, to)->0,
                DeviceChangeV::Inherit(device_row(db.devices, from)->0),
            ),
        ),
        (device_row(merged(db, from, to, at).devices, to)->0).paired,
        other != from && other != to ==> device_row(merged(db, from, to, at).devices, other)
            == device_row(db.devices, other),
        merge_refusal(merged(db, from, to, at).devices, from, to) is Err,
        merged(db, from, to, at).devices.len() == db.devices.len(),
{
    law_secret_dropped(db.secrets, from, other);
    law_secret_dropped(db.secrets, from, from);
    let c1 = DeviceChangeV::Superseded(to);
    let c2 = DeviceChangeV::Inherit(device_row(db.devices, from)->0);
    let marked = with_change(db.devices, from, c1);
    lemma_row_changed(db.devices, from, c1, other);
    lemma_row_changed(db.devices, from, c1, to);
    lemma_row_changed(marked, to, c2, from);
    lemma_row_changed(marked, to, c2, other);
    lemma_device_row(db.devices, from);
    lemma_device_row(db.devices, to);
}

/// After a merger old data finds the device that took over, as long as that one was not
/// merged away itself.
pub proof fn law_merged_device_resolves(db: SyncDbV, from: Seq<char>, to: Seq<char>, at: Seq<char>)
    requires
        merge_refusal(db.devices, from, to) is Ok,
        alias_of(db.aliases, to) is None,
    ensures
        resolved(merged(db, from, to, at).aliases, from, 8) == to,
        resolved(merged(db, from, to, at).aliases, to, 8) == to,
{
    law_merged_id_resolves(db.aliases, from, to, at);
}

/// A merger that is refused changes nothing.
pub proof fn law_refused_merger_changes_nothing(
    db: SyncDbV,
    from: Seq<char>,
    to: Seq<char>,
    at: Seq<char>,
)
    requires
        merge_refusal(db.devices, from, to) is Err,
    ensures
        merged(db, from, to, at) == db,
{
}

/// A row with itself, a missing row, the own row, a row that was merged already, and two rows
/// that are both not paired are refused.
pub proof fn law_merger_refusals(rows: Seq<DeviceRowV>, from: Seq<char>, to: Seq<char>)
    ensures
        merge_refusal(rows, from, to) is Ok <==> {
            &&& from != to
            &&& device_row(rows, from) matches Some(f) && !f.is_self && f.superseded_by is None
            &&& device_row(rows, to) matches Some(t) && !t.is_self && t.superseded_by is None
            &&& (device_row(rows, from)->0).paired || (device_row(rows, to)->0).paired
        },
{
}

// ---- removal ----

/// A device that was removed is gone, with its secret; every other one stays.
pub proof fn law_removed_device_is_gone(db: SyncDbV, id: Seq<char>, i: int)
    requires
        0 <= i < db.devices.len(),
        db.devices[i].id != id,
    ensures
        !has_device(without_device(db, id).devices, id),
        secret_of(without_device(db, id).secrets, id) is None,
        without_device(db, id).devices.contains(db.devices[i]),
{
    law_secret_dropped(db.secrets, id, id);
    lemma_filter_keeps(db.devices, other_id(id), db.devices[i]);
    if has_device(without_device(db, id).devices, id) {
        let k = choose|k: int|
            0 <= k < without_device(db, id).devices.len() && (#[trigger] without_device(
                db,
                id,
            ).devices[k]).id == id;
        lemma_filter_member(db.devices, other_id(id), k);
    }
}

// ---- one change after another, column by column ----

/// A new alias, a pairing, the end of one, and being online or not change that column of the
/// row and no other.
pub proof fn law_column_is_set(
    rows: Seq<DeviceRowV>,
    id: Seq<char>,
    alias: Option<Seq<char>>,
    yes: bool,
)
    requires
        device_row(rows, id) is Some,
    ensures
        device_row(with_change(rows, id, DeviceChangeV::Alias(alias)), id) == Some(
            DeviceRowV { alias, ..device_row(rows, id)->0 },
        ),
        device_row(with_change(rows, id, DeviceChangeV::Paired(yes)), id) == Some(
            DeviceRowV { paired: yes, ..device_row(rows, id)->0 },
        ),
        device_row(with_change(rows, id, DeviceChangeV::Online(yes)), id) == Some(
            DeviceRowV { is_online: yes, ..device_row(rows, id)->0 },
        ),
{
    lemma_row_changed(rows, id, DeviceChangeV::Alias(alias), id);
    lemma_row_changed(rows, id, DeviceChangeV::Paired(yes), id);
    lemma_row_changed(rows, id, DeviceChangeV::Online(yes), id);
}

/// A synchronisation is noted with its time and shows that the device is online. Being seen is
/// noted with its time and shows that the device is online, but the own row stays as it is.
pub proof fn law_contact_is_noted(rows: Seq<DeviceRowV>, id: Seq<char>, at: Seq<char>, secs: i64)
    requires
        device_row(rows, id) is Some,
    ensures
        device_row(with_change(rows, id, DeviceChangeV::Synced(at)), id) == Some(
            DeviceRowV { last_sync_at: Some(at), is_online: true, ..device_row(rows, id)->0 },
        ),
        (device_row(rows, id)->0).is_self ==> device_row(
            with_change(rows, id, DeviceChangeV::Seen(at, secs)),
            id,
        ) == device_row(rows, id),
        !(device_row(rows, id)->0).is_self ==> device_row(
            with_change(rows, id, DeviceChangeV::Seen(at, secs)),
            id,
        ) == Some(
            DeviceRowV {
                last_seen_at: Some(at),
                last_seen_epoch: Some(secs),
                is_online: true,
                ..device_row(rows, id)->0
            },
        ),
{
    lemma_row_changed(rows, id, DeviceChangeV::Synced(at), id);
    lemma_row_changed(rows, id, DeviceChangeV::Seen(at, secs), id);
}

/// Registering a device leaves every other row as it is. A new row has the time of pairing that
/// the device came with, was not reported by discovery and not merged; a known one keeps what
/// is noted of that.
pub proof fn law_registering_keeps_the_rest(rows: Seq<DeviceRowV>, d: DeviceV, other: Seq<char>)
    ensures
        other != d.id ==> device_row(with_stored(rows, d), other) == device_row(rows, other),
        device_row(with_stored(rows, d), d.id) matches Some(r) && r.id == d.id && (match device_row(
            rows,
            d.id,
        ) {
            Some(known) => r.seen_via == known.seen_via && r.seen_via_at == known.seen_via_at
                && r.superseded_by == known.superseded_by && r.paired_at == known.paired_at,
            None => r.seen_via is None && r.seen_via_at is None && r.superseded_by is None
                && r.paired_at == time_text(d.paired_at),
        }),
        with_stored(rows, d).len() == rows.len() + (if device_row(rows, d.id) is Some {
            0int
        } else {
            1int
        }),
{
    lemma_device_row(rows, d.id);
    lemma_device_row(with_stored(rows, d), d.id);
    if has_device(rows, d.id) {
        lemma_row_changed(rows, d.id, DeviceChangeV::Stored(stored_row(d)), other);
    } else {
        lemma_row_added(rows, stored_row(d), other);
        lemma_row_added(rows, stored_row(d), d.id);
    }
}

/// A device that is discovered has the address, the port and the kind that it was discovered
/// with, was last seen when it was, and was reported by the way that reported it. Where it was
/// known it is online and is not the own one; only a paired device keeps its name.
pub proof fn law_discovered_reads_back(rows: Seq<DeviceRowV>, d: DeviceV, seen_via: Seq<char>)
    ensures
        device_row(with_discovered(rows, d, seen_via), d.id) matches Some(r) && {
            &&& r.id == d.id
            &&& r.ip == d.ip
            &&& r.port == d.port
            &&& r.device_kind == d.device_kind.text()
            &&& d.last_seen_at matches Some(t) ==> r.last_seen_at == Some(time_text(t))
                && r.last_seen_epoch == Some(t.secs) && r.seen_via_at == Some(time_text(t))
            &&& d.last_seen_at is None ==> r.last_seen_at is None && r.last_seen_epoch is None
                && r.seen_via_at is None
            &&& r.seen_via == Some(seen_via)
            &&& !r.is_self
            &&& device_row(rows, d.id) matches Some(known) ==> r.is_online && (!known.paired
                ==> r.name == d.name) && (known.paired ==> r.name == known.name)
            &&& device_row(rows, d.id) is None ==> r.name == d.name && r.paired_at == time_text(
                d.paired_at,
            )
        },
        d.last_seen_at matches Some(t) && reads_back(t) ==> seen_source(
            with_discovered(rows, d, seen_via),
            d.id,
        ) == Some((seen_via, d.last_seen_at)),
{
    lemma_device_row(rows, d.id);
    lemma_device_row(with_discovered(rows, d, seen_via), d.id);
    if has_device(rows, d.id) {
        lemma_row_changed(
            rows,
            d.id,
            DeviceChangeV::Discovered(discovered_row(d, seen_via)),
            d.id,
        );
    } else {
        lemma_row_added(rows, discovered_row(d, seen_via), d.id);
    }
}

/// A device is handed out with what its row holds: its id, its name, its address and port, its
/// alias, and whether it is online, the own one and paired.
pub proof fn law_device_tells_its_row(rows: Seq<DeviceRowV>, id: Seq<char>, now: Timestamp)
    ensures
        device_with_id(rows, id, now) is Some <==> device_row(rows, id) is Some,
        device_with_id(rows, id, now) matches Some(d) ==> {
            let r = device_row(rows, id)->0;
            &&& d.id == id
            &&& d.name == r.name
            &&& d.ip == r.ip
            &&& d.port == r.port
            &&& d.alias == r.alias
            &&& d.is_online == r.is_online
            &&& d.is_self == r.is_self
            &&& d.paired == r.paired
            &&& r.last_sync_at is None <==> d.last_sync_at is None
            &&& r.last_seen_at is None <==> d.last_seen_at is None
            &&& forall|t: Timestamp|
                reads_back(t) && r.paired_at == #[trigger] time_text(t) ==> d.paired_at == t
            &&& forall|t: Timestamp|
                reads_back(t) && r.last_sync_at == Some(#[trigger] time_text(t))
                    ==> d.last_sync_at == Some(t)
            &&& forall|t: Timestamp|
                reads_back(t) && r.last_seen_at == Some(#[trigger] time_text(t))
                    ==> d.last_seen_at == Some(t)
        },
{
    lemma_device_row(rows, id);
}

/// Every row that was not merged into another is listed, and none that was.
pub proof fn law_list_is_of_live_rows(rows: Seq<DeviceRowV>, now: Timestamp, i: int) -> (k: int)
    requires
        0 <= i < rows.len(),
        rows[i].superseded_by is None,
    ensures
        0 <= k < listed(rows, now).len(),
        listed(rows, now)[k] == devices_of(rows, now)[i],
        listed(rows, now)[k].id == rows[i].id,
{
    lemma_filter_keeps(rows, live(), rows[i]);
    let kept = rows.filter(live());
    choose|k: int| 0 <= k < kept.len() && kept[k] == rows[i]
}

/// Every device that is listed has a row that was not merged into another.
pub proof fn law_listed_device_is_live(rows: Seq<DeviceRowV>, now: Timestamp, k: int) -> (i: int)
    requires
        0 <= k < listed(rows, now).len(),
    ensures
        0 <= i < rows.len(),
        rows[i].superseded_by is None,
        rows[i].id == listed(rows, now)[k].id,
        listed(rows, now)[k] == devices_of(rows, now)[i],
{
    lemma_filter_member(rows, live(), k);
    let x = rows.filter(live())[k];
    choose|i: int| 0 <= i < rows.len() && rows[i] == x
}

/// What is left of a row that takes over another: its own alias, synchronisation and fingerprint
/// where it has them, else those of the other; it is paired where one of them was, since the
/// earlier of the two times; all else is its own.
pub proof fn law_merger_takes_over_what_lacks(
    db: SyncDbV,
    from: Seq<char>,
    to: Seq<char>,
    at: Seq<char>,
)
    requires
        merge_refusal(db.devices, from, to) is Ok,
    ensures
        ({
            let f = device_row(db.devices, from)->0;
            let t = device_row(db.devices, to)->0;
            let r = device_row(merged(db, from, to, at).devices, to)->0;
            &&& device_row(merged(db, from, to, at).devices, to) is Some
            &&& r.alias == (if t.alias is Some {
                t.alias
            } else {
                f.alias
            })
            &&& r.last_sync_at == (if t.last_sync_at is Some {
                t.last_sync_at
            } else {
                f.last_sync_at
            })
            &&& r.machine_uid == (if t.machine_uid is Some {
                t.machine_uid
            } else {
                f.machine_uid
            })
            &&& r.paired
            &&& r.paired_at == t.paired_at || r.paired_at == f.paired_at
            &&& text_le(r.paired_at, t.paired_at) && text_le(r.paired_at, f.paired_at)
            &&& r == (DeviceRowV {
                alias: r.alias,
                last_sync_at: r.last_sync_at,
                machine_uid: r.machine_uid,
                paired: true,
                paired_at: r.paired_at,
                ..t
            })
        }),
{
    law_merger(db, from, to, at, from);
    let f = device_row(db.devices, from)->0;
    let t = device_row(db.devices, to)->0;
    lemma_text_le_total(t.paired_at, f.paired_at);
    lemma_text_le_total(t.paired_at, t.paired_at);
    lemma_text_le_total(f.paired_at, f.paired_at);
}

/// The row offered for a merger is of the same machine under another id, is paired, is not the
/// own one and was not merged before; and where none is offered there is none.
pub proof fn law_candidate_is_the_same_machine(
    rows: Seq<DeviceRowV>,
    uid: Seq<char>,
    new_id: Seq<char>,
)
    ensures
        merge_candidate(rows, uid, new_id) matches Some(r) ==> {
            &&& rows.contains(r)
            &&& r.machine_uid == Some(uid)
            &&& r.id != new_id
            &&& r.paired
            &&& !r.is_self
            &&& r.superseded_by is None
        },
        merge_candidate(rows, uid, new_id) is None ==> forall|i: int|
            0 <= i < rows.len() && (#[trigger] rows[i]).machine_uid == Some(uid) && rows[i].id
                != new_id && rows[i].paired && !rows[i].is_self ==> rows[i].superseded_by is Some,
        forall|i: int|
            0 <= i < rows.len() && (#[trigger] rows[i]).machine_uid == Some(uid) && rows[i].id
                != new_id && rows[i].paired && !rows[i].is_self && rows[i].superseded_by is None
                ==> merge_candidate(rows, uid, new_id) is Some && text_le(
                (merge_candidate(rows, uid, new_id)->0).paired_at,
                rows[i].paired_at,
            ),
{
    law_merge_candidate(rows, uid, new_id);
    assert forall|i: int|
        0 <= i < rows.len() && (#[trigger] rows[i]).machine_uid == Some(uid) && rows[i].id != new_id
            && rows[i].paired && !rows[i].is_self && rows[i].superseded_by is None implies (
    merge_candidate(rows, uid, new_id) is Some && text_le(
        (merge_candidate(rows, uid, new_id)->0).paired_at,
        rows[i].paired_at,
    )) by {
        assert(is_twin(rows[i], uid, new_id));
    }
}

/// A paired device that was last synchronised more than the given number of days ago, at least
/// one, is removed with its secret and with what is known of merged ids; one that was
/// synchronised since stays.
pub proof fn law_stale_device_is_removed(db: SyncDbV, now: int, days: int, i: int, t: (i64, u32))
    requires
        distinct_ids(db.devices),
        0 <= i < db.devices.len(),
        db.devices[i].last_sync_at is Some,
        rfc3339_time(db.devices[i].last_sync_at->0) == Some(t),
    ensures
        ({
            let r = db.devices[i];
            let d = if days < 1 {
                1
            } else {
                days
            };
            let after = without_stale(db, stale_cutoff(now, days));
            &&& r.paired && !r.is_self && r.superseded_by is None && t.0 < now - d * 86400 ==> {
                &&& device_row(after.devices, r.id) is None
                &&& secret_of(after.secrets, r.id) is None
                &&& alias_of(after.aliases, r.id) is None
            }
            &&& t.0 >= now - d * 86400 || r.superseded_by is Some ==> after.devices.contains(r)
        }),
{
    let cutoff = stale_cutoff(now, days);
    let p = stale_before(cutoff);
    let gone = db.devices.filter(p);
    let ids = row_ids(gone);
    let r = db.devices[i];
    let after = without_stale(db, cutoff);
    if p(r) {
        lemma_filter_keeps(db.devices, p, r);
        let k = choose|k: int| 0 <= k < gone.len() && gone[k] == r;
        assert(ids[k] == r.id);
        assert(ids.contains(r.id));
        lemma_device_row(after.devices, r.id);
        assert forall|j: int| 0 <= j < after.devices.len() implies (#[trigger] after.devices[j]).id
            != r.id by {
            lemma_filter_member(db.devices, not_among(ids), j);
        }
        lemma_secret_gone(db.secrets, ids, r.id);
        lemma_alias_gone(db.aliases, ids, r.id);
    } else {
        if ids.contains(r.id) {
            let k = choose|k: int| 0 <= k < ids.len() && ids[k] == r.id;
            lemma_filter_member(db.devices, p, k);
            let j = choose|j: int| 0 <= j < db.devices.len() && db.devices[j] == gone[k];
            assert(db.devices[j].id == db.devices[i].id);
            assert(j == i);
        }
        lemma_filter_keeps(db.devices, not_among(ids), r);
    }
}

proof fn lemma_secret_gone(
    rows: Seq<crate::storage::SecretRowV>,
    ids: Seq<Seq<char>>,
    id: Seq<char>,
)
    requires
        ids.contains(id),
    ensures
        secret_of(rows.filter(crate::storage::secrets::not_of_any(ids)), id) is None,
    decreases rows.len(),
{
    reveal(Seq::filter);
    let p = crate::storage::secrets::not_of_any(ids);
    if rows.len() > 0 {
        let rest = rows.drop_last();
        lemma_secret_gone(rest, ids, id);
        crate::storage::secrets::lemma_secret_last(rest.filter(p), rows.last(), id);
    }
}

proof fn lemma_alias_gone(
    rows: Seq<crate::storage::AliasRowV>,
    ids: Seq<Seq<char>>,
    id: Seq<char>,
)
    requires
        ids.contains(id),
    ensures
        alias_of(rows.filter(crate::storage::secrets::apart_from(ids)), id) is None,
{
    let p = crate::storage::secrets::apart_from(ids);
    let kept = rows.filter(p);
    assert forall|i: int| 0 <= i < kept.len() implies (#[trigger] kept[i]).old_id != id by {
        lemma_filter_member(rows, p, i);
    }
    lemma_no_alias(kept, id);
}

proof fn lemma_no_alias(rows: Seq<crate::storage::AliasRowV>, id: Seq<char>)
    requires
        forall|i: int| 0 <= i < rows.len() ==> (#[trigger] rows[i]).old_id != id,
    ensures
        alias_of(rows, id) is None,
    decreases rows.len(),
{
    if rows.len() > 0 {
        assert(rows[0].old_id != id);
        let rest = rows.drop_first();
        assert forall|i: int| 0 <= i < rest.len() implies (#[trigger] rest[i]).old_id != id by {
            assert(rest[i] == rows[i + 1]);
        }
        lemma_no_alias(rest, id);
    }
}

/// A row that discovery alone put there, not paired and not the own one, is removed where it was
/// not seen for longer than the limit; a row that is paired, the own one, or was not put there by
/// discovery stays however long it was not seen.
pub proof fn law_old_discovery_is_removed(rows: Seq<DeviceRowV>, now: int, i: int)
    requires
        0 <= i < rows.len(),
    ensures
        ({
            let r = rows[i];
            let old = now - DISCOVERED_MAX_AGE_DAYS * 86400;
            &&& !r.paired && !r.is_self && r.seen_via is Some && (r.last_seen_epoch matches Some(t)
                && t < old) ==> !without_expired(rows, now).contains(r)
            &&& !r.paired && !r.is_self && r.seen_via is Some && r.last_seen_epoch is None && 0 < old
                ==> !without_expired(rows, now).contains(r)
            &&& r.paired || r.is_self || r.seen_via is None ==> without_expired(rows, now).contains(r)
        }),
{
    law_expiry_spares_others(rows, now);
    let after = without_expired(rows, now);
    if after.contains(rows[i]) {
        let k = choose|k: int| 0 <= k < after.len() && after[k] == rows[i];
        assert(rows.contains(after[k]));
    }
}

/// When all devices are removed, the own row stays and no other, and neither a secret nor what
/// is known of merged ids.
pub proof fn law_only_the_own_row_stays(db: SyncDbV, id: Seq<char>, r: DeviceRowV)
    ensures
        without_devices(db).devices.contains(r) <==> db.devices.contains(r) && r.is_self,
        secret_of(without_devices(db).secrets, id) is None,
        alias_of(without_devices(db).aliases, id) is None,
        without_devices(db).config == db.config,
        without_devices(db).logs == db.logs,
        without_devices(db).trash == db.trash,
{
    if db.devices.contains(r) && r.is_self {
        lemma_filter_keeps(db.devices, own(), r);
    }
    if without_devices(db).devices.contains(r) {
        let kept = db.devices.filter(own());
        let k = choose|k: int| 0 <= k < kept.len() && kept[k] == r;
        lemma_filter_member(db.devices, own(), k);
    }
}

/// A device that discovery never reported has no source; one that it reported is told with the
/// way and, as far as it can be read, the time.
pub proof fn law_source_of_a_device(rows: Seq<DeviceRowV>, id: Seq<char>, t: Timestamp)
    ensures
        seen_source(rows, id) is None <==> device_row(rows, id) is None,
        device_row(rows, id) matches Some(r) ==> {
            &&& r.seen_via is None ==> (seen_source(rows, id)->0).0 == ""@
            &&& r.seen_via matches Some(v) ==> (seen_source(rows, id)->0).0 == v
            &&& r.seen_via_at is None ==> (seen_source(rows, id)->0).1 is None
            &&& r.seen_via_at == Some(time_text(t)) && reads_back(t) ==> (seen_source(
                rows,
                id,
            )->0).1 == Some(t)
        },
{
}

/// A device that is discovered for the first time is neither online nor paired yet, and was never
/// synchronised with nor merged.
pub proof fn law_new_discovery_is_only_seen(rows: Seq<DeviceRowV>, d: DeviceV, seen_via: Seq<char>)
    requires
        device_row(rows, d.id) is None,
    ensures
        device_row(with_discovered(rows, d, seen_via), d.id) matches Some(r) && !r.is_online
            && !r.paired && r.last_sync_at is None && r.alias is None && r.machine_uid is None
            && r.superseded_by is None,
{
    lemma_device_row(rows, d.id);
    lemma_row_added(rows, discovered_row(d, seen_via), d.id);
}

/// Why a merger is refused: a device with itself, one that is not known, the own one and one that
/// was merged before are named, the one that is to be merged first; and two that are not paired.
pub proof fn law_refused_merger_tells_why(rows: Seq<DeviceRowV>, from: Seq<char>, to: Seq<char>)
    ensures
        ({
            let f = device_row(rows, from);
            let t = device_row(rows, to);
            let why = merge_refusal(rows, from, to);
            let fit = f matches Some(x) && !x.is_self && x.superseded_by is None;
            &&& from == to ==> why == Err::<(), Seq<char>>("不能与自己合并"@)
            &&& from != to && f is None ==> why == Err::<(), Seq<char>>("找不到设备 "@ + from)
            &&& from != to && (f matches Some(x) && x.is_self) ==> why == Err::<(), Seq<char>>(
                from + " 是本机，不能参与归并"@,
            )
            &&& from != to && (f matches Some(x) && !x.is_self && x.superseded_by is Some) ==> why
                == Err::<(), Seq<char>>(from + " 已被归并过"@)
            &&& from != to && fit && t is None ==> why == Err::<(), Seq<char>>(
                "找不到设备 "@ + to,
            )
            &&& from != to && fit && (t matches Some(x) && x.is_self) ==> why == Err::<
                (),
                Seq<char>,
            >(to + " 是本机，不能参与归并"@)
            &&& from != to && fit && (t matches Some(x) && !x.is_self && x.superseded_by is Some)
                ==> why == Err::<(), Seq<char>>(to + " 已被归并过"@)
        }),
{
}

} // verus!
