//! Shared secrets and the ids of merged devices.

use vstd::prelude::*;

use crate::crypto::{fingerprint, fingerprint_text};
use crate::models::{lemma_views_push, views, Timestamp};
use crate::outside::clock;
use crate::storage::devices::{format_time, time_text};
use crate::storage::order::{distinct_by, holds, lemma_filter_ends, lemma_filter_keeps_keys, lemma_filter_step, lemma_push_keeps_keys};
use crate::storage::{AliasRow, AliasRowV, SecretRow, SecretRowV, SyncDb, SyncDbV};
use crate::text::{chars_of, opt_text, same};

verus! {

// ---- secrets ----

/// The secret shared with a device.
pub open spec fn secret_of(rows: Seq<SecretRowV>, id: Seq<char>) -> Option<Seq<char>>
    decreases rows.len(),
{
    if rows.len() == 0 {
        None
    } else if rows[0].device_id == id {
        Some(rows[0].secret)
    } else {
        secret_of(rows.drop_first(), id)
    }
}

/// Whether a secret is shared with a device.
pub open spec fn has_secret(rows: Seq<SecretRowV>, id: Seq<char>) -> bool {
    exists|i: int| 0 <= i < rows.len() && (#[trigger] rows[i]).device_id == id
}

pub proof fn lemma_secret_of(rows: Seq<SecretRowV>, id: Seq<char>)
    ensures
        secret_of(rows, id) is Some <==> has_secret(rows, id),
    decreases rows.len(),
{
    if rows.len() > 0 {
        let rest = rows.drop_first();
        lemma_secret_of(rest, id);
        if rows[0].device_id != id {
            if has_secret(rest, id) {
                let i = choose|i: int| 0 <= i < rest.len() && (#[trigger] rest[i]).device_id == id;
                assert(rows[i + 1].device_id == id);
            }
            if has_secret(rows, id) {
                let i = choose|i: int| 0 <= i < rows.len() && (#[trigger] rows[i]).device_id == id;
                assert(rest[i - 1].device_id == id);
            }
        }
    }
}

/// The table of secrets after one is set.
pub open spec fn with_secret(rows: Seq<SecretRowV>, id: Seq<char>, secret: Seq<char>, at: Seq<
    char,
>) -> Seq<SecretRowV> {
    if has_secret(rows, id) {
        Seq::new(
            rows.len(),
            |i: int|
                if rows[i].device_id == id {
                    SecretRowV { device_id: rows[i].device_id, secret, updated_at: at }
                } else {
                    rows[i]
                },
        )
    } else {
        rows.push(SecretRowV { device_id: id, secret, updated_at: at })
    }
}

/// The test for secrets shared with devices other than one.
pub open spec fn not_of(id: Seq<char>) -> spec_fn(SecretRowV) -> bool {
    |r: SecretRowV| r.device_id != id
}

/// The test for secrets shared with devices that are not among some.
pub open spec fn not_of_any(ids: Seq<Seq<char>>) -> spec_fn(SecretRowV) -> bool {
    |r: SecretRowV| !ids.contains(r.device_id)
}

/// The test for secrets that are not empty.
pub open spec fn filled() -> spec_fn(SecretRowV) -> bool {
    |r: SecretRowV| r.secret.len() > 0
}

/// The device ids of rows.
pub open spec fn secret_ids(rows: Seq<SecretRowV>) -> Seq<Seq<char>> {
    Seq::new(rows.len(), |i: int| rows[i].device_id)
}

impl SyncDb {
    /// The secret shared with a device.
    pub fn get_device_secret(&self, id: &str) -> (r: Option<String>)
        ensures
            opt_text(r) == secret_of(self@.secrets, id@),
    {
        let ghost rows = self@.secrets;
        let mut i: usize = 0;
        assert(rows.skip(0) =~= rows);
        while i < self.secrets.len()
            invariant
                i <= self.secrets.len(),
                rows == views(self.secrets@),
                secret_of(rows, id@) == secret_of(rows.skip(i as int), id@),
            decreases self.secrets.len() - i,
        {
            assert(rows.skip(i as int)[0] == self.secrets@[i as int]@);
            assert(rows.skip(i as int).drop_first() =~= rows.skip(i + 1));
            if same(self.secrets[i].device_id.as_str(), id) {
                return Some(self.secrets[i].secret.clone());
            }
            i = i + 1;
        }
        None
    }

    /// Sets the secret shared with a device; an earlier one is replaced.
    pub fn set_device_secret_at(&mut self, id: &str, secret: &str, now: &Timestamp)
        ensures
            final(self)@ == (SyncDbV {
                secrets: with_secret(old(self)@.secrets, id@, secret@, time_text(*now)),
                ..old(self)@
            }),
    {
        let known: bool = self.get_device_secret(id).is_some();
        let at: String = format_time(now);
        proof {
            lemma_secret_of(self@.secrets, id@);
        }
        if known {
            let ghost before = self@.secrets;
            let mut rows: Vec<SecretRow> = Vec::new();
            let mut out: Vec<SecretRow> = Vec::new();
            std::mem::swap(&mut rows, &mut self.secrets);
            let ghost list = rows@;
            let ghost target = with_secret(before, id@, secret@, at@);
            for row in it: rows
                invariant
                    it.seq() == list,
                    before == views(list),
                    has_secret(before, id@),
                    target == with_secret(before, id@, secret@, at@),
                    views(out@) == target.take(it.index()),
            {
                let ghost i = it.index();
                assert(row@ == before[i]);
                let next: SecretRow = if same(row.device_id.as_str(), id) {
                    SecretRow {
                        device_id: row.device_id,
                        secret: secret.to_string(),
                        updated_at: at.clone(),
                    }
                } else {
                    row
                };
                proof {
                    lemma_views_push(out@, next);
                    assert(next@ == target[i]);
                    assert(target.take(i + 1) =~= target.take(i).push(next@));
                }
                out.push(next);
            }
            assert(target.take(before.len() as int) =~= target);
            self.secrets = out;
        } else {
            let row: SecretRow = SecretRow {
                device_id: id.to_string(),
                secret: secret.to_string(),
                updated_at: at,
            };
            proof {
                lemma_views_push(self.secrets@, row);
            }
            self.secrets.push(row);
        }
    }

    /// Sets the secret shared with a device; an earlier one is replaced.
    pub fn set_device_secret(&mut self, id: &str, secret: &str)
        ensures
            exists|now: Timestamp|
                final(self)@ == (SyncDbV {
                    secrets: with_secret(
                        old(self)@.secrets,
                        id@,
                        secret@,
                        #[trigger] time_text(now),
                    ),
                    ..old(self)@
                }),
    {
        let now: Timestamp = clock();
        self.set_device_secret_at(id, secret, &now);
    }

    /// Sets the secret shared with a device unless there is one; gives the one that holds.
    pub fn store_secret_if_absent_at(&mut self, id: &str, secret: &str, now: &Timestamp) -> (r:
        String)
        ensures
            secret_of(old(self)@.secrets, id@) matches Some(known) ==> r@ == known && final(self)@
                == old(self)@,
            secret_of(old(self)@.secrets, id@) is None ==> r@ == secret@ && final(self)@ == (
            SyncDbV {
                secrets: with_secret(old(self)@.secrets, id@, secret@, time_text(*now)),
                ..old(self)@
            }),
    {
        match self.get_device_secret(id) {
            Some(known) => known,
            None => {
                self.set_device_secret_at(id, secret, now);
                secret.to_string()
            },
        }
    }

    /// Sets the secret shared with a device unless there is one; gives the one that holds.
    pub fn store_secret_if_absent(&mut self, id: &str, secret: &str) -> (r: String)
        ensures
            secret_of(old(self)@.secrets, id@) matches Some(known) ==> r@ == known && final(self)@
                == old(self)@,
            secret_of(old(self)@.secrets, id@) is None ==> r@ == secret@ && (exists|
                now: Timestamp,
            |
                final(self)@ == (SyncDbV {
                    secrets: with_secret(
                        old(self)@.secrets,
                        id@,
                        secret@,
                        #[trigger] time_text(now),
                    ),
                    ..old(self)@
                })),
    {
        let now: Timestamp = clock();
        self.store_secret_if_absent_at(id, secret, &now)
    }

    /// The ids of the devices with which a secret is shared.
    pub fn list_secret_device_ids(&self) -> (r: Vec<String>)
        ensures
            views(r@) == secret_ids(self@.secrets.filter(filled())),
    {
        let ghost rows = self@.secrets;
        let mut out: Vec<String> = Vec::new();
        let mut i: usize = 0;
        proof {
            lemma_filter_ends(rows, filled());
        }
        assert(views(out@) =~= secret_ids(rows.take(0).filter(filled())));
        while i < self.secrets.len()
            invariant
                i <= self.secrets.len(),
                rows == views(self.secrets@),
                views(out@) == secret_ids(rows.take(i as int).filter(filled())),
            decreases self.secrets.len() - i,
        {
            proof {
                lemma_filter_step(rows, i as int, filled());
            }
            if chars_of(self.secrets[i].secret.as_str()).len() > 0 {
                let id: String = self.secrets[i].device_id.clone();
                proof {
                    lemma_views_push(out@, id);
                    assert(secret_ids(rows.take(i + 1).filter(filled())) =~= secret_ids(
                        rows.take(i as int).filter(filled()),
                    ).push(id@));
                }
                out.push(id);
            }
            i = i + 1;
        }
        proof {
            lemma_filter_ends(rows, filled());
        }
        out
    }

    /// Drops the secret shared with a device.
    pub fn delete_device_secret(&mut self, id: &str)
        ensures
            final(self)@ == (SyncDbV {
                secrets: old(self)@.secrets.filter(not_of(id@)),
                ..old(self)@
            }),
    {
        let ghost before = self@.secrets;
        let mut rows: Vec<SecretRow> = Vec::new();
        let mut out: Vec<SecretRow> = Vec::new();
        std::mem::swap(&mut rows, &mut self.secrets);
        let ghost list = rows@;
        proof {
            lemma_filter_ends(before, not_of(id@));
        }
        assert(views(out@) =~= before.take(0).filter(not_of(id@)));
        for row in it: rows
            invariant
                it.seq() == list,
                before == views(list),
                views(out@) == before.take(it.index()).filter(not_of(id@)),
        {
            proof {
                assert(row@ == before[it.index()]);
                lemma_filter_step(before, it.index(), not_of(id@));
                lemma_views_push(out@, row);
            }
            if !same(row.device_id.as_str(), id) {
                out.push(row);
            }
        }
        proof {
            lemma_filter_ends(before, not_of(id@));
        }
        self.secrets = out;
    }

    /// Drops the secrets shared with some devices.
    pub(crate) fn delete_secrets_of(&mut self, ids: &Vec<String>)
        ensures
            final(self)@ == (SyncDbV {
                secrets: old(self)@.secrets.filter(not_of_any(views(ids@))),
                ..old(self)@
            }),
    {
        let ghost before = self@.secrets;
        let ghost keep = not_of_any(views(ids@));
        let mut rows: Vec<SecretRow> = Vec::new();
        let mut out: Vec<SecretRow> = Vec::new();
        std::mem::swap(&mut rows, &mut self.secrets);
        let ghost list = rows@;
        proof {
            lemma_filter_ends(before, keep);
        }
        assert(views(out@) =~= before.take(0).filter(keep));
        for row in it: rows
            invariant
                it.seq() == list,
                before == views(list),
                keep == not_of_any(views(ids@)),
                views(out@) == before.take(it.index()).filter(keep),
        {
            proof {
                assert(row@ == before[it.index()]);
                lemma_filter_step(before, it.index(), keep);
                lemma_views_push(out@, row);
            }
            if !holds(ids, row.device_id.as_str()) {
                out.push(row);
            }
        }
        proof {
            lemma_filter_ends(before, keep);
        }
        self.secrets = out;
    }
}

// ---- safety codes ----

/// The safety code with each device with which a usable secret is shared, in the order of
/// the secrets.
pub open spec fn safety_codes(rows: Seq<SecretRowV>, self_id: Seq<char>, n: nat) -> Seq<
    (Seq<char>, Seq<char>),
>
    decreases n,
{
    if n == 0 {
        Seq::empty()
    } else {
        let before = safety_codes(rows, self_id, (n - 1) as nat);
        let r = rows[n - 1];
        match fingerprint_text(r.secret, self_id, r.device_id) {
            Some(code) => before.push((r.device_id, code)),
            None => before,
        }
    }
}

/// The contents of a list of pairs.
pub open spec fn pairs_view(list: Seq<(String, String)>) -> Seq<(Seq<char>, Seq<char>)> {
    Seq::new(list.len(), |i: int| (list[i].0@, list[i].1@))
}

/// The safety code with one device.
pub open spec fn safety_code(rows: Seq<SecretRowV>, self_id: Seq<char>, id: Seq<char>) -> Option<
    Seq<char>,
> {
    match secret_of(rows, id) {
        Some(s) => fingerprint_text(s, self_id, id),
        None => None,
    }
}

impl SyncDb {
    /// The safety code with each device with which a usable secret is shared. An empty secret
    /// is not usable, so that it needs no test of its own.
    pub fn fingerprints(&self, self_id: &str) -> (r: Vec<(String, String)>)
        ensures
            pairs_view(r@) == safety_codes(self@.secrets, self_id@, self@.secrets.len()),
    {
        let ghost rows = self@.secrets;
        let mut out: Vec<(String, String)> = Vec::new();
        let mut i: usize = 0;
        assert(pairs_view(out@) =~= safety_codes(rows, self_id@, 0));
        while i < self.secrets.len()
            invariant
                i <= self.secrets.len(),
                rows == views(self.secrets@),
                pairs_view(out@) == safety_codes(rows, self_id@, i as nat),
            decreases self.secrets.len() - i,
        {
            let row: &SecretRow = &self.secrets[i];
            assert(rows[i as int] == row@);
            match fingerprint(row.secret.as_str(), self_id, row.device_id.as_str()) {
                Some(code) => {
                    let ghost before = out@;
                    out.push((row.device_id.clone(), code));
                    assert(pairs_view(out@) =~= pairs_view(before).push(
                        (rows[i as int].device_id, out@.last().1@),
                    ));
                },
                None => {},
            }
            i = i + 1;
        }
        out
    }

    /// The safety code with one device.
    pub fn fingerprint_with(&self, self_id: &str, id: &str) -> (r: Option<String>)
        ensures
            opt_text(r) == safety_code(self@.secrets, self_id@, id@),
    {
        match self.get_device_secret(id) {
            Some(s) => fingerprint(s.as_str(), self_id, id),
            None => None,
        }
    }
}

// ---- ids of merged devices ----

/// The id that took over from a merged one.
pub open spec fn alias_of(rows: Seq<AliasRowV>, id: Seq<char>) -> Option<Seq<char>>
    decreases rows.len(),
{
    if rows.len() == 0 {
        None
    } else if rows[0].old_id == id {
        Some(rows[0].new_id)
    } else {
        alias_of(rows.drop_first(), id)
    }
}

/// The table of merged ids after one more is merged.
pub open spec fn with_alias(rows: Seq<AliasRowV>, old_id: Seq<char>, new_id: Seq<char>, at: Seq<
    char,
>) -> Seq<AliasRowV> {
    if alias_of(rows, old_id) is Some {
        Seq::new(
            rows.len(),
            |i: int|
                if rows[i].old_id == old_id {
                    AliasRowV { old_id, new_id, merged_at: at }
                } else {
                    rows[i]
                },
        )
    } else {
        rows.push(AliasRowV { old_id, new_id, merged_at: at })
    }
}

/// The test for merged ids that have nothing to do with some devices.
pub open spec fn apart_from(ids: Seq<Seq<char>>) -> spec_fn(AliasRowV) -> bool {
    |r: AliasRowV| !ids.contains(r.old_id) && !ids.contains(r.new_id)
}

/// The id that stands for an id now, followed over at most `hops` mergers.
pub open spec fn resolved(rows: Seq<AliasRowV>, id: Seq<char>, hops: nat) -> Seq<char>
    decreases hops,
{
    if hops == 0 {
        id
    } else {
        match alias_of(rows, id) {
            Some(next) => if next != id {
                resolved(rows, next, (hops - 1) as nat)
            } else {
                id
            },
            None => id,
        }
    }
}

impl SyncDb {
    fn find_alias(&self, id: &str) -> (r: Option<String>)
        ensures
            opt_text(r) == alias_of(self@.aliases, id@),
    {
        let ghost rows = self@.aliases;
        let mut i: usize = 0;
        assert(rows.skip(0) =~= rows);
        while i < self.aliases.len()
            invariant
                i <= self.aliases.len(),
                rows == views(self.aliases@),
                alias_of(rows, id@) == alias_of(rows.skip(i as int), id@),
            decreases self.aliases.len() - i,
        {
            assert(rows.skip(i as int)[0] == self.aliases@[i as int]@);
            assert(rows.skip(i as int).drop_first() =~= rows.skip(i + 1));
            if same(self.aliases[i].old_id.as_str(), id) {
                return Some(self.aliases[i].new_id.clone());
            }
            i = i + 1;
        }
        None
    }

    /// The id that stands for an id now: mergers are followed, at most eight of them, so that
    /// a circle does no harm.
    pub fn resolve_device_id(&self, id: &str) -> (r: String)
        ensures
            r@ == resolved(self@.aliases, id@, 8),
    {
        let mut cur: String = id.to_string();
        let mut left: usize = 8;
        while left > 0
            invariant
                left <= 8,
                resolved(self@.aliases, id@, 8) == resolved(self@.aliases, cur@, left as nat),
            decreases left,
        {
            match self.find_alias(cur.as_str()) {
                Some(next) => {
                    if same(next.as_str(), cur.as_str()) {
                        return cur;
                    }
                    cur = next;
                },
                None => {
                    return cur;
                },
            }
            left = left - 1;
        }
        cur
    }

    /// Notes that an id was merged into another.
    pub(crate) fn set_alias_row(&mut self, old_id: &str, new_id: &str, at: &str)
        ensures
            final(self)@ == (SyncDbV {
                aliases: with_alias(old(self)@.aliases, old_id@, new_id@, at@),
                ..old(self)@
            }),
    {
        let known: bool = self.find_alias(old_id).is_some();
        if known {
            let ghost before = self@.aliases;
            let mut rows: Vec<AliasRow> = Vec::new();
            let mut out: Vec<AliasRow> = Vec::new();
            std::mem::swap(&mut rows, &mut self.aliases);
            let ghost list = rows@;
            let ghost target = with_alias(before, old_id@, new_id@, at@);
            for row in it: rows
                invariant
                    it.seq() == list,
                    before == views(list),
                    alias_of(before, old_id@) is Some,
                    target == with_alias(before, old_id@, new_id@, at@),
                    views(out@) == target.take(it.index()),
            {
                let ghost i = it.index();
                assert(row@ == before[i]);
                let next: AliasRow = if same(row.old_id.as_str(), old_id) {
                    AliasRow {
                        old_id: row.old_id,
                        new_id: new_id.to_string(),
                        merged_at: at.to_string(),
                    }
                } else {
                    row
                };
                proof {
                    lemma_views_push(out@, next);
                    assert(next@ == target[i]);
                    assert(target.take(i + 1) =~= target.take(i).push(next@));
                }
                out.push(next);
            }
            assert(target.take(before.len() as int) =~= target);
            self.aliases = out;
        } else {
            let row: AliasRow = AliasRow {
                old_id: old_id.to_string(),
                new_id: new_id.to_string(),
                merged_at: at.to_string(),
            };
            proof {
                lemma_views_push(self.aliases@, row);
            }
            self.aliases.push(row);
        }
    }

    /// Forgets the mergers that have to do with some devices.
    pub(crate) fn delete_aliases_of(&mut self, ids: &Vec<String>)
        ensures
            final(self)@ == (SyncDbV {
                aliases: old(self)@.aliases.filter(apart_from(views(ids@))),
                ..old(self)@
            }),
    {
        let ghost before = self@.aliases;
        let ghost keep = apart_from(views(ids@));
        let mut rows: Vec<AliasRow> = Vec::new();
        let mut out: Vec<AliasRow> = Vec::new();
        std::mem::swap(&mut rows, &mut self.aliases);
        let ghost list = rows@;
        proof {
            lemma_filter_ends(before, keep);
        }
        assert(views(out@) =~= before.take(0).filter(keep));
        for row in it: rows
            invariant
                it.seq() == list,
                before == views(list),
                keep == apart_from(views(ids@)),
                views(out@) == before.take(it.index()).filter(keep),
        {
            proof {
                assert(row@ == before[it.index()]);
                lemma_filter_step(before, it.index(), keep);
                lemma_views_push(out@, row);
            }
            if !holds(ids, row.old_id.as_str()) && !holds(ids, row.new_id.as_str()) {
                out.push(row);
            }
        }
        proof {
            lemma_filter_ends(before, keep);
        }
        self.aliases = out;
    }
}

// ---- laws ----

/// A secret that was set is the one that is shared, and no other device's secret changes.
pub proof fn law_secret_reads_back(
    rows: Seq<SecretRowV>,
    id: Seq<char>,
    secret: Seq<char>,
    at: Seq<char>,
    other: Seq<char>,
)
    ensures
        secret_of(with_secret(rows, id, secret, at), id) == Some(secret),
        other != id ==> secret_of(with_secret(rows, id, secret, at), other) == secret_of(
            rows,
            other,
        ),
{
    if has_secret(rows, id) {
        lemma_secret_replaced(rows, with_secret(rows, id, secret, at), id, secret, other);
    } else {
        lemma_secret_added(rows, id, secret, at, other);
    }
}

proof fn lemma_secret_replaced(
    rows: Seq<SecretRowV>,
    after: Seq<SecretRowV>,
    id: Seq<char>,
    secret: Seq<char>,
    other: Seq<char>,
)
    requires
        after.len() == rows.len(),
        forall|i: int|
            0 <= i < rows.len() ==> (#[trigger] after[i]).device_id == rows[i].device_id && (
            if rows[i].device_id == id {
                after[i].secret == secret
            } else {
                after[i] == rows[i]
            }),
    ensures
        has_secret(rows, id) ==> secret_of(after, id) == Some(secret),
        other != id ==> secret_of(after, other) == secret_of(rows, other),
    decreases rows.len(),
{
    lemma_secret_of(rows, id);
    if rows.len() > 0 {
        let rest = rows.drop_first();
        lemma_secret_of(rest, id);
        lemma_secret_replaced(rest, after.drop_first(), id, secret, other);
        assert(after[0].device_id == rows[0].device_id);
    }
}

proof fn lemma_secret_added(
    rows: Seq<SecretRowV>,
    id: Seq<char>,
    secret: Seq<char>,
    at: Seq<char>,
    other: Seq<char>,
)
    requires
        !has_secret(rows, id),
    ensures
        secret_of(rows.push(SecretRowV { device_id: id, secret, updated_at: at }), id) == Some(
            secret,
        ),
        other != id ==> secret_of(
            rows.push(SecretRowV { device_id: id, secret, updated_at: at }),
            other,
        ) == secret_of(rows, other),
    decreases rows.len(),
{
    let added = SecretRowV { device_id: id, secret, updated_at: at };
    lemma_secret_of(rows, id);
    if rows.len() > 0 {
        let rest = rows.drop_first();
        lemma_secret_of(rest, id);
        lemma_secret_added(rest, id, secret, at, other);
        assert(rows.push(added).drop_first() =~= rest.push(added));
        assert(rows[0].device_id != id);
    } else {
        assert(rows.push(added).drop_first() =~= rows);
    }
}

/// Dropping the secret shared with a device drops that one and no other.
pub proof fn law_secret_dropped(rows: Seq<SecretRowV>, id: Seq<char>, other: Seq<char>)
    ensures
        secret_of(rows.filter(not_of(id)), id) is None,
        other != id ==> secret_of(rows.filter(not_of(id)), other) == secret_of(rows, other),
    decreases rows.len(),
{
    reveal(Seq::filter);
    if rows.len() > 0 {
        let rest = rows.drop_last();
        law_secret_dropped(rest, id, other);
        lemma_secret_last(rest, rows.last(), other);
        lemma_secret_last(rest.filter(not_of(id)), rows.last(), other);
        lemma_secret_last(rest.filter(not_of(id)), rows.last(), id);
        assert(rows =~= rest.push(rows.last()));
    }
}

pub proof fn lemma_secret_last(rows: Seq<SecretRowV>, last: SecretRowV, id: Seq<char>)
    ensures
        secret_of(rows.push(last), id) == (if secret_of(rows, id) is Some {
            secret_of(rows, id)
        } else if last.device_id == id {
            Some(last.secret)
        } else {
            None
        }),
    decreases rows.len(),
{
    if rows.len() > 0 {
        assert(rows.push(last).drop_first() =~= rows.drop_first().push(last));
        lemma_secret_last(rows.drop_first(), last, id);
    } else {
        assert(rows.push(last).drop_first() =~= rows);
    }
}

/// A merged id resolves to the id that took over, where that one was not merged itself.
pub proof fn law_merged_id_resolves(
    rows: Seq<AliasRowV>,
    old_id: Seq<char>,
    new_id: Seq<char>,
    at: Seq<char>,
)
    requires
        old_id != new_id,
        alias_of(rows, new_id) is None,
    ensures
        resolved(with_alias(rows, old_id, new_id, at), old_id, 8) == new_id,
        resolved(with_alias(rows, old_id, new_id, at), new_id, 8) == new_id,
{
    let after = with_alias(rows, old_id, new_id, at);
    if alias_of(rows, old_id) is Some {
        lemma_alias_replaced(rows, after, old_id, new_id, new_id);
    } else {
        lemma_alias_added(rows, old_id, new_id, at, new_id);
    }
    reveal_with_fuel(resolved, 3);
}

/// Whether no device has two secrets.
pub open spec fn distinct_secrets(rows: Seq<SecretRowV>) -> bool {
    distinct_by(rows, |r: SecretRowV| r.device_id)
}

/// Whether no id was merged into two others.
pub open spec fn distinct_mergers(rows: Seq<AliasRowV>) -> bool {
    distinct_by(rows, |r: AliasRowV| r.old_id)
}

/// Setting and removing secrets keep one for each device.
pub proof fn law_one_secret_per_device(
    rows: Seq<SecretRowV>,
    id: Seq<char>,
    secret: Seq<char>,
    at: Seq<char>,
    ids: Seq<Seq<char>>,
)
    requires
        distinct_secrets(rows),
    ensures
        distinct_secrets(with_secret(rows, id, secret, at)),
        distinct_secrets(rows.filter(not_of(id))),
        distinct_secrets(rows.filter(not_of_any(ids))),
{
    let key = |r: SecretRowV| r.device_id;
    lemma_filter_keeps_keys(rows, not_of(id), key);
    lemma_filter_keeps_keys(rows, not_of_any(ids), key);
    let after = with_secret(rows, id, secret, at);
    if has_secret(rows, id) {
        assert forall|i: int, j: int|
            #![trigger after[i], after[j]]
            0 <= i < j < after.len() implies key(after[i]) != key(after[j]) by {
            assert(key(rows[i]) != key(rows[j]));
        }
    } else {
        lemma_push_keeps_keys(rows, SecretRowV { device_id: id, secret, updated_at: at }, key);
    }
}

proof fn lemma_alias_absent(rows: Seq<AliasRowV>, id: Seq<char>)
    requires
        alias_of(rows, id) is None,
    ensures
        forall|i: int| 0 <= i < rows.len() ==> (#[trigger] rows[i]).old_id != id,
    decreases rows.len(),
{
    if rows.len() > 0 {
        let rest = rows.drop_first();
        lemma_alias_absent(rest, id);
        assert forall|i: int| 0 <= i < rows.len() implies (#[trigger] rows[i]).old_id != id by {
            if i > 0 {
                assert(rest[i - 1].old_id != id);
            }
        }
    }
}

/// Noting and forgetting mergers keep one for each id.
pub proof fn law_one_merger_per_id(
    rows: Seq<AliasRowV>,
    old_id: Seq<char>,
    new_id: Seq<char>,
    at: Seq<char>,
    ids: Seq<Seq<char>>,
)
    requires
        distinct_mergers(rows),
    ensures
        distinct_mergers(with_alias(rows, old_id, new_id, at)),
        distinct_mergers(rows.filter(apart_from(ids))),
{
    let key = |r: AliasRowV| r.old_id;
    lemma_filter_keeps_keys(rows, apart_from(ids), key);
    let after = with_alias(rows, old_id, new_id, at);
    if alias_of(rows, old_id) is Some {
        assert forall|i: int, j: int|
            #![trigger after[i], after[j]]
            0 <= i < j < after.len() implies key(after[i]) != key(after[j]) by {
            assert(key(rows[i]) != key(rows[j]));
        }
    } else {
        lemma_alias_absent(rows, old_id);
        lemma_push_keeps_keys(rows, AliasRowV { old_id, new_id, merged_at: at }, key);
    }
}

proof fn lemma_alias_replaced(
    rows: Seq<AliasRowV>,
    after: Seq<AliasRowV>,
    old_id: Seq<char>,
    new_id: Seq<char>,
    other: Seq<char>,
)
    requires
        after.len() == rows.len(),
        forall|i: int|
            0 <= i < rows.len() ==> (#[trigger] after[i]).old_id == rows[i].old_id && (
            if rows[i].old_id == old_id {
                after[i].new_id == new_id
            } else {
                after[i] == rows[i]
            }),
    ensures
        alias_of(rows, old_id) is Some ==> alias_of(after, old_id) == Some(new_id),
        other != old_id ==> alias_of(after, other) == alias_of(rows, other),
    decreases rows.len(),
{
    if rows.len() > 0 {
        lemma_alias_replaced(rows.drop_first(), after.drop_first(), old_id, new_id, other);
        assert(after[0].old_id == rows[0].old_id);
    }
}

proof fn lemma_alias_added(
    rows: Seq<AliasRowV>,
    old_id: Seq<char>,
    new_id: Seq<char>,
    at: Seq<char>,
    other: Seq<char>,
)
    requires
        alias_of(rows, old_id) is None,
    ensures
        alias_of(rows.push(AliasRowV { old_id, new_id, merged_at: at }), old_id) == Some(new_id),
        other != old_id ==> alias_of(
            rows.push(AliasRowV { old_id, new_id, merged_at: at }),
            other,
        ) == alias_of(rows, other),
    decreases rows.len(),
{
    let added = AliasRowV { old_id, new_id, merged_at: at };
    if rows.len() > 0 {
        let rest = rows.drop_first();
        lemma_alias_added(rest, old_id, new_id, at, other);
        assert(rows.push(added).drop_first() =~= rest.push(added));
    } else {
        assert(rows.push(added).drop_first() =~= rows);
    }
}

/// An id that was merged into one that was merged itself resolves to the last of them.
pub proof fn law_mergers_are_followed(
    rows: Seq<AliasRowV>,
    a: Seq<char>,
    b: Seq<char>,
    c: Seq<char>,
    at: Seq<char>,
)
    requires
        a != b,
        b != c,
        a != c,
        alias_of(rows, c) is None,
    ensures
        resolved(with_alias(with_alias(rows, a, b, at), b, c, at), a, 8) == c,
        resolved(with_alias(with_alias(rows, b, c, at), a, b, at), a, 8) == c,
        alias_of(rows, a) is None ==> resolved(rows, a, 8) == a,
{
    law_merger_is_noted(rows, a, b, at, b);
    law_merger_is_noted(rows, a, b, at, c);
    let first = with_alias(rows, a, b, at);
    law_merger_is_noted(first, b, c, at, a);
    law_merger_is_noted(first, b, c, at, c);
    law_merger_is_noted(rows, b, c, at, c);
    law_merger_is_noted(rows, b, c, at, a);
    let second = with_alias(rows, b, c, at);
    law_merger_is_noted(second, a, b, at, b);
    law_merger_is_noted(second, a, b, at, c);
    reveal_with_fuel(resolved, 4);
}

/// A merger is noted for the merged id, and no other one changes.
pub proof fn law_merger_is_noted(
    rows: Seq<AliasRowV>,
    old_id: Seq<char>,
    new_id: Seq<char>,
    at: Seq<char>,
    other: Seq<char>,
)
    ensures
        alias_of(with_alias(rows, old_id, new_id, at), old_id) == Some(new_id),
        other != old_id ==> alias_of(with_alias(rows, old_id, new_id, at), other) == alias_of(
            rows,
            other,
        ),
{
    let after = with_alias(rows, old_id, new_id, at);
    if alias_of(rows, old_id) is Some {
        lemma_alias_replaced(rows, after, old_id, new_id, other);
    } else {
        lemma_alias_added(rows, old_id, new_id, at, other);
    }
}

/// Every device with which a usable secret is shared has a safety code among all, and that is
/// the one of this secret and of the two ids.
pub proof fn law_safety_codes_are_complete(
    rows: Seq<SecretRowV>,
    self_id: Seq<char>,
    n: nat,
    i: int,
)
    requires
        0 <= i < n <= rows.len(),
        fingerprint_text(rows[i].secret, self_id, rows[i].device_id) is Some,
    ensures
        safety_codes(rows, self_id, n).contains(
            (
                rows[i].device_id,
                fingerprint_text(rows[i].secret, self_id, rows[i].device_id)->0,
            ),
        ),
    decreases n,
{
    let x = (rows[i].device_id, fingerprint_text(rows[i].secret, self_id, rows[i].device_id)->0);
    let before = safety_codes(rows, self_id, (n - 1) as nat);
    let after = safety_codes(rows, self_id, n);
    if i == n - 1 {
        assert(after[before.len() as int] == x);
    } else {
        law_safety_codes_are_complete(rows, self_id, (n - 1) as nat, i);
        let k = choose|k: int| 0 <= k < before.len() && before[k] == x;
        assert(after[k] == x);
    }
}

/// Every safety code among all is that of a device with which its secret is shared.
pub proof fn law_safety_codes_are_of_secrets(
    rows: Seq<SecretRowV>,
    self_id: Seq<char>,
    n: nat,
    k: int,
) -> (i: int)
    requires
        n <= rows.len(),
        0 <= k < safety_codes(rows, self_id, n).len(),
    ensures
        0 <= i < n,
        safety_codes(rows, self_id, n)[k].0 == rows[i].device_id,
        fingerprint_text(rows[i].secret, self_id, rows[i].device_id) == Some(
            safety_codes(rows, self_id, n)[k].1,
        ),
    decreases n,
{
    let before = safety_codes(rows, self_id, (n - 1) as nat);
    if k < before.len() {
        law_safety_codes_are_of_secrets(rows, self_id, (n - 1) as nat, k)
    } else {
        n - 1
    }
}

/// The devices with a secret are those with one that is not empty.
pub proof fn law_filled_secrets(rows: Seq<SecretRowV>, r: SecretRowV)
    ensures
        rows.filter(filled()).contains(r) <==> rows.contains(r) && r.secret.len() > 0,
{
    let p = filled();
    if rows.contains(r) && p(r) {
        crate::storage::order::lemma_filter_keeps(rows, p, r);
    }
    if rows.filter(p).contains(r) {
        let k = choose|k: int| 0 <= k < rows.filter(p).len() && rows.filter(p)[k] == r;
        crate::storage::order::lemma_filter_member(rows, p, k);
    }
}

/// The devices with a secret that is not empty are told by their ids.
pub proof fn law_devices_with_secrets(rows: Seq<SecretRowV>, id: Seq<char>)
    ensures
        secret_ids(rows.filter(filled())).contains(id) <==> exists|i: int|
            0 <= i < rows.len() && (#[trigger] rows[i]).device_id == id && rows[i].secret.len() > 0,
{
    let kept = rows.filter(filled());
    if secret_ids(kept).contains(id) {
        let k = choose|k: int| 0 <= k < kept.len() && secret_ids(kept)[k] == id;
        crate::storage::order::lemma_filter_member(rows, filled(), k);
        let i = choose|i: int| 0 <= i < rows.len() && rows[i] == kept[k];
        assert(rows[i].device_id == id);
    }
    if exists|i: int|
        0 <= i < rows.len() && (#[trigger] rows[i]).device_id == id && rows[i].secret.len() > 0 {
        let i = choose|i: int|
            0 <= i < rows.len() && (#[trigger] rows[i]).device_id == id && rows[i].secret.len() > 0;
        crate::storage::order::lemma_filter_keeps(rows, filled(), rows[i]);
        let k = choose|k: int| 0 <= k < kept.len() && kept[k] == rows[i];
        assert(secret_ids(kept)[k] == id);
    }
}

/// A secret is stored with the time when it was set.
pub proof fn law_secret_is_timed(rows: Seq<SecretRowV>, id: Seq<char>, secret: Seq<char>, at: Seq<char>)
    ensures
        with_secret(rows, id, secret, at).contains(
            SecretRowV { device_id: id, secret, updated_at: at },
        ),
        forall|i: int|
            0 <= i < with_secret(rows, id, secret, at).len() && (#[trigger] with_secret(
                rows,
                id,
                secret,
                at,
            )[i]).device_id == id ==> with_secret(rows, id, secret, at)[i].updated_at == at,
{
    let after = with_secret(rows, id, secret, at);
    if has_secret(rows, id) {
        let i = choose|i: int| 0 <= i < rows.len() && (#[trigger] rows[i]).device_id == id;
        assert(after[i] == (SecretRowV { device_id: id, secret, updated_at: at }));
    } else {
        assert(after[rows.len() as int] == (SecretRowV { device_id: id, secret, updated_at: at }));
        assert forall|i: int| 0 <= i < after.len() && (#[trigger] after[i]).device_id == id implies
            after[i].updated_at == at by {
            if i < rows.len() {
                assert(rows[i].device_id == id);
            }
        }
    }
}

/// A merger is stored with the time when it was made.
pub proof fn law_merger_is_timed(rows: Seq<AliasRowV>, old_id: Seq<char>, new_id: Seq<char>, at: Seq<char>)
    ensures
        with_alias(rows, old_id, new_id, at).contains(AliasRowV { old_id, new_id, merged_at: at }),
{
    let after = with_alias(rows, old_id, new_id, at);
    let x = AliasRowV { old_id, new_id, merged_at: at };
    if alias_of(rows, old_id) is Some {
        lemma_alias_there(rows, old_id);
        let i = choose|i: int| 0 <= i < rows.len() && (#[trigger] rows[i]).old_id == old_id;
        assert(after[i] == x);
    } else {
        assert(after[rows.len() as int] == x);
    }
}

proof fn lemma_alias_there(rows: Seq<AliasRowV>, id: Seq<char>)
    requires
        alias_of(rows, id) is Some,
    ensures
        exists|i: int| 0 <= i < rows.len() && (#[trigger] rows[i]).old_id == id,
    decreases rows.len(),
{
    if rows[0].old_id != id {
        lemma_alias_there(rows.drop_first(), id);
        let rest = rows.drop_first();
        let i = choose|i: int| 0 <= i < rest.len() && (#[trigger] rest[i]).old_id == id;
        assert(rows[i + 1].old_id == id);
    }
}

} // verus!
