//! Pairing codes.

use vstd::prelude::*;

use crate::models::{lemma_views_push, views, PairCode, PairCodeV, Timestamp};
use crate::outside::{clock, in_calendar, rfc3339_parse, rfc3339_time};
use crate::storage::devices::{format_time, reads_back, time_text};
use crate::storage::order::{distinct_by, lemma_filter_ends, lemma_filter_keeps_keys, lemma_filter_step, lemma_push_keeps_keys};
use crate::storage::{CodeRow, CodeRowV, SyncDb, SyncDbV};
use crate::text::{le, same, text_le};

verus! {

/// The row of a pairing code.
pub open spec fn code_row(pc: PairCodeV) -> CodeRowV {
    CodeRowV {
        code: pc.code,
        created_at: time_text(pc.created_at),
        expires_at: time_text(pc.expires_at),
    }
}

/// The row with a code.
pub open spec fn find_code(rows: Seq<CodeRowV>, code: Seq<char>) -> Option<CodeRowV>
    decreases rows.len(),
{
    if rows.len() == 0 {
        None
    } else if rows[0].code == code {
        Some(rows[0])
    } else {
        find_code(rows.drop_first(), code)
    }
}

/// The codes after one is stored; an earlier one with the same text is replaced.
pub open spec fn with_code(rows: Seq<CodeRowV>, pc: PairCodeV) -> Seq<CodeRowV> {
    if find_code(rows, pc.code) is Some {
        Seq::new(
            rows.len(),
            |i: int|
                if rows[i].code == pc.code {
                    code_row(pc)
                } else {
                    rows[i]
                },
        )
    } else {
        rows.push(code_row(pc))
    }
}

/// Whether a code is known and has not expired. An expiry that cannot be read is never over.
pub open spec fn code_valid(rows: Seq<CodeRowV>, code: Seq<char>, now: Timestamp) -> bool {
    match find_code(rows, code) {
        Some(r) => match rfc3339_time(r.expires_at) {
            Some(t) => now.ns() < (Timestamp { secs: t.0, nanos: t.1 }).ns(),
            None => true,
        },
        None => false,
    }
}

/// The test for codes other than one.
pub open spec fn other_code(code: Seq<char>) -> spec_fn(CodeRowV) -> bool {
    |r: CodeRowV| r.code != code
}

/// The test for codes that expire after a time, given as a stored text.
pub open spec fn expires_after(at: Seq<char>) -> spec_fn(CodeRowV) -> bool {
    |r: CodeRowV| !text_le(r.expires_at, at)
}

impl SyncDb {
    fn code_position(&self, code: &str) -> (r: Option<usize>)
        ensures
            match r {
                Some(i) => i < self.codes.len() && find_code(self@.codes, code@) == Some(
                    self@.codes[i as int],
                ),
                None => find_code(self@.codes, code@) is None,
            },
    {
        let ghost rows = self@.codes;
        let mut i: usize = 0;
        assert(rows.skip(0) =~= rows);
        while i < self.codes.len()
            invariant
                i <= self.codes.len(),
                rows == views(self.codes@),
                find_code(rows, code@) == find_code(rows.skip(i as int), code@),
            decreases self.codes.len() - i,
        {
            assert(rows.skip(i as int)[0] == self.codes@[i as int]@);
            assert(rows.skip(i as int).drop_first() =~= rows.skip(i + 1));
            if same(self.codes[i].code.as_str(), code) {
                return Some(i);
            }
            i = i + 1;
        }
        None
    }

    /// Stores a pairing code, which is valid until it expires.
    pub fn store_pair_code(&mut self, pc: &PairCode)
        ensures
            final(self)@ == (SyncDbV { codes: with_code(old(self)@.codes, pc@), ..old(self)@ }),
            in_calendar(pc.expires_at) ==> forall|now: Timestamp| #[trigger]
                code_valid(final(self)@.codes, pc@.code, now) == (now.ns() < pc.expires_at.ns()),
    {
        proof {
            law_stored_code_is_found(self@.codes, pc@, pc@.code);
        }
        let created_at: String = format_time(&pc.created_at);
        let expires_at: String = format_time(&pc.expires_at);
        let known: bool = self.code_position(pc.code.as_str()).is_some();
        if known {
            let ghost before = self@.codes;
            let ghost target = with_code(before, pc@);
            let mut rows: Vec<CodeRow> = Vec::new();
            let mut out: Vec<CodeRow> = Vec::new();
            std::mem::swap(&mut rows, &mut self.codes);
            let ghost list = rows@;
            for row in it: rows
                invariant
                    it.seq() == list,
                    before == views(list),
                    find_code(before, pc@.code) is Some,
                    target == with_code(before, pc@),
                    created_at@ == time_text(pc.created_at),
                    expires_at@ == time_text(pc.expires_at),
                    views(out@) == target.take(it.index()),
            {
                let ghost i = it.index();
                assert(row@ == before[i]);
                let next: CodeRow = if same(row.code.as_str(), pc.code.as_str()) {
                    CodeRow {
                        code: row.code,
                        created_at: created_at.clone(),
                        expires_at: expires_at.clone(),
                    }
                } else {
                    row
                };
                proof {
                    lemma_views_push(out@, next);
                    assert(next@ == target[i]);
                    assert(target.take(i + 1) =~= target.take(i).push(next@));
                }
                out.push(next);
            }
            assert(target.take(before.len() as int) =~= target);
            self.codes = out;
        } else {
            let row: CodeRow = CodeRow {
                code: pc.code.clone(),
                created_at,
                expires_at,
            };
            proof {
                lemma_views_push(self.codes@, row);
            }
            self.codes.push(row);
        }
    }

    /// Whether a code is known and has not expired at a time.
    pub fn validate_pair_code_at(&self, code: &str, now: &Timestamp) -> (r: bool)
        ensures
            r == code_valid(self@.codes, code@, *now),
    {
        match self.code_position(code) {
            Some(i) => {
                match rfc3339_parse(self.codes[i].expires_at.as_str()) {
                    Some(expires) => !expires.no_later_than(now),
                    None => true,
                }
            },
            None => false,
        }
    }

    /// Whether a code is known and has not expired.
    pub fn validate_pair_code(&self, code: &str) -> (r: bool)
        ensures
            exists|now: Timestamp| r == #[trigger] code_valid(self@.codes, code@, now),
    {
        let now: Timestamp = clock();
        self.validate_pair_code_at(code, &now)
    }

    /// Removes a code.
    pub fn delete_pair_code(&mut self, code: &str)
        ensures
            final(self)@ == (SyncDbV {
                codes: old(self)@.codes.filter(other_code(code@)),
                ..old(self)@
            }),
    {
        let ghost before = self@.codes;
        let ghost p = other_code(code@);
        let mut rows: Vec<CodeRow> = Vec::new();
        let mut out: Vec<CodeRow> = Vec::new();
        std::mem::swap(&mut rows, &mut self.codes);
        let ghost list = rows@;
        proof {
            lemma_filter_ends(before, p);
        }
        assert(views(out@) =~= before.take(0).filter(p));
        for row in it: rows
            invariant
                it.seq() == list,
                before == views(list),
                p == other_code(code@),
                views(out@) == before.take(it.index()).filter(p),
        {
            proof {
                assert(row@ == before[it.index()]);
                lemma_filter_step(before, it.index(), p);
                lemma_views_push(out@, row);
            }
            if !same(row.code.as_str(), code) {
                out.push(row);
            }
        }
        proof {
            lemma_filter_ends(before, p);
        }
        self.codes = out;
    }

    /// Removes the codes that have expired at a time.
    pub fn cleanup_expired_codes_at(&mut self, now: &Timestamp)
        ensures
            final(self)@ == (SyncDbV {
                codes: old(self)@.codes.filter(expires_after(time_text(*now))),
                ..old(self)@
            }),
    {
        let at: String = format_time(now);
        let ghost before = self@.codes;
        let ghost p = expires_after(at@);
        let mut rows: Vec<CodeRow> = Vec::new();
        let mut out: Vec<CodeRow> = Vec::new();
        std::mem::swap(&mut rows, &mut self.codes);
        let ghost list = rows@;
        proof {
            lemma_filter_ends(before, p);
        }
        assert(views(out@) =~= before.take(0).filter(p));
        for row in it: rows
            invariant
                it.seq() == list,
                before == views(list),
                p == expires_after(at@),
                views(out@) == before.take(it.index()).filter(p),
        {
            proof {
                assert(row@ == before[it.index()]);
                lemma_filter_step(before, it.index(), p);
                lemma_views_push(out@, row);
            }
            if !le(row.expires_at.as_str(), at.as_str()) {
                out.push(row);
            }
        }
        proof {
            lemma_filter_ends(before, p);
        }
        self.codes = out;
    }

    /// Removes the codes that have expired.
    pub fn cleanup_expired_codes(&mut self)
        ensures
            exists|now: Timestamp|
                final(self)@ == (SyncDbV {
                    codes: old(self)@.codes.filter(expires_after(#[trigger] time_text(now))),
                    ..old(self)@
                }),
    {
        let now: Timestamp = clock();
        self.cleanup_expired_codes_at(&now);
    }
}

// ---- laws ----

/// A code that was removed is not valid, at any time; the others are as valid as before.
pub proof fn law_removed_code_is_invalid(
    rows: Seq<CodeRowV>,
    code: Seq<char>,
    other: Seq<char>,
    now: Timestamp,
)
    ensures
        !code_valid(rows.filter(other_code(code)), code, now),
        other != code ==> code_valid(rows.filter(other_code(code)), other, now) == code_valid(
            rows,
            other,
            now,
        ),
{
    lemma_code_removed(rows, code, other);
}

/// Whether no code occurs twice.
pub open spec fn distinct_codes(rows: Seq<CodeRowV>) -> bool {
    distinct_by(rows, |r: CodeRowV| r.code)
}

/// Storing and removing codes keep one row for each.
pub proof fn law_one_row_per_code(
    rows: Seq<CodeRowV>,
    pc: PairCodeV,
    code: Seq<char>,
    at: Seq<char>,
)
    requires
        distinct_codes(rows),
    ensures
        distinct_codes(with_code(rows, pc)),
        distinct_codes(rows.filter(other_code(code))),
        distinct_codes(rows.filter(expires_after(at))),
{
    let key = |r: CodeRowV| r.code;
    lemma_filter_keeps_keys(rows, other_code(code), key);
    lemma_filter_keeps_keys(rows, expires_after(at), key);
    let after = with_code(rows, pc);
    if find_code(rows, pc.code) is Some {
        assert forall|i: int, j: int|
            #![trigger after[i], after[j]]
            0 <= i < j < after.len() implies key(after[i]) != key(after[j]) by {
            assert(key(rows[i]) != key(rows[j]));
        }
    } else {
        lemma_code_absent(rows, pc.code);
        lemma_push_keeps_keys(rows, code_row(pc), key);
    }
}

proof fn lemma_code_absent(rows: Seq<CodeRowV>, code: Seq<char>)
    requires
        find_code(rows, code) is None,
    ensures
        forall|i: int| 0 <= i < rows.len() ==> (#[trigger] rows[i]).code != code,
    decreases rows.len(),
{
    if rows.len() > 0 {
        let rest = rows.drop_first();
        lemma_code_absent(rest, code);
        assert forall|i: int| 0 <= i < rows.len() implies (#[trigger] rows[i]).code != code by {
            if i > 0 {
                assert(rest[i - 1].code != code);
            }
        }
    }
}

/// A code that was stored is valid until it expires and not after, where its expiry reads back.
pub proof fn law_stored_code_expires(rows: Seq<CodeRowV>, pc: PairCodeV, now: Timestamp)
    requires
        reads_back(pc.expires_at),
    ensures
        code_valid(with_code(rows, pc), pc.code, now) == (now.ns() < pc.expires_at.ns()),
{
    law_stored_code_is_found(rows, pc, pc.code);
}

proof fn lemma_code_removed(rows: Seq<CodeRowV>, code: Seq<char>, other: Seq<char>)
    ensures
        find_code(rows.filter(other_code(code)), code) is None,
        other != code ==> find_code(rows.filter(other_code(code)), other) == find_code(rows, other),
    decreases rows.len(),
{
    reveal(Seq::filter);
    if rows.len() > 0 {
        let rest = rows.drop_last();
        lemma_code_removed(rest, code, other);
        lemma_code_last(rest, rows.last(), other);
        lemma_code_last(rest.filter(other_code(code)), rows.last(), other);
        lemma_code_last(rest.filter(other_code(code)), rows.last(), code);
        assert(rows =~= rest.push(rows.last()));
    }
}

proof fn lemma_code_last(rows: Seq<CodeRowV>, last: CodeRowV, code: Seq<char>)
    ensures
        find_code(rows.push(last), code) == (if find_code(rows, code) is Some {
            find_code(rows, code)
        } else if last.code == code {
            Some(last)
        } else {
            None
        }),
    decreases rows.len(),
{
    if rows.len() > 0 {
        assert(rows.push(last).drop_first() =~= rows.drop_first().push(last));
        lemma_code_last(rows.drop_first(), last, code);
    } else {
        assert(rows.push(last).drop_first() =~= rows);
    }
}

/// A code that was stored is found as it was stored, and no other code changes.
pub proof fn law_stored_code_is_found(rows: Seq<CodeRowV>, pc: PairCodeV, other: Seq<char>)
    ensures
        find_code(with_code(rows, pc), pc.code) == Some(code_row(pc)),
        other != pc.code ==> find_code(with_code(rows, pc), other) == find_code(rows, other),
{
    if find_code(rows, pc.code) is Some {
        lemma_code_replaced(rows, with_code(rows, pc), pc, other);
    } else {
        lemma_code_last(rows, code_row(pc), pc.code);
        lemma_code_last(rows, code_row(pc), other);
    }
}

proof fn lemma_code_replaced(
    rows: Seq<CodeRowV>,
    after: Seq<CodeRowV>,
    pc: PairCodeV,
    other: Seq<char>,
)
    requires
        after.len() == rows.len(),
        forall|i: int|
            0 <= i < rows.len() ==> #[trigger] after[i] == (if rows[i].code == pc.code {
                code_row(pc)
            } else {
                rows[i]
            }),
    ensures
        find_code(rows, pc.code) is Some ==> find_code(after, pc.code) == Some(code_row(pc)),
        other != pc.code ==> find_code(after, other) == find_code(rows, other),
    decreases rows.len(),
{
    if rows.len() > 0 {
        lemma_code_replaced(rows.drop_first(), after.drop_first(), pc, other);
        assert(after[0].code == rows[0].code);
    }
}

/// A code is stored with its times as they are written.
pub proof fn law_stored_code_keeps_its_times(rows: Seq<CodeRowV>, pc: PairCodeV)
    ensures
        find_code(with_code(rows, pc), pc.code) matches Some(r) && r.code == pc.code && r.created_at
            == time_text(pc.created_at) && r.expires_at == time_text(pc.expires_at),
{
    law_stored_code_is_found(rows, pc, pc.code);
}

/// A code that is not known is never valid, and one that is known is valid up to its expiry.
pub proof fn law_validity_of_codes(rows: Seq<CodeRowV>, code: Seq<char>, now: Timestamp)
    ensures
        find_code(rows, code) is None ==> !code_valid(rows, code, now),
        find_code(rows, code) matches Some(r) ==> forall|t: Timestamp|
            reads_back(t) && r.expires_at == #[trigger] time_text(t) ==> (code_valid(rows, code, now)
                <==> now.ns() < t.ns()),
{
}

/// The codes that are kept when expired ones are removed are those that expire after the time.
pub proof fn law_expired_codes_are_removed(rows: Seq<CodeRowV>, at: Seq<char>, r: CodeRowV)
    ensures
        rows.filter(expires_after(at)).contains(r) <==> rows.contains(r) && crate::text::text_lt(
            at,
            r.expires_at,
        ),
{
    let p = expires_after(at);
    if rows.contains(r) && p(r) {
        crate::storage::order::lemma_filter_keeps(rows, p, r);
    }
    if rows.filter(p).contains(r) {
        let k = choose|k: int| 0 <= k < rows.filter(p).len() && rows.filter(p)[k] == r;
        crate::storage::order::lemma_filter_member(rows, p, k);
    }
}

/// A code whose expiry cannot be read does not expire.
pub proof fn law_unreadable_expiry_is_never_over(
    rows: Seq<CodeRowV>,
    code: Seq<char>,
    now: Timestamp,
)
    requires
        find_code(rows, code) matches Some(r) && rfc3339_time(r.expires_at) is None,
    ensures
        code_valid(rows, code, now),
{
}

} // verus!
