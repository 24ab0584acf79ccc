//! Selecting and ordering rows.

use vstd::prelude::*;

use crate::models::views;
use crate::text::{le, lemma_text_le_antisymmetric, lemma_text_le_total, lemma_text_le_transitive, same, text_le, text_lt};

verus! {

/// Selecting from one more element.
pub proof fn lemma_filter_step<T>(s: Seq<T>, i: int, p: spec_fn(T) -> bool)
    requires
        0 <= i < s.len(),
    ensures
        s.take(i + 1).filter(p) == (if p(s[i]) {
            s.take(i).filter(p).push(s[i])
        } else {
            s.take(i).filter(p)
        }),
{
    assert(s.take(i + 1) =~= s.take(i).push(s[i]));
    s.take(i).lemma_filter_push(s[i], p);
}

/// Selecting from nothing, and from everything.
pub proof fn lemma_filter_ends<T>(s: Seq<T>, p: spec_fn(T) -> bool)
    ensures
        s.take(0).filter(p) == Seq::<T>::empty(),
        s.take(s.len() as int) == s,
{
    reveal(Seq::filter);
    assert(s.take(0).filter(p) =~= Seq::<T>::empty());
    assert(s.take(s.len() as int) =~= s);
}

/// What is selected is there and meets the condition.
pub proof fn lemma_filter_member<T>(s: Seq<T>, p: spec_fn(T) -> bool, k: int)
    requires
        0 <= k < s.filter(p).len(),
    ensures
        p(s.filter(p)[k]),
        s.contains(s.filter(p)[k]),
    decreases s.len(),
{
    reveal(Seq::filter);
    let rest = s.drop_last();
    if k < rest.filter(p).len() {
        lemma_filter_member(rest, p, k);
        let x = rest.filter(p)[k];
        let j = choose|j: int| 0 <= j < rest.len() && rest[j] == x;
        assert(s[j] == x);
        assert(s.filter(p)[k] == x);
    } else {
        assert(s[s.len() - 1] == s.last());
    }
}

/// Whether no key occurs twice.
pub open spec fn distinct_by<T>(rows: Seq<T>, key: spec_fn(T) -> Seq<char>) -> bool {
    forall|i: int, j: int|
        #![trigger rows[i], rows[j]]
        0 <= i < j < rows.len() ==> key(rows[i]) != key(rows[j])
}

/// Selecting keeps keys distinct.
pub proof fn lemma_filter_keeps_keys<T>(
    rows: Seq<T>,
    p: spec_fn(T) -> bool,
    key: spec_fn(T) -> Seq<char>,
)
    requires
        distinct_by(rows, key),
    ensures
        distinct_by(rows.filter(p), key),
    decreases rows.len(),
{
    reveal(Seq::filter);
    if rows.len() > 0 {
        let rest = rows.drop_last();
        assert forall|i: int, j: int|
            #![trigger rest[i], rest[j]]
            0 <= i < j < rest.len() implies key(rest[i]) != key(rest[j]) by {
            assert(rest[i] == rows[i] && rest[j] == rows[j]);
        }
        lemma_filter_keeps_keys(rest, p, key);
        if p(rows.last()) {
            let kept = rest.filter(p);
            assert(rows.filter(p) =~= kept.push(rows.last()));
            assert forall|i: int| 0 <= i < kept.len() implies key(#[trigger] kept[i]) != key(
                rows.last(),
            ) by {
                lemma_filter_member(rest, p, i);
                let k = choose|k: int| 0 <= k < rest.len() && rest[k] == kept[i];
                assert(rows[k] == kept[i]);
                assert(rows[rows.len() - 1] == rows.last());
            }
            lemma_push_keeps_keys(kept, rows.last(), key);
        }
    }
}

/// A row with a new key keeps keys distinct.
pub proof fn lemma_push_keeps_keys<T>(rows: Seq<T>, row: T, key: spec_fn(T) -> Seq<char>)
    requires
        distinct_by(rows, key),
        forall|i: int| 0 <= i < rows.len() ==> key(#[trigger] rows[i]) != key(row),
    ensures
        distinct_by(rows.push(row), key),
{
    let after = rows.push(row);
    assert forall|i: int, j: int|
        #![trigger after[i], after[j]]
        0 <= i < j < after.len() implies key(after[i]) != key(after[j]) by {
        assert(after[i] == rows[i]);
        if j < rows.len() {
            assert(after[j] == rows[j]);
        }
    }
}

/// No more is selected than there is.
pub proof fn lemma_filter_len<T>(s: Seq<T>, p: spec_fn(T) -> bool)
    ensures
        s.filter(p).len() <= s.len(),
    decreases s.len(),
{
    reveal(Seq::filter);
    if s.len() > 0 {
        lemma_filter_len(s.drop_last(), p);
    }
}

/// What is there and meets the condition is selected.
pub proof fn lemma_filter_keeps<T>(s: Seq<T>, p: spec_fn(T) -> bool, x: T)
    requires
        s.contains(x),
        p(x),
    ensures
        s.filter(p).contains(x),
    decreases s.len(),
{
    reveal(Seq::filter);
    let rest = s.drop_last();
    let i = choose|i: int| 0 <= i < s.len() && s[i] == x;
    if i == s.len() - 1 {
        assert(s.filter(p)[s.filter(p).len() - 1] == x);
    } else {
        assert(rest[i] == x);
        lemma_filter_keeps(rest, p, x);
        let k = choose|k: int| 0 <= k < rest.filter(p).len() && rest.filter(p)[k] == x;
        assert(s.filter(p)[k] == x);
    }
}

/// Whether a list of texts holds a text.
pub fn holds(list: &Vec<String>, s: &str) -> (r: bool)
    ensures
        r == views(list@).contains(s@),
{
    let mut i: usize = 0;
    while i < list.len()
        invariant
            i <= list.len(),
            forall|j: int| 0 <= j < i ==> views(list@)[j] != s@,
        decreases list.len() - i,
    {
        if same(list[i].as_str(), s) {
            assert(views(list@)[i as int] == s@);
            return true;
        }
        i = i + 1;
    }
    false
}

// ---- newest first ----

/// Where among positions that are ordered by their keys, greatest first, the position `x`
/// goes: behind those whose key is not less.
pub open spec fn place(order: Seq<int>, keys: Seq<Seq<char>>, x: int) -> int
    decreases order.len(),
{
    if order.len() == 0 {
        0
    } else if text_le(keys[x], keys[order[0]]) {
        1 + place(order.drop_first(), keys, x)
    } else {
        0
    }
}

/// The first `n` positions, ordered by their keys, greatest first; equal keys keep their
/// order.
pub open spec fn newest_first_upto(keys: Seq<Seq<char>>, n: nat) -> Seq<int>
    decreases n,
{
    if n == 0 {
        Seq::empty()
    } else {
        let before = newest_first_upto(keys, (n - 1) as nat);
        before.insert(place(before, keys, n - 1), n - 1)
    }
}

/// All positions, ordered by their keys, greatest first; equal keys keep their order.
pub open spec fn newest_first(keys: Seq<Seq<char>>) -> Seq<int> {
    newest_first_upto(keys, keys.len())
}

pub proof fn lemma_place_bounds(order: Seq<int>, keys: Seq<Seq<char>>, x: int)
    ensures
        0 <= place(order, keys, x) <= order.len(),
    decreases order.len(),
{
    if order.len() > 0 {
        lemma_place_bounds(order.drop_first(), keys, x);
    }
}

/// The positions of an order are positions of keys, as many as there are.
pub proof fn lemma_newest_first_positions(keys: Seq<Seq<char>>, n: nat)
    ensures
        newest_first_upto(keys, n).len() == n,
        forall|k: int| 0 <= k < n ==> 0 <= #[trigger] newest_first_upto(keys, n)[k] < n,
    decreases n,
{
    if n > 0 {
        let before = newest_first_upto(keys, (n - 1) as nat);
        lemma_newest_first_positions(keys, (n - 1) as nat);
        lemma_place_bounds(before, keys, n - 1);
    }
}

/// The positions as integers.
pub open spec fn ints(list: Seq<usize>) -> Seq<int> {
    Seq::new(list.len(), |i: int| list[i] as int)
}

fn find_place(order: &Vec<usize>, keys: &Vec<String>, x: usize) -> (r: usize)
    requires
        x < keys.len(),
        forall|k: int| 0 <= k < order.len() ==> #[trigger] order@[k] < keys.len(),
    ensures
        r == place(ints(order@), views(keys@), x as int),
        r <= order.len(),
{
    let mut i: usize = 0;
    let ghost o = ints(order@);
    assert(o.skip(0) =~= o);
    while i < order.len()
        invariant
            i <= order.len(),
            x < keys.len(),
            o == ints(order@),
            forall|k: int| 0 <= k < order.len() ==> #[trigger] order@[k] < keys.len(),
            place(o, views(keys@), x as int) == i + place(o.skip(i as int), views(keys@), x as int),
        decreases order.len() - i,
    {
        let ghost rest = o.skip(i as int);
        assert(rest[0] == order@[i as int]);
        assert(rest.drop_first() =~= o.skip(i + 1));
        if !le(keys[x].as_str(), keys[order[i]].as_str()) {
            return i;
        }
        i = i + 1;
    }
    i
}

/// The positions of keys, ordered by the keys, greatest first.
pub fn order_newest_first(keys: &Vec<String>) -> (r: Vec<usize>)
    ensures
        ints(r@) == newest_first(views(keys@)),
        r.len() == keys.len(),
        forall|k: int| 0 <= k < r.len() ==> #[trigger] r@[k] < keys.len(),
{
    let mut order: Vec<usize> = Vec::new();
    let mut n: usize = 0;
    let ghost ks = views(keys@);
    assert(ints(order@) =~= newest_first_upto(ks, 0));
    while n < keys.len()
        invariant
            n <= keys.len(),
            ks == views(keys@),
            order.len() == n,
            ints(order@) == newest_first_upto(ks, n as nat),
            forall|k: int| 0 <= k < order.len() ==> #[trigger] order@[k] < n,
        decreases keys.len() - n,
    {
        let ghost before = order@;
        let at: usize = find_place(&order, keys, n);
        order.insert(at, n);
        proof {
            assert(ints(order@) =~= ints(before).insert(at as int, n as int));
            assert(newest_first_upto(ks, (n + 1) as nat) == newest_first_upto(ks, n as nat).insert(
                place(newest_first_upto(ks, n as nat), ks, n as int),
                n as int,
            ));
        }
        n = n + 1;
    }
    order
}

proof fn lemma_place(order: Seq<int>, keys: Seq<Seq<char>>, x: int)
    ensures
        0 <= place(order, keys, x) <= order.len(),
        forall|k: int|
            0 <= k < place(order, keys, x) ==> text_le(keys[x], keys[#[trigger] order[k]]),
        place(order, keys, x) < order.len() ==> !text_le(
            keys[x],
            keys[order[place(order, keys, x)]],
        ),
    decreases order.len(),
{
    if order.len() > 0 {
        let rest = order.drop_first();
        lemma_place(rest, keys, x);
        if text_le(keys[x], keys[order[0]]) {
            assert forall|k: int| 0 <= k < place(order, keys, x) implies text_le(
                keys[x],
                keys[#[trigger] order[k]],
            ) by {
                if k > 0 {
                    assert(order[k] == rest[k - 1]);
                }
            }
            let p = place(rest, keys, x);
            if p < rest.len() {
                assert(order[p + 1] == rest[p]);
            }
        }
    }
}

/// Whether positions are ordered by their keys, greatest first, and equal keys in the order
/// of the positions.
pub open spec fn ordered(order: Seq<int>, keys: Seq<Seq<char>>) -> bool {
    forall|a: int, b: int|
        0 <= a < b < order.len() ==> in_order(keys, #[trigger] order[a], #[trigger] order[b])
}

/// Whether position `i` goes before position `j`.
pub open spec fn in_order(keys: Seq<Seq<char>>, i: int, j: int) -> bool {
    text_lt(keys[j], keys[i]) || (keys[i] == keys[j] && i < j)
}

proof fn lemma_newest_first_ordered(keys: Seq<Seq<char>>, n: nat)
    ensures
        ordered(newest_first_upto(keys, n), keys),
        forall|i: int| 0 <= i < n ==> #[trigger] newest_first_upto(keys, n).contains(i),
    decreases n,
{
    if n > 0 {
        let x = n - 1;
        let before = newest_first_upto(keys, x as nat);
        lemma_newest_first_ordered(keys, x as nat);
        lemma_newest_first_positions(keys, x as nat);
        lemma_place(before, keys, x);
        let p = place(before, keys, x);
        let after = before.insert(p, x);
        assert forall|a: int, b: int| 0 <= a < b < after.len() implies in_order(
            keys,
            #[trigger] after[a],
            #[trigger] after[b],
        ) by {
            let i = after[a];
            let j = after[b];
            if b == p {
                assert(i == before[a]);
                lemma_text_le_total(keys[x], keys[i]);
                if text_le(keys[i], keys[x]) {
                    lemma_text_le_antisymmetric(keys[i], keys[x]);
                }
            } else if a == p {
                assert(j == before[b - 1]);
                let first = before[p];
                lemma_text_le_total(keys[x], keys[first]);
                if b - 1 > p {
                    assert(in_order(keys, first, j));
                    lemma_text_le_total(keys[first], keys[j]);
                    if text_le(keys[x], keys[j]) {
                        lemma_text_le_transitive(keys[x], keys[j], keys[first]);
                    }
                }
            } else {
                let a2 = if a < p { a } else { a - 1 };
                let b2 = if b < p { b } else { b - 1 };
                assert(i == before[a2] && j == before[b2]);
            }
        }
        assert forall|i: int| 0 <= i < n implies #[trigger] after.contains(i) by {
            if i == x {
                assert(after[p] == x);
            } else {
                assert(before.contains(i));
                let k = choose|k: int| 0 <= k < before.len() && before[k] == i;
                if k < p {
                    assert(after[k] == i);
                } else {
                    assert(after[k + 1] == i);
                }
            }
        }
    }
}

/// Ordering keeps every position once and puts the greatest key first; what is equal stays
/// in its order.
pub proof fn law_newest_first(keys: Seq<Seq<char>>)
    ensures
        newest_first(keys).len() == keys.len(),
        ordered(newest_first(keys), keys),
        forall|i: int| 0 <= i < keys.len() ==> #[trigger] newest_first(keys).contains(i),
        forall|k: int| 0 <= k < keys.len() ==> 0 <= #[trigger] newest_first(keys)[k] < keys.len(),
{
    lemma_newest_first_positions(keys, keys.len());
    lemma_newest_first_ordered(keys, keys.len());
}

} // verus!
