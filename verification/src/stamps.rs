//! Tables from texts to small values, such as the time at which something was last seen.

use vstd::prelude::*;

use crate::text::same;

verus! {

/// Texts with a value that goes with each.
pub struct Table<T: Copy> {
    entries: Vec<(String, T)>,
}

/// Texts with the time, in seconds or milliseconds, that goes with each.
pub type Stamps = Table<i64>;

/// The table that a list of entries stands for.
spec fn table_of<T>(entries: Seq<(String, T)>) -> Map<Seq<char>, T>
    decreases entries.len(),
{
    if entries.len() == 0 {
        Map::empty()
    } else {
        table_of(entries.drop_last()).insert(entries.last().0@, entries.last().1)
    }
}

spec fn distinct<T>(entries: Seq<(String, T)>) -> bool {
    forall|i: int, j: int|
        0 <= i < j < entries.len() ==> #[trigger] entries[i].0@ != #[trigger] entries[j].0@
}

proof fn lemma_table<T>(entries: Seq<(String, T)>)
    requires
        distinct(entries),
    ensures
        table_of(entries).dom().finite(),
        table_of(entries).dom().len() == entries.len(),
        forall|i: int|
            0 <= i < entries.len() ==> table_of(entries).contains_pair(
                (#[trigger] entries[i]).0@,
                entries[i].1,
            ),
        forall|k: Seq<char>| #[trigger]
            table_of(entries).contains_key(k) ==> exists|i: int|
                0 <= i < entries.len() && (#[trigger] entries[i]).0@ == k,
    decreases entries.len(),
{
    if entries.len() > 0 {
        let rest = entries.drop_last();
        lemma_table(rest);
        assert(!table_of(rest).contains_key(entries.last().0@));
        assert forall|i: int| 0 <= i < entries.len() implies table_of(entries).contains_pair(
            (#[trigger] entries[i]).0@,
            entries[i].1,
        ) by {
            if i < entries.len() - 1 {
                assert(rest[i] == entries[i]);
                assert(entries[i].0@ != entries[entries.len() - 1].0@);
            }
        }
        assert forall|k: Seq<char>| #[trigger] table_of(entries).contains_key(k) implies exists|
            i: int,
        |
            0 <= i < entries.len() && (#[trigger] entries[i]).0@ == k by {
            if k == entries.last().0@ {
                assert(entries[entries.len() - 1].0@ == k);
            } else {
                assert(table_of(rest).contains_key(k));
                let i = choose|i: int| 0 <= i < rest.len() && (#[trigger] rest[i]).0@ == k;
                assert(entries[i].0@ == k);
            }
        }
    }
}

/// What is left of a table without the entries that are more than `age` older than `now`.
pub open spec fn within_age(table: Map<Seq<char>, i64>, now: int, age: int) -> Map<Seq<char>, i64> {
    Map::new(|k: Seq<char>| table.contains_key(k) && now - table[k] <= age, |k: Seq<char>| table[k])
}

impl<T: Copy> View for Table<T> {
    type V = Map<Seq<char>, T>;

    closed spec fn view(&self) -> Map<Seq<char>, T> {
        table_of(self.entries@)
    }
}

impl<T: Copy> Table<T> {
    #[verifier::type_invariant]
    spec fn well_formed(self) -> bool {
        distinct(self.entries@)
    }

    /// An empty table.
    pub fn new() -> (r: Table<T>)
        ensures
            r@ == Map::<Seq<char>, T>::empty(),
    {
        Table { entries: Vec::new() }
    }

    /// The number of entries.
    pub fn len(&self) -> (n: usize)
        ensures
            n == self@.dom().len(),
            self@.dom().finite(),
    {
        proof {
            use_type_invariant(self);
            lemma_table(self.entries@);
        }
        self.entries.len()
    }

    /// The value that goes with `key`.
    pub fn get(&self, key: &str) -> (r: Option<T>)
        ensures
            r == (if self@.contains_key(key@) {
                Some(self@[key@])
            } else {
                None
            }),
    {
        proof {
            use_type_invariant(self);
            lemma_table(self.entries@);
        }
        let mut i: usize = 0;
        while i < self.entries.len()
            invariant
                i <= self.entries.len(),
                forall|j: int| 0 <= j < i ==> (#[trigger] self.entries@[j]).0@ != key@,
                forall|j: int|
                    0 <= j < self.entries.len() ==> table_of(self.entries@).contains_pair(
                        (#[trigger] self.entries@[j]).0@,
                        self.entries@[j].1,
                    ),
            decreases self.entries.len() - i,
        {
            if same(self.entries[i].0.as_str(), key) {
                return Some(self.entries[i].1);
            }
            i = i + 1;
        }
        None
    }

    /// Sets the value that goes with `key`.
    pub fn insert(&mut self, key: &str, at: T)
        ensures
            final(self)@ == old(self)@.insert(key@, at),
    {
        proof {
            use_type_invariant(&*self);
        }
        let mut entries: Vec<(String, T)> = Vec::new();
        let mut kept: Vec<(String, T)> = Vec::new();
        std::mem::swap(&mut entries, &mut self.entries);
        let ghost before = entries@;
        let ghost n = before.len();
        let mut done: bool = false;
        assert(before.take(0) =~= Seq::empty());
        for e in it: entries
            invariant
                it.seq() == before,
                distinct(before),
                kept@.len() == it.index(),
                distinct(kept@),
                forall|j: int| 0 <= j < it.index() ==> (#[trigger] kept@[j]).0@ == before[j].0@,
                table_of(kept@) == (if done {
                    table_of(before.take(it.index())).insert(key@, at)
                } else {
                    table_of(before.take(it.index()))
                }),
                done <==> exists|j: int|
                    0 <= j < it.index() && (#[trigger] before[j]).0@ == key@,
        {
            let ghost i = it.index();
            let ghost kept_before = kept@;
            assert(e == before[i]);
            assert(before.take(i + 1).drop_last() =~= before.take(i));
            let hit: bool = same(e.0.as_str(), key);
            if hit {
                done = true;
                kept.push((e.0, at));
            } else {
                kept.push(e);
            }
            proof {
                assert(kept@.drop_last() =~= kept_before);
                assert(distinct(kept@));
                assert(before[i].0@ == key@ <==> hit);
                let t = table_of(before.take(i));
                if hit {
                    assert(t.insert(key@, before[i].1).insert(key@, at) =~= t.insert(key@, at));
                } else {
                    let k = before[i].0@;
                    let v = before[i].1;
                    assert(t.insert(key@, at).insert(k, v) =~= t.insert(k, v).insert(key@, at));
                }
            }
        }
        assert(before.take(n as int) =~= before);
        if !done {
            let ghost kept_before = kept@;
            kept.push((key.to_string(), at));
            assert(kept@.drop_last() =~= kept_before);
        }
        self.entries = kept;
    }

    /// Drops the entry for `key`, if there is one.
    pub fn remove(&mut self, key: &str)
        ensures
            final(self)@ == old(self)@.remove(key@),
    {
        proof {
            use_type_invariant(&*self);
        }
        let mut entries: Vec<(String, T)> = Vec::new();
        let mut kept: Vec<(String, T)> = Vec::new();
        std::mem::swap(&mut entries, &mut self.entries);
        let ghost before = entries@;
        assert(before.take(0) =~= Seq::empty());
        assert(table_of(before.take(0)).remove(key@) =~= Map::empty());
        for e in it: entries
            invariant
                it.seq() == before,
                distinct(before),
                distinct(kept@),
                forall|j: int|
                    0 <= j < kept@.len() ==> exists|m: int|
                        0 <= m < it.index() && (#[trigger] before[m]).0@ == (
                        #[trigger] kept@[j]).0@,
                table_of(kept@) == table_of(before.take(it.index())).remove(key@),
        {
            let ghost i = it.index();
            let ghost kept_before = kept@;
            assert(e == before[i]);
            assert(before.take(i + 1).drop_last() =~= before.take(i));
            let hit: bool = same(e.0.as_str(), key);
            if !hit {
                kept.push(e);
                assert(kept@.drop_last() =~= kept_before);
            }
            proof {
                let t = table_of(before.take(i));
                let u = t.insert(before[i].0@, before[i].1);
                if hit {
                    assert(u.remove(key@) =~= t.remove(key@));
                } else {
                    assert(u.remove(key@) =~= t.remove(key@).insert(before[i].0@, before[i].1));
                }
                assert forall|j: int| 0 <= j < kept@.len() implies exists|m: int|
                    0 <= m < i + 1 && (#[trigger] before[m]).0@ == (#[trigger] kept@[j]).0@ by {
                    if !hit && j == kept@.len() - 1 {
                        assert(before[i].0@ == kept@[j].0@);
                    } else {
                        let m = choose|m: int|
                            0 <= m < i && (#[trigger] before[m]).0@ == kept_before[j].0@;
                        assert(before[m].0@ == kept@[j].0@);
                    }
                }
            }
        }
        assert(before.take(before.len() as int) =~= before);
        self.entries = kept;
    }
}

impl Table<i64> {
    /// Drops the entries that are more than `age` older than `now`.
    pub fn keep_within(&mut self, now: i64, age: i64)
        ensures
            final(self)@ == within_age(old(self)@, now as int, age as int),
    {
        proof {
            use_type_invariant(&*self);
        }
        let mut entries: Vec<(String, i64)> = Vec::new();
        let mut kept: Vec<(String, i64)> = Vec::new();
        std::mem::swap(&mut entries, &mut self.entries);
        let ghost before = entries@;
        assert(before.take(0) =~= Seq::empty());
        assert(within_age(table_of(before.take(0)), now as int, age as int) =~= Map::empty());
        for e in it: entries
            invariant
                it.seq() == before,
                distinct(before),
                distinct(kept@),
                forall|j: int|
                    0 <= j < kept@.len() ==> exists|m: int|
                        0 <= m < it.index() && (#[trigger] before[m]).0@ == (
                        #[trigger] kept@[j]).0@,
                table_of(kept@) == within_age(
                    table_of(before.take(it.index())),
                    now as int,
                    age as int,
                ),
        {
            let ghost i = it.index();
            let ghost kept_before = kept@;
            assert(e == before[i]);
            assert(before.take(i + 1).drop_last() =~= before.take(i));
            let young: bool = (now as i128) - (e.1 as i128) <= age as i128;
            if young {
                kept.push(e);
                assert(kept@.drop_last() =~= kept_before);
            }
            proof {
                let t = table_of(before.take(i));
                assert(distinct(before.take(i)));
                lemma_table(before.take(i));
                assert(!t.contains_key(before[i].0@));
                let u = t.insert(before[i].0@, before[i].1);
                if young {
                    assert(within_age(u, now as int, age as int) =~= within_age(
                        t,
                        now as int,
                        age as int,
                    ).insert(before[i].0@, before[i].1));
                } else {
                    assert(within_age(u, now as int, age as int) =~= within_age(
                        t,
                        now as int,
                        age as int,
                    ));
                }
                assert forall|j: int| 0 <= j < kept@.len() implies exists|m: int|
                    0 <= m < i + 1 && (#[trigger] before[m]).0@ == (#[trigger] kept@[j]).0@ by {
                    if young && j == kept@.len() - 1 {
                        assert(before[i].0@ == kept@[j].0@);
                    } else {
                        let m = choose|m: int|
                            0 <= m < i && (#[trigger] before[m]).0@ == kept_before[j].0@;
                        assert(before[m].0@ == kept@[j].0@);
                    }
                }
            }
        }
        assert(before.take(before.len() as int) =~= before);
        self.entries = kept;
    }
}

/// What is no older than an age is kept, as it is, and nothing else.
pub proof fn law_entries_within_age(table: Map<Seq<char>, i64>, now: int, age: int, key: Seq<char>)
    ensures
        within_age(table, now, age).contains_key(key) <==> table.contains_key(key) && now
            - table[key] <= age,
        within_age(table, now, age).contains_key(key) ==> within_age(table, now, age)[key]
            == table[key],
{
}

} // verus!
