//! A table of amounts: the executable counterpart of a map from keys to natural numbers.
//!
//! The table keeps its entries in a vector, one entry per key and none with the amount
//! zero, so that its view is always in normal form.

use crate::amounts::{amount_at, normal, with_amount};
use vstd::prelude::*;

verus! {

/// A key of a table: a plain value that can be compared at run time, with the
/// comparison agreeing with equality in specifications.
pub trait Key: Sized {
    /// Whether the two keys are the same key.
    fn same(&self, other: &Self) -> (same: bool)
        ensures
            same == (*self == *other),
    ;
}

/// One stored amount.
struct Entry<K> {
    key: K,
    amount: u128,
}

/// The map that a sequence of entries stands for; a later entry would shadow an
/// earlier one with the same key.
spec fn entries_map<K>(entries: Seq<Entry<K>>) -> Map<K, nat>
    decreases entries.len(),
{
    if entries.len() == 0 {
        Map::empty()
    } else {
        entries_map(entries.drop_last()).insert(entries.last().key, entries.last().amount as nat)
    }
}

/// No key occurs in two entries.
spec fn distinct_keys<K>(entries: Seq<Entry<K>>) -> bool {
    forall|i: int, j: int|
        0 <= i < j < entries.len() ==> (#[trigger] entries[i]).key != (#[trigger] entries[j]).key
}

/// Some entry has the key `key`.
spec fn holds_key<K>(entries: Seq<Entry<K>>, key: K) -> bool {
    exists|i: int| 0 <= i < entries.len() && (#[trigger] entries[i]).key == key
}

/// With distinct keys, the map of a sequence of entries has exactly the keys of the
/// entries, each with its entry's amount.
proof fn lemma_entries_map<K>(entries: Seq<Entry<K>>)
    requires
        distinct_keys(entries),
    ensures
        entries_map(entries).dom().finite(),
        forall|key: K| #[trigger]
            entries_map(entries).contains_key(key) <==> holds_key(entries, key),
        forall|i: int|
            0 <= i < entries.len() ==> entries_map(entries)[(#[trigger] entries[i]).key]
                == entries[i].amount,
    decreases entries.len(),
{
    if entries.len() != 0 {
        let front = entries.drop_last();
        let last = entries.last();
        lemma_entries_map(front);
        assert forall|key: K| #[trigger]
            entries_map(entries).contains_key(key) <==> holds_key(entries, key) by {
            if holds_key(entries, key) {
                let i = choose|i: int| 0 <= i < entries.len() && (#[trigger] entries[i]).key == key;
                if i < entries.len() - 1 {
                    assert(front[i].key == key);
                    assert(holds_key(front, key));
                }
            }
            if entries_map(entries).contains_key(key) && key != last.key {
                assert(holds_key(front, key));
                let i = choose|i: int| 0 <= i < front.len() && (#[trigger] front[i]).key == key;
                assert(entries[i].key == key);
            }
            if key == last.key {
                assert(entries[entries.len() - 1].key == key);
            }
        }
        assert forall|i: int| 0 <= i < entries.len() implies entries_map(entries)[(
        #[trigger] entries[i]).key] == entries[i].amount by {
            if i < entries.len() - 1 {
                assert(front[i] == entries[i]);
                assert(entries[i].key != entries[entries.len() - 1].key);
            }
        }
    }
}

/// A table of amounts by key.
pub struct Table<K: Key> {
    entries: Vec<Entry<K>>,
}

impl<K: Key> View for Table<K> {
    type V = Map<K, nat>;

    closed spec fn view(&self) -> Map<K, nat> {
        entries_map(self.entries@)
    }
}

impl<K: Key> Table<K> {
    /// The table holds each key once and no zero amount.
    pub closed spec fn wf(&self) -> bool {
        &&& distinct_keys(self.entries@)
        &&& forall|i: int| 0 <= i < self.entries@.len() ==> (#[trigger] self.entries@[i]).amount > 0
    }

    /// A well-formed table stands for a map in normal form, and every amount in it
    /// fits the machine type that stores it.
    pub proof fn lemma_view_normal(&self)
        requires
            self.wf(),
        ensures
            normal(self@),
            forall|key: K| amount_at(self@, key) <= u128::MAX,
    {
        let entries = self.entries@;
        lemma_entries_map(entries);
        assert forall|key: K| self@.contains_key(key) implies 0 < #[trigger] self@[key]
            <= u128::MAX by {
            let i = choose|i: int| 0 <= i < entries.len() && (#[trigger] entries[i]).key == key;
            assert(self@[entries[i].key] == entries[i].amount);
        }
    }

    /// The empty table.
    pub fn new() -> (table: Self)
        ensures
            table.wf(),
            table@ == Map::<K, nat>::empty(),
    {
        Table { entries: Vec::new() }
    }

    /// The position of the entry for `key`, if there is one.
    fn find(&self, key: &K) -> (found: Option<usize>)
        ensures
            match found {
                Some(i) => i < self.entries@.len() && self.entries@[i as int].key == *key,
                None => !holds_key(self.entries@, *key),
            },
    {
        let mut i: usize = 0;
        while i < self.entries.len()
            invariant
                i <= self.entries@.len(),
                forall|j: int| 0 <= j < i ==> (#[trigger] self.entries@[j]).key != *key,
            decreases self.entries@.len() - i,
        {
            if self.entries[i].key.same(key) {
                return Some(i);
            }
            i += 1;
        }
        None
    }

    /// The amount stored for `key`: zero where the table has no entry for it.
    pub fn get(&self, key: &K) -> (amount: u128)
        requires
            self.wf(),
        ensures
            amount == amount_at(self@, *key),
    {
        proof {
            lemma_entries_map(self.entries@);
        }
        match self.find(key) {
            Some(i) => self.entries[i].amount,
            None => 0,
        }
    }

    /// Stores `amount` for `key`, replacing what was stored; a zero amount drops the
    /// entry.
    pub fn set(&mut self, key: K, amount: u128)
        requires
            old(self).wf(),
        ensures
            final(self).wf(),
            final(self)@ == with_amount(old(self)@, key, amount as nat),
    {
        let found = self.find(&key);
        let ghost before = self.entries@;
        proof {
            lemma_entries_map(before);
        }
        match found {
            Some(i) => {
                if amount == 0 {
                    self.entries.swap_remove(i);
                    proof {
                        lemma_swap_remove(before, i as int);
                    }
                } else {
                    self.entries.set(i, Entry { key, amount });
                    proof {
                        lemma_update(before, i as int, amount);
                    }
                }
            },
            None => {
                if amount != 0 {
                    self.entries.push(Entry { key, amount });
                    assert(self.entries@.drop_last() =~= before);
                    assert forall|i: int, j: int| 0 <= i < j < self.entries@.len() implies (
                    #[trigger] self.entries@[i]).key != (#[trigger] self.entries@[j]).key by {
                        assert(before[i].key != key);
                    }
                } else {
                    assert(before =~= self.entries@);
                    assert(entries_map(before).remove(key) =~= entries_map(before));
                }
            },
        }
    }
}

/// Replacing the amount of entry `i` sets that key's amount in the map.
proof fn lemma_update<K>(entries: Seq<Entry<K>>, i: int, amount: u128)
    requires
        distinct_keys(entries),
        0 <= i < entries.len(),
    ensures
        distinct_keys(entries.update(i, Entry { key: entries[i].key, amount })),
        entries_map(entries.update(i, Entry { key: entries[i].key, amount })) == entries_map(
            entries,
        ).insert(entries[i].key, amount as nat),
{
    let key = entries[i].key;
    let after = entries.update(i, Entry { key, amount });
    assert forall|a: int, b: int| 0 <= a < b < after.len() implies (#[trigger] after[a]).key != (
    #[trigger] after[b]).key by {
        assert(after[a].key == entries[a].key);
        assert(after[b].key == entries[b].key);
    }
    lemma_entries_map(entries);
    lemma_entries_map(after);
    let expected = entries_map(entries).insert(key, amount as nat);
    assert forall|k: K| #[trigger] entries_map(after).contains_key(k) <==> expected.contains_key(
        k,
    ) by {
        if holds_key(after, k) {
            let a = choose|a: int| 0 <= a < after.len() && (#[trigger] after[a]).key == k;
            assert(entries[a].key == k);
        }
        if holds_key(entries, k) {
            let a = choose|a: int| 0 <= a < entries.len() && (#[trigger] entries[a]).key == k;
            assert(after[a].key == k);
        }
        if k == key {
            assert(after[i].key == k);
        }
    }
    assert forall|k: K| expected.contains_key(k) implies #[trigger] entries_map(after)[k]
        == expected[k] by {
        if k == key {
            assert(entries_map(after)[after[i].key] == after[i].amount);
        } else {
            let a = choose|a: int| 0 <= a < entries.len() && (#[trigger] entries[a]).key == k;
            assert(after[a] == entries[a]);
            assert(entries_map(after)[after[a].key] == after[a].amount);
            assert(entries_map(entries)[entries[a].key] == entries[a].amount);
        }
    }
    assert(entries_map(after) =~= expected);
}

/// Moving the last entry into place `i` and dropping the last place removes the key
/// of entry `i` from the map.
proof fn lemma_swap_remove<K>(entries: Seq<Entry<K>>, i: int)
    requires
        distinct_keys(entries),
        0 <= i < entries.len(),
    ensures
        distinct_keys(entries.update(i, entries.last()).drop_last()),
        entries_map(entries.update(i, entries.last()).drop_last()) == entries_map(entries).remove(
            entries[i].key,
        ),
        forall|a: int|
            0 <= a < entries.len() - 1 ==> (#[trigger] entries.update(
                i,
                entries.last(),
            ).drop_last()[a]).amount == (if a == i {
                entries.last().amount
            } else {
                entries[a].amount
            }),
{
    let key = entries[i].key;
    let last = entries.len() - 1;
    let after = entries.update(i, entries.last()).drop_last();
    assert forall|a: int| 0 <= a < after.len() implies #[trigger] after[a] == (if a == i {
        entries[last]
    } else {
        entries[a]
    }) by {}
    assert forall|a: int, b: int| 0 <= a < b < after.len() implies (#[trigger] after[a]).key != (
    #[trigger] after[b]).key by {
        let from_a = if a == i { last } else { a };
        let from_b = if b == i { last } else { b };
        assert(after[a] == entries[from_a]);
        assert(after[b] == entries[from_b]);
        if from_a < from_b {
            assert(entries[from_a].key != entries[from_b].key);
        } else {
            assert(entries[from_b].key != entries[from_a].key);
        }
    }
    lemma_entries_map(entries);
    lemma_entries_map(after);
    let expected = entries_map(entries).remove(key);
    assert forall|k: K| #[trigger] entries_map(after).contains_key(k) <==> expected.contains_key(
        k,
    ) by {
        if holds_key(after, k) {
            let a = choose|a: int| 0 <= a < after.len() && (#[trigger] after[a]).key == k;
            let from_a = if a == i { last } else { a };
            assert(entries[from_a].key == k);
            if from_a < i {
                assert(entries[from_a].key != entries[i].key);
            } else {
                assert(entries[i].key != entries[from_a].key);
            }
        }
        if holds_key(entries, k) && k != key {
            let a = choose|a: int| 0 <= a < entries.len() && (#[trigger] entries[a]).key == k;
            let to_a = if a == last { i } else { a };
            assert(after[to_a].key == k);
        }
    }
    assert forall|k: K| expected.contains_key(k) implies #[trigger] entries_map(after)[k]
        == expected[k] by {
        let a = choose|a: int| 0 <= a < entries.len() && (#[trigger] entries[a]).key == k;
        let to_a = if a == last { i } else { a };
        assert(after[to_a] == entries[a]);
        assert(entries_map(after)[after[to_a].key] == after[to_a].amount);
        assert(entries_map(entries)[entries[a].key] == entries[a].amount);
    }
    assert(entries_map(after) =~= expected);
}

} // verus!
