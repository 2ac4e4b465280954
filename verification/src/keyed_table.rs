//! A small table keyed by action identity, holding the latest value written
//! for each action. It backs the in-memory reference stores.
use vstd::prelude::*;

use crate::execution_receipt::ActionId;

verus! {

/// The value recorded for `key`: the last entry with that key wins.
pub open spec fn table_lookup<V>(entries: Seq<(ActionId, V)>, key: Seq<char>) -> Option<V>
    decreases entries.len(),
{
    if entries.len() == 0 {
        None
    } else if entries.last().0@ == key {
        Some(entries.last().1)
    } else {
        table_lookup(entries.drop_last(), key)
    }
}

/// Overwriting the last entry for `key` changes what `key` maps to and nothing else.
pub proof fn lemma_lookup_update<V>(
    entries: Seq<(ActionId, V)>,
    k: int,
    entry: (ActionId, V),
    q: Seq<char>,
)
    requires
        0 <= k < entries.len(),
        entries[k].0@ == entry.0@,
        forall|j: int| k < j < entries.len() ==> entries[j].0@ != entry.0@,
    ensures
        table_lookup(entries.update(k, entry), q) == if q == entry.0@ {
            Some(entry.1)
        } else {
            table_lookup(entries, q)
        },
    decreases entries.len(),
{
    let updated = entries.update(k, entry);
    if k == entries.len() - 1 {
        assert(updated.drop_last() =~= entries.drop_last());
    } else {
        assert(updated.drop_last() =~= entries.drop_last().update(k, entry));
        lemma_lookup_update(entries.drop_last(), k, entry, q);
    }
}

/// The keys of `entries`, in order.
pub open spec fn entry_keys<V>(entries: Seq<(ActionId, V)>) -> Seq<Seq<char>> {
    entries.map_values(|e: (ActionId, V)| e.0@)
}

/// Each action appears in the table at most once.
/// The table holds a value for `key` exactly when some entry has that key.
pub proof fn lemma_lookup_contains<V>(entries: Seq<(ActionId, V)>, key: Seq<char>)
    ensures
        table_lookup(entries, key) is Some <==> entry_keys(entries).contains(key),
    decreases entries.len(),
{
    if entries.len() > 0 {
        lemma_lookup_contains(entries.drop_last(), key);
        assert(entry_keys(entries.drop_last()) =~= entry_keys(entries).drop_last());
        if entries.last().0@ == key {
            assert(entry_keys(entries)[entries.len() - 1] == key);
        } else {
            assert forall|j: int| 0 <= j < entries.len() && entry_keys(entries)[j] == key implies
                entry_keys(entries.drop_last()).contains(key) by {
                assert(j != entries.len() - 1);
                assert(entry_keys(entries.drop_last())[j] == key);
            }
        }
    }
}

#[derive(Debug)]
pub struct KeyedTable<V> {
    entries: Vec<(ActionId, V)>,
}

impl<V> KeyedTable<V> {
    #[verifier::type_invariant]
    spec fn keys_distinct(self) -> bool {
        entry_keys(self.entries@).no_duplicates()
    }

    /// What the table maps each action to.
    pub closed spec fn lookup(&self, key: Seq<char>) -> Option<V> {
        table_lookup(self.entries@, key)
    }

    /// The actions the table holds a value for.
    pub closed spec fn keys(&self) -> Set<Seq<char>> {
        entry_keys(self.entries@).to_set()
    }

    /// An action is among the keys exactly when the table holds a value for it.
    pub proof fn lemma_keys(&self)
        ensures
            self.keys().finite(),
            forall|key: Seq<char>| #[trigger] self.keys().contains(key) <==> self.lookup(key) is Some,
    {
        broadcast use vstd::seq_lib::seq_to_set_is_finite;

        assert forall|key: Seq<char>| #[trigger] self.keys().contains(key) <==> self.lookup(key) is Some by {
            lemma_lookup_contains(self.entries@, key);
        }
    }

    pub fn new() -> (t: Self)
        ensures
            t.keys().len() == 0,
            t.keys().finite(),
            forall|key: Seq<char>| t.lookup(key) is None,
    {
        let t = KeyedTable { entries: Vec::new() };
        assert(t.keys() =~= Set::<Seq<char>>::empty());
        t
    }

    /// The number of actions the table holds a value for.
    pub fn len(&self) -> (n: usize)
        ensures
            n == self.keys().len(),
    {
        proof {
            use_type_invariant(self);
            entry_keys(self.entries@).unique_seq_to_set();
        }
        self.entries.len()
    }

    pub fn get(&self, key: &ActionId) -> (r: Option<&V>)
        ensures
            match r {
                Some(v) => self.lookup(key@) == Some(*v),
                None => self.lookup(key@) is None,
            },
    {
        let mut i = self.entries.len();
        assert(self.entries@.subrange(0, i as int) =~= self.entries@);
        while i > 0
            invariant
                i <= self.entries@.len(),
                table_lookup(self.entries@, key@) == table_lookup(
                    self.entries@.subrange(0, i as int),
                    key@,
                ),
            decreases i,
        {
            let ghost prefix = self.entries@.subrange(0, i as int);
            assert(prefix.last() == self.entries@[i - 1]);
            assert(prefix.drop_last() =~= self.entries@.subrange(0, i - 1));
            if self.entries[i - 1].0 == *key {
                return Some(&self.entries[i - 1].1);
            }
            i = i - 1;
        }
        None
    }

    /// Makes `key` map to `value`, leaving every other key as it was.
    pub fn insert(&mut self, key: ActionId, value: V)
        ensures
            final(self).lookup(key@) == Some(value),
            forall|q: Seq<char>| q != key@ ==> final(self).lookup(q) == old(self).lookup(q),
            final(self).keys() == old(self).keys().insert(key@),
    {
        proof {
            use_type_invariant(&*self);
        }
        let mut i = self.entries.len();
        assert(self.entries@.subrange(0, i as int) =~= self.entries@);
        while i > 0
            invariant
                i <= self.entries@.len(),
                self.entries@ == old(self).entries@,
                entry_keys(self.entries@).no_duplicates(),
                forall|j: int| i <= j < self.entries@.len() ==> self.entries@[j].0@ != key@,
                table_lookup(self.entries@, key@) == table_lookup(
                    self.entries@.subrange(0, i as int),
                    key@,
                ),
            decreases i,
        {
            let ghost prefix = self.entries@.subrange(0, i as int);
            assert(prefix.last() == self.entries@[i - 1]);
            assert(prefix.drop_last() =~= self.entries@.subrange(0, i - 1));
            if self.entries[i - 1].0 == key {
                let ghost before = self.entries@;
                let entry = (key, value);
                proof {
                    assert forall|q: Seq<char>| true implies table_lookup(
                        before.update(i - 1, entry),
                        q,
                    ) == if q == entry.0@ {
                        Some(entry.1)
                    } else {
                        table_lookup(before, q)
                    } by {
                        lemma_lookup_update(before, i - 1, entry, q);
                    }
                    assert(entry_keys(before.update(i - 1, entry)) =~= entry_keys(before));
                    assert(entry_keys(before)[i - 1] == key@);
                    assert(entry_keys(before).to_set().insert(key@) =~= entry_keys(before).to_set());
                }
                let mut entries = Vec::new();
                std::mem::swap(&mut entries, &mut self.entries);
                entries.set(i - 1, entry);
                self.entries = entries;
                return ;
            }
            i = i - 1;
        }
        assert(self.entries@.subrange(0, 0) =~= Seq::<(ActionId, V)>::empty());
        let ghost before = self.entries@;
        let ghost k = key@;
        proof {
            let pushed = entry_keys(before.push((key, value)));
            assert(pushed =~= entry_keys(before).push(k));
            assert(!entry_keys(before).contains(k)) by {
                if entry_keys(before).contains(k) {
                    let j = choose|j: int| 0 <= j < entry_keys(before).len() && entry_keys(before)[j] == k;
                    assert(before[j].0@ == k);
                }
            }
            assert forall|a: int, b: int| 0 <= a < pushed.len() && 0 <= b < pushed.len() && a != b
                implies pushed[a] != pushed[b] by {
                if a < before.len() && b < before.len() {
                } else if a < before.len() {
                    assert(entry_keys(before)[a] == pushed[a]);
                } else {
                    assert(entry_keys(before)[b] == pushed[b]);
                }
            }
            assert forall|x: Seq<char>| pushed.contains(x) <==> entry_keys(before).contains(x) || x == k by {
                if pushed.contains(x) {
                    let j = choose|j: int| 0 <= j < pushed.len() && pushed[j] == x;
                    if j < before.len() {
                        assert(entry_keys(before)[j] == x);
                    }
                }
                if entry_keys(before).contains(x) {
                    let j = choose|j: int| 0 <= j < entry_keys(before).len() && entry_keys(before)[j] == x;
                    assert(pushed[j] == x);
                }
                if x == k {
                    assert(pushed[before.len() as int] == x);
                }
            }
            assert(pushed.to_set() =~= entry_keys(before).to_set().insert(k));
        }
        let mut entries = Vec::new();
        std::mem::swap(&mut entries, &mut self.entries);
        entries.push((key, value));
        self.entries = entries;
        assert(self.entries@.drop_last() =~= before);
    }
}

impl<V: Clone> Clone for KeyedTable<V> {
    /// A copy with the same actions; each value is copied by `V::clone`.
    fn clone(&self) -> (r: Self)
        ensures
            r.keys() == self.keys(),
    {
        proof {
            use_type_invariant(self);
        }
        let mut entries: Vec<(ActionId, V)> = Vec::new();
        let mut i: usize = 0;
        while i < self.entries.len()
            invariant
                i <= self.entries@.len(),
                entries@.len() == i,
                entry_keys(self.entries@).no_duplicates(),
                forall|j: int| 0 <= j < i ==> #[trigger] entries@[j].0@ == self.entries@[j].0@,
            decreases self.entries@.len() - i,
        {
            let entry = (self.entries[i].0.clone(), self.entries[i].1.clone());
            entries.push(entry);
            i = i + 1;
        }
        assert(entry_keys(entries@) =~= entry_keys(self.entries@));
        KeyedTable { entries }
    }
}

} // verus!
