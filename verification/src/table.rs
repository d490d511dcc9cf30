//! A small table from strings to values that keeps its keys distinct.

use vstd::prelude::*;

verus! {

/// `key` stands at position `i` of the pairs.
spec fn held_at<V>(pairs: Seq<(Seq<char>, V)>, key: Seq<char>, i: int) -> bool {
    0 <= i < pairs.len() && pairs[i].0 == key
}

/// The keys of a sequence of pairs.
spec fn keys<V>(pairs: Seq<(Seq<char>, V)>) -> Set<Seq<char>> {
    Set::new(|key: Seq<char>| exists|i: int| held_at(pairs, key, i))
}

/// No key occurs twice among the pairs.
spec fn distinct<V>(pairs: Seq<(Seq<char>, V)>) -> bool {
    forall|i: int, j: int| 0 <= i < j < pairs.len() ==> pairs[i].0 != pairs[j].0
}

/// Pairs with distinct keys have as many keys as there are pairs.
proof fn lemma_keys_len<V>(pairs: Seq<(Seq<char>, V)>)
    requires
        distinct(pairs),
    ensures
        keys(pairs).finite(),
        keys(pairs).len() == pairs.len(),
    decreases pairs.len(),
{
    if pairs.len() == 0 {
        assert(keys(pairs) =~= Set::<Seq<char>>::empty());
    } else {
        let init = pairs.drop_last();
        let last = pairs.last();
        lemma_keys_len(init);
        assert(!keys(init).contains(last.0)) by {
            if keys(init).contains(last.0) {
                let i = choose|i: int| held_at(init, last.0, i);
                assert(pairs[i].0 == pairs[pairs.len() - 1].0);
            }
        }
        assert(keys(pairs) =~= keys(init).insert(last.0)) by {
            assert forall|key: Seq<char>| keys(pairs).contains(key) implies keys(init).insert(
                last.0,
            ).contains(key) by {
                let i = choose|i: int| held_at(pairs, key, i);
                if i < init.len() {
                    assert(held_at(init, key, i));
                }
            }
            assert forall|key: Seq<char>| keys(init).insert(last.0).contains(
                key,
            ) implies keys(pairs).contains(key) by {
                if key == last.0 {
                    assert(held_at(pairs, key, pairs.len() - 1));
                } else {
                    let i = choose|i: int| held_at(init, key, i);
                    assert(held_at(pairs, key, i));
                }
            }
        }
    }
}

/// A table keyed by strings. Every key occurs once; an insertion under a key
/// that is already present replaces the value stored there.
pub struct Table<V> {
    entries: Vec<(String, V)>,
}

impl<V> Table<V> {
    /// The stored pairs, each key as its characters, in the order in which the
    /// keys first arrived.
    spec fn pairs(&self) -> Seq<(Seq<char>, V)> {
        self.entries@.map_values(|e: (String, V)| (e.0@, e.1))
    }

    /// No key occurs twice.
    #[verifier::type_invariant]
    spec fn wf(&self) -> bool {
        forall|i: int, j: int|
            0 <= i < j < self.entries@.len() ==> self.entries@[i].0@ != self.entries@[j].0@
    }

    /// An empty table.
    pub fn new() -> (table: Table<V>)
        ensures
            table@ == Map::<Seq<char>, V>::empty(),
    {
        let table = Table { entries: Vec::new() };
        assert(table@ =~= Map::<Seq<char>, V>::empty());
        table
    }

    /// The number of keys.
    pub fn len(&self) -> (n: usize)
        ensures
            self@.dom().finite(),
            n == self@.dom().len(),
    {
        proof {
            use_type_invariant(self);
            assert(distinct(self.pairs()));
            lemma_keys_len(self.pairs());
            assert(self@.dom() =~= keys(self.pairs()));
        }
        self.entries.len()
    }

    /// The value stored under `key`, if there is one.
    pub fn get(&self, key: &str) -> (found: Option<&V>)
        ensures
            found == (if self@.contains_key(key@) {
                Some(&self@[key@])
            } else {
                None
            }),
    {
        proof {
            use_type_invariant(self);
        }
        let wanted = key.to_owned();
        let mut i: usize = 0;
        while i < self.entries.len()
            invariant
                i <= self.entries.len(),
                self.wf(),
                wanted@ == key@,
                forall|j: int| 0 <= j < i ==> !held_at(self.pairs(), key@, j),
            decreases self.entries.len() - i,
        {
            if self.entries[i].0 == wanted {
                assert(held_at(self.pairs(), key@, i as int));
                proof {
                    self.lemma_at(key@, i as int);
                }
                return Some(&self.entries[i].1);
            }
            i += 1;
        }
        None
    }

    /// Stores `value` under `key`, in place of what was stored there before.
    pub fn insert(&mut self, key: String, value: V)
        ensures
            final(self)@ == old(self)@.insert(key@, value),
    {
        proof {
            use_type_invariant(&*self);
        }
        let ghost before = *self;
        let mut entries: Vec<(String, V)> = Vec::new();
        core::mem::swap(&mut self.entries, &mut entries);
        let mut i: usize = 0;
        while i < entries.len() && !(entries[i].0 == key)
            invariant
                i <= entries.len(),
                entries == before.entries,
                forall|j: int| 0 <= j < i ==> entries@[j].0@ != key@,
            decreases entries.len() - i,
        {
            i += 1;
        }
        if i < entries.len() {
            entries.set(i, (key, value));
        } else {
            entries.push((key, value));
        }
        self.entries = entries;
        assert(self@ =~= before@.insert(key@, value)) by {
            assert forall|k: Seq<char>| #[trigger] self@.contains_key(k) implies before@.insert(
                key@,
                value,
            ).contains_key(k) by {
                let n = choose|n: int| held_at(self.pairs(), k, n);
                if k != key@ {
                    assert(held_at(before.pairs(), k, n));
                }
            }
            assert forall|k: Seq<char>| #[trigger]
                before@.insert(key@, value).contains_key(k) implies self@.contains_key(k)
                && self@[k] == before@.insert(key@, value)[k] by {
                if k == key@ {
                    assert(held_at(self.pairs(), k, i as int));
                    self.lemma_at(k, i as int);
                } else {
                    let n = choose|n: int| held_at(before.pairs(), k, n);
                    assert(held_at(self.pairs(), k, n));
                    self.lemma_at(k, n);
                    before.lemma_at(k, n);
                }
            }
        }
    }

    /// Where a key is stored is where its value is read.
    proof fn lemma_at(&self, key: Seq<char>, i: int)
        requires
            self.wf(),
            held_at(self.pairs(), key, i),
        ensures
            self@.contains_key(key),
            self@[key] == self.pairs()[i].1,
    {
    }
}

impl<V> View for Table<V> {
    type V = Map<Seq<char>, V>;

    /// The table as a map from keys to values.
    closed spec fn view(&self) -> Map<Seq<char>, V> {
        Map::new(
            |key: Seq<char>| exists|i: int| held_at(self.pairs(), key, i),
            |key: Seq<char>| self.pairs()[choose|i: int| held_at(self.pairs(), key, i)].1,
        )
    }
}

} // verus!
