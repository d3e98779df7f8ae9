//! Maps with text keys, kept in the order of their keys.

use crate::text::{
    comes_before, law_text_order_total, law_text_order_transitive, text_before,
};
use vstd::prelude::*;

verus! {

/// A map from texts to values, as the list of its entries in ascending order of the
/// keys.
#[derive(Debug, Clone, PartialEq, Eq)]
pub struct TextMap<V> {
    pub entries: Vec<(String, V)>,
}

impl<V> TextMap<V> {
    /// The keys ascend, so none occurs twice.
    pub open spec fn wf(self) -> bool {
        forall|i: int, j: int|
            0 <= i < j < self.entries@.len() ==> text_before(
                #[trigger] self.entries@[i].0@,
                #[trigger] self.entries@[j].0@,
            )
    }

    /// The key occurs at an index.
    pub open spec fn key_at(self, key: Seq<char>, i: int) -> bool {
        0 <= i < self.entries@.len() && self.entries@[i].0@ == key
    }

    /// The keys that occur.
    pub open spec fn has(self, key: Seq<char>) -> bool {
        exists|i: int| self.key_at(key, i)
    }

    /// The map as a whole.
    pub open spec fn map(self) -> Map<Seq<char>, V> {
        Map::new(
            |key: Seq<char>| self.has(key),
            |key: Seq<char>| self.entries@[choose|i: int| self.key_at(key, i)].1,
        )
    }

    /// An empty map.
    pub fn new() -> (m: TextMap<V>)
        ensures
            m.wf(),
            m.entries@.len() == 0,
            m.map() == Map::<Seq<char>, V>::empty(),
    {
        let m = TextMap { entries: Vec::new() };
        assert(m.map() =~= Map::<Seq<char>, V>::empty());
        m
    }

    /// A key occurs at one index only.
    proof fn lemma_key_once(self, key: Seq<char>, i: int, j: int)
        requires
            self.wf(),
            self.key_at(key, i),
            self.key_at(key, j),
        ensures
            i == j,
    {
        law_text_order_total(key, key);
        if i < j {
            assert(text_before(self.entries@[i].0@, self.entries@[j].0@));
        } else if j < i {
            assert(text_before(self.entries@[j].0@, self.entries@[i].0@));
        }
    }

    /// What the map holds for a key that occurs at an index.
    pub proof fn lemma_map_at(self, key: Seq<char>, i: int)
        requires
            self.wf(),
            self.key_at(key, i),
        ensures
            self.map().dom().contains(key),
            self.map()[key] == self.entries@[i].1,
    {
        assert(self.has(key));
        let j = choose|j: int| self.key_at(key, j);
        assert(self.key_at(key, j));
        self.lemma_key_once(key, i, j);
    }

    /// Puts a value under a key, in place of the one that was there.
    pub fn insert(&mut self, key: String, value: V)
        requires
            old(self).wf(),
        ensures
            final(self).wf(),
            final(self).map() == old(self).map().insert(key@, value),
    {
        let mut i: usize = 0;
        while i < self.entries.len() && comes_before(
            self.entries[i].0.as_str(),
            key.as_str(),
        )
            invariant
                i <= self.entries.len(),
                *self == *old(self),
                forall|j: int|
                    0 <= j < i ==> text_before(#[trigger] self.entries@[j].0@, key@),
            decreases self.entries.len() - i,
        {
            i = i + 1;
        }
        let ghost before = *self;
        let ghost name = key@;
        if i < self.entries.len() && self.entries[i].0 == key {
            self.entries.set(i, (key, value));
            proof {
                let after = *self;
                assert(forall|j: int|
                    0 <= j < after.entries@.len() ==> #[trigger] after.entries@[j].0@
                        == before.entries@[j].0@);
                assert(after.wf());
                assert forall|k: Seq<char>| after.has(k) <==> (before.has(k) || k == name) by {
                    assert(before.key_at(name, i as int));
                    assert(after.key_at(name, i as int));
                    if before.has(k) {
                        let j = choose|j: int| before.key_at(k, j);
                        assert(after.key_at(k, j));
                    }
                    if after.has(k) {
                        let j = choose|j: int| after.key_at(k, j);
                        assert(before.key_at(k, j));
                    }
                }
                assert forall|k: Seq<char>| after.has(k) implies after.map()[k]
                    == before.map().insert(name, value)[k] by {
                    let j = choose|j: int| after.key_at(k, j);
                    assert(after.key_at(k, j));
                    after.lemma_map_at(k, j);
                    if k == name {
                        assert(after.key_at(name, i as int));
                        after.lemma_key_once(k, i as int, j);
                    } else {
                        assert(before.key_at(k, j));
                        before.lemma_map_at(k, j);
                        assert(j != i);
                    }
                }
                assert(after.map() =~= before.map().insert(name, value));
            }
        } else {
            self.entries.insert(i, (key, value));
            proof {
                let after = *self;
                let n = before.entries@.len();
                if i < n {
                    law_text_order_total(before.entries@[i as int].0@, name);
                }
                assert forall|j: int| i <= j < n implies text_before(
                    name,
                    #[trigger] before.entries@[j].0@,
                ) by {
                    if i < j {
                        law_text_order_transitive(
                            name,
                            before.entries@[i as int].0@,
                            before.entries@[j].0@,
                        );
                    }
                }
                assert(forall|j: int|
                    0 <= j < i ==> #[trigger] after.entries@[j] == before.entries@[j]);
                assert(forall|j: int|
                    i < j <= n ==> #[trigger] after.entries@[j] == before.entries@[j - 1]);
                assert(after.wf()) by {
                    assert forall|a: int, b: int|
                        0 <= a < b < after.entries@.len() implies text_before(
                        #[trigger] after.entries@[a].0@,
                        #[trigger] after.entries@[b].0@,
                    ) by {
                        if a < i && b < i {
                            assert(text_before(before.entries@[a].0@, before.entries@[b].0@));
                        } else if a < i && b == i {
                            assert(text_before(before.entries@[a].0@, name));
                        } else if a < i {
                            assert(text_before(before.entries@[a].0@, before.entries@[b - 1].0@));
                        } else if a == i {
                            assert(text_before(name, before.entries@[b - 1].0@));
                        } else {
                            assert(text_before(
                                before.entries@[a - 1].0@,
                                before.entries@[b - 1].0@,
                            ));
                        }
                    }
                }
                assert forall|k: Seq<char>| after.has(k) <==> (before.has(k) || k == name) by {
                    assert(after.key_at(name, i as int));
                    if before.has(k) {
                        let j = choose|j: int| before.key_at(k, j);
                        assert(after.key_at(k, if j < i { j } else { j + 1 }));
                    }
                    if after.has(k) {
                        let j = choose|j: int| after.key_at(k, j);
                        if j < i {
                            assert(before.key_at(k, j));
                        } else if j > i {
                            assert(before.key_at(k, j - 1));
                        }
                    }
                }
                assert forall|k: Seq<char>| after.has(k) implies after.map()[k]
                    == before.map().insert(name, value)[k] by {
                    let j = choose|j: int| after.key_at(k, j);
                    assert(after.key_at(k, j));
                    after.lemma_map_at(k, j);
                    assert(after.key_at(name, i as int));
                    if k == name {
                        after.lemma_key_once(k, i as int, j);
                    } else if j < i {
                        assert(before.key_at(k, j));
                        before.lemma_map_at(k, j);
                    } else {
                        assert(j != i);
                        assert(before.key_at(k, j - 1));
                        before.lemma_map_at(k, j - 1);
                    }
                }
                assert(after.map() =~= before.map().insert(name, value));
            }
        }
    }
}

/// A map holds what its entries say: a key occurs where an entry has it, and has the
/// value of that entry.
pub proof fn law_map_is_its_entries<V>(m: TextMap<V>, i: int)
    requires
        m.wf(),
        0 <= i < m.entries@.len(),
    ensures
        m.map().dom().contains(m.entries@[i].0@),
        m.map()[m.entries@[i].0@] == m.entries@[i].1,
        forall|key: Seq<char>| #[trigger]
            m.map().dom().contains(key) ==> exists|j: int|
                0 <= j < m.entries@.len() && (#[trigger] m.entries@[j]).0@ == key,
        forall|j: int|
            0 <= j < i ==> text_before((#[trigger] m.entries@[j]).0@, m.entries@[i].0@),
{
    m.lemma_map_at(m.entries@[i].0@, i);
    assert forall|key: Seq<char>| #[trigger] m.map().dom().contains(key) implies exists|j: int|
        0 <= j < m.entries@.len() && (#[trigger] m.entries@[j]).0@ == key by {
        let j = choose|j: int| m.key_at(key, j);
        assert(m.entries@[j].0@ == key);
    }
}

/// Keys that ascend from each entry to all later ones make a well-formed map, and
/// nothing else does.
pub proof fn law_well_formed_keys_ascend<V>(m: TextMap<V>)
    ensures
        m.wf() <==> forall|i: int, j: int|
            0 <= i < j < m.entries@.len() ==> text_before(
                (#[trigger] m.entries@[i]).0@,
                (#[trigger] m.entries@[j]).0@,
            ),
{
}

} // verus!
