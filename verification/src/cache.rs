//! A keyed store that remembers the order in which its keys first arrived.

use crate::ordered_set::{
    key_order, set_clear, set_index_of, set_insert_full, set_key_at, set_len, set_new,
};
use indexmap::IndexSet;
use vstd::prelude::*;

verus! {

/// What a cache holds: its keys in order of first insertion, and the value
/// filed under each key.
pub struct Contents<V> {
    pub order: Seq<u128>,
    pub entries: Map<u128, V>,
}

impl<V> Contents<V> {
    /// The contents of a cache that holds nothing.
    pub open spec fn empty() -> Self {
        Contents { order: Seq::empty(), entries: Map::empty() }
    }

    /// No key occurs twice in the order, and the order lists exactly the keys
    /// that have a value.
    pub open spec fn wf(self) -> bool {
        &&& self.order.no_duplicates()
        &&& forall|k: u128| self.entries.dom().contains(k) <==> self.order.contains(k)
    }

    pub open spec fn len(self) -> nat {
        self.order.len()
    }

    pub open spec fn contains_key(self, key: u128) -> bool {
        self.entries.dom().contains(key)
    }

    /// The value filed under `key`, if there is one.
    pub open spec fn get(self, key: u128) -> Option<V> {
        if self.entries.dom().contains(key) {
            Some(self.entries[key])
        } else {
            None
        }
    }

    /// Insert or overwrite: a key that is already there keeps its place and
    /// gets the new value; a new key goes last.
    pub open spec fn upsert(self, key: u128, value: V) -> Self {
        Contents {
            order: if self.order.contains(key) {
                self.order
            } else {
                self.order.push(key)
            },
            entries: self.entries.insert(key, value),
        }
    }

    /// The values in the order of their keys.
    pub open spec fn values(self) -> Seq<V> {
        Seq::new(self.order.len(), |i: int| self.entries[self.order[i]])
    }

    /// An upsert keeps well-formed contents well formed, and the value it
    /// filed is the one found afterwards.
    pub proof fn lemma_upsert(self, key: u128, value: V)
        requires
            self.wf(),
        ensures
            self.upsert(key, value).wf(),
            self.upsert(key, value).get(key) == Some(value),
            self.upsert(key, value).len() == if self.contains_key(key) {
                self.len()
            } else {
                self.len() + 1
            },
            forall|other: u128|
                other != key ==> self.upsert(key, value).get(other) == self.get(other),
    {
        let after = self.upsert(key, value);
        assert forall|k: u128| after.entries.dom().contains(k) <==> after.order.contains(k) by {
            if self.order.contains(k) {
                let i = self.order.index_of(k);
                assert(after.order[i] == k);
            }
            if k == key {
                assert(after.order[after.order.len() - 1] == key || self.order.contains(key));
            }
        }
    }

    /// Filing two values under one identifier, one after the other, leaves a
    /// single entry for it, which holds the later value: the identifier
    /// occurs in the order, and the order has no duplicates. The second
    /// upsert changes neither the number of entries nor their order, and the
    /// two together come to the same as the second alone.
    pub proof fn lemma_upsert_twice(self, key: u128, first: V, second: V)
        requires
            self.wf(),
        ensures
            ({
                let once = self.upsert(key, first);
                let twice = once.upsert(key, second);
                &&& twice.wf()
                &&& twice.order.contains(key)
                &&& twice.get(key) == Some(second)
                &&& twice.order == once.order
                &&& twice.len() == once.len()
                &&& twice == self.upsert(key, second)
            }),
    {
        self.lemma_upsert(key, first);
        self.upsert(key, first).lemma_upsert(key, second);
        let once = self.upsert(key, first);
        assert(once.order.contains(key)) by {
            if !self.order.contains(key) {
                assert(once.order[once.order.len() - 1] == key);
            }
        }
        assert(once.upsert(key, second).entries =~= self.upsert(key, second).entries);
    }
}

/// A record that carries the identifier it is filed under.
pub trait Record {
    spec fn key(&self) -> u128;
}

/// The identifiers of a batch of records, in the order of the batch.
pub open spec fn keys_of<V: Record>(batch: Seq<V>) -> Seq<u128> {
    Seq::new(batch.len(), |i: int| batch[i].key())
}

impl<V: Record> Contents<V> {
    /// The contents after a batch of records was filed, first record first,
    /// each under its own identifier.
    pub open spec fn filed(self, batch: Seq<V>) -> Self
        decreases batch.len(),
    {
        if batch.len() == 0 {
            self
        } else {
            self.filed(batch.drop_last()).upsert(batch.last().key(), batch.last())
        }
    }

    /// Filing one more record is an upsert of that record.
    pub proof fn lemma_filed_push(self, batch: Seq<V>, record: V)
        ensures
            self.filed(batch.push(record)) == self.filed(batch).upsert(record.key(), record),
    {
        assert(batch.push(record).drop_last() =~= batch);
    }

    /// Filing two batches one after the other is filing them as one.
    pub proof fn lemma_filed_add(self, first: Seq<V>, second: Seq<V>)
        ensures
            self.filed(first + second) == self.filed(first).filed(second),
        decreases second.len(),
    {
        if second.len() == 0 {
            assert(first + second =~= first);
        } else {
            self.lemma_filed_add(first, second.drop_last());
            assert((first + second).drop_last() =~= first + second.drop_last());
        }
    }

    /// Filing a batch loses nothing and misses nothing: the contents stay
    /// well formed, keep every entry under a key that the batch does not
    /// name, and afterwards hold an entry for every record of the batch.
    pub proof fn lemma_filed(self, batch: Seq<V>)
        requires
            self.wf(),
        ensures
            self.filed(batch).wf(),
            forall|i: int|
                0 <= i < batch.len() ==> self.filed(batch).contains_key(#[trigger] batch[i].key()),
            forall|key: u128|
                self.contains_key(key) ==> #[trigger] self.filed(batch).contains_key(key),
            forall|key: u128|
                !keys_of(batch).contains(key) ==> #[trigger] self.filed(batch).get(key) == self.get(
                    key,
                ),
        decreases batch.len(),
    {
        if batch.len() > 0 {
            let before = batch.drop_last();
            let last = batch.last();
            let mid = self.filed(before);
            self.lemma_filed(before);
            mid.lemma_upsert(last.key(), last);
            assert forall|i: int| 0 <= i < batch.len() implies self.filed(batch).contains_key(
                #[trigger] batch[i].key(),
            ) by {
                if i < before.len() {
                    assert(before[i] == batch[i]);
                    assert(mid.contains_key(before[i].key()));
                }
            }
            assert forall|key: u128| self.contains_key(key) implies #[trigger] self.filed(
                batch,
            ).contains_key(key) by {
                assert(mid.contains_key(key));
            }
            assert forall|key: u128| !keys_of(batch).contains(key) implies #[trigger] self.filed(
                batch,
            ).get(key) == self.get(key) by {
                assert(keys_of(batch)[batch.len() - 1] == last.key());
                assert(key != last.key());
                if keys_of(before).contains(key) {
                    let i = keys_of(before).index_of(key);
                    assert(keys_of(batch)[i] == key);
                }
                assert(mid.get(key) == self.get(key));
                assert(mid.upsert(last.key(), last).get(key) == mid.get(key));
            }
        }
    }

    /// Where the records of a batch have identifiers of their own, none of
    /// them in the contents before, filing the batch appends them: the
    /// contents grow by the size of the batch, the new keys follow the old
    /// ones in the order of the batch, and each record is found under its
    /// identifier.
    pub proof fn lemma_filed_fresh(self, batch: Seq<V>)
        requires
            self.wf(),
            keys_of(batch).no_duplicates(),
            forall|i: int| 0 <= i < batch.len() ==> !self.contains_key(#[trigger] batch[i].key()),
        ensures
            self.filed(batch).len() == self.len() + batch.len(),
            self.filed(batch).order == self.order + keys_of(batch),
            forall|i: int|
                0 <= i < batch.len() ==> self.filed(batch).get(#[trigger] batch[i].key()) == Some(
                    batch[i],
                ),
        decreases batch.len(),
    {
        if batch.len() > 0 {
            let before = batch.drop_last();
            let last = batch.last();
            assert(keys_of(before) =~= keys_of(batch).drop_last());
            assert forall|i: int, j: int|
                0 <= i < before.len() && 0 <= j < before.len() && i != j implies keys_of(
                before,
            )[i] != keys_of(before)[j] by {
                assert(keys_of(batch)[i] != keys_of(batch)[j]);
            }
            assert forall|i: int| 0 <= i < before.len() implies !self.contains_key(
                #[trigger] before[i].key(),
            ) by {
                assert(before[i] == batch[i]);
            }
            self.lemma_filed_fresh(before);
            self.lemma_filed(before);
            let mid = self.filed(before);
            mid.lemma_upsert(last.key(), last);
            assert(!mid.order.contains(last.key())) by {
                if mid.order.contains(last.key()) {
                    let at = mid.order.index_of(last.key());
                    if at < self.order.len() {
                        assert(self.order[at] == last.key());
                        assert(self.order.contains(last.key()));
                        assert(batch[batch.len() - 1].key() == last.key());
                    } else {
                        assert(keys_of(before)[at - self.order.len()] == last.key());
                        assert(keys_of(batch)[at - self.order.len()] == keys_of(batch)[batch.len()
                            - 1]);
                    }
                }
            }
            assert(self.filed(batch).order =~= self.order + keys_of(batch));
            assert forall|i: int| 0 <= i < batch.len() implies self.filed(batch).get(
                #[trigger] batch[i].key(),
            ) == Some(batch[i]) by {
                if i < before.len() {
                    assert(before[i] == batch[i]);
                    assert(keys_of(batch)[i] != keys_of(batch)[batch.len() - 1]);
                }
            }
        } else {
            assert(self.filed(batch).order =~= self.order + keys_of(batch));
        }
    }
}

/// An insertion-ordered cache of values keyed by 128-bit identifier.
pub struct Cache<V> {
    index: IndexSet<u128>,
    slots: Vec<V>,
}

impl<V> View for Cache<V> {
    type V = Contents<V>;

    closed spec fn view(&self) -> Contents<V> {
        Contents {
            order: key_order(self.index),
            entries: Map::new(
                |k: u128| key_order(self.index).contains(k),
                |k: u128| self.slots@[key_order(self.index).index_of(k)],
            ),
        }
    }
}

impl<V> Cache<V> {
    /// Every key has exactly one slot.
    #[verifier::type_invariant]
    closed spec fn inv(&self) -> bool {
        &&& key_order(self.index).len() == self.slots@.len()
        &&& key_order(self.index).no_duplicates()
    }

    /// An empty cache.
    pub fn new() -> (cache: Self)
        ensures
            cache@ == Contents::<V>::empty(),
    {
        let cache = Cache { index: set_new(), slots: Vec::new() };
        assert(cache@.entries =~= Map::<u128, V>::empty());
        cache
    }

    /// The number of entries.
    pub fn len(&self) -> (n: usize)
        ensures
            n == self@.len(),
            self@.wf(),
    {
        proof {
            use_type_invariant(self);
        }
        set_len(&self.index)
    }

    /// Whether a value is filed under `key`.
    pub fn contains_key(&self, key: u128) -> (found: bool)
        ensures
            found == self@.contains_key(key),
    {
        set_index_of(&self.index, key).is_some()
    }

    /// The value filed under `key`, if there is one.
    pub fn get(&self, key: u128) -> (found: Option<&V>)
        ensures
            match found {
                Some(value) => self@.get(key) == Some(*value),
                None => self@.get(key) is None,
            },
    {
        proof {
            use_type_invariant(self);
        }
        match set_index_of(&self.index, key) {
            Some(i) => Some(&self.slots[i]),
            None => None,
        }
    }

    /// Insert or overwrite. A key that is already there keeps its place in
    /// the order and gets the new value; a new key goes last. Returns whether
    /// the key was new.
    pub fn upsert(&mut self, key: u128, value: V) -> (fresh: bool)
        ensures
            final(self)@ == old(self)@.upsert(key, value),
            final(self)@.wf(),
            fresh == !old(self)@.contains_key(key),
            final(self)@.len() == old(self)@.len() + if fresh {
                1nat
            } else {
                0nat
            },
    {
        // The cache is taken apart, changed, and put together again, so that
        // it is whole whenever it can be seen.
        let mut taken = Cache::new();
        std::mem::swap(self, &mut taken);
        proof {
            use_type_invariant(&taken);
        }
        let ghost want = taken@.upsert(key, value);
        let Cache { index, slots } = taken;
        let mut index = index;
        let mut slots = slots;
        let ghost before = key_order(index);
        let ghost slots_before = slots@;
        let (i, fresh) = set_insert_full(&mut index, key);
        if fresh {
            slots.push(value);
        } else {
            slots.set(i, value);
        }
        *self = Cache { index, slots };
        proof {
            let after = key_order(self.index);
            assert(after == want.order);
            assert(after.no_duplicates());
            assert forall|k: u128| after.contains(k) <==> (before.contains(k) || k == key) by {
                if before.contains(k) {
                    let j0 = before.index_of(k);
                    assert(after[j0] == k);
                }
                if k == key {
                    assert(after[i as int] == key);
                }
            }
            assert forall|k: u128| #[trigger] after.contains(k) implies self.slots@[after.index_of(
                k,
            )] == want.entries[k] by {
                let j = after.index_of(k);
                assert(0 <= j < after.len() && after[j] == k);
                if k == key {
                    assert(after[i as int] == key);
                    assert(j == i);
                } else {
                    assert(before.contains(k));
                    let j0 = before.index_of(k);
                    assert(0 <= j0 < before.len() && before[j0] == k);
                    assert(after[j0] == k);
                    assert(j == j0);
                    assert(self.slots@[j] == slots_before[j0]);
                }
            }
            assert(self@.entries =~= want.entries);
        }
        fresh
    }

    /// The key at position `at` in the order of first insertion, if the cache
    /// holds that many entries.
    pub fn key_at(&self, at: usize) -> (found: Option<u128>)
        ensures
            found == if at < self@.len() {
                Some(self@.order[at as int])
            } else {
                None
            },
    {
        set_key_at(&self.index, at)
    }

    /// Forget every entry.
    pub fn clear(&mut self)
        ensures
            final(self)@ == Contents::<V>::empty(),
    {
        let mut taken = Cache::new();
        std::mem::swap(self, &mut taken);
        let Cache { index, slots } = taken;
        let mut index = index;
        let mut slots = slots;
        set_clear(&mut index);
        slots.clear();
        *self = Cache { index, slots };
        assert(self@.entries =~= Map::<u128, V>::empty());
    }

    /// The values, in the order in which their keys first arrived.
    pub fn snapshot(&self) -> (values: &Vec<V>)
        ensures
            values@ == self@.values(),
            self@.wf(),
    {
        proof {
            use_type_invariant(self);
            assert forall|i: int| 0 <= i < self.slots@.len() implies self.slots@[i]
                == #[trigger] self@.values()[i] by {
                let k = key_order(self.index)[i];
                assert(key_order(self.index).index_of(k) == i);
            }
            assert(self.slots@ =~= self@.values());
        }
        &self.slots
    }
}

} // verus!
