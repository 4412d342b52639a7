//! The cache state proper: a lookup table plus a recency order.
//!
//! [`LruInner`] is the state that [`crate::cache::LruCache`] guards with its
//! lock; it is also usable on its own as a single-threaded LRU cache. Its
//! operations carry exact contracts over two spec-level projections: the
//! lookup table [`LruInner::table`] (a map from key to value) and the recency
//! order [`LruInner::order`] (a sequence of keys, front = most recently used,
//! back = least recently used). The well-formedness invariant [`LruInner::wf`]
//! ties the two together: the order holds each stored key exactly once and
//! never more keys than the capacity.

use std::collections::HashMap;
use std::collections::VecDeque;
use vstd::prelude::*;

use crate::model::lemma_drop_back;
use crate::model::lemma_promote;
use crate::model::lemma_push_front;
use crate::model::order_after_get;
use crate::model::order_after_insert;
use crate::model::promote;
use crate::model::table_after_insert;

verus! {

broadcast use vstd::std_specs::hash::group_hash_axioms;

/// A bounded cache with least-recently-used eviction, for exclusive use by
/// one owner. `insert` and `get` both touch the recency order; a successful
/// `get` is a recency-bumping read, not a pure read.
pub struct LruInner {
    capacity: usize,
    /// Stores the key/value pairs.
    map: HashMap<u64, String>,
    /// Tracks recency of use: the front is the most recently used key.
    usage: VecDeque<u64>,
}

impl LruInner {
    /// The fixed maximum number of entries, chosen at construction.
    pub closed spec fn capacity(&self) -> usize {
        self.capacity
    }

    /// The lookup table: which key currently maps to which value.
    pub closed spec fn table(&self) -> Map<u64, String> {
        self.map@
    }

    /// The recency order: front (index 0) = most recently used key,
    /// back = least recently used key.
    pub closed spec fn order(&self) -> Seq<u64> {
        self.usage@
    }

    /// Well-formedness: the capacity is positive, the order holds no key
    /// twice, it never exceeds the capacity, and it holds exactly the keys
    /// of the table.
    pub open spec fn wf(&self) -> bool {
        &&& self.capacity() >= 1
        &&& self.order().no_duplicates()
        &&& self.order().len() <= self.capacity()
        &&& forall|k: u64| #![trigger self.table().contains_key(k)] #![trigger self.order().contains(k)]
            self.table().contains_key(k) <==> self.order().contains(k)
    }

    /// Creates an empty cache state that can hold up to `capacity` entries.
    /// A capacity of zero is rejected here, by precondition: every state this
    /// module hands out can hold at least one entry.
    pub fn new(capacity: usize) -> (c: Self)
        requires
            capacity >= 1,
        ensures
            c.wf(),
            c.capacity() == capacity,
            c.table() == Map::<u64, String>::empty(),
            c.order() == Seq::<u64>::empty(),
    {
        let c = LruInner {
            capacity,
            map: HashMap::with_capacity(capacity),
            usage: VecDeque::with_capacity(capacity),
        };
        proof {
            assert(forall|k: u64| !(#[trigger] c.order().contains(k)));
        }
        c
    }

    /// The current number of stored entries (bounded by the capacity
    /// whenever the state is well formed).
    pub fn len(&self) -> (n: usize)
        ensures
            n == self.order().len(),
            self.wf() ==> n <= self.capacity(),
    {
        self.usage.len()
    }

    /// Returns the position of `key` in `queue`, which must contain it.
    fn find_pos(queue: &VecDeque<u64>, key: u64) -> (pos: usize)
        requires
            queue@.contains(key),
        ensures
            pos < queue@.len(),
            queue@[pos as int] == key,
    {
        let n = queue.len();
        let mut pos: usize = 0;
        loop
            invariant
                n == queue@.len(),
                queue@.contains(key),
                pos <= n,
                forall|j: int| 0 <= j < pos ==> queue@[j] != key,
            decreases n - pos,
        {
            proof {
                let w = choose|w: int| 0 <= w < queue@.len() && queue@[w] == key;
                assert(w >= pos);
                assert(pos < n);
            }
            if queue[pos] == key {
                return pos;
            }
            pos = pos + 1;
        }
    }

    /// Moves an existing key to the front of the queue, so that it becomes
    /// the most recently used one.
    fn move_to_front(queue: &mut VecDeque<u64>, key: u64)
        requires
            old(queue)@.contains(key),
            old(queue)@.no_duplicates(),
        ensures
            final(queue)@ == promote(old(queue)@, key),
    {
        let pos = Self::find_pos(queue, key);
        proof {
            let i = old(queue)@.index_of(key);
            assert(0 <= i < old(queue)@.len() && old(queue)@[i] == key);
            assert(pos as int == i);
        }
        queue.remove(pos);
        queue.push_front(key);
    }

    /// Inserts a key/value pair. If the key already exists, its value is
    /// overwritten; either way the key becomes the most recently used one.
    /// When the insertion of a fresh key would exceed the capacity, the
    /// least recently used entry is evicted — exactly one, since each
    /// insert adds at most one key.
    pub fn insert(&mut self, key: u64, value: String)
        requires
            old(self).wf(),
        ensures
            final(self).wf(),
            final(self).capacity() == old(self).capacity(),
            final(self).table() == table_after_insert(
                old(self).table(),
                old(self).order(),
                old(self).capacity(),
                key,
                value,
            ),
            final(self).order() == order_after_insert(
                old(self).order(),
                old(self).capacity(),
                key,
            ),
            final(self).table().contains_key(key),
            final(self).table()[key] == value,
            final(self).order().len() >= 1 && final(self).order()[0] == key,
    {
        let ghost t0 = old(self).table();
        let ghost o0 = old(self).order();
        let ghost cap = old(self).capacity();

        // If the key already exists, update the value and promote the key.
        if self.map.contains_key(&key) {
            self.map.insert(key, value);
            proof {
                assert(o0.contains(key));
                lemma_promote(o0, key);
            }
            Self::move_to_front(&mut self.usage, key);
            proof {
                assert(self.table() =~= t0.insert(key, value));
                assert forall|k: u64| self.table().contains_key(k) <==> #[trigger] self.order().contains(k) by {
                    assert(self.order().contains(k) <==> o0.contains(k));
                }
            }
            return;
        }

        // Insert the new key/value pair at the most-recently-used position.
        self.map.insert(key, value);
        self.usage.push_front(key);
        proof {
            assert(!o0.contains(key));
            lemma_push_front(o0, key);
            assert(self.table() =~= t0.insert(key, value));
            assert(self.order() == seq![key] + o0);
        }

        // Evict the least recently used entry if the capacity is exceeded.
        if self.usage.len() > self.capacity {
            let ghost o1 = self.order();
            proof {
                assert(o0.len() == cap);
                lemma_drop_back(o1);
            }
            if let Some(oldest) = self.usage.pop_back() {
                proof {
                    assert(oldest == o1.last());
                    assert(o1.last() == o0.last());
                    assert(o0.contains(o0.last()));
                    assert(oldest != key);
                    assert(self.order() == o1.drop_last());
                }
                self.map.remove(&oldest);
                proof {
                    assert(self.table() =~= t0.insert(key, value).remove(o0.last()));
                    assert forall|k: u64|
                        self.table().contains_key(k) <==> #[trigger] self.order().contains(k) by {
                        assert(self.order().contains(k) <==> (o1.contains(k) && k != o1.last()));
                        assert(o1.contains(k) <==> (k == key || o0.contains(k)));
                    }
                }
            }
        }
    }

    /// Returns a copy of the value stored under `key`, promoting `key` to
    /// the most-recently-used position; a miss returns `None` and leaves
    /// both the table and the recency order untouched.
    pub fn get(&mut self, key: u64) -> (r: Option<String>)
        requires
            old(self).wf(),
        ensures
            final(self).wf(),
            final(self).capacity() == old(self).capacity(),
            final(self).table() == old(self).table(),
            final(self).order() == order_after_get(old(self).order(), key),
            old(self).table().contains_key(key) ==> r == Some(old(self).table()[key])
                && final(self).order().len() >= 1 && final(self).order()[0] == key,
            !old(self).table().contains_key(key) ==> r is None && final(self).order() == old(
                self,
            ).order(),
    {
        let ghost o0 = old(self).order();
        match self.map.get(&key) {
            Some(value) => {
                let result = value.clone();
                proof {
                    assert(o0.contains(key));
                    lemma_promote(o0, key);
                }
                Self::move_to_front(&mut self.usage, key);
                proof {
                    assert forall|k: u64|
                        self.table().contains_key(k) <==> #[trigger] self.order().contains(k) by {
                        assert(self.order().contains(k) <==> o0.contains(k));
                    }
                }
                Some(result)
            },
            None => None,
        }
    }
}

} // verus!
