//! The behavioural laws of the cache, stated and proved once, for every
//! state the library can produce.
//!
//! The operations in [`crate::inner`] promise exactly the transformations
//! written in [`crate::model`]; the proofs here state what those
//! transformations guarantee: the capacity bound, which key an overflowing
//! insert evicts, how a promotion protects a key from eviction, and what
//! overwriting an existing key does. The remaining laws live elsewhere:
//! that a miss leaves everything unchanged is an `ensures` clause of
//! [`crate::inner::LruInner::get`], and that concurrent use preserves
//! well-formedness at every quiescent point is the lock invariant
//! [`crate::cache::CachePred`], which every release of the lock must prove.

use vstd::prelude::*;

use crate::inner::LruInner;
use crate::model::lemma_drop_back;
use crate::model::lemma_promote;
use crate::model::lemma_push_front;
use crate::model::order_after_get;
use crate::model::order_after_insert;
use crate::model::table_after_insert;

verus! {

/// Capacity bound: a well-formed state stores no more entries than its
/// capacity, and its table and its recency order always agree on the count.
pub proof fn lemma_capacity_bound(c: LruInner)
    requires
        c.wf(),
    ensures
        c.table().len() == c.order().len(),
        c.table().len() <= c.capacity(),
{
    assert(c.table().dom() =~= c.order().to_set());
    c.order().unique_seq_to_set();
}

/// Eviction correctness: inserting a fresh key into a full state evicts
/// exactly the least-recently-used key — the back of the recency order —
/// and keeps every other entry, with its value, while the entry count
/// stays at the capacity.
pub proof fn lemma_eviction_correct(t: Map<u64, String>, o: Seq<u64>, cap: usize, k: u64, v: String)
    requires
        cap >= 1,
        o.no_duplicates(),
        o.len() == cap,
        forall|x: u64| #![trigger t.contains_key(x)] #![trigger o.contains(x)]
            t.contains_key(x) <==> o.contains(x),
        !o.contains(k),
    ensures
        ({
            let t2 = table_after_insert(t, o, cap, k, v);
            let o2 = order_after_insert(o, cap, k);
            &&& !t2.contains_key(o.last())
            &&& !o2.contains(o.last())
            &&& t2.contains_key(k) && t2[k] == v
            &&& o2.contains(k) && o2[0] == k
            &&& forall|x: u64|
                t.contains_key(x) && x != o.last() ==> #[trigger] t2.contains_key(x)
                    && t2[x] == t[x]
            &&& o2.len() == o.len()
            &&& o2.no_duplicates()
        }),
{
    let p = seq![k] + o;
    lemma_push_front(o, k);
    lemma_drop_back(p);
    let t2 = table_after_insert(t, o, cap, k, v);
    let o2 = order_after_insert(o, cap, k);
    assert(o.contains(o.last()));
    assert(k != o.last());
    assert(p.last() == o.last());
    assert(o2 == p.drop_last());
    assert(o2[0] == p[0]);
}

/// Promotion on read: after `get(k)` succeeds on a full state, `k` sits at
/// the most-recently-used position, and a subsequent insert of a fresh key
/// evicts the key that became least recently used — never `k` itself. In
/// particular, when `k` was the least recently used key, the evicted key is
/// the one that was next in line.
pub proof fn lemma_promotion_protects(o: Seq<u64>, cap: usize, k: u64, k2: u64)
    requires
        cap >= 2,
        o.no_duplicates(),
        o.len() == cap,
        o.contains(k),
        !o.contains(k2),
    ensures
        ({
            let o1 = order_after_get(o, k);
            let o2 = order_after_insert(o1, cap, k2);
            let evicted = o1.last();
            &&& o1[0] == k
            &&& evicted != k
            &&& o.contains(evicted)
            &&& o2.contains(k)
            &&& !o2.contains(evicted)
            &&& o2[0] == k2
            &&& k == o.last() ==> evicted == o[o.len() - 2]
        }),
{
    lemma_promote(o, k);
    let o1 = order_after_get(o, k);
    assert(!o1.contains(k2));
    let p = seq![k2] + o1;
    lemma_push_front(o1, k2);
    lemma_drop_back(p);
    let o2 = order_after_insert(o1, cap, k2);
    assert(o2 == p.drop_last());
    assert(p.last() == o1.last());
    assert(o2[0] == p[0]);
    assert(o1.last() != k && o.contains(o1.last()));
    assert(o2.contains(k));
    if k == o.last() {
        let i = o.index_of(k);
        assert(0 <= i < o.len() && o[i] == k);
        assert(i == o.len() - 1);
        o.remove_ensures(i);
        assert(o1.last() == o.remove(i)[o.len() - 2]);
        assert(o.remove(i)[o.len() - 2] == o[o.len() - 2]);
    }
}

/// Overwrite semantics: inserting under a key and then inserting under the
/// same key again leaves exactly one entry for that key — it holds the
/// second value, sits at the most-recently-used position, and the second
/// insert evicts nothing: the entry count does not change.
pub proof fn lemma_overwrite(
    t: Map<u64, String>,
    o: Seq<u64>,
    cap: usize,
    k: u64,
    v1: String,
    v2: String,
)
    requires
        cap >= 1,
        o.no_duplicates(),
        o.len() <= cap,
        forall|x: u64| #![trigger t.contains_key(x)] #![trigger o.contains(x)]
            t.contains_key(x) <==> o.contains(x),
    ensures
        ({
            let t1 = table_after_insert(t, o, cap, k, v1);
            let o1 = order_after_insert(o, cap, k);
            let t2 = table_after_insert(t1, o1, cap, k, v2);
            let o2 = order_after_insert(o1, cap, k);
            &&& t2 == t1.insert(k, v2)
            &&& t2.contains_key(k) && t2[k] == v2
            &&& o2.no_duplicates() && o2.contains(k) && o2[0] == k
            &&& o2.len() == o1.len()
            &&& t2.len() == t1.len()
        }),
{
    let t1 = table_after_insert(t, o, cap, k, v1);
    let o1 = order_after_insert(o, cap, k);
    if o.contains(k) {
        lemma_promote(o, k);
    } else if o.len() < cap {
        lemma_push_front(o, k);
    } else {
        let p = seq![k] + o;
        lemma_push_front(o, k);
        lemma_drop_back(p);
        assert(o.contains(o.last()));
        assert(k != o.last());
        assert(o1 == p.drop_last());
        assert(o1[0] == p[0]);
    }
    assert(o1.contains(k));
    assert(t1.contains_key(k));
    lemma_promote(o1, k);
    let t2 = table_after_insert(t1, o1, cap, k, v2);
    let o2 = order_after_insert(o1, cap, k);
    assert(t2 == t1.insert(k, v2));
    assert(t2.dom() =~= t1.dom());
}

} // verus!
