//! Specification-level model of the cache's recency order and lookup table.
//!
//! The recency order is a sequence of keys, front (index 0) = most recently
//! used, back = least recently used. The spec functions here describe how one
//! `insert` or `get` transforms the order and the table; the executable
//! operations in [`crate::inner`] promise exactly these transformations.

use vstd::prelude::*;

verus! {

/// The recency order after a key already present in `o` is touched:
/// its one occurrence is spliced out and the key is reinserted at the front.
pub open spec fn promote(o: Seq<u64>, k: u64) -> Seq<u64> {
    seq![k] + o.remove(o.index_of(k))
}

/// The recency order after `insert(k, _)` into a state with order `o` and
/// capacity `cap`: an existing key is promoted; a fresh key is pushed to the
/// front, and if the state was full the back (least-recently-used) key leaves.
pub open spec fn order_after_insert(o: Seq<u64>, cap: usize, k: u64) -> Seq<u64> {
    if o.contains(k) {
        promote(o, k)
    } else if o.len() < cap {
        seq![k] + o
    } else {
        (seq![k] + o).drop_last()
    }
}

/// The lookup table after `insert(k, v)`: `k` now maps to `v`, and when the
/// insertion of a fresh key overflows a full state, the least-recently-used
/// key (the back of `o`) is removed.
pub open spec fn table_after_insert(
    t: Map<u64, String>,
    o: Seq<u64>,
    cap: usize,
    k: u64,
    v: String,
) -> Map<u64, String> {
    if o.contains(k) || o.len() < cap {
        t.insert(k, v)
    } else {
        t.insert(k, v).remove(o.last())
    }
}

/// The recency order after `get(k)`: a hit promotes `k`, a miss changes nothing.
/// The table is never changed by `get`.
pub open spec fn order_after_get(o: Seq<u64>, k: u64) -> Seq<u64> {
    if o.contains(k) {
        promote(o, k)
    } else {
        o
    }
}

/// Properties of [`promote`] on a duplicate-free order that contains `k`:
/// the length is preserved, no duplicate appears, `k` moves to the front,
/// membership is unchanged, and (when at least one other key is present)
/// the new back is one of the old keys and is not `k`.
pub proof fn lemma_promote(o: Seq<u64>, k: u64)
    requires
        o.no_duplicates(),
        o.contains(k),
    ensures
        promote(o, k).len() == o.len(),
        promote(o, k)[0] == k,
        promote(o, k).no_duplicates(),
        forall|x: u64| #[trigger] promote(o, k).contains(x) <==> o.contains(x),
        o.len() >= 2 ==> promote(o, k).last() != k && o.contains(promote(o, k).last()),
{
    let i = o.index_of(k);
    assert(0 <= i < o.len() && o[i] == k);
    o.remove_ensures(i);
    let p = promote(o, k);
    assert(p.len() == o.len());
    assert(p[0] == k);
    assert forall|a: int, b: int|
        0 <= a < p.len() && 0 <= b < p.len() && a != b implies p[a] != p[b] by {
        let ia: int = if a == 0 { i } else if a - 1 < i { a - 1 } else { a };
        let ib: int = if b == 0 { i } else if b - 1 < i { b - 1 } else { b };
        assert(p[a] == o[ia]);
        assert(p[b] == o[ib]);
        assert(ia != ib);
    }
    assert forall|x: u64| #[trigger] p.contains(x) <==> o.contains(x) by {
        if x == k {
            assert(p[0] == x);
            assert(o[i] == x);
        } else {
            if p.contains(x) {
                let a = choose|a: int| 0 <= a < p.len() && p[a] == x;
                assert(a != 0);
                let ia: int = if a - 1 < i { a - 1 } else { a };
                assert(p[a] == o[ia]);
            }
            if o.contains(x) {
                let j = choose|j: int| 0 <= j < o.len() && o[j] == x;
                assert(j != i);
                if j < i {
                    assert(p[j + 1] == o[j]);
                } else {
                    assert(p[j] == o[j]);
                }
            }
        }
    }
    if o.len() >= 2 {
        let a = p.len() - 1;
        let ia: int = if a - 1 < i { a - 1 } else { a };
        assert(p[a] == o[ia]);
        assert(ia != i);
    }
}

/// Pushing a fresh key `k` onto the front of a duplicate-free order keeps it
/// duplicate-free, lengthens it by one, and adds exactly `k` to its members.
pub proof fn lemma_push_front(o: Seq<u64>, k: u64)
    requires
        o.no_duplicates(),
        !o.contains(k),
    ensures
        (seq![k] + o).len() == o.len() + 1,
        (seq![k] + o)[0] == k,
        (seq![k] + o).no_duplicates(),
        forall|x: u64| #[trigger] (seq![k] + o).contains(x) <==> (x == k || o.contains(x)),
{
    let p = seq![k] + o;
    assert forall|a: int, b: int|
        0 <= a < p.len() && 0 <= b < p.len() && a != b implies p[a] != p[b] by {
        if a == 0 {
            assert(p[b] == o[b - 1]);
            if o[b - 1] == k {
                assert(o.contains(k));
            }
        } else if b == 0 {
            assert(p[a] == o[a - 1]);
            if o[a - 1] == k {
                assert(o.contains(k));
            }
        } else {
            assert(p[a] == o[a - 1]);
            assert(p[b] == o[b - 1]);
        }
    }
    assert forall|x: u64| #[trigger] p.contains(x) <==> (x == k || o.contains(x)) by {
        if x == k {
            assert(p[0] == x);
        }
        if p.contains(x) && x != k {
            let a = choose|a: int| 0 <= a < p.len() && p[a] == x;
            assert(a != 0);
            assert(o[a - 1] == x);
        }
        if o.contains(x) {
            let j = choose|j: int| 0 <= j < o.len() && o[j] == x;
            assert(p[j + 1] == x);
        }
    }
}

/// Dropping the back of a duplicate-free, non-empty order keeps it
/// duplicate-free and removes exactly the back key from its members.
pub proof fn lemma_drop_back(o: Seq<u64>)
    requires
        o.no_duplicates(),
        o.len() >= 1,
    ensures
        o.drop_last().len() == o.len() - 1,
        o.drop_last().no_duplicates(),
        forall|x: u64| #[trigger] o.drop_last().contains(x) <==> (o.contains(x) && x != o.last()),
        forall|i: int| 0 <= i < o.len() - 1 ==> o.drop_last()[i] == o[i],
{
    let d = o.drop_last();
    assert forall|x: u64| #[trigger] d.contains(x) <==> (o.contains(x) && x != o.last()) by {
        if d.contains(x) {
            let a = choose|a: int| 0 <= a < d.len() && d[a] == x;
            assert(o[a] == x);
            assert(o[a] != o[o.len() - 1]);
        }
        if o.contains(x) && x != o.last() {
            let j = choose|j: int| 0 <= j < o.len() && o[j] == x;
            assert(j != o.len() - 1);
            assert(d[j] == x);
        }
    }
}

} // verus!
