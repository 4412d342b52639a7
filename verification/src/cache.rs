//! The shared, thread-safe cache.
//!
//! [`LruCache`] owns one [`LruInner`] behind a verified reader/writer lock
//! used here in exclusive mode only: both `insert` and `get` take the write
//! side, because a read promotes its key and so mutates the recency order.
//! The lock carries [`CachePred`] as its invariant, so releasing it demands a
//! proof that the inner state is well formed and still has the cache's
//! capacity — whenever no operation holds the lock, the state satisfies
//! [`LruInner::wf`], under any interleaving of concurrent callers.

use vstd::prelude::*;
use vstd::rwlock::RwLock;
use vstd::rwlock::RwLockPredicate;

use crate::inner::LruInner;

verus! {

/// The lock invariant: only a well-formed state with the configured
/// capacity can ever be stored back into the lock.
pub struct CachePred {
    pub capacity: int,
}

impl RwLockPredicate<LruInner> for CachePred {
    open spec fn inv(self, v: LruInner) -> bool {
        &&& v.wf()
        &&& v.capacity() == self.capacity
    }
}

/// A thread-safe cache with least-recently-used eviction.
///
/// The cache stores key/value pairs up to a fixed capacity; exceeding it
/// evicts the least recently used entry. Every operation acquires the
/// internal lock for its full duration, so concurrent callers are fully
/// serialized and never observe the table and the recency order in
/// disagreement. `get` takes the same exclusive lock as `insert`: a hit
/// promotes its key, so even a read reshapes the eviction order.
pub struct LruCache {
    capacity: usize,
    inner: RwLock<LruInner, CachePred>,
}

impl LruCache {
    /// The fixed maximum number of entries, chosen at construction.
    pub closed spec fn capacity(&self) -> usize {
        self.capacity
    }

    /// The cache is tied to its lock invariant: whatever the lock hands out
    /// is well formed and sized to this cache's capacity.
    pub closed spec fn wf(&self) -> bool {
        &&& self.inner.pred() == (CachePred { capacity: self.capacity as int })
        &&& self.capacity >= 1
    }

    /// Creates a new cache with the specified maximum number of entries.
    /// The capacity must be positive: a cache that could hold nothing would
    /// have every insert evict immediately, and this design rejects that at
    /// construction instead.
    pub fn new(capacity: usize) -> (c: Self)
        requires
            capacity >= 1,
        ensures
            c.wf(),
            c.capacity() == capacity,
    {
        let state = LruInner::new(capacity);
        let inner = RwLock::new(state, Ghost(CachePred { capacity: capacity as int }));
        LruCache { capacity, inner }
    }

    /// Inserts a key/value pair, overwriting any value already stored under
    /// the key; the key becomes the most recently used entry, and inserting
    /// a fresh key into a full cache evicts the least recently used one.
    /// The lock is held for the whole mutation, so the well-formed-state
    /// invariant holds again the moment this returns.
    pub fn insert(&self, key: u64, value: String)
        requires
            self.wf(),
    {
        let (mut state, handle) = self.inner.acquire_write();
        state.insert(key, value);
        handle.release_write(state);
    }

    /// Returns a copy of the value associated with `key`, or `None` if there
    /// is none. A hit promotes `key` to the most-recently-used position — a
    /// recency-bumping read — while a miss changes nothing.
    pub fn get(&self, key: u64) -> Option<String>
        requires
            self.wf(),
    {
        let (mut state, handle) = self.inner.acquire_write();
        let result = state.get(key);
        handle.release_write(state);
        result
    }

    /// The number of entries currently stored, never above the capacity.
    pub fn len(&self) -> (n: usize)
        requires
            self.wf(),
        ensures
            n <= self.capacity(),
    {
        let (state, handle) = self.inner.acquire_write();
        let n = state.len();
        handle.release_write(state);
        n
    }
}

} // verus!
