//! A bounded, thread-safe cache with least-recently-used (LRU) eviction.
//!
//! The cache stores `u64` keys mapped to `String` values, up to a fixed
//! capacity chosen at construction. When an insertion would push the entry
//! count past the capacity, the entry whose most recent touch (insert or
//! read) is oldest is evicted. Reads are recency-bumping: a successful
//! `get` promotes its key to the most-recently-used position, so a read
//! changes the eviction order even though it changes no stored data.

pub mod cache;
pub mod inner;
pub mod laws;
pub mod model;

pub use cache::LruCache;
pub use inner::LruInner;
