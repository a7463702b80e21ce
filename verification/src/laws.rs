//! What holds of the cache across operations, proved over the mathematical
//! content of entries and caches.
//!
//! `entry` speaks of one entry, `cache` of the entries of a cache, `sweep`
//! of the sweep over all observers, and `reachable` of every cache that
//! operations can reach from the empty one.

pub mod cache;
pub mod entry;
pub mod reachable;
pub mod sweep;
