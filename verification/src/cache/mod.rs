//! The cache engine: entries, the recency tracker, statistics and the store.

pub mod clock;
pub mod entry;
pub mod laws;
pub mod preserved;
pub mod lru;
pub mod model;
pub mod stats;
pub mod store;

pub use clock::{current_timestamp_ms, timestamp_from};
pub use entry::{CacheEntry, EntryModel};
pub use lru::LruTracker;
pub use model::StoreModel;
pub use stats::CacheStats;
pub use store::CacheStore;

use vstd::prelude::*;

verus! {

/// Largest accepted key, in bytes.
pub const MAX_KEY_LENGTH: usize = 256;

/// Largest accepted value, in bytes.
pub const MAX_VALUE_SIZE: usize = 1048576;

} // verus!
