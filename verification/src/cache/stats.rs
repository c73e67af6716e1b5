//! Counters of cache activity.

use vstd::prelude::*;

verus! {

/// `count + 1`, held at the largest 64-bit value once it is reached.
pub open spec fn bumped(count: u64) -> u64 {
    if count < u64::MAX {
        (count + 1) as u64
    } else {
        u64::MAX
    }
}

/// Hits, misses and evictions since the cache was created, and the number of
/// entries it holds now. The three counters never decrease and never wrap.
#[derive(Debug, Clone)]
pub struct CacheStats {
    /// Reads that found a live entry.
    pub hits: u64,
    /// Reads that found no entry, or an expired one.
    pub misses: u64,
    /// Entries removed to make room for a new key.
    pub evictions: u64,
    /// Entries held now.
    pub total_entries: usize,
}

impl Default for CacheStats {
    fn default() -> (stats: Self)
        ensures
            stats == CacheStats::zero(),
    {
        CacheStats { hits: 0, misses: 0, evictions: 0, total_entries: 0 }
    }
}

impl CacheStats {
    /// The statistics of a cache that nothing has happened to.
    pub open spec fn zero() -> CacheStats {
        CacheStats { hits: 0, misses: 0, evictions: 0, total_entries: 0 }
    }

    /// These statistics after one more hit.
    pub open spec fn with_hit(self) -> CacheStats {
        CacheStats { hits: bumped(self.hits), ..self }
    }

    /// These statistics after one more miss.
    pub open spec fn with_miss(self) -> CacheStats {
        CacheStats { misses: bumped(self.misses), ..self }
    }

    /// These statistics after one more eviction.
    pub open spec fn with_eviction(self) -> CacheStats {
        CacheStats { evictions: bumped(self.evictions), ..self }
    }

    /// These statistics with the entry count replaced.
    pub open spec fn with_total(self, count: usize) -> CacheStats {
        CacheStats { total_entries: count, ..self }
    }

    /// All counters at zero.
    pub fn new() -> (stats: Self)
        ensures
            stats == CacheStats::zero(),
    {
        CacheStats { hits: 0, misses: 0, evictions: 0, total_entries: 0 }
    }

    /// The number of reads recorded: hits and misses together.
    pub fn total_requests(&self) -> (total: u128)
        ensures
            total == self.hits + self.misses,
    {
        let hits: u128 = self.hits as u128;
        let misses: u128 = self.misses as u128;
        hits + misses
    }

    /// Counts one hit.
    pub fn record_hit(&mut self)
        ensures
            *final(self) == old(self).with_hit(),
    {
        self.hits = self.hits.saturating_add(1);
    }

    /// Counts one miss.
    pub fn record_miss(&mut self)
        ensures
            *final(self) == old(self).with_miss(),
    {
        self.misses = self.misses.saturating_add(1);
    }

    /// Counts one eviction.
    pub fn record_eviction(&mut self)
        ensures
            *final(self) == old(self).with_eviction(),
    {
        self.evictions = self.evictions.saturating_add(1);
    }

    /// Replaces the entry count.
    pub fn set_total_entries(&mut self, count: usize)
        ensures
            *final(self) == old(self).with_total(count),
    {
        self.total_entries = count;
    }
}

} // verus!
