//! The store: entries by key, within a fixed capacity, each with a time to
//! live; the least recently used entry makes room for a new key.

use super::clock::current_timestamp_ms;
use super::entry::{CacheEntry, EntryModel};
use super::lru::{key_views, lemma_filter_all, lemma_filter_keeps, lemma_filter_keeps_distinct,
    lemma_filter_twice, other_than, LruTracker};
use super::model::{among, not_in, StoreModel};
use super::preserved::{lemma_after_cleanup, lemma_after_delete, lemma_after_get,
    lemma_after_set, lemma_evicted};
use super::stats::CacheStats;
use super::{MAX_KEY_LENGTH, MAX_VALUE_SIZE};
use crate::error::{CacheError, ErrorModel};
use vstd::hash_map::StringHashMap;
use vstd::prelude::*;

verus! {

/// The entries of a map, each as its mathematical content.
pub open spec fn entry_views(entries: Map<Seq<char>, CacheEntry>) -> Map<Seq<char>, EntryModel> {
    entries.map_values(|e: CacheEntry| e@)
}

/// Taking the content of each entry changes neither the keys nor their number.
pub proof fn lemma_entry_views(entries: Map<Seq<char>, CacheEntry>)
    ensures
        entry_views(entries).dom() == entries.dom(),
        entry_views(entries).len() == entries.len(),
{
    assert(entry_views(entries).dom() =~= entries.dom());
}

/// What a `set` or `delete` returned, with the error as its content.
pub open spec fn done_view(result: Result<(), CacheError>) -> Result<(), ErrorModel> {
    match result {
        Ok(_) => Ok(()),
        Err(e) => Err(e@),
    }
}

/// What a `get` returned, with value and error as their content.
pub open spec fn value_view(result: Result<String, CacheError>) -> Result<Seq<char>, ErrorModel> {
    match result {
        Ok(value) => Ok(value@),
        Err(e) => Err(e@),
    }
}

/// A bounded cache of string values by string keys, with expiry and
/// least-recently-used eviction.
pub struct CacheStore {
    entries: StringHashMap<CacheEntry>,
    lru: LruTracker,
    stats: CacheStats,
    max_entries: usize,
    default_ttl: u64,
}

impl View for CacheStore {
    type V = StoreModel;

    closed spec fn view(&self) -> StoreModel {
        StoreModel {
            entries: entry_views(self.entries@),
            order: self.lru@,
            stats: self.stats,
            max_entries: self.max_entries as nat,
            default_ttl: self.default_ttl as nat,
        }
    }
}

impl CacheStore {
    /// The store's state is well formed; see [`StoreModel::well_formed`].
    pub open spec fn well_formed(&self) -> bool {
        self@.well_formed()
    }

    /// An empty store that holds at most `max_entries` entries and gives an
    /// entry `default_ttl` seconds to live where `set` names no other time.
    pub fn new(max_entries: usize, default_ttl: u64) -> (store: Self)
        ensures
            store@ == StoreModel::empty(max_entries as nat, default_ttl as nat),
            store.well_formed(),
    {
        let store = CacheStore {
            entries: StringHashMap::new(),
            lru: LruTracker::new(),
            stats: CacheStats::new(),
            max_entries,
            default_ttl,
        };
        assert(store@.entries =~= Map::<Seq<char>, EntryModel>::empty());
        store
    }

    /// The number of entries held, expired ones included until they are
    /// found or swept.
    pub fn len(&self) -> (n: usize)
        requires
            self.well_formed(),
        ensures
            n == self@.len(),
            n <= self@.max_entries,
    {
        broadcast use vstd::hash_map::group_hash_map_axioms;

        proof {
            lemma_entry_views(self.entries@);
        }
        self.entries.len()
    }

    /// Whether the store holds no entry.
    pub fn is_empty(&self) -> (empty: bool)
        requires
            self.well_formed(),
        ensures
            empty == (self@.len() == 0),
    {
        self.len() == 0
    }

    /// A copy of the statistics, with the entry count taken anew from the
    /// entries held.
    pub fn stats(&self) -> (stats: CacheStats)
        requires
            self.well_formed(),
        ensures
            stats == self@.stats,
            stats.total_entries == self@.len(),
    {
        let mut stats = CacheStats {
            hits: self.stats.hits,
            misses: self.stats.misses,
            evictions: self.stats.evictions,
            total_entries: self.stats.total_entries,
        };
        stats.set_total_entries(self.len());
        stats
    }

    /// The entry stored under `key`, expired or not. Looking does not count
    /// as a use: recency and statistics stay as they are.
    pub fn peek(&self, key: &str) -> (entry: Option<&CacheEntry>)
        ensures
            match entry {
                Some(e) => self@.entries.contains_key(key@) && e@ == self@.entries[key@],
                None => !self@.entries.contains_key(key@),
            },
    {
        self.entries.get(key)
    }

    /// Stores `value` under `key`, stamped with the current time. See
    /// [`CacheStore::set_at`].
    pub fn set(&mut self, key: String, value: String, ttl: Option<u64>) -> (result: Result<
        (),
        CacheError,
    >)
        requires
            old(self).well_formed(),
        ensures
            final(self).well_formed(),
            done_view(result) == old(self)@.set_outcome(key@, value@),
            exists|now: u64| final(self)@ == old(self)@.after_set(key@, value@, ttl, now),
    {
        let now = current_timestamp_ms();
        self.set_at(key, value, ttl, now)
    }

    /// Stores `value` under `key` as of the time `now`, for `ttl` seconds or,
    /// where none is given, for the store's default time to live.
    ///
    /// An empty or oversized key and an oversized value are refused with
    /// `InvalidRequest`. A new key in a full store evicts the least recently
    /// used key first; a store without capacity fails with `CacheFull`.
    /// Nothing changes where the call fails. Otherwise the key holds a fresh
    /// entry and is the most recently used.
    pub fn set_at(&mut self, key: String, value: String, ttl: Option<u64>, now: u64) -> (result:
        Result<(), CacheError>)
        requires
            old(self).well_formed(),
        ensures
            final(self).well_formed(),
            done_view(result) == old(self)@.set_outcome(key@, value@),
            final(self)@ == old(self)@.after_set(key@, value@, ttl, now),
    {
        broadcast use vstd::hash_map::group_hash_map_axioms;

        proof {
            lemma_after_set(old(self)@, key@, value@, ttl, now);
        }
        if key.as_str().is_empty() {
            return Err(CacheError::InvalidRequest("Key cannot be empty".to_owned()));
        }
        if key.as_str().as_bytes().len() > MAX_KEY_LENGTH {
            return Err(
                CacheError::InvalidRequest("Key exceeds maximum length of 256 bytes".to_owned()),
            );
        }
        if value.as_str().as_bytes().len() > MAX_VALUE_SIZE {
            return Err(
                CacheError::InvalidRequest(
                    "Value exceeds maximum size of 1048576 bytes".to_owned(),
                ),
            );
        }
        proof {
            lemma_entry_views(self.entries@);
        }
        let is_overwrite = self.entries.contains_key(key.as_str());
        if !is_overwrite && self.entries.len() >= self.max_entries {
            match self.lru.evict_oldest() {
                Some(victim) => {
                    self.entries.remove(victim.as_str());
                    self.stats.record_eviction();
                    self.stats.set_total_entries(self.entries.len());
                    proof {
                        lemma_evicted(old(self)@);
                        lemma_entry_views(self.entries@);
                        assert(self@.entries =~= old(self)@.evicted().entries);
                        assert(self@ == old(self)@.evicted());
                    }
                },
                None => {
                    return Err(
                        CacheError::CacheFull("Cache is full and eviction failed".to_owned()),
                    );
                },
            }
        }
        let ghost before = self@;
        let effective_ttl = match ttl {
            Some(seconds) => seconds,
            None => self.default_ttl,
        };
        let entry = CacheEntry::new_at(value, Some(effective_ttl), now);
        self.lru.touch(key.as_str());
        self.entries.insert(key, entry);
        proof {
            lemma_entry_views(self.entries@);
            assert(self@.entries =~= before.stored(key@, value@, ttl, now).entries);
        }
        self.stats.set_total_entries(self.entries.len());
        Ok(())
    }

    /// Reads the value under `key` as of the current time. See
    /// [`CacheStore::get_at`].
    pub fn get(&mut self, key: &str) -> (result: Result<String, CacheError>)
        requires
            old(self).well_formed(),
        ensures
            final(self).well_formed(),
            exists|now: u64|
                {
                    &&& final(self)@ == #[trigger] old(self)@.after_get(key@, now)
                    &&& value_view(result) == old(self)@.get_outcome(key@, now)
                },
    {
        let now = current_timestamp_ms();
        self.get_at(key, now)
    }

    /// Reads the value under `key` as of the time `now`.
    ///
    /// A key that is not stored fails with `NotFound`. One whose entry has
    /// expired fails with `Expired`, and the entry is removed. Both count as
    /// a miss. Otherwise the read counts as a hit, the key becomes the most
    /// recently used, and a copy of the value is returned.
    pub fn get_at(&mut self, key: &str, now: u64) -> (result: Result<String, CacheError>)
        requires
            old(self).well_formed(),
        ensures
            final(self).well_formed(),
            final(self)@ == old(self)@.after_get(key@, now),
            value_view(result) == old(self)@.get_outcome(key@, now),
    {
        broadcast use vstd::hash_map::group_hash_map_axioms;

        proof {
            lemma_after_get(old(self)@, key@, now);
        }
        let found: Option<Option<String>> = match self.entries.get(key) {
            Some(entry) => if entry.is_expired_at(now) {
                Some(None)
            } else {
                Some(Some(entry.value.clone()))
            },
            None => None,
        };
        match found {
            Some(Some(value)) => {
                self.stats.record_hit();
                self.lru.touch(key);
                Ok(value)
            },
            Some(None) => {
                self.entries.remove(key);
                self.lru.remove(key);
                proof {
                    lemma_entry_views(self.entries@);
                    assert(self@.entries =~= old(self)@.dropped(key@).entries);
                }
                self.stats.set_total_entries(self.entries.len());
                self.stats.record_miss();
                Err(CacheError::Expired(key.to_owned()))
            },
            None => {
                self.stats.record_miss();
                Err(CacheError::NotFound(key.to_owned()))
            },
        }
    }

    /// Removes the entry under `key`, expired or not. Fails with `NotFound`,
    /// and changes nothing, where the key is not stored. Hits and misses are
    /// not touched.
    pub fn delete(&mut self, key: &str) -> (result: Result<(), CacheError>)
        requires
            old(self).well_formed(),
        ensures
            final(self).well_formed(),
            final(self)@ == old(self)@.after_delete(key@),
            done_view(result) == old(self)@.delete_outcome(key@),
    {
        broadcast use vstd::hash_map::group_hash_map_axioms;

        proof {
            lemma_after_delete(old(self)@, key@);
        }
        if self.entries.contains_key(key) {
            self.entries.remove(key);
            self.lru.remove(key);
            proof {
                lemma_entry_views(self.entries@);
                assert(self@.entries =~= old(self)@.dropped(key@).entries);
            }
            self.stats.set_total_entries(self.entries.len());
            Ok(())
        } else {
            Err(CacheError::NotFound(key.to_owned()))
        }
    }

    /// Removes every entry that has expired by the current time. See
    /// [`CacheStore::cleanup_expired_at`].
    pub fn cleanup_expired(&mut self) -> (removed: usize)
        requires
            old(self).well_formed(),
        ensures
            final(self).well_formed(),
            exists|now: u64|
                {
                    &&& final(self)@ == #[trigger] old(self)@.after_cleanup(now)
                    &&& removed == old(self)@.expired_keys(now).len()
                },
    {
        let now = current_timestamp_ms();
        self.cleanup_expired_at(now)
    }

    /// Removes every entry that has expired by the time `now`, and returns
    /// how many there were. The other entries keep their recency order.
    /// Hits, misses and evictions are not touched.
    pub fn cleanup_expired_at(&mut self, now: u64) -> (removed: usize)
        requires
            old(self).well_formed(),
        ensures
            final(self).well_formed(),
            final(self)@ == old(self)@.after_cleanup(now),
            removed == old(self)@.expired_keys(now).len(),
    {
        broadcast use vstd::hash_map::group_hash_map_axioms;

        let ghost start = self@;
        let ghost gone = start.expired_keys(now);
        let expired = self.expired_at(now);
        let ghost found = key_views(expired@);
        proof {
            lemma_after_cleanup(start, now);
            lemma_filter_keeps_distinct(start.order, among(gone));
            assert forall|k: Seq<char>| found.to_set().contains(k) <==> gone.contains(k) by {
                lemma_filter_keeps(start.order, among(gone), k);
            }
            assert(found.to_set() =~= gone);
            found.unique_seq_to_set();
            assert(found.subrange(0, 0).to_set() =~= Set::<Seq<char>>::empty());
            assert(start.entries.remove_keys(Set::<Seq<char>>::empty()) =~= start.entries);
            lemma_filter_all(start.order, not_in(Set::<Seq<char>>::empty()));
        }
        let count = expired.len();
        let mut j: usize = 0;
        while j < count
            invariant
                count == expired@.len(),
                j <= count,
                found == key_views(expired@),
                entry_views(self.entries@) == start.entries.remove_keys(
                    found.subrange(0, j as int).to_set(),
                ),
                self.lru@ == start.order.filter(not_in(found.subrange(0, j as int).to_set())),
                self.stats == start.stats,
                self.max_entries == start.max_entries,
                self.default_ttl == start.default_ttl,
            decreases count - j,
        {
            let ghost before = found.subrange(0, j as int).to_set();
            let ghost after = found.subrange(0, j + 1).to_set();
            let key = expired[j].as_str();
            proof {
                assert(found[j as int] == key@);
                assert(found.subrange(0, j + 1) =~= found.subrange(0, j as int).push(key@));
                found.subrange(0, j as int).lemma_push_to_set_commute(key@);
                lemma_filter_twice(start.order, not_in(before), other_than(key@), not_in(after));
            }
            let ghost held = self.entries@;
            self.entries.remove(key);
            self.lru.remove(key);
            proof {
                assert(after == before.insert(key@));
                assert(entry_views(held.remove(key@)) =~= entry_views(held).remove(key@));
                assert(start.entries.remove_keys(before).remove(key@)
                    =~= start.entries.remove_keys(after));
            }
            j += 1;
        }
        proof {
            assert(found.subrange(0, count as int) =~= found);
            lemma_entry_views(self.entries@);
        }
        self.stats.set_total_entries(self.entries.len());
        count
    }

    /// The stored keys whose entries have expired by the time `now`, in
    /// recency order.
    fn expired_at(&self, now: u64) -> (expired: Vec<String>)
        ensures
            key_views(expired@) == self@.order.filter(among(self@.expired_keys(now))),
    {
        let ghost order = self@.order;
        let ghost pred = among(self@.expired_keys(now));
        let mut expired: Vec<String> = Vec::new();
        let n = self.lru.len();
        let mut i: usize = 0;
        assert(key_views(expired@) =~= order.subrange(0, 0).filter(pred)) by {
            reveal(Seq::filter);
        }
        while i < n
            invariant
                n == order.len(),
                i <= n,
                order == self@.order,
                pred == among(self@.expired_keys(now)),
                key_views(expired@) == order.subrange(0, i as int).filter(pred),
            decreases n - i,
        {
            let key = self.lru.key_at(i);
            let is_expired = match self.entries.get(key.as_str()) {
                Some(entry) => entry.is_expired_at(now),
                None => false,
            };
            proof {
                let next = order.subrange(0, i + 1);
                assert(next.drop_last() =~= order.subrange(0, i as int));
                assert(next.last() == key@);
                assert(is_expired == pred(key@));
                assert(next.filter(pred) == if pred(key@) {
                    order.subrange(0, i as int).filter(pred).push(key@)
                } else {
                    order.subrange(0, i as int).filter(pred)
                }) by {
                    reveal(Seq::filter);
                }
            }
            if is_expired {
                let ghost before = expired@;
                expired.push(key.clone());
                assert(key_views(expired@) =~= key_views(before).push(key@));
            }
            i += 1;
        }
        assert(order.subrange(0, n as int) =~= order);
        expired
    }
}

} // verus!
