//! The store as a mathematical state, and each operation as a function from
//! state to state and outcome. The contracts of the store speak of these.

use super::entry::EntryModel;
use super::lru::{touched, without};
use super::stats::CacheStats;
use super::{MAX_KEY_LENGTH, MAX_VALUE_SIZE};
use crate::error::ErrorModel;
use vstd::prelude::*;
use vstd::utf8::encode_utf8;

verus! {

/// The size of a text in bytes, as UTF-8.
pub open spec fn byte_len(text: Seq<char>) -> nat {
    encode_utf8(text).len()
}

/// Why the store refuses a key and value, if it does: the key is empty or
/// longer than 256 bytes, or the value is larger than 1048576 bytes.
pub open spec fn refusal(key: Seq<char>, value: Seq<char>) -> Option<Seq<char>> {
    if key.len() == 0 {
        Some("Key cannot be empty"@)
    } else if byte_len(key) > MAX_KEY_LENGTH {
        Some("Key exceeds maximum length of 256 bytes"@)
    } else if byte_len(value) > MAX_VALUE_SIZE {
        Some("Value exceeds maximum size of 1048576 bytes"@)
    } else {
        None
    }
}

/// The state of a store: its entries by key, the keys by recency (most
/// recently used first), its statistics, and the two settings it was made
/// with.
pub struct StoreModel {
    pub entries: Map<Seq<char>, EntryModel>,
    pub order: Seq<Seq<char>>,
    pub stats: CacheStats,
    pub max_entries: nat,
    pub default_ttl: nat,
}

impl StoreModel {
    /// A store that holds nothing yet.
    pub open spec fn empty(max_entries: nat, default_ttl: nat) -> StoreModel {
        StoreModel {
            entries: Map::empty(),
            order: Seq::empty(),
            stats: CacheStats::zero(),
            max_entries,
            default_ttl,
        }
    }

    /// What holds of every store between operations: the recency order lists
    /// exactly the stored keys, each once; the store is within its capacity;
    /// the entry count in the statistics is the true one; and every stored key
    /// and value was acceptable and got an expiry time.
    pub open spec fn well_formed(self) -> bool {
        &&& self.entries.dom().finite()
        &&& self.order.no_duplicates()
        &&& forall|k: Seq<char>| self.order.contains(k) <==> self.entries.contains_key(k)
        &&& self.entries.len() <= self.max_entries <= usize::MAX
        &&& self.stats.total_entries == self.entries.len()
        &&& forall|k: Seq<char>| #[trigger]
            self.entries.contains_key(k) ==> {
                &&& refusal(k, self.entries[k].value) is None
                &&& self.entries[k].expires_at is Some
                &&& self.entries[k].well_formed()
            }
    }

    /// The number of entries held.
    pub open spec fn len(self) -> nat {
        self.entries.len()
    }

    /// This state with the entry count in the statistics brought up to date.
    pub open spec fn counted(self) -> StoreModel {
        StoreModel { stats: self.stats.with_total(self.entries.len() as usize), ..self }
    }

    /// Whether storing `key` needs an eviction first: the key is new and the
    /// store is at capacity.
    pub open spec fn needs_room(self, key: Seq<char>) -> bool {
        !self.entries.contains_key(key) && self.entries.len() >= self.max_entries
    }

    /// This state after the least recently used key was evicted.
    pub open spec fn evicted(self) -> StoreModel {
        StoreModel {
            entries: self.entries.remove(self.order.last()),
            order: self.order.drop_last(),
            stats: self.stats.with_eviction(),
            ..self
        }.counted()
    }

    /// The time to live that `set` applies: the one given, else the default.
    pub open spec fn effective_ttl(self, ttl: Option<u64>) -> nat {
        match ttl {
            Some(seconds) => seconds as nat,
            None => self.default_ttl,
        }
    }

    /// This state after a fresh entry for `key` was put in, and `key` marked
    /// as most recently used.
    pub open spec fn stored(
        self,
        key: Seq<char>,
        value: Seq<char>,
        ttl: Option<u64>,
        now: u64,
    ) -> StoreModel {
        StoreModel {
            entries: self.entries.insert(
                key,
                EntryModel::stamped(value, Some(self.effective_ttl(ttl)), now as nat),
            ),
            order: touched(self.order, key),
            ..self
        }.counted()
    }

    /// What `set` returns.
    pub open spec fn set_outcome(self, key: Seq<char>, value: Seq<char>) -> Result<(), ErrorModel> {
        match refusal(key, value) {
            Some(reason) => Err(ErrorModel::InvalidRequest(reason)),
            None => if self.needs_room(key) && self.order.len() == 0 {
                Err(ErrorModel::CacheFull("Cache is full and eviction failed"@))
            } else {
                Ok(())
            },
        }
    }

    /// The state after `set`: unchanged where it fails; else the entry is
    /// stored, after the least recently used key was evicted if room was
    /// needed.
    pub open spec fn after_set(
        self,
        key: Seq<char>,
        value: Seq<char>,
        ttl: Option<u64>,
        now: u64,
    ) -> StoreModel {
        if self.set_outcome(key, value) is Err {
            self
        } else if self.needs_room(key) {
            self.evicted().stored(key, value, ttl, now)
        } else {
            self.stored(key, value, ttl, now)
        }
    }

    /// What `get` returns at the time `now`.
    pub open spec fn get_outcome(self, key: Seq<char>, now: u64) -> Result<Seq<char>, ErrorModel> {
        if !self.entries.contains_key(key) {
            Err(ErrorModel::NotFound(key))
        } else if self.entries[key].is_expired(now as nat) {
            Err(ErrorModel::Expired(key))
        } else {
            Ok(self.entries[key].value)
        }
    }

    /// This state without `key`, in the entries and in the recency order.
    pub open spec fn dropped(self, key: Seq<char>) -> StoreModel {
        StoreModel {
            entries: self.entries.remove(key),
            order: without(self.order, key),
            ..self
        }.counted()
    }

    /// The state after `get` at the time `now`: a missing key counts a miss;
    /// an expired one is removed and counts a miss; a live one counts a hit
    /// and becomes the most recently used.
    pub open spec fn after_get(self, key: Seq<char>, now: u64) -> StoreModel {
        if !self.entries.contains_key(key) {
            StoreModel { stats: self.stats.with_miss(), ..self }
        } else if self.entries[key].is_expired(now as nat) {
            let less = self.dropped(key);
            StoreModel { stats: less.stats.with_miss(), ..less }
        } else {
            StoreModel {
                order: touched(self.order, key),
                stats: self.stats.with_hit(),
                ..self
            }
        }
    }

    /// What `delete` returns.
    pub open spec fn delete_outcome(self, key: Seq<char>) -> Result<(), ErrorModel> {
        if self.entries.contains_key(key) {
            Ok(())
        } else {
            Err(ErrorModel::NotFound(key))
        }
    }

    /// The state after `delete`.
    pub open spec fn after_delete(self, key: Seq<char>) -> StoreModel {
        if self.entries.contains_key(key) {
            self.dropped(key)
        } else {
            self
        }
    }

    /// The stored keys whose entries have expired by the time `now`.
    pub open spec fn expired_keys(self, now: u64) -> Set<Seq<char>> {
        Set::new(
            |k: Seq<char>| self.entries.contains_key(k) && self.entries[k].is_expired(now as nat),
        )
    }

    /// The state after a sweep at the time `now`: every expired entry is gone,
    /// the others remain in the order they had.
    pub open spec fn after_cleanup(self, now: u64) -> StoreModel {
        StoreModel {
            entries: self.entries.remove_keys(self.expired_keys(now)),
            order: self.order.filter(not_in(self.expired_keys(now))),
            ..self
        }.counted()
    }
}

/// The test that a key passes if it is in `keys`.
pub open spec fn among(keys: Set<Seq<char>>) -> spec_fn(Seq<char>) -> bool {
    |k: Seq<char>| keys.contains(k)
}

/// The test that a key passes if it is not in `keys`.
pub open spec fn not_in(keys: Set<Seq<char>>) -> spec_fn(Seq<char>) -> bool {
    |k: Seq<char>| !keys.contains(k)
}

} // verus!
