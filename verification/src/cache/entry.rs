//! A cached value with its creation time and optional expiry time.

use super::clock::current_timestamp_ms;
use vstd::prelude::*;

verus! {

/// The mathematical content of a [`CacheEntry`]: the value as a sequence of
/// characters, and its two timestamps in milliseconds since the Unix epoch.
pub struct EntryModel {
    pub value: Seq<char>,
    pub created_at: nat,
    pub expires_at: Option<nat>,
}

/// The expiry time of an entry created at `now` with a time to live of
/// `ttl_seconds`: `now + ttl_seconds * 1000`, capped at the largest 64-bit
/// timestamp.
pub open spec fn expiry_after(now: nat, ttl_seconds: nat) -> nat {
    if now + ttl_seconds * 1000 > u64::MAX {
        u64::MAX as nat
    } else {
        now + ttl_seconds * 1000
    }
}

/// A 64-bit timestamp or duration, if any, as a natural number.
pub open spec fn as_nat(t: Option<u64>) -> Option<nat> {
    match t {
        Some(ms) => Some(ms as nat),
        None => None,
    }
}

impl EntryModel {
    /// The entry that holds `value`, created at `now`, with the expiry time
    /// that `ttl_seconds` gives, or none.
    pub open spec fn stamped(value: Seq<char>, ttl_seconds: Option<nat>, now: nat) -> EntryModel {
        EntryModel {
            value,
            created_at: now,
            expires_at: match ttl_seconds {
                Some(ttl) => Some(expiry_after(now, ttl)),
                None => None,
            },
        }
    }

    /// An entry never expires before it was created.
    pub open spec fn well_formed(self) -> bool {
        self.expires_at matches Some(expires) ==> expires >= self.created_at
    }

    /// Expiry is inclusive: an entry is expired from the very millisecond of
    /// its expiry time on. An entry without expiry time never is.
    pub open spec fn is_expired(self, now: nat) -> bool {
        self.expires_at matches Some(expires) && now >= expires
    }

    /// The milliseconds left until expiry, 0 once expired; `None` for an entry
    /// that never expires.
    pub open spec fn ttl_remaining_ms(self, now: nat) -> Option<nat> {
        match self.expires_at {
            Some(expires) => Some(
                if expires > now {
                    (expires - now) as nat
                } else {
                    0
                },
            ),
            None => None,
        }
    }

    /// The whole seconds left until expiry.
    pub open spec fn ttl_remaining(self, now: nat) -> Option<nat> {
        match self.ttl_remaining_ms(now) {
            Some(ms) => Some(ms / 1000),
            None => None,
        }
    }
}

/// A single cache entry. It is never changed after creation: storing a key
/// again replaces its entry.
#[derive(Debug, Clone)]
pub struct CacheEntry {
    /// The stored value.
    pub value: String,
    /// Creation time, Unix milliseconds.
    pub created_at: u64,
    /// Expiry time, Unix milliseconds; `None` means the entry never expires.
    pub expires_at: Option<u64>,
}

impl View for CacheEntry {
    type V = EntryModel;

    open spec fn view(&self) -> EntryModel {
        EntryModel {
            value: self.value@,
            created_at: self.created_at as nat,
            expires_at: as_nat(self.expires_at),
        }
    }
}

impl CacheEntry {
    /// Creates an entry stamped with the current time.
    pub fn new(value: String, ttl_seconds: Option<u64>) -> (entry: Self)
        ensures
            exists|now: u64| entry@ == EntryModel::stamped(value@, as_nat(ttl_seconds), now as nat),
            entry@.well_formed(),
    {
        let now = current_timestamp_ms();
        CacheEntry::new_at(value, ttl_seconds, now)
    }

    /// Creates an entry stamped with the time `now`.
    pub fn new_at(value: String, ttl_seconds: Option<u64>, now: u64) -> (entry: Self)
        ensures
            entry@ == EntryModel::stamped(value@, as_nat(ttl_seconds), now as nat),
            entry@.well_formed(),
    {
        let expires_at = match ttl_seconds {
            Some(ttl) => Some(
                match ttl.checked_mul(1000) {
                    Some(ttl_ms) => now.saturating_add(ttl_ms),
                    None => u64::MAX,
                },
            ),
            None => None,
        };
        CacheEntry { value, created_at: now, expires_at }
    }

    /// Whether the entry has expired by the current time.
    pub fn is_expired(&self) -> (expired: bool)
        ensures
            exists|now: u64| expired == self@.is_expired(now as nat),
    {
        let now = current_timestamp_ms();
        self.is_expired_at(now)
    }

    /// Whether the entry has expired by the time `now`.
    pub fn is_expired_at(&self, now: u64) -> (expired: bool)
        ensures
            expired == self@.is_expired(now as nat),
    {
        match self.expires_at {
            Some(expires) => now >= expires,
            None => false,
        }
    }

    /// The milliseconds left until expiry, as of the current time.
    pub fn ttl_remaining_ms(&self) -> (left: Option<u64>)
        ensures
            exists|now: u64| as_nat(left) == self@.ttl_remaining_ms(now as nat),
    {
        let now = current_timestamp_ms();
        self.ttl_remaining_ms_at(now)
    }

    /// The milliseconds left until expiry, as of the time `now`: 0 once the
    /// entry has expired, `None` where it never expires.
    pub fn ttl_remaining_ms_at(&self, now: u64) -> (left: Option<u64>)
        ensures
            as_nat(left) == self@.ttl_remaining_ms(now as nat),
    {
        match self.expires_at {
            Some(expires) => Some(
                if expires > now {
                    expires - now
                } else {
                    0
                },
            ),
            None => None,
        }
    }

    /// The whole seconds left until expiry, as of the current time.
    pub fn ttl_remaining(&self) -> (left: Option<u64>)
        ensures
            exists|now: u64| as_nat(left) == self@.ttl_remaining(now as nat),
    {
        let now = current_timestamp_ms();
        self.ttl_remaining_at(now)
    }

    /// The whole seconds left until expiry, as of the time `now`.
    pub fn ttl_remaining_at(&self, now: u64) -> (left: Option<u64>)
        ensures
            as_nat(left) == self@.ttl_remaining(now as nat),
    {
        match self.ttl_remaining_ms_at(now) {
            Some(ms) => Some(ms / 1000),
            None => None,
        }
    }
}

} // verus!
