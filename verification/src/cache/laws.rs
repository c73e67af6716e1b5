//! What holds of the store over several operations. Each law is proved from
//! the states and outcomes that the contracts of the store speak of.

use super::entry::{expiry_after, EntryModel};
use super::lru::{lemma_filter_all, lemma_touched, lemma_without_absent, other_than, without};
use super::model::{not_in, refusal, StoreModel};
use super::preserved::{lemma_after_cleanup, lemma_after_delete, lemma_after_get,
    lemma_after_set, lemma_evicted, lemma_stored};
use crate::error::ErrorModel;
use vstd::prelude::*;

verus! {

/// One call of `set`: what is stored, for how long, and when.
pub struct Put {
    pub key: Seq<char>,
    pub value: Seq<char>,
    pub ttl: Option<u64>,
    pub now: u64,
}

/// One call on the store, with the time at which it is made where the time
/// matters.
pub enum Operation {
    Put(Put),
    Get { key: Seq<char>, now: u64 },
    Delete { key: Seq<char> },
    Cleanup { now: u64 },
}

/// The state after one operation.
pub open spec fn apply(s: StoreModel, op: Operation) -> StoreModel {
    match op {
        Operation::Put(put) => s.after_set(put.key, put.value, put.ttl, put.now),
        Operation::Get { key, now } => s.after_get(key, now),
        Operation::Delete { key } => s.after_delete(key),
        Operation::Cleanup { now } => s.after_cleanup(now),
    }
}

/// The state after a sequence of operations, made in order.
pub open spec fn run(s: StoreModel, ops: Seq<Operation>) -> StoreModel
    decreases ops.len(),
{
    if ops.len() == 0 {
        s
    } else {
        apply(run(s, ops.drop_last()), ops.last())
    }
}

/// Whether the operation is a `get` that succeeds in the state `s`.
pub open spec fn is_hit(s: StoreModel, op: Operation) -> bool {
    op matches Operation::Get { key, now } && s.get_outcome(key, now) is Ok
}

/// Whether the operation is a `get` that fails in the state `s`.
pub open spec fn is_miss(s: StoreModel, op: Operation) -> bool {
    op matches Operation::Get { key, now } && s.get_outcome(key, now) is Err
}

/// How many `get` calls succeed while `ops` run from the state `s`.
pub open spec fn hits_in(s: StoreModel, ops: Seq<Operation>) -> nat
    decreases ops.len(),
{
    if ops.len() == 0 {
        0
    } else {
        hits_in(s, ops.drop_last()) + if is_hit(run(s, ops.drop_last()), ops.last()) {
            1nat
        } else {
            0nat
        }
    }
}

/// How many `get` calls fail while `ops` run from the state `s`.
pub open spec fn misses_in(s: StoreModel, ops: Seq<Operation>) -> nat
    decreases ops.len(),
{
    if ops.len() == 0 {
        0
    } else {
        misses_in(s, ops.drop_last()) + if is_miss(run(s, ops.drop_last()), ops.last()) {
            1nat
        } else {
            0nat
        }
    }
}

/// A count as a 64-bit counter holds it: exactly, up to the largest value.
pub open spec fn capped(count: nat) -> u64 {
    if count > u64::MAX {
        u64::MAX
    } else {
        count as u64
    }
}

/// The state after the calls of `set` in `puts`, made in order.
pub open spec fn fill(s: StoreModel, puts: Seq<Put>) -> StoreModel
    decreases puts.len(),
{
    if puts.len() == 0 {
        s
    } else {
        let put = puts.last();
        fill(s, puts.drop_last()).after_set(put.key, put.value, put.ttl, put.now)
    }
}

/// The keys of `puts` are acceptable and differ from each other.
pub open spec fn distinct_and_acceptable(puts: Seq<Put>) -> bool {
    &&& forall|i: int| 0 <= i < puts.len() ==> refusal(#[trigger] puts[i].key, puts[i].value) is None
    &&& forall|i: int, j: int|
        0 <= i < puts.len() && 0 <= j < puts.len() && i != j ==> #[trigger] puts[i].key
            != #[trigger] puts[j].key
}

/// The entry that a call of `set` leaves in the store `s`.
pub open spec fn entry_of(s: StoreModel, put: Put) -> EntryModel {
    EntryModel::stamped(put.value, Some(s.effective_ttl(put.ttl)), put.now as nat)
}

/// Round trip: a value that was stored is read back exactly, at any time
/// before its expiry. It takes a store that can hold an entry at all.
pub proof fn law_round_trip(
    s: StoreModel,
    key: Seq<char>,
    value: Seq<char>,
    ttl: Option<u64>,
    stored_at: u64,
    read_at: u64,
)
    requires
        s.well_formed(),
        s.max_entries > 0,
        refusal(key, value) is None,
        read_at < expiry_after(stored_at as nat, s.effective_ttl(ttl)),
    ensures
        s.set_outcome(key, value) is Ok,
        s.after_set(key, value, ttl, stored_at).get_outcome(key, read_at) == Ok::<
            Seq<char>,
            ErrorModel,
        >(value),
{
    lemma_set_succeeds(s, key, value);
}

/// `set` succeeds on every acceptable key and value, unless the store has no
/// capacity at all.
pub proof fn lemma_set_succeeds(s: StoreModel, key: Seq<char>, value: Seq<char>)
    requires
        s.well_formed(),
        s.max_entries > 0,
        refusal(key, value) is None,
    ensures
        s.set_outcome(key, value) is Ok,
{
    if s.order.len() == 0 {
        assert forall|k: Seq<char>| !s.entries.dom().contains(k) by {
            assert(!s.order.contains(k));
        }
        assert(s.entries.dom() =~= Set::<Seq<char>>::empty());
    }
}

/// Overwrite: after two stores under one key, the second value is read, and
/// the second store did not change the number of entries.
pub proof fn law_overwrite(
    s: StoreModel,
    key: Seq<char>,
    first: Seq<char>,
    second: Seq<char>,
    first_ttl: Option<u64>,
    second_ttl: Option<u64>,
    first_at: u64,
    second_at: u64,
    read_at: u64,
)
    requires
        s.well_formed(),
        s.max_entries > 0,
        refusal(key, first) is None,
        refusal(key, second) is None,
        read_at < expiry_after(second_at as nat, s.effective_ttl(second_ttl)),
    ensures
        ({
            let once = s.after_set(key, first, first_ttl, first_at);
            let twice = once.after_set(key, second, second_ttl, second_at);
            &&& twice.get_outcome(key, read_at) == Ok::<Seq<char>, ErrorModel>(second)
            &&& twice.len() == once.len()
        }),
{
    let once = s.after_set(key, first, first_ttl, first_at);
    lemma_set_succeeds(s, key, first);
    lemma_after_set(s, key, first, first_ttl, first_at);
    lemma_set_succeeds(once, key, second);
    lemma_stored(once, key, second, second_ttl, second_at);
}

/// Delete removes: every key that is stored after a `set` can be deleted, and
/// is not found afterwards.
pub proof fn law_delete_removes(
    s: StoreModel,
    key: Seq<char>,
    value: Seq<char>,
    ttl: Option<u64>,
    stored_at: u64,
    present: Seq<char>,
    read_at: u64,
)
    requires
        s.well_formed(),
        s.after_set(key, value, ttl, stored_at).entries.contains_key(present),
    ensures
        ({
            let after = s.after_set(key, value, ttl, stored_at);
            &&& after.delete_outcome(present) is Ok
            &&& after.after_delete(present).get_outcome(present, read_at) == Err::<
                Seq<char>,
                ErrorModel,
            >(ErrorModel::NotFound(present))
        }),
{
}

/// Capacity bound: whatever is done to a store made for `max_entries`
/// entries, it never holds more.
pub proof fn law_capacity_bound(max_entries: usize, default_ttl: u64, ops: Seq<Operation>)
    ensures
        run(StoreModel::empty(max_entries as nat, default_ttl as nat), ops).len() <= max_entries,
{
    let start = StoreModel::empty(max_entries as nat, default_ttl as nat);
    lemma_run_well_formed(start, ops);
}

/// Every run from a well-formed state ends in a well-formed state, with the
/// settings that the store was made with.
pub proof fn lemma_run_well_formed(s: StoreModel, ops: Seq<Operation>)
    requires
        s.well_formed(),
    ensures
        run(s, ops).well_formed(),
        run(s, ops).max_entries == s.max_entries,
        run(s, ops).default_ttl == s.default_ttl,
    decreases ops.len(),
{
    if ops.len() > 0 {
        let before = run(s, ops.drop_last());
        lemma_run_well_formed(s, ops.drop_last());
        match ops.last() {
            Operation::Put(put) => lemma_after_set(before, put.key, put.value, put.ttl, put.now),
            Operation::Get { key, now } => lemma_after_get(before, key, now),
            Operation::Delete { key } => lemma_after_delete(before, key),
            Operation::Cleanup { now } => lemma_after_cleanup(before, now),
        }
    }
}

/// Statistics accuracy: after any run, hits and misses have grown by the
/// number of `get` calls that succeeded and failed, up to the largest value a
/// counter holds, and the entry count is the number of entries held.
pub proof fn law_statistics(s: StoreModel, ops: Seq<Operation>)
    requires
        s.well_formed(),
    ensures
        run(s, ops).stats.hits == capped((s.stats.hits + hits_in(s, ops)) as nat),
        run(s, ops).stats.misses == capped((s.stats.misses + misses_in(s, ops)) as nat),
        run(s, ops).stats.total_entries == run(s, ops).len(),
    decreases ops.len(),
{
    lemma_run_well_formed(s, ops);
    if ops.len() > 0 {
        law_statistics(s, ops.drop_last());
        lemma_run_well_formed(s, ops.drop_last());
    }
}

/// Filling an empty store with distinct keys, no more than it can hold, keeps
/// them all: the recency order is the keys from last stored to first, and
/// each key has the entry its call gave it.
pub proof fn lemma_fill(max_entries: usize, default_ttl: u64, puts: Seq<Put>)
    requires
        distinct_and_acceptable(puts),
        puts.len() <= max_entries,
    ensures
        ({
            let filled = fill(StoreModel::empty(max_entries as nat, default_ttl as nat), puts);
            &&& filled.well_formed()
            &&& filled.order.len() == puts.len()
            &&& filled.len() == puts.len()
            &&& filled.max_entries == max_entries
            &&& filled.default_ttl == default_ttl
            &&& forall|i: int|
                0 <= i < puts.len() ==> #[trigger] filled.order[i] == puts[puts.len() - 1 - i].key
            &&& forall|i: int|
                0 <= i < puts.len() ==> filled.entries.contains_key(#[trigger] puts[i].key)
                    && filled.entries[puts[i].key] == entry_of(filled, puts[i])
        }),
    decreases puts.len(),
{
    let start = StoreModel::empty(max_entries as nat, default_ttl as nat);
    if puts.len() == 0 {
        assert(start.well_formed());
    } else {
        let front = puts.drop_last();
        let put = puts.last();
        assert(put == puts[puts.len() - 1]);
        assert forall|i: int| 0 <= i < front.len() implies front[i] == puts[i] by {}
        assert(distinct_and_acceptable(front)) by {
            assert forall|i: int| 0 <= i < front.len() implies refusal(
                #[trigger] front[i].key,
                front[i].value,
            ) is None by {
                assert(front[i] == puts[i]);
            }
            assert forall|i: int, j: int|
                0 <= i < front.len() && 0 <= j < front.len() && i != j implies #[trigger] front[i].key
                != #[trigger] front[j].key by {
                assert(front[i] == puts[i]);
                assert(front[j] == puts[j]);
            }
        }
        lemma_fill(max_entries, default_ttl, front);
        let before = fill(start, front);
        let filled = fill(start, puts);
        assert(!before.order.contains(put.key)) by {
            if before.order.contains(put.key) {
                let i = choose|i: int| 0 <= i < before.order.len() && before.order[i] == put.key;
                assert(before.order[i] == front[front.len() - 1 - i].key);
                assert(puts[front.len() - 1 - i].key == puts[puts.len() - 1].key);
            }
        }
        assert(!before.entries.contains_key(put.key));
        assert(!before.needs_room(put.key));
        assert(refusal(put.key, put.value) is None);
        assert(filled == before.stored(put.key, put.value, put.ttl, put.now));
        lemma_stored(before, put.key, put.value, put.ttl, put.now);
        lemma_without_absent(before.order, put.key);
        assert(filled.order =~= seq![put.key] + before.order);
        assert forall|i: int| 0 <= i < puts.len() implies #[trigger] filled.order[i] == puts[puts.len()
            - 1 - i].key by {
            if i > 0 {
                assert(filled.order[i] == before.order[i - 1]);
                assert(before.order[i - 1] == front[front.len() - 1 - (i - 1)].key);
            }
        }
        assert forall|i: int| 0 <= i < puts.len() implies filled.entries.contains_key(
            #[trigger] puts[i].key,
        ) && filled.entries[puts[i].key] == entry_of(filled, puts[i]) by {
            if i < front.len() {
                assert(front[i] == puts[i]);
                assert(before.entries.contains_key(front[i].key));
                assert(puts[i].key != put.key);
            }
        }
    }
}

/// Least recently used goes first: fill an empty store to capacity with
/// distinct keys, then store one more key. The key stored first is evicted;
/// every other key of the filling and the new key are stored, each with the
/// entry its call gave it.
pub proof fn law_lru_order(max_entries: usize, default_ttl: u64, puts: Seq<Put>, extra: Put)
    requires
        distinct_and_acceptable(puts.push(extra)),
        puts.len() == max_entries,
        max_entries > 0,
    ensures
        ({
            let filled = fill(StoreModel::empty(max_entries as nat, default_ttl as nat), puts);
            let after = filled.after_set(extra.key, extra.value, extra.ttl, extra.now);
            &&& filled.set_outcome(extra.key, extra.value) is Ok
            &&& after.len() == max_entries
            &&& !after.entries.contains_key(puts[0].key)
            &&& after.entries.contains_key(extra.key)
            &&& after.entries[extra.key] == entry_of(after, extra)
            &&& forall|i: int|
                1 <= i < puts.len() ==> after.entries.contains_key(#[trigger] puts[i].key)
                    && after.entries[puts[i].key] == entry_of(after, puts[i])
        }),
{
    let all = puts.push(extra);
    let start = StoreModel::empty(max_entries as nat, default_ttl as nat);
    let filled = fill(start, puts);
    let after = filled.after_set(extra.key, extra.value, extra.ttl, extra.now);
    lemma_prefix_distinct(puts, extra);
    lemma_fill(max_entries, default_ttl, puts);
    assert(all[puts.len() as int] == extra);
    assert(refusal(extra.key, extra.value) is None);
    assert(!filled.order.contains(extra.key)) by {
        if filled.order.contains(extra.key) {
            let i = choose|i: int| 0 <= i < filled.order.len() && filled.order[i] == extra.key;
            assert(filled.order[i] == puts[puts.len() - 1 - i].key);
            assert(all[puts.len() - 1 - i] == puts[puts.len() - 1 - i]);
        }
    }
    assert(filled.needs_room(extra.key));
    assert(filled.order.last() == filled.order[puts.len() - 1]);
    assert(filled.order.last() == puts[0].key);
    lemma_evicted(filled);
    let less = filled.evicted();
    lemma_stored(less, extra.key, extra.value, extra.ttl, extra.now);
    assert(puts[0].key != extra.key) by {
        assert(all[0] == puts[0]);
    }
    assert forall|i: int| 1 <= i < puts.len() implies after.entries.contains_key(
        #[trigger] puts[i].key,
    ) && after.entries[puts[i].key] == entry_of(after, puts[i]) by {
        assert(all[i] == puts[i]);
        assert(all[0] == puts[0]);
        assert(puts[i].key != puts[0].key);
        assert(puts[i].key != extra.key);
        assert(filled.entries.contains_key(puts[i].key));
    }
}

/// Distinct and acceptable calls stay so when the last is left out.
pub proof fn lemma_prefix_distinct(puts: Seq<Put>, extra: Put)
    requires
        distinct_and_acceptable(puts.push(extra)),
    ensures
        distinct_and_acceptable(puts),
{
    let all = puts.push(extra);
    assert forall|i: int| 0 <= i < puts.len() implies refusal(
        #[trigger] puts[i].key,
        puts[i].value,
    ) is None by {
        assert(all[i] == puts[i]);
    }
    assert forall|i: int, j: int|
        0 <= i < puts.len() && 0 <= j < puts.len() && i != j implies #[trigger] puts[i].key
        != #[trigger] puts[j].key by {
        assert(all[i] == puts[i]);
        assert(all[j] == puts[j]);
    }
}

/// Access refreshes recency: fill an empty store to capacity with at least
/// two distinct keys, read the key stored first while it is live, then store
/// one more key. The key stored second is evicted in place of the first,
/// which stays, as does the new key.
pub proof fn law_access_refreshes(
    max_entries: usize,
    default_ttl: u64,
    puts: Seq<Put>,
    read_at: u64,
    extra: Put,
)
    requires
        distinct_and_acceptable(puts.push(extra)),
        puts.len() == max_entries,
        max_entries >= 2,
        read_at < expiry_after(
            puts[0].now as nat,
            StoreModel::empty(max_entries as nat, default_ttl as nat).effective_ttl(puts[0].ttl),
        ),
    ensures
        ({
            let filled = fill(StoreModel::empty(max_entries as nat, default_ttl as nat), puts);
            let read = filled.after_get(puts[0].key, read_at);
            let after = read.after_set(extra.key, extra.value, extra.ttl, extra.now);
            &&& filled.get_outcome(puts[0].key, read_at) == Ok::<Seq<char>, ErrorModel>(
                puts[0].value,
            )
            &&& read.set_outcome(extra.key, extra.value) is Ok
            &&& !after.entries.contains_key(puts[1].key)
            &&& after.entries.contains_key(puts[0].key)
            &&& after.entries.contains_key(extra.key)
        }),
{
    let all = puts.push(extra);
    let start = StoreModel::empty(max_entries as nat, default_ttl as nat);
    let filled = fill(start, puts);
    let first = puts[0].key;
    let read = filled.after_get(first, read_at);
    lemma_prefix_distinct(puts, extra);
    lemma_fill(max_entries, default_ttl, puts);
    assert(all[puts.len() as int] == extra);
    assert(all[0] == puts[0]);
    assert(all[1] == puts[1]);
    assert(filled.entries.contains_key(first));
    assert(filled.entries[first] == entry_of(filled, puts[0]));
    lemma_after_get(filled, first, read_at);
    lemma_touched(filled.order, first);
    // The recency order after the read: the first key, then the others as
    // they were, so the key stored second is now the last.
    let rest = without(filled.order, first);
    assert(filled.order.drop_last() =~= rest) by {
        let front = filled.order.drop_last();
        assert(filled.order =~= front.push(first)) by {
            assert(filled.order[puts.len() - 1] == puts[0].key);
        }
        assert(!front.contains(first)) by {
            if front.contains(first) {
                let i = choose|i: int| 0 <= i < front.len() && front[i] == first;
                assert(filled.order[i] == first);
                assert(filled.order[puts.len() - 1] == first);
            }
        }
        lemma_filter_all(front, other_than(first));
        reveal(Seq::filter);
        assert(front.push(first).drop_last() =~= front);
    }
    assert(read.order =~= seq![first] + filled.order.drop_last());
    assert(read.order.last() == puts[1].key) by {
        assert(read.order.last() == read.order[puts.len() - 1]);
        assert(read.order[puts.len() - 1] == filled.order[puts.len() - 2]);
        assert(filled.order[puts.len() - 2] == puts[puts.len() - 1 - (puts.len() - 2)].key);
    }
    assert(!read.entries.contains_key(extra.key)) by {
        if filled.order.contains(extra.key) {
            let i = choose|i: int| 0 <= i < filled.order.len() && filled.order[i] == extra.key;
            assert(filled.order[i] == puts[puts.len() - 1 - i].key);
            assert(all[puts.len() - 1 - i] == puts[puts.len() - 1 - i]);
        }
    }
    assert(read.needs_room(extra.key));
    lemma_evicted(read);
    lemma_stored(read.evicted(), extra.key, extra.value, extra.ttl, extra.now);
}

/// Expiry by time to live: a key that was stored for `ttl` seconds is
/// reported as expired, not as missing, by a read once those seconds have
/// fully passed.
pub proof fn law_ttl_expiry(
    s: StoreModel,
    key: Seq<char>,
    value: Seq<char>,
    ttl: u64,
    stored_at: u64,
    read_at: u64,
)
    requires
        s.well_formed(),
        s.max_entries > 0,
        refusal(key, value) is None,
        read_at >= stored_at + ttl * 1000,
    ensures
        s.set_outcome(key, value) is Ok,
        s.after_set(key, value, Some(ttl), stored_at).get_outcome(key, read_at) == Err::<
            Seq<char>,
            ErrorModel,
        >(ErrorModel::Expired(key)),
{
    lemma_set_succeeds(s, key, value);
}

/// Expiry boundary: an entry is expired at the very millisecond of its expiry
/// time.
pub proof fn law_expiry_boundary(entry: EntryModel, now: nat)
    requires
        entry.expires_at == Some(now),
    ensures
        entry.is_expired(now),
{
}

/// Sweep idempotence: a second sweep at the same time finds nothing to
/// remove and changes nothing.
pub proof fn law_sweep_idempotent(s: StoreModel, now: u64)
    requires
        s.well_formed(),
    ensures
        s.after_cleanup(now).expired_keys(now).len() == 0,
        s.after_cleanup(now).after_cleanup(now) == s.after_cleanup(now),
{
    let once = s.after_cleanup(now);
    let twice = once.after_cleanup(now);
    lemma_after_cleanup(s, now);
    assert(once.expired_keys(now) =~= Set::<Seq<char>>::empty());
    assert(twice.entries =~= once.entries);
    lemma_filter_all(once.order, not_in(once.expired_keys(now)));
}

} // verus!
