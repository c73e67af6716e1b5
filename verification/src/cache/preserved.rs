//! Every operation of the store leaves a well-formed state well formed.

use super::lru::{lemma_filter_keeps, lemma_filter_keeps_distinct, lemma_touched,
    lemma_without_contains, other_than};
use super::model::{not_in, refusal, StoreModel};
use vstd::prelude::*;

verus! {

/// Dropping a stored key keeps the state well formed and makes it one smaller.
pub proof fn lemma_dropped(s: StoreModel, key: Seq<char>)
    requires
        s.well_formed(),
        s.entries.contains_key(key),
    ensures
        s.dropped(key).well_formed(),
        s.dropped(key).len() == s.len() - 1,
{
    let d = s.dropped(key);
    lemma_filter_keeps_distinct(s.order, other_than(key));
    assert forall|k: Seq<char>| d.order.contains(k) <==> d.entries.contains_key(k) by {
        lemma_without_contains(s.order, key, k);
    }
}

/// Evicting the least recently used key keeps everything but makes room: the
/// evicted state is well formed, one smaller, and lacks exactly that key.
pub proof fn lemma_evicted(s: StoreModel)
    requires
        s.well_formed(),
        s.order.len() > 0,
    ensures
        s.evicted().well_formed(),
        s.evicted().len() == s.len() - 1,
        s.entries.contains_key(s.order.last()),
        s.evicted().entries == s.entries.remove(s.order.last()),
{
    let e = s.evicted();
    let victim = s.order.last();
    assert(s.order[s.order.len() - 1] == victim);
    assert(s.order.contains(victim));
    assert forall|k: Seq<char>| e.order.contains(k) <==> e.entries.contains_key(k) by {
        if e.order.contains(k) {
            let i = choose|i: int| 0 <= i < e.order.len() && e.order[i] == k;
            assert(s.order[i] == k);
            assert(s.order.contains(k));
        }
        if e.entries.contains_key(k) {
            assert(s.order.contains(k));
            let i = choose|i: int| 0 <= i < s.order.len() && s.order[i] == k;
            assert(e.order[i] == k);
        }
    }
}

/// Storing an acceptable key and value where there is room for it keeps the
/// state well formed.
pub proof fn lemma_stored(s: StoreModel, key: Seq<char>, value: Seq<char>, ttl: Option<u64>, now: u64)
    requires
        s.well_formed(),
        refusal(key, value) is None,
        !s.needs_room(key),
    ensures
        s.stored(key, value, ttl, now).well_formed(),
        s.stored(key, value, ttl, now).len() == if s.entries.contains_key(key) {
            s.len()
        } else {
            s.len() + 1
        },
{
    lemma_touched(s.order, key);
}

/// `set` keeps the state well formed, and so within its capacity.
pub proof fn lemma_after_set(s: StoreModel, key: Seq<char>, value: Seq<char>, ttl: Option<u64>, now: u64)
    requires
        s.well_formed(),
    ensures
        s.after_set(key, value, ttl, now).well_formed(),
{
    if s.set_outcome(key, value) is Ok {
        if s.needs_room(key) {
            lemma_evicted(s);
            lemma_stored(s.evicted(), key, value, ttl, now);
        } else {
            lemma_stored(s, key, value, ttl, now);
        }
    }
}

/// `get` keeps the state well formed.
pub proof fn lemma_after_get(s: StoreModel, key: Seq<char>, now: u64)
    requires
        s.well_formed(),
    ensures
        s.after_get(key, now).well_formed(),
{
    if s.entries.contains_key(key) {
        if s.entries[key].is_expired(now as nat) {
            lemma_dropped(s, key);
        } else {
            lemma_touched(s.order, key);
        }
    }
}

/// `delete` keeps the state well formed.
pub proof fn lemma_after_delete(s: StoreModel, key: Seq<char>)
    requires
        s.well_formed(),
    ensures
        s.after_delete(key).well_formed(),
{
    if s.entries.contains_key(key) {
        lemma_dropped(s, key);
    }
}

/// A sweep keeps the state well formed, and removes as many entries as had
/// expired.
pub proof fn lemma_after_cleanup(s: StoreModel, now: u64)
    requires
        s.well_formed(),
    ensures
        s.after_cleanup(now).well_formed(),
        s.expired_keys(now).finite(),
        s.after_cleanup(now).len() == s.len() - s.expired_keys(now).len(),
{
    let c = s.after_cleanup(now);
    let gone = s.expired_keys(now);
    lemma_filter_keeps_distinct(s.order, not_in(gone));
    assert forall|k: Seq<char>| c.order.contains(k) <==> c.entries.contains_key(k) by {
        lemma_filter_keeps(s.order, not_in(gone), k);
    }
    assert(gone.subset_of(s.entries.dom()));
    vstd::set_lib::lemma_len_subset(gone, s.entries.dom());
    assert(c.entries.dom() =~= s.entries.dom().difference(gone));
    vstd::set_lib::lemma_set_difference_len(s.entries.dom(), gone);
    assert(s.entries.dom().intersect(gone) =~= gone);
}

} // verus!
