//! The recency tracker: the keys in use, most recently used first.

use std::collections::VecDeque;
use vstd::prelude::*;

verus! {

/// The test that a key passes if it is not `key`.
pub open spec fn other_than(key: Seq<char>) -> spec_fn(Seq<char>) -> bool {
    |k: Seq<char>| k != key
}

/// `order` without every occurrence of `key`; the other keys keep their order.
pub open spec fn without(order: Seq<Seq<char>>, key: Seq<char>) -> Seq<Seq<char>> {
    order.filter(other_than(key))
}

/// `order` after `key` was used: `key` in front, the other keys behind it in
/// the order they had.
pub open spec fn touched(order: Seq<Seq<char>>, key: Seq<char>) -> Seq<Seq<char>> {
    seq![key] + without(order, key)
}

/// The keys that a sequence of strings spells, in the same order.
pub open spec fn key_views(keys: Seq<String>) -> Seq<Seq<char>> {
    keys.map_values(|k: String| k@)
}

/// Filtering keeps a duplicate-free sequence duplicate-free.
pub proof fn lemma_filter_keeps_distinct<A>(s: Seq<A>, pred: spec_fn(A) -> bool)
    requires
        s.no_duplicates(),
    ensures
        s.filter(pred).no_duplicates(),
    decreases s.len(),
{
    reveal(Seq::filter);
    if s.len() > 0 {
        let front = s.drop_last();
        lemma_filter_keeps_distinct(front, pred);
        if pred(s.last()) {
            let kept = front.filter(pred);
            assert forall|i: int| 0 <= i < kept.len() implies kept[i] != s.last() by {
                front.lemma_filter_contains_rev(pred, kept[i]);
                let j = choose|j: int| 0 <= j < front.len() && front[j] == kept[i];
                assert(s[j] == kept[i]);
            }
        }
    }
}

/// What filtering keeps: exactly the elements that pass the test.
pub proof fn lemma_filter_keeps<A>(s: Seq<A>, pred: spec_fn(A) -> bool, x: A)
    ensures
        s.filter(pred).contains(x) <==> (s.contains(x) && pred(x)),
{
    if s.filter(pred).contains(x) {
        s.lemma_filter_contains_rev(pred, x);
        let i = choose|i: int| 0 <= i < s.filter(pred).len() && s.filter(pred)[i] == x;
        s.lemma_filter_pred(pred, i);
    }
    if s.contains(x) && pred(x) {
        let i = choose|i: int| 0 <= i < s.len() && s[i] == x;
        s.lemma_filter_contains(pred, i);
    }
}

/// Filtering twice is filtering once by both tests.
pub proof fn lemma_filter_twice<A>(
    s: Seq<A>,
    first: spec_fn(A) -> bool,
    second: spec_fn(A) -> bool,
    both: spec_fn(A) -> bool,
)
    requires
        forall|i: int| 0 <= i < s.len() ==> both(s[i]) == (first(s[i]) && second(s[i])),
    ensures
        s.filter(first).filter(second) == s.filter(both),
    decreases s.len(),
{
    reveal(Seq::filter);
    if s.len() > 0 {
        let front = s.drop_last();
        assert forall|i: int| 0 <= i < front.len() implies both(front[i]) == (first(front[i])
            && second(front[i])) by {
            assert(front[i] == s[i]);
        }
        lemma_filter_twice(front, first, second, both);
        assert(both(s.last()) == (first(s.last()) && second(s.last()))) by {
            assert(s.last() == s[s.len() - 1]);
        }
        if first(s.last()) {
            assert(front.filter(first).push(s.last()).drop_last() =~= front.filter(first));
        }
    }
}

/// What `without` keeps: exactly the keys of `order` other than `key`.
pub proof fn lemma_without_contains(order: Seq<Seq<char>>, key: Seq<char>, other: Seq<char>)
    ensures
        without(order, key).contains(other) <==> (order.contains(other) && other != key),
{
    lemma_filter_keeps(order, other_than(key), other);
}

/// Filtering by a test that every element passes changes nothing.
pub proof fn lemma_filter_all<A>(s: Seq<A>, pred: spec_fn(A) -> bool)
    requires
        forall|i: int| 0 <= i < s.len() ==> pred(s[i]),
    ensures
        s.filter(pred) == s,
    decreases s.len(),
{
    reveal(Seq::filter);
    if s.len() > 0 {
        let front = s.drop_last();
        assert forall|i: int| 0 <= i < front.len() implies pred(front[i]) by {
            assert(front[i] == s[i]);
        }
        lemma_filter_all(front, pred);
        assert(pred(s.last())) by {
            assert(s.last() == s[s.len() - 1]);
        }
        assert(front.push(s.last()) =~= s);
    }
}

/// Removing a key that is not tracked changes nothing.
pub proof fn lemma_without_absent(order: Seq<Seq<char>>, key: Seq<char>)
    requires
        !order.contains(key),
    ensures
        without(order, key) == order,
{
    lemma_filter_all(order, other_than(key));
}

/// Tracking preserves distinctness, and says which keys are tracked after.
pub proof fn lemma_touched(order: Seq<Seq<char>>, key: Seq<char>)
    requires
        order.no_duplicates(),
    ensures
        touched(order, key).no_duplicates(),
        without(order, key).no_duplicates(),
        touched(order, key).len() == without(order, key).len() + 1,
        touched(order, key)[0] == key,
        forall|other: Seq<char>| #[trigger]
            touched(order, key).contains(other) <==> (other == key || order.contains(other)),
{
    let rest = without(order, key);
    lemma_filter_keeps_distinct(order, other_than(key));
    lemma_without_contains(order, key, key);
    let t = touched(order, key);
    assert forall|i: int, j: int| 0 <= i < t.len() && 0 <= j < t.len() && i != j implies t[i]
        != t[j] by {
        if i > 0 {
            assert(rest.contains(rest[i - 1]));
        }
        if j > 0 {
            assert(rest.contains(rest[j - 1]));
        }
    }
    assert forall|other: Seq<char>| #[trigger]
        t.contains(other) <==> (other == key || order.contains(other)) by {
        lemma_without_contains(order, key, other);
        if t.contains(other) {
            let i = choose|i: int| 0 <= i < t.len() && t[i] == other;
            if i > 0 {
                assert(rest.contains(rest[i - 1]));
            }
        }
        if other == key {
            assert(t[0] == other);
        } else if order.contains(other) {
            let i = choose|i: int| 0 <= i < rest.len() && rest[i] == other;
            assert(t[i + 1] == other);
        }
    }
}

/// Tracks the order in which keys were last used. The view is the sequence of
/// tracked keys, most recently used first, least recently used last.
#[derive(Debug)]
pub struct LruTracker {
    order: VecDeque<String>,
}

impl View for LruTracker {
    type V = Seq<Seq<char>>;

    closed spec fn view(&self) -> Seq<Seq<char>> {
        key_views(self.order@)
    }
}

impl Default for LruTracker {
    fn default() -> (tracker: Self)
        ensures
            tracker@ == Seq::<Seq<char>>::empty(),
            tracker.well_formed(),
    {
        LruTracker::new()
    }
}

impl LruTracker {
    /// No key is tracked twice.
    pub open spec fn well_formed(&self) -> bool {
        self@.no_duplicates()
    }

    /// An empty tracker.
    pub fn new() -> (tracker: Self)
        ensures
            tracker@ == Seq::<Seq<char>>::empty(),
            tracker.well_formed(),
    {
        let tracker = LruTracker { order: VecDeque::new() };
        assert(tracker@ =~= Seq::<Seq<char>>::empty());
        tracker
    }

    /// Marks `key` as the most recently used: it moves to the front, or
    /// enters there if it was not tracked.
    pub fn touch(&mut self, key: &str)
        requires
            old(self).well_formed(),
        ensures
            final(self)@ == touched(old(self)@, key@),
            final(self).well_formed(),
    {
        self.remove(key);
        proof {
            lemma_touched(old(self)@, key@);
        }
        let ghost rest = self.order@;
        self.order.push_front(key.to_owned());
        assert(key_views(self.order@) =~= seq![key@] + key_views(rest));
    }

    /// Stops tracking `key`. Does nothing if it was not tracked.
    pub fn remove(&mut self, key: &str)
        ensures
            final(self)@ == without(old(self)@, key@),
            old(self).well_formed() ==> final(self).well_formed(),
    {
        let ghost all = self.order@;
        let ghost pred = other_than(key@);
        let ghost mut kept: Seq<String> = Seq::empty();
        let wanted = key.to_owned();
        let n = self.order.len();
        let mut i: usize = 0;
        proof {
            assert(key_views(all.subrange(0, 0)) =~= Seq::<Seq<char>>::empty());
            assert(key_views(kept) =~= key_views(all.subrange(0, 0)).filter(pred)) by {
                reveal(Seq::filter);
            }
            assert(self.order@ =~= all.subrange(0, n as int) + kept);
        }
        // Each key passes from the front to the back once, unless it is the
        // one to remove: after a full turn the others stand in their order.
        while i < n
            invariant
                n == all.len(),
                i <= n,
                pred == other_than(key@),
                wanted@ == key@,
                self.order@ == all.subrange(i as int, n as int) + kept,
                key_views(kept) == key_views(all.subrange(0, i as int)).filter(pred),
            decreases n - i,
        {
            let ghost seen = key_views(all.subrange(0, i as int));
            match self.order.pop_front() {
                Some(k) => {
                    proof {
                        assert(k == all[i as int]);
                        let next = key_views(all.subrange(0, i + 1));
                        assert(next.drop_last() =~= seen);
                        assert(next.last() == k@);
                        assert(next.filter(pred) == if pred(k@) {
                            seen.filter(pred).push(k@)
                        } else {
                            seen.filter(pred)
                        }) by {
                            reveal(Seq::filter);
                        }
                        assert(self.order@ =~= all.subrange(i + 1, n as int) + kept);
                    }
                    if k != wanted {
                        self.order.push_back(k);
                        proof {
                            assert(key_views(kept.push(k)) =~= key_views(kept).push(k@));
                            kept = kept.push(k);
                            assert(self.order@ =~= all.subrange(i + 1, n as int) + kept);
                        }
                    }
                },
                None => {
                    assert(false);
                },
            }
            i += 1;
        }
        proof {
            assert(all.subrange(0, n as int) =~= all);
            assert(self.order@ =~= kept);
            if old(self).well_formed() {
                lemma_filter_keeps_distinct(old(self)@, pred);
            }
        }
    }

    /// Removes and returns the least recently used key, if any key is tracked.
    pub fn evict_oldest(&mut self) -> (evicted: Option<String>)
        ensures
            match evicted {
                Some(key) => old(self)@.len() > 0 && key@ == old(self)@.last() && final(self)@
                    == old(self)@.drop_last(),
                None => old(self)@.len() == 0 && final(self)@ == old(self)@,
            },
            old(self).well_formed() ==> final(self).well_formed(),
    {
        let evicted = self.order.pop_back();
        assert(evicted is Some ==> self@ =~= old(self)@.drop_last());
        evicted
    }

    /// The least recently used key, which `evict_oldest` would remove next.
    pub fn peek_oldest(&self) -> (oldest: Option<&String>)
        ensures
            match oldest {
                Some(key) => self@.len() > 0 && key@ == self@.last(),
                None => self@.len() == 0,
            },
    {
        let n = self.order.len();
        if n == 0 {
            None
        } else {
            Some(&self.order[n - 1])
        }
    }

    /// The key at position `index` of the recency order, position 0 being the
    /// most recently used.
    pub fn key_at(&self, index: usize) -> (key: &String)
        requires
            index < self@.len(),
        ensures
            key@ == self@[index as int],
    {
        &self.order[index]
    }

    /// The number of tracked keys.
    pub fn len(&self) -> (n: usize)
        ensures
            n == self@.len(),
    {
        self.order.len()
    }

    /// Whether no key is tracked.
    pub fn is_empty(&self) -> (empty: bool)
        ensures
            empty == (self@.len() == 0),
    {
        self.order.len() == 0
    }

    /// Whether `key` is tracked.
    pub fn contains(&self, key: &str) -> (found: bool)
        ensures
            found == self@.contains(key@),
    {
        let wanted = key.to_owned();
        let n = self.order.len();
        let mut i: usize = 0;
        while i < n
            invariant
                n == self.order@.len(),
                i <= n,
                wanted@ == key@,
                forall|j: int| 0 <= j < i ==> self@[j] != key@,
            decreases n - i,
        {
            if self.order[i] == wanted {
                assert(self@[i as int] == key@);
                return true;
            }
            i += 1;
        }
        false
    }
}

} // verus!
