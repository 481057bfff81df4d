//! Request generations: a result counts only while its request is current.

use crate::keyed::PageKey;
use vstd::prelude::*;

verus! {

/// The number of a request.
#[derive(Debug, Clone, Copy, PartialEq, Eq, PartialOrd, Ord, Hash, Structural)]
pub struct RequestGeneration(pub u64);

/// The model of a request tracker: the last number given out, and the current
/// request of each key.
#[verifier::reject_recursive_types(A)]
pub struct TrackerState<A> {
    pub next: nat,
    pub active: Map<A, RequestGeneration>,
}

impl<A> TrackerState<A> {
    /// The number that the next request gets.
    pub open spec fn upcoming(self) -> RequestGeneration {
        RequestGeneration(
            (if self.next < u64::MAX {
                self.next + 1
            } else {
                self.next
            }) as u64,
        )
    }

    /// The tracker after a request for `key` began.
    pub open spec fn begin(self, key: A) -> TrackerState<A> {
        TrackerState {
            next: self.upcoming().0 as nat,
            active: self.active.insert(key, self.upcoming()),
        }
    }

    /// Whether `generation` is the current request of `key`.
    pub open spec fn is_current(self, key: A, generation: RequestGeneration) -> bool {
        self.active.dom().contains(key) && self.active[key] == generation
    }

    /// No number was given out that is above the last one.
    pub open spec fn wf(self) -> bool {
        &&& self.next <= u64::MAX
        &&& forall|key: A| #[trigger]
            self.active.dom().contains(key) ==> self.active[key].0 <= self.next
    }
}

/// The requests of a sequence of entries.
pub open spec fn active_requests<K: View>(entries: Seq<(K, RequestGeneration)>) -> Map<
    K::V,
    RequestGeneration,
>
    decreases entries.len(),
{
    if entries.len() == 0 {
        Map::empty()
    } else {
        active_requests(entries.drop_last()).insert(entries.last().0@, entries.last().1)
    }
}

/// The current request of each key.
#[derive(Debug, Clone)]
pub struct ScopedRequestTracker<K> {
    next: u64,
    active: Vec<(K, RequestGeneration)>,
}

impl<K: PageKey> View for ScopedRequestTracker<K> {
    type V = TrackerState<K::V>;

    closed spec fn view(&self) -> TrackerState<K::V> {
        TrackerState { next: self.next as nat, active: active_requests(self.active@) }
    }
}

impl<K: PageKey> Default for ScopedRequestTracker<K> {
    fn default() -> (tracker: Self)
        ensures
            tracker@ == (TrackerState::<K::V> { next: 0, active: Map::empty() }),
            tracker.wf(),
    {
        ScopedRequestTracker { next: 0, active: Vec::new() }
    }
}

proof fn lemma_active_at<K: View>(entries: Seq<(K, RequestGeneration)>, index: int)
    requires
        0 <= index < entries.len(),
        distinct(entries),
    ensures
        active_requests(entries).dom().contains(entries[index].0@),
        active_requests(entries)[entries[index].0@] == entries[index].1,
    decreases entries.len(),
{
    if index < entries.len() - 1 {
        let shorter = entries.drop_last();
        lemma_distinct_prefix(entries);
        lemma_active_at(shorter, index);
        assert(shorter[index] == entries[index]);
        assert(entries[index].0@ != entries[entries.len() - 1].0@);
    }
}

proof fn lemma_active_absent<K: View>(entries: Seq<(K, RequestGeneration)>, key: K::V)
    requires
        forall|i: int| 0 <= i < entries.len() ==> (#[trigger] entries[i]).0@ != key,
    ensures
        !active_requests(entries).dom().contains(key),
    decreases entries.len(),
{
    if entries.len() > 0 {
        let shorter = entries.drop_last();
        assert forall|i: int| 0 <= i < shorter.len() implies (#[trigger] shorter[i]).0@ != key by {
            assert(entries[i].0@ != key);
        }
        assert(entries[entries.len() - 1].0@ != key);
        lemma_active_absent(shorter, key);
    }
}

/// No two entries share a key.
spec fn distinct<K: View>(entries: Seq<(K, RequestGeneration)>) -> bool {
    forall|i: int, j: int|
        0 <= i < j < entries.len() ==> (#[trigger] entries[i]).0@ != (#[trigger] entries[j]).0@
}

proof fn lemma_distinct_prefix<K: View>(entries: Seq<(K, RequestGeneration)>)
    requires
        distinct(entries),
        entries.len() > 0,
    ensures
        distinct(entries.drop_last()),
{
    let shorter = entries.drop_last();
    assert forall|i: int, j: int| 0 <= i < j < shorter.len() implies (#[trigger] shorter[i]).0@
        != (#[trigger] shorter[j]).0@ by {
        assert(entries[i].0@ != entries[j].0@);
    }
}

proof fn lemma_active_remove<K: View>(entries: Seq<(K, RequestGeneration)>, index: int)
    requires
        0 <= index < entries.len(),
        distinct(entries),
    ensures
        distinct(entries.remove(index)),
        active_requests(entries.remove(index)) == active_requests(entries).remove(
            entries[index].0@,
        ),
    decreases entries.len(),
{
    let key = entries[index].0@;
    let after = entries.remove(index);
    assert forall|i: int, j: int| 0 <= i < j < after.len() implies (#[trigger] after[i]).0@ != (
    #[trigger] after[j]).0@ by {
        let p = if i < index {
            i
        } else {
            i + 1
        };
        let q = if j < index {
            j
        } else {
            j + 1
        };
        assert(entries[p].0@ != entries[q].0@);
    }
    let shorter = entries.drop_last();
    lemma_distinct_prefix(entries);
    if index == entries.len() - 1 {
        assert(after =~= shorter);
        assert forall|i: int| 0 <= i < shorter.len() implies (#[trigger] shorter[i]).0@ != key by {
            assert(entries[i].0@ != entries[index].0@);
        }
        lemma_active_absent(shorter, key);
        assert(active_requests(after) =~= active_requests(entries).remove(key));
    } else {
        lemma_active_remove(shorter, index);
        assert(shorter[index] == entries[index]);
        assert(after.drop_last() =~= shorter.remove(index));
        assert(after.last() == entries.last());
        assert(entries[index].0@ != entries[entries.len() - 1].0@);
        assert(active_requests(after) =~= active_requests(entries).remove(key));
    }
}

impl<K: PageKey> ScopedRequestTracker<K> {
    /// Each key has at most one current request, whose number was given out.
    pub closed spec fn wf(&self) -> bool {
        distinct(self.active@) && self@.wf()
    }

    /// The requests of a valid tracker are valid: no number above the last one
    /// was given out.
    pub proof fn valid_trackers_hold_valid_requests(&self)
        requires
            self.wf(),
        ensures
            self@.wf(),
    {
    }

    fn find(&self, key: &K) -> (found: Option<usize>)
        requires
            self.wf(),
        ensures
            match found {
                Some(index) => index < self.active@.len() && self.active@[index as int].0@ == key@
                    && self@.active.dom().contains(key@) && self@.active[key@]
                    == self.active@[index as int].1,
                None => !self@.active.dom().contains(key@),
            },
    {
        let mut index: usize = 0;
        while index < self.active.len()
            invariant
                index <= self.active@.len(),
                self.wf(),
                forall|i: int| 0 <= i < index ==> (#[trigger] self.active@[i]).0@ != key@,
            decreases self.active@.len() - index,
        {
            if self.active[index].0.same_key(key) {
                proof {
                    lemma_active_at(self.active@, index as int);
                }
                return Some(index);
            }
            index += 1;
        }
        proof {
            lemma_active_absent(self.active@, key@);
        }
        None
    }

    /// Starts a request for `key`, which supersedes the one before.
    pub fn begin(&mut self, key: K) -> (generation: RequestGeneration)
        requires
            old(self).wf(),
        ensures
            generation == old(self)@.upcoming(),
            final(self)@ == old(self)@.begin(key@),
            final(self).wf(),
    {
        let ghost before = self@;
        self.cancel(&key);
        self.next = self.next.saturating_add(1);
        let generation = RequestGeneration(self.next);
        let ghost kept = self.active@;
        let ghost id = key@;
        proof {
            assert forall|i: int| 0 <= i < kept.len() implies (#[trigger] kept[i]).0@ != id by {
                lemma_active_at(kept, i);
            }
        }
        self.active.push((key, generation));
        proof {
            assert(self.active@.drop_last() =~= kept);
            assert(self@.active =~= before.active.insert(id, generation));
        }
        generation
    }

    /// Whether `generation` is the current request of `key`.
    pub fn is_current(&self, key: &K, generation: RequestGeneration) -> (current: bool)
        requires
            self.wf(),
        ensures
            current == self@.is_current(key@, generation),
    {
        match self.find(key) {
            Some(index) => self.active[index].1 == generation,
            None => false,
        }
    }

    /// Ends the current request of `key`, unless `generation` is another one.
    pub fn finish(&mut self, key: &K, generation: RequestGeneration) -> (finished: bool)
        requires
            old(self).wf(),
        ensures
            finished == old(self)@.is_current(key@, generation),
            final(self)@.next == old(self)@.next,
            final(self)@.active == (if finished {
                old(self)@.active.remove(key@)
            } else {
                old(self)@.active
            }),
            final(self).wf(),
    {
        if !self.is_current(key, generation) {
            return false;
        }
        self.cancel(key);
        true
    }

    /// Forgets the request of `key`.
    pub fn cancel(&mut self, key: &K)
        requires
            old(self).wf(),
        ensures
            final(self)@.next == old(self)@.next,
            final(self)@.active == old(self)@.active.remove(key@),
            final(self).wf(),
    {
        match self.find(key) {
            Some(index) => {
                proof {
                    lemma_active_remove(self.active@, index as int);
                }
                self.active.remove(index);
            },
            None => {
                assert(self@.active.remove(key@) =~= self@.active);
            },
        }
    }

    /// Forgets every request.
    pub fn clear(&mut self)
        requires
            old(self).wf(),
        ensures
            final(self)@.next == old(self)@.next,
            final(self)@.active == Map::<K::V, RequestGeneration>::empty(),
            final(self).wf(),
    {
        self.active.clear();
    }
}

/// A result of a superseded request cannot finish the newer one: once a second
/// request for a key has begun, the number of the first is not current. The
/// numbers run out at the largest one, where two requests can share it.
pub proof fn superseded_requests_are_not_current<A>(state: TrackerState<A>, key: A)
    requires
        state.wf(),
        state.upcoming().0 < u64::MAX,
    ensures
        ({
            let first = state.upcoming();
            let second = state.begin(key).upcoming();
            &&& first != second
            &&& !state.begin(key).begin(key).is_current(key, first)
            &&& state.begin(key).begin(key).is_current(key, second)
        }),
{
}

/// A request number that was given out never becomes current again later.
pub proof fn numbers_are_not_reused<A>(state: TrackerState<A>, key: A, old_number: RequestGeneration)
    requires
        state.wf(),
        old_number.0 <= state.next,
        state.next < u64::MAX,
    ensures
        !state.begin(key).is_current(key, old_number),
        state.begin(key).wf(),
{
}

/// Requests of different keys do not interfere.
pub proof fn requests_of_other_keys_stay<A>(
    state: TrackerState<A>,
    key: A,
    other: A,
    number: RequestGeneration,
)
    requires
        key != other,
    ensures
        state.begin(key).is_current(other, number) == state.is_current(other, number),
{
}

/// A new request gets the number after the last one and is the current one of
/// its key.
pub proof fn new_requests_are_current<A>(state: TrackerState<A>, key: A)
    ensures
        state.next < 0xffff_ffff_ffff_ffff ==> state.upcoming().0 == state.next + 1,
        state.next == 0xffff_ffff_ffff_ffff ==> state.upcoming().0 == state.next,
        state.begin(key).is_current(key, state.upcoming()),
        state.begin(key).next == state.upcoming().0,
        forall|other: A, generation: RequestGeneration|
            other != key ==> (#[trigger] state.begin(key).is_current(other, generation)
                <==> state.is_current(other, generation)),
{
}

} // verus!
