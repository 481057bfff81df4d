//! A page cache with a fixed capacity that evicts the least recently used page.

use crate::keyed::PageKey;
use vstd::prelude::*;

verus! {

/// A bounded cache. Its model is the sequence of its entries, from the least
/// to the most recently used one.
#[derive(Debug, Clone)]
pub struct BoundedPageCache<K, V> {
    capacity: usize,
    entries: Vec<(K, V)>,
}

/// The entries whose key is not `key`, in order.
pub open spec fn without<A, V>(entries: Seq<(A, V)>, key: A) -> Seq<(A, V)> {
    entries.filter(|entry: (A, V)| entry.0 != key)
}

/// Whether an entry has the key.
pub open spec fn has_key<A, V>(entries: Seq<(A, V)>, key: A) -> bool {
    exists|i: int| 0 <= i < entries.len() && (#[trigger] entries[i]).0 == key
}

/// The place of the entry with the key.
pub open spec fn place_of<A, V>(entries: Seq<(A, V)>, key: A) -> int {
    choose|i: int| 0 <= i < entries.len() && (#[trigger] entries[i]).0 == key
}

/// The value of the entry with the key.
pub open spec fn value_at<A, V>(entries: Seq<(A, V)>, key: A) -> V {
    entries[place_of(entries, key)].1
}

/// The value under the key, where there is one.
pub open spec fn lookup<A, V>(entries: Seq<(A, V)>, key: A) -> Option<V> {
    if has_key(entries, key) {
        Some(value_at(entries, key))
    } else {
        None
    }
}

/// No two entries share a key.
pub open spec fn distinct_keys<A, V>(entries: Seq<(A, V)>) -> bool {
    forall|i: int, j: int|
        0 <= i < j < entries.len() ==> (#[trigger] entries[i]).0 != (#[trigger] entries[j]).0
}

/// The entries after `key` was used with `value`, before any eviction.
pub open spec fn used<A, V>(entries: Seq<(A, V)>, key: A, value: V) -> Seq<(A, V)> {
    without(entries, key).push((key, value))
}

/// The entries after an insertion into a cache of the given capacity.
pub open spec fn inserted<A, V>(
    entries: Seq<(A, V)>,
    capacity: nat,
    key: A,
    value: V,
) -> Seq<(A, V)> {
    if used(entries, key, value).len() > capacity {
        used(entries, key, value).drop_first()
    } else {
        used(entries, key, value)
    }
}

/// The model of stored entries.
pub open spec fn entry_views<K: View, V>(entries: Seq<(K, V)>) -> Seq<(K::V, V)> {
    entries.map_values(|entry: (K, V)| (entry.0@, entry.1))
}

proof fn lemma_without_absent<A, V>(entries: Seq<(A, V)>, key: A)
    requires
        !has_key(entries, key),
    ensures
        without(entries, key) == entries,
    decreases entries.len(),
{
    reveal(Seq::filter);
    if entries.len() > 0 {
        let shorter = entries.drop_last();
        assert(entries.last() == entries[entries.len() - 1]);
        assert(!has_key(shorter, key)) by {
            if has_key(shorter, key) {
                let i = choose|i: int| 0 <= i < shorter.len() && (#[trigger] shorter[i]).0 == key;
                assert(entries[i].0 == key);
            }
        }
        lemma_without_absent(shorter, key);
        assert(entries =~= shorter.push(entries.last()));
    } else {
        assert(without(entries, key) =~= entries);
    }
}

proof fn lemma_without_present<A, V>(entries: Seq<(A, V)>, index: int)
    requires
        distinct_keys(entries),
        0 <= index < entries.len(),
    ensures
        without(entries, entries[index].0) == entries.remove(index),
    decreases entries.len(),
{
    reveal(Seq::filter);
    let key = entries[index].0;
    let shorter = entries.drop_last();
    if index == entries.len() - 1 {
        assert(!has_key(shorter, key)) by {
            if has_key(shorter, key) {
                let i = choose|i: int| 0 <= i < shorter.len() && (#[trigger] shorter[i]).0 == key;
                assert(entries[i].0 == key);
            }
        }
        lemma_without_absent(shorter, key);
        assert(entries.remove(index) =~= shorter);
    } else {
        assert(shorter[index] == entries[index]);
        assert forall|i: int, j: int| 0 <= i < j < shorter.len() implies (
        #[trigger] shorter[i]).0 != (#[trigger] shorter[j]).0 by {
            assert(entries[i].0 != entries[j].0);
        }
        lemma_without_present(shorter, index);
        assert(entries[entries.len() - 1].0 != key);
        assert(entries.remove(index) =~= shorter.remove(index).push(entries.last()));
    }
}

proof fn lemma_value_at<A, V>(entries: Seq<(A, V)>, index: int)
    requires
        distinct_keys(entries),
        0 <= index < entries.len(),
    ensures
        has_key(entries, entries[index].0),
        value_at(entries, entries[index].0) == entries[index].1,
{
    let key = entries[index].0;
    let chosen = place_of(entries, key);
    assert(entries[index].0 == key);
    if chosen < index {
        assert(entries[chosen].0 != entries[index].0);
    } else if index < chosen {
        assert(entries[index].0 != entries[chosen].0);
    }
}

impl<K: PageKey, V> View for BoundedPageCache<K, V> {
    type V = Seq<(K::V, V)>;

    closed spec fn view(&self) -> Seq<(K::V, V)> {
        entry_views(self.entries@)
    }
}

impl<K: PageKey, V> BoundedPageCache<K, V> {
    /// How many pages the cache retains at most.
    pub closed spec fn limit(&self) -> nat {
        self.capacity as nat
    }

    /// Keys are distinct, and the entries fit the capacity, which is not zero.
    pub open spec fn wf(&self) -> bool {
        &&& distinct_keys(self@)
        &&& self@.len() <= self.limit()
        &&& self.limit() >= 1
        &&& self.limit() <= usize::MAX
    }

    /// An empty cache for at least one page.
    pub fn new(capacity: usize) -> (cache: Self)
        ensures
            cache@ == Seq::<(K::V, V)>::empty(),
            cache.limit() == (if capacity == 0 {
                1
            } else {
                capacity as nat
            }),
            cache.wf(),
    {
        let capacity: usize = if capacity == 0 {
            1
        } else {
            capacity
        };
        let cache = BoundedPageCache { capacity, entries: Vec::new() };
        assert(cache@ =~= Seq::empty());
        cache
    }

    fn find(&self, key: &K) -> (found: Option<usize>)
        ensures
            match found {
                Some(index) => index < self@.len() && self@[index as int].0 == key@,
                None => !has_key(self@, key@),
            },
            self@.len() == self.entries@.len(),
    {
        let mut index: usize = 0;
        while index < self.entries.len()
            invariant
                index <= self.entries@.len(),
                forall|i: int| 0 <= i < index ==> (#[trigger] self@[i]).0 != key@,
            decreases self.entries@.len() - index,
        {
            if self.entries[index].0.same_key(key) {
                return Some(index);
            }
            assert(self@[index as int].0 == self.entries@[index as int].0@);
            index += 1;
        }
        None
    }

    /// Stores a page as the most recently used one. Where that exceeds the
    /// capacity, the least recently used page leaves and is returned.
    pub fn insert(&mut self, key: K, value: V) -> (evicted: Option<(K, V)>)
        requires
            old(self).wf(),
        ensures
            final(self)@ == inserted(old(self)@, old(self).limit(), key@, value),
            final(self).limit() == old(self).limit(),
            final(self).wf(),
            ({
                let used = used(old(self)@, key@, value);
                &&& evicted is Some <==> used.len() > old(self).limit()
                &&& match evicted {
                    Some(entry) => (entry.0@, entry.1) == used[0],
                    None => true,
                }
            }),
    {
        let ghost before = self@;
        let ghost id = key@;
        self.discard(&key);
        self.entries.push((key, value));
        proof {
            let after = used(before, id, value);
            assert(self@ =~= after);
            assert(distinct_keys(after));
            assert forall|i: int, j: int|
                0 <= i < j < after.drop_first().len() implies (#[trigger] after.drop_first()[i]).0
                != (#[trigger] after.drop_first()[j]).0 by {
                assert(after[i + 1].0 != after[j + 1].0);
            }
        }
        if self.entries.len() <= self.capacity {
            return None;
        }
        let oldest = self.entries.remove(0);
        proof {
            assert(self@ =~= used(before, id, value).drop_first());
        }
        Some(oldest)
    }

    /// Takes the entry of a key out.
    fn discard(&mut self, key: &K) -> (taken: Option<V>)
        requires
            old(self).wf(),
        ensures
            final(self)@ == without(old(self)@, key@),
            final(self).limit() == old(self).limit(),
            final(self)@.len() <= old(self)@.len(),
            distinct_keys(final(self)@),
            !has_key(final(self)@, key@),
            taken == lookup(old(self)@, key@),
    {
        let ghost before = self@;
        match self.find(key) {
            Some(index) => {
                let taken = self.entries.remove(index);
                proof {
                    lemma_without_present(before, index as int);
                    lemma_value_at(before, index as int);
                    assert(self@ =~= before.remove(index as int));
                    let after = self@;
                    assert forall|i: int, j: int| 0 <= i < j < after.len() implies (
                    #[trigger] after[i]).0 != (#[trigger] after[j]).0 by {
                        let p = if i < index {
                            i
                        } else {
                            i + 1
                        };
                        let q = if j < index {
                            j
                        } else {
                            j + 1
                        };
                        assert(before[p].0 != before[q].0);
                    }
                    if has_key(after, key@) {
                        let i = choose|i: int|
                            0 <= i < after.len() && (#[trigger] after[i]).0 == key@;
                        let p = if i < index {
                            i
                        } else {
                            i + 1
                        };
                        assert(before[p].0 == key@);
                        assert(before[index as int].0 == key@);
                        if p < index {
                            assert(before[p].0 != before[index as int].0);
                        } else {
                            assert(before[index as int].0 != before[p].0);
                        }
                    }
                }
                Some(taken.1)
            },
            None => {
                proof {
                    lemma_without_absent(before, key@);
                }
                None
            },
        }
    }

    /// Makes the entry of a key the most recently used one.
    fn touch(&mut self, key: &K) -> (found: bool)
        requires
            old(self).wf(),
        ensures
            found == has_key(old(self)@, key@),
            final(self)@ == (if has_key(old(self)@, key@) {
                used(old(self)@, key@, value_at(old(self)@, key@))
            } else {
                old(self)@
            }),
            final(self).limit() == old(self).limit(),
            final(self).wf(),
    {
        let ghost before = self@;
        if self.find(key).is_none() {
            return false;
        }
        let copy = key.copy_key();
        match self.discard(key) {
            Some(value) => {
                proof {
                    let index = choose|i: int|
                        0 <= i < before.len() && (#[trigger] before[i]).0 == key@;
                    lemma_without_present(before, index);
                }
                self.entries.push((copy, value));
                assert(self@ =~= used(before, key@, value));
                true
            },
            None => false,
        }
    }

    /// The page under a key, which becomes the most recently used one.
    pub fn get(&mut self, key: &K) -> (page: Option<&V>)
        requires
            old(self).wf(),
        ensures
            page is Some <==> has_key(old(self)@, key@),
            page is Some ==> *page->0 == value_at(old(self)@, key@),
            final(self)@ == (if has_key(old(self)@, key@) {
                used(old(self)@, key@, value_at(old(self)@, key@))
            } else {
                old(self)@
            }),
            final(self).limit() == old(self).limit(),
            final(self).wf(),
    {
        if !self.touch(key) {
            return None;
        }
        let last: usize = self.entries.len() - 1;
        assert(self@[last as int].1 == self.entries@[last as int].1);
        Some(&self.entries[last].1)
    }

    /// The page under a key, without a trace in the order of use.
    pub fn peek(&self, key: &K) -> (page: Option<&V>)
        requires
            self.wf(),
        ensures
            page is Some <==> has_key(self@, key@),
            page is Some ==> *page->0 == value_at(self@, key@),
    {
        match self.find(key) {
            Some(index) => {
                proof {
                    lemma_value_at(self@, index as int);
                }
                Some(&self.entries[index].1)
            },
            None => None,
        }
    }

    /// Whether a page is stored under the key.
    pub fn contains_key(&self, key: &K) -> (found: bool)
        ensures
            found == has_key(self@, key@),
    {
        self.find(key).is_some()
    }

    /// How many pages are stored.
    pub fn len(&self) -> (len: usize)
        ensures
            len == self@.len(),
    {
        self.entries.len()
    }

    /// Whether no page is stored.
    pub fn is_empty(&self) -> (empty: bool)
        ensures
            empty == (self@.len() == 0),
    {
        self.entries.is_empty()
    }

    /// How many pages the cache retains at most.
    pub fn capacity(&self) -> (capacity: usize)
        ensures
            capacity == self.limit(),
    {
        self.capacity
    }

    /// The stored pages, from the least to the most recently used one.
    pub fn values(&self) -> (values: Vec<&V>)
        ensures
            values@.len() == self@.len(),
            forall|i: int| 0 <= i < values@.len() ==> *(#[trigger] values@[i]) == self@[i].1,
    {
        let mut values: Vec<&V> = Vec::new();
        let mut index: usize = 0;
        while index < self.entries.len()
            invariant
                index <= self.entries@.len(),
                values@.len() == index,
                forall|i: int| 0 <= i < index ==> *(#[trigger] values@[i]) == self@[i].1,
            decreases self.entries@.len() - index,
        {
            values.push(&self.entries[index].1);
            index += 1;
        }
        values
    }

    /// Removes every page.
    pub fn clear(&mut self)
        requires
            old(self).wf(),
        ensures
            final(self)@ == Seq::<(K::V, V)>::empty(),
            final(self).limit() == old(self).limit(),
            final(self).wf(),
    {
        self.entries.clear();
        assert(self@ =~= Seq::empty());
    }
}

/// A cache never grows beyond its capacity, and keeps its keys distinct.
pub proof fn insertion_respects_capacity<A, V>(
    entries: Seq<(A, V)>,
    capacity: nat,
    key: A,
    value: V,
)
    requires
        distinct_keys(entries),
        entries.len() <= capacity,
        capacity >= 1,
    ensures
        inserted(entries, capacity, key, value).len() <= capacity,
        distinct_keys(inserted(entries, capacity, key, value)),
        lookup(inserted(entries, capacity, key, value), key) == Some(value),
{
    let after = used(entries, key, value);
    lemma_used(entries, key, value);
    let result = inserted(entries, capacity, key, value);
    if after.len() > capacity {
        assert forall|i: int, j: int| 0 <= i < j < result.len() implies (#[trigger] result[i]).0
            != (#[trigger] result[j]).0 by {
            assert(after[i + 1].0 != after[j + 1].0);
        }
    }
    assert(result[result.len() - 1] == (key, value));
    lemma_value_at(result, result.len() - 1);
}

proof fn lemma_used<A, V>(entries: Seq<(A, V)>, key: A, value: V)
    requires
        distinct_keys(entries),
    ensures
        distinct_keys(used(entries, key, value)),
        used(entries, key, value).len() <= entries.len() + 1,
        has_key(entries, key) ==> used(entries, key, value).len() == entries.len(),
        !has_key(entries, key) ==> used(entries, key, value) == entries.push((key, value)),
{
    if has_key(entries, key) {
        let index = choose|i: int| 0 <= i < entries.len() && (#[trigger] entries[i]).0 == key;
        lemma_without_present(entries, index);
        let after = used(entries, key, value);
        assert forall|i: int, j: int| 0 <= i < j < after.len() implies (#[trigger] after[i]).0
            != (#[trigger] after[j]).0 by {
            let p = if i < index {
                i
            } else {
                i + 1
            };
            if j < after.len() - 1 {
                let q = if j < index {
                    j
                } else {
                    j + 1
                };
                assert(entries[p].0 != entries[q].0);
            } else if p < index {
                assert(entries[p].0 != entries[index].0);
            } else {
                assert(entries[index].0 != entries[p].0);
            }
        }
    } else {
        lemma_without_absent(entries, key);
        let after = used(entries, key, value);
        assert forall|i: int, j: int| 0 <= i < j < after.len() implies (#[trigger] after[i]).0
            != (#[trigger] after[j]).0 by {
            if j < entries.len() {
                assert(entries[i].0 != entries[j].0);
            } else {
                assert(entries[i].0 != key);
            }
        }
    }
}

/// Inserting a new page into a full cache evicts exactly the page that was
/// used least recently.
pub proof fn eviction_takes_the_least_recent<A, V>(
    entries: Seq<(A, V)>,
    capacity: nat,
    key: A,
    value: V,
)
    requires
        distinct_keys(entries),
        entries.len() == capacity,
        capacity >= 1,
        !has_key(entries, key),
    ensures
        inserted(entries, capacity, key, value) == entries.drop_first().push((key, value)),
{
    lemma_without_absent(entries, key);
    assert(inserted(entries, capacity, key, value) =~= entries.drop_first().push((key, value)));
}

/// A page that is read stays: with room for at least two pages, the next
/// insertion does not evict it.
pub proof fn a_read_page_survives_the_next_insertion<A, V>(
    entries: Seq<(A, V)>,
    capacity: nat,
    read: A,
    key: A,
    value: V,
)
    requires
        distinct_keys(entries),
        entries.len() <= capacity,
        capacity >= 2,
        has_key(entries, read),
        key != read,
    ensures
        ({
            let touched = used(entries, read, value_at(entries, read));
            lookup(inserted(touched, capacity, key, value), read) == lookup(entries, read)
        }),
{
    let kept = value_at(entries, read);
    let touched = used(entries, read, kept);
    lemma_used(entries, read, kept);
    let after = used(touched, key, value);
    lemma_used(touched, key, value);
    let result = inserted(touched, capacity, key, value);
    insertion_respects_capacity(touched, capacity, key, value);
    assert(touched[touched.len() - 1] == (read, kept));
    if has_key(touched, key) {
        let index = choose|i: int| 0 <= i < touched.len() && (#[trigger] touched[i]).0 == key;
        lemma_without_present(touched, index);
        assert(index != touched.len() - 1);
    } else {
        lemma_without_absent(touched, key);
    }
    assert(after[after.len() - 2] == (read, kept));
    assert(result[result.len() - 2] == (read, kept));
    lemma_value_at(result, result.len() - 2);
}

/// Using a page changes the order of use only: every key keeps its page.
pub proof fn use_keeps_every_page<A, V>(entries: Seq<(A, V)>, key: A, other: A)
    requires
        distinct_keys(entries),
        has_key(entries, key),
    ensures
        lookup(used(entries, key, value_at(entries, key)), other) == lookup(entries, other),
{
    let kept = value_at(entries, key);
    let after = used(entries, key, kept);
    lemma_used(entries, key, kept);
    let index = choose|i: int| 0 <= i < entries.len() && (#[trigger] entries[i]).0 == key;
    lemma_without_present(entries, index);
    if other == key {
        assert(after[after.len() - 1] == (key, kept));
        lemma_value_at(after, after.len() - 1);
    } else {
        if has_key(entries, other) {
            let i = choose|i: int| 0 <= i < entries.len() && (#[trigger] entries[i]).0 == other;
            let p = if i < index {
                i
            } else {
                i - 1
            };
            assert(after[p] == entries[i]);
            lemma_value_at(after, p);
            lemma_value_at(entries, i);
        }
        if has_key(after, other) {
            let p = choose|p: int| 0 <= p < after.len() && (#[trigger] after[p]).0 == other;
            let i = if p < index {
                p
            } else {
                p + 1
            };
            assert(p < after.len() - 1);
            assert(entries[i].0 == other);
        }
    }
}

/// Using a page puts it last with its new value and keeps the order of the
/// others; a page that is taken out is gone, and no other one.
pub proof fn used_pages_come_last<A, V>(entries: Seq<(A, V)>, entry: (A, V), key: A, value: V)
    ensures
        used(entries, key, value).last() == (key, value),
        used(entries, key, value).drop_last() == without(entries, key),
        without(Seq::<(A, V)>::empty(), key).len() == 0,
        entry.0 == key ==> without(entries.push(entry), key) == without(entries, key),
        entry.0 != key ==> without(entries.push(entry), key) == without(entries, key).push(entry),
{
    reveal(Seq::filter);
    assert(entries.push(entry).drop_last() =~= entries);
    assert(used(entries, key, value).drop_last() =~= without(entries, key));
}

/// A page is found under its key with the value that it was stored with.
pub proof fn pages_are_found_under_their_key<A, V>(entries: Seq<(A, V)>, place: int, other: A)
    requires
        distinct_keys(entries),
        0 <= place < entries.len(),
    ensures
        lookup(entries, entries[place].0) == Some(entries[place].1),
        (forall|i: int| 0 <= i < entries.len() ==> (#[trigger] entries[i]).0 != other)
            ==> lookup(entries, other) is None,
{
    let key = entries[place].0;
    assert(has_key(entries, key));
    let found = place_of(entries, key);
    assert(entries[found].0 == key);
    assert(found == place);
}

} // verus!
