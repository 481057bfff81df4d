//! Small keyed collections: a set and a map over keys that compare by their view.

use vstd::prelude::*;

verus! {

/// A key that can be compared and duplicated; its identity is its view.
pub trait PageKey: View + Sized {
    /// Whether two keys are the same.
    fn same_key(&self, other: &Self) -> (same: bool)
        ensures
            same == (self@ == other@),
    ;

    /// Another key with the same identity.
    fn copy_key(&self) -> (copy: Self)
        ensures
            copy@ == self@,
    ;
}

impl PageKey for u8 {
    fn same_key(&self, other: &Self) -> (same: bool) {
        *self == *other
    }

    fn copy_key(&self) -> (copy: Self) {
        *self
    }
}

impl PageKey for i32 {
    fn same_key(&self, other: &Self) -> (same: bool) {
        *self == *other
    }

    fn copy_key(&self) -> (copy: Self) {
        *self
    }
}

impl PageKey for u64 {
    fn same_key(&self, other: &Self) -> (same: bool) {
        *self == *other
    }

    fn copy_key(&self) -> (copy: Self) {
        *self
    }
}

impl<'a> PageKey for &'a str {
    fn same_key(&self, other: &Self) -> (same: bool) {
        crate::text::same_text(*self, *other)
    }

    fn copy_key(&self) -> (copy: Self) {
        *self
    }
}

impl PageKey for String {
    fn same_key(&self, other: &Self) -> (same: bool) {
        *self == *other
    }

    fn copy_key(&self) -> (copy: Self) {
        self.clone()
    }
}

/// The identities of a sequence of keys.
pub open spec fn identities<K: View>(keys: Seq<K>) -> Seq<K::V> {
    keys.map_values(|key: K| key@)
}

/// A set of keys, in the order in which they were first inserted.
#[derive(Debug)]
pub struct KeySet<K> {
    keys: Vec<K>,
}

impl<K: PageKey> View for KeySet<K> {
    type V = Set<K::V>;

    closed spec fn view(&self) -> Set<K::V> {
        identities(self.keys@).to_set()
    }
}

impl<K: PageKey> KeySet<K> {
    /// No key occurs twice.
    pub closed spec fn wf(self) -> bool {
        identities(self.keys@).no_duplicates()
    }

    /// A set holds finitely many keys.
    pub proof fn sets_are_finite(self)
        ensures
            self@.finite(),
    {
        broadcast use vstd::seq_lib::seq_to_set_is_finite;

    }

    /// The set without keys.
    pub fn new() -> (set: Self)
        ensures
            set@ == Set::<K::V>::empty(),
            set.wf(),
    {
        let set = KeySet { keys: Vec::new() };
        assert(identities(set.keys@) =~= Seq::empty());
        assert(set@ =~= Set::empty());
        set
    }

    fn find(&self, key: &K) -> (found: Option<usize>)
        ensures
            match found {
                Some(index) => index < self.keys@.len() && self.keys@[index as int]@ == key@,
                None => !self@.contains(key@),
            },
    {
        let mut index: usize = 0;
        while index < self.keys.len()
            invariant
                index <= self.keys@.len(),
                forall|i: int| 0 <= i < index ==> (#[trigger] self.keys@[i])@ != key@,
            decreases self.keys@.len() - index,
        {
            if self.keys[index].same_key(key) {
                return Some(index);
            }
            index += 1;
        }
        assert forall|i: int| 0 <= i < identities(self.keys@).len() implies identities(
            self.keys@,
        )[i] != key@ by {
            assert(self.keys@[i]@ != key@);
        }
        None
    }

    /// Whether the key is in the set.
    pub fn contains(&self, key: &K) -> (found: bool)
        ensures
            found == self@.contains(key@),
    {
        match self.find(key) {
            Some(index) => {
                assert(identities(self.keys@)[index as int] == key@);
                true
            },
            None => false,
        }
    }

    /// Adds the key; the result says whether it is new.
    pub fn insert(&mut self, key: K) -> (added: bool)
        requires
            old(self).wf(),
        ensures
            final(self)@ == old(self)@.insert(key@),
            added == !old(self)@.contains(key@),
            final(self).wf(),
    {
        if self.contains(&key) {
            assert(self@ =~= self@.insert(key@));
            return false;
        }
        let ghost before = identities(self.keys@);
        let ghost id = key@;
        self.keys.push(key);
        proof {
            let after = identities(self.keys@);
            assert(after =~= before.push(id));
            assert(!before.contains(id));
            assert forall|k: K::V| #[trigger] after.to_set().contains(k) implies before.to_set().insert(
                id,
            ).contains(k) by {
                let i = choose|i: int| 0 <= i < after.len() && after[i] == k;
                if i < before.len() {
                    assert(before[i] == k);
                }
            }
            assert forall|k: K::V| #[trigger] before.to_set().insert(id).contains(
                k,
            ) implies after.to_set().contains(k) by {
                if k == id {
                    assert(after[before.len() as int] == k);
                } else {
                    let i = choose|i: int| 0 <= i < before.len() && before[i] == k;
                    assert(after[i] == k);
                }
            }
            assert(after.to_set() =~= before.to_set().insert(id));
            assert(after.no_duplicates());
        }
        true
    }

    /// Removes the key; the result says whether it was there.
    pub fn remove(&mut self, key: &K) -> (removed: bool)
        requires
            old(self).wf(),
        ensures
            final(self)@ == old(self)@.remove(key@),
            removed == old(self)@.contains(key@),
            final(self).wf(),
    {
        match self.find(key) {
            Some(index) => {
                let ghost before = identities(self.keys@);
                assert(before[index as int] == key@);
                self.keys.remove(index);
                proof {
                    let after = identities(self.keys@);
                    assert(after =~= before.remove(index as int));
                    assert forall|k: K::V| #[trigger] after.to_set().contains(
                        k,
                    ) implies before.to_set().remove(key@).contains(k) by {
                        let i = choose|i: int| 0 <= i < after.len() && after[i] == k;
                        if i < index {
                            assert(before[i] == k);
                        } else {
                            assert(before[i + 1] == k);
                        }
                    }
                    assert forall|k: K::V| #[trigger] before.to_set().remove(key@).contains(
                        k,
                    ) implies after.to_set().contains(k) by {
                        let i = choose|i: int| 0 <= i < before.len() && before[i] == k;
                        if i < index {
                            assert(after[i] == k);
                        } else {
                            assert(after[i - 1] == k);
                        }
                    }
                    assert(after.to_set() =~= before.to_set().remove(key@));
                }
                true
            },
            None => {
                assert(self@.remove(key@) =~= self@);
                false
            },
        }
    }

    /// Removes every key.
    pub fn clear(&mut self)
        ensures
            final(self)@ == Set::<K::V>::empty(),
            final(self).wf(),
    {
        self.keys.clear();
        assert(identities(self.keys@) =~= Seq::empty());
        assert(self@ =~= Set::empty());
    }

    /// Keeps the keys that are among `allowed`.
    pub fn retain_among(&mut self, allowed: &Vec<K>)
        requires
            old(self).wf(),
        ensures
            final(self)@ == old(self)@.intersect(identities(allowed@).to_set()),
            final(self).wf(),
    {
        let mut kept: KeySet<K> = KeySet::new();
        let mut index: usize = 0;
        let ghost all = identities(self.keys@);
        let ghost permitted = identities(allowed@).to_set();
        assert(all.take(0).to_set().intersect(permitted) =~= Set::empty());
        while index < self.keys.len()
            invariant
                index <= self.keys@.len(),
                all == identities(self.keys@),
                permitted == identities(allowed@).to_set(),
                kept.wf(),
                kept@ == all.take(index as int).to_set().intersect(permitted),
            decreases self.keys@.len() - index,
        {
            let ghost before = kept@;
            let mut place: usize = 0;
            let mut found = false;
            while place < allowed.len()
                invariant
                    index < self.keys@.len(),
                    place <= allowed@.len(),
                    found == (exists|i: int|
                        0 <= i < place && (#[trigger] allowed@[i])@ == self.keys@[index as int]@),
                decreases allowed@.len() - place,
            {
                if allowed[place].same_key(&self.keys[index]) {
                    found = true;
                }
                place += 1;
            }
            proof {
                let id = self.keys@[index as int]@;
                assert(found == permitted.contains(id)) by {
                    if found {
                        let i = choose|i: int|
                            0 <= i < place && (#[trigger] allowed@[i])@ == id;
                        assert(identities(allowed@)[i] == id);
                    }
                    if permitted.contains(id) {
                        let i = choose|i: int|
                            0 <= i < identities(allowed@).len() && identities(allowed@)[i] == id;
                        assert(allowed@[i]@ == id);
                    }
                }
                lemma_take_one_more(all, index as int);
            }
            if found {
                kept.insert(self.keys[index].copy_key());
            }
            index += 1;
            assert(kept@ =~= all.take(index as int).to_set().intersect(permitted));
        }
        assert(all.take(index as int) =~= all);
        self.keys = kept.keys;
    }

    /// How many keys the set holds.
    pub fn len(&self) -> (len: usize)
        requires
            self.wf(),
        ensures
            len == self@.len(),
    {
        proof {
            identities(self.keys@).unique_seq_to_set();
        }
        self.keys.len()
    }

    /// The keys, in the order in which they were first inserted.
    pub fn keys(&self) -> (keys: &Vec<K>)
        ensures
            identities(keys@).to_set() == self@,
            self.wf() ==> identities(keys@).no_duplicates(),
    {
        &self.keys
    }
}

/// A prefix with one element more keeps that element where it is to be kept.
pub proof fn lemma_filter_take<A>(items: Seq<A>, index: int, keep: spec_fn(A) -> bool)
    requires
        0 <= index < items.len(),
    ensures
        items.take(index + 1).filter(keep) == (if keep(items[index]) {
            items.take(index).filter(keep).push(items[index])
        } else {
            items.take(index).filter(keep)
        }),
        items.take(0).filter(keep) == Seq::<A>::empty(),
{
    reveal(Seq::filter);
    assert(items.take(index + 1).drop_last() =~= items.take(index));
    assert(items.take(index + 1).last() == items[index]);
    assert(items.take(0) =~= Seq::empty());
}

/// A prefix with one element more holds that element more.
pub proof fn lemma_take_one_more<A>(items: Seq<A>, count: int)
    requires
        0 <= count < items.len(),
    ensures
        items.take(count + 1).to_set() == items.take(count).to_set().insert(items[count]),
{
    let shorter = items.take(count);
    let longer = items.take(count + 1);
    assert forall|x: A| #[trigger] longer.to_set().contains(x) <==> shorter.to_set().insert(
        items[count],
    ).contains(x) by {
        assert(longer[count] == items[count]);
        if shorter.contains(x) {
            let i = choose|i: int| 0 <= i < shorter.len() && shorter[i] == x;
            assert(longer[i] == x);
        }
        if longer.contains(x) {
            let i = choose|i: int| 0 <= i < longer.len() && longer[i] == x;
            if i < count {
                assert(shorter[i] == x);
            }
        }
    }
    assert(longer.to_set() =~= shorter.to_set().insert(items[count]));
}

} // verus!
