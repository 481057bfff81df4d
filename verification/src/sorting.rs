//! Text order and stable sorting.

use crate::text::{self, chars_of, code_of, distinct_texts};
use vstd::prelude::*;

verus! {

/// The order of texts: by the first character in which they differ, a proper
/// prefix first. This is also the order of their UTF-8 encodings.
pub open spec fn text_before(left: Seq<char>, right: Seq<char>) -> bool
    decreases left.len(),
{
    if right.len() == 0 {
        false
    } else if left.len() == 0 {
        true
    } else if left[0] != right[0] {
        (left[0] as int) < (right[0] as int)
    } else {
        text_before(left.drop_first(), right.drop_first())
    }
}

/// Text order is total: of two different texts exactly one is before the other.
pub proof fn text_order_is_total(left: Seq<char>, right: Seq<char>)
    ensures
        left == right ==> !text_before(left, right),
        left != right ==> (text_before(left, right) <==> !text_before(right, left)),
    decreases left.len(),
{
    if left.len() > 0 && right.len() > 0 {
        text_order_is_total(left.drop_first(), right.drop_first());
        if left[0] == right[0] {
            if left.drop_first() == right.drop_first() {
                assert(left =~= seq![left[0]] + left.drop_first());
                assert(right =~= seq![right[0]] + right.drop_first());
            }
        }
    } else {
        if left.len() == 0 && right.len() == 0 {
            assert(left =~= right);
        }
    }
}

/// Text order is transitive.
pub proof fn text_order_is_transitive(first: Seq<char>, second: Seq<char>, third: Seq<char>)
    requires
        text_before(first, second),
        text_before(second, third),
    ensures
        text_before(first, third),
    decreases first.len(),
{
    if first.len() > 0 && second.len() > 0 && third.len() > 0 {
        if first[0] == second[0] && second[0] == third[0] {
            text_order_is_transitive(first.drop_first(), second.drop_first(), third.drop_first());
        }
    }
}

/// The outcome of a comparison.
#[derive(Debug, Clone, Copy, PartialEq, Eq, Structural)]
pub enum Rank {
    Before,
    Same,
    After,
}

/// The rank of one text against another.
pub open spec fn text_rank(left: Seq<char>, right: Seq<char>) -> Rank {
    if left == right {
        Rank::Same
    } else if text_before(left, right) {
        Rank::Before
    } else {
        Rank::After
    }
}

/// Compares two texts.
pub fn rank_texts(left: &str, right: &str) -> (rank: Rank)
    ensures
        rank == text_rank(left@, right@),
{
    let a = chars_of(left);
    let b = chars_of(right);
    let mut index: usize = 0;
    assert(a@.skip(0) =~= a@);
    assert(b@.skip(0) =~= b@);
    while index < a.len() && index < b.len()
        invariant
            index <= a@.len(),
            index <= b@.len(),
            a@ == left@,
            b@ == right@,
            a@.take(index as int) =~= b@.take(index as int),
            text_before(left@, right@) == text_before(
                a@.skip(index as int),
                b@.skip(index as int),
            ),
        decreases a@.len() - index,
    {
        proof {
            assert(a@.skip(index as int)[0] == a@[index as int]);
            assert(b@.skip(index as int)[0] == b@[index as int]);
            assert(a@.skip(index as int).drop_first() =~= a@.skip(index + 1));
            assert(b@.skip(index as int).drop_first() =~= b@.skip(index + 1));
        }
        let x: char = a[index];
        let y: char = b[index];
        if x != y {
            if code_of(x) < code_of(y) {
                return Rank::Before;
            } else {
                return Rank::After;
            }
        }
        assert(a@.take(index + 1) =~= a@.take(index as int).push(a@[index as int]));
        assert(b@.take(index + 1) =~= b@.take(index as int).push(b@[index as int]));
        index += 1;
    }
    assert(a@.take(a@.len() as int) =~= a@);
    assert(b@.take(b@.len() as int) =~= b@);
    if a.len() == b.len() {
        Rank::Same
    } else if a.len() < b.len() {
        Rank::Before
    } else {
        Rank::After
    }
}

/// A strict weak order: what is neither before nor after is equivalent.
pub open spec fn strict_weak<A>(before: spec_fn(A, A) -> bool) -> bool {
    &&& forall|a: A, b: A| #[trigger] before(a, b) ==> !before(b, a)
    &&& forall|a: A, b: A, c: A|
        !#[trigger] before(a, b) && !#[trigger] before(b, c) ==> !before(a, c)
}

/// `item` put behind the last element that it is not before.
pub open spec fn placed<A>(before: spec_fn(A, A) -> bool, sorted: Seq<A>, item: A) -> Seq<A>
    decreases sorted.len(),
{
    if sorted.len() == 0 || !before(item, sorted.last()) {
        sorted.push(item)
    } else {
        placed(before, sorted.drop_last(), item).push(sorted.last())
    }
}

/// The elements in order, equivalent ones in their old order.
pub open spec fn stably_sorted<A>(before: spec_fn(A, A) -> bool, items: Seq<A>) -> Seq<A>
    decreases items.len(),
{
    if items.len() == 0 {
        items
    } else {
        placed(before, stably_sorted(before, items.drop_last()), items.last())
    }
}

/// No element stands behind one that it is before.
pub open spec fn in_order<A>(before: spec_fn(A, A) -> bool, items: Seq<A>) -> bool {
    forall|i: int, j: int|
        0 <= i < j < items.len() ==> !before(#[trigger] items[j], #[trigger] items[i])
}

proof fn lemma_placed<A>(before: spec_fn(A, A) -> bool, sorted: Seq<A>, item: A)
    requires
        strict_weak(before),
        in_order(before, sorted),
    ensures
        in_order(before, placed(before, sorted, item)),
        placed(before, sorted, item).to_multiset() == sorted.to_multiset().insert(item),
        placed(before, sorted, item).len() == sorted.len() + 1,
        forall|i: int|
            0 <= i < placed(before, sorted, item).len() ==> #[trigger] placed(
                before,
                sorted,
                item,
            )[i] == item || sorted.contains(placed(before, sorted, item)[i]),
    decreases sorted.len(),
{
    broadcast use vstd::seq_lib::group_to_multiset_ensures;

    let result = placed(before, sorted, item);
    if sorted.len() == 0 || !before(item, sorted.last()) {
        assert forall|i: int, j: int| 0 <= i < j < result.len() implies !before(
            #[trigger] result[j],
            #[trigger] result[i],
        ) by {
            if j == sorted.len() {
                if i < sorted.len() - 1 {
                    assert(!before(sorted[sorted.len() - 1], sorted[i]));
                    assert(!before(item, sorted.last()));
                    assert(!before(sorted.last(), sorted[i]));
                }
            } else {
                assert(!before(sorted[j], sorted[i]));
            }
        }
        assert forall|i: int| 0 <= i < result.len() implies #[trigger] result[i] == item
            || sorted.contains(result[i]) by {
            if i < sorted.len() {
                assert(sorted[i] == result[i]);
            }
        }
    } else {
        let shorter = sorted.drop_last();
        assert forall|i: int, j: int| 0 <= i < j < shorter.len() implies !before(
            #[trigger] shorter[j],
            #[trigger] shorter[i],
        ) by {
            assert(!before(sorted[j], sorted[i]));
        }
        lemma_placed(before, shorter, item);
        let head = placed(before, shorter, item);
        let last = sorted.last();
        assert(sorted =~= shorter.push(last));
        assert(result =~= head.push(last));
        assert(result.to_multiset() =~= sorted.to_multiset().insert(item));
        assert forall|i: int, j: int| 0 <= i < j < result.len() implies !before(
            #[trigger] result[j],
            #[trigger] result[i],
        ) by {
            if j == head.len() {
                assert(head[i] == item || shorter.contains(head[i]));
                if head[i] != item {
                    let k = choose|k: int| 0 <= k < shorter.len() && shorter[k] == head[i];
                    assert(!before(sorted[sorted.len() - 1], sorted[k]));
                } else {
                    assert(before(item, last));
                }
            } else {
                assert(!before(head[j], head[i]));
            }
        }
        assert forall|i: int| 0 <= i < result.len() implies #[trigger] result[i] == item
            || sorted.contains(result[i]) by {
            if i < head.len() {
                assert(head[i] == item || shorter.contains(head[i]));
                if head[i] != item {
                    let k = choose|k: int| 0 <= k < shorter.len() && shorter[k] == head[i];
                    assert(sorted[k] == result[i]);
                }
            } else {
                assert(sorted[sorted.len() - 1] == result[i]);
            }
        }
    }
}

/// Sorting gives the same elements, in order.
pub proof fn sorting_is_an_ordered_rearrangement<A>(before: spec_fn(A, A) -> bool, items: Seq<A>)
    requires
        strict_weak(before),
    ensures
        in_order(before, stably_sorted(before, items)),
        stably_sorted(before, items).to_multiset() == items.to_multiset(),
        stably_sorted(before, items).len() == items.len(),
    decreases items.len(),
{
    broadcast use vstd::seq_lib::group_to_multiset_ensures;

    if items.len() > 0 {
        let shorter = items.drop_last();
        sorting_is_an_ordered_rearrangement(before, shorter);
        lemma_placed(before, stably_sorted(before, shorter), items.last());
        assert(items =~= shorter.push(items.last()));
    }
}

/// Elements that are in order already stay where they are: sorting is stable
/// and has no further effect when repeated.
pub proof fn sorting_keeps_what_is_in_order<A>(before: spec_fn(A, A) -> bool, items: Seq<A>)
    requires
        in_order(before, items),
    ensures
        stably_sorted(before, items) == items,
    decreases items.len(),
{
    if items.len() > 0 {
        let shorter = items.drop_last();
        assert forall|i: int, j: int| 0 <= i < j < shorter.len() implies !before(
            #[trigger] shorter[j],
            #[trigger] shorter[i],
        ) by {
            assert(!before(items[j], items[i]));
        }
        sorting_keeps_what_is_in_order(before, shorter);
        if shorter.len() > 0 {
            assert(!before(items[items.len() - 1], items[items.len() - 2]));
        }
        assert(placed(before, shorter, items.last()) =~= items);
    }
}

/// An executable order on elements, over their views.
pub trait SortOrder<T: View>: Sized {
    /// Whether one value ranks before another.
    spec fn before(&self) -> spec_fn(T::V, T::V) -> bool;

    /// Whether one element ranks before another.
    fn precedes(&self, left: &T, right: &T) -> (first: bool)
        ensures
            first == (self.before())(left@, right@),
    ;
}

/// The values of a sequence of elements.
pub open spec fn views<T: View>(items: Seq<T>) -> Seq<T::V> {
    items.map_values(|item: T| item@)
}

/// Sorts elements; equivalent ones keep their order.
pub fn sort_by_order<T: View, O: SortOrder<T>>(order: &O, items: Vec<T>) -> (sorted: Vec<T>)
    ensures
        views(sorted@) == stably_sorted(order.before(), views(items@)),
        sorted@.len() == items@.len(),
{
    let mut rest = items;
    let mut sorted: Vec<T> = Vec::new();
    let ghost all = views(rest@);
    assert(views(sorted@) =~= Seq::empty());
    assert(all.take(0) =~= Seq::empty());
    assert(all.skip(0) =~= all);
    while rest.len() > 0
        invariant
            sorted@.len() + rest@.len() == all.len(),
            views(rest@) == all.skip(sorted@.len() as int),
            views(sorted@) == stably_sorted(order.before(), all.take(sorted@.len() as int)),
        decreases rest@.len(),
    {
        let ghost done = sorted@.len() as int;
        assert(views(rest@)[0] == rest@[0]@);
        let ghost waiting = rest@;
        let item = rest.remove(0);
        let ghost before = views(sorted@);
        let mut place: usize = sorted.len();
        assert(before.take(place as int) =~= before);
        assert(before.skip(place as int) =~= Seq::empty());
        assert(placed(order.before(), before, item@) =~= placed(
            order.before(),
            before.take(place as int),
            item@,
        ) + before.skip(place as int));
        while place > 0 && order.precedes(&item, &sorted[place - 1])
            invariant
                place <= sorted@.len(),
                before == views(sorted@),
                placed(order.before(), before, item@) == placed(
                    order.before(),
                    before.take(place as int),
                    item@,
                ) + before.skip(place as int),
            decreases place,
        {
            proof {
                let head = before.take(place as int);
                assert(head.last() == before[place - 1]);
                assert(head.drop_last() =~= before.take(place - 1));
                assert(before.skip(place - 1) =~= seq![before[place - 1]] + before.skip(
                    place as int,
                ));
                assert(placed(order.before(), head, item@) + before.skip(place as int) =~= placed(
                    order.before(),
                    before.take(place - 1),
                    item@,
                ) + before.skip(place - 1));
            }
            place -= 1;
        }
        proof {
            let head = before.take(place as int);
            assert(place > 0 ==> head.last() == before[place - 1]);
            assert(placed(order.before(), head, item@) == head.push(item@));
        }
        let ghost id = item@;
        sorted.insert(place, item);
        proof {
            assert(views(sorted@) =~= before.take(place as int).push(id) + before.skip(
                place as int,
            ));
            assert(all.take(done + 1).drop_last() =~= all.take(done));
            assert(all.take(done + 1).last() == id);
            assert(rest@ =~= waiting.skip(1));
            assert(views(rest@) =~= views(waiting).skip(1));
            assert(views(rest@) =~= all.skip(done + 1));
        }
    }
    assert(all.take(all.len() as int) =~= all);
    sorted
}

/// Texts in text order.
pub struct TextOrder;

/// Text order as a relation.
pub open spec fn text_order() -> spec_fn(Seq<char>, Seq<char>) -> bool {
    |left: Seq<char>, right: Seq<char>| text_before(left, right)
}

impl SortOrder<String> for TextOrder {
    open spec fn before(&self) -> spec_fn(Seq<char>, Seq<char>) -> bool {
        text_order()
    }

    fn precedes(&self, left: &String, right: &String) -> (first: bool) {
        proof {
            text_order_is_total(left@, right@);
        }
        match rank_texts(left.as_str(), right.as_str()) {
            Rank::Before => true,
            _ => false,
        }
    }
}

/// The different texts among `items`, in text order.
pub open spec fn distinct_sorted(items: Seq<Seq<char>>) -> Seq<Seq<char>> {
    stably_sorted(text_order(), text::first_occurrences(items))
}

/// The different texts among `items`, in text order.
pub fn distinct_sorted_texts(items: Vec<String>) -> (sorted: Vec<String>)
    ensures
        text::texts(sorted@) == distinct_sorted(text::texts(items@)),
{
    let distinct = distinct_texts(items);
    assert(views(distinct@) =~= text::texts(distinct@));
    let sorted = sort_by_order(&TextOrder, distinct);
    assert(views(sorted@) =~= text::texts(sorted@));
    sorted
}

/// Text order is a strict weak order.
pub proof fn text_order_is_strict_weak()
    ensures
        strict_weak(text_order()),
{
    let before = text_order();
    assert forall|a: Seq<char>, b: Seq<char>| #[trigger] before(a, b) implies !before(b, a) by {
        text_order_is_total(a, b);
    }
    assert forall|a: Seq<char>, b: Seq<char>, c: Seq<char>|
        !#[trigger] before(a, b) && !#[trigger] before(b, c) implies !before(a, c) by {
        text_order_is_total(a, b);
        text_order_is_total(b, c);
        text_order_is_total(a, c);
        if before(a, c) && a != b && b != c {
            text_order_is_transitive(c, b, a);
        }
    }
}

/// The different texts come out strictly ascending, and none is lost or added.
pub proof fn distinct_texts_ascend(items: Seq<Seq<char>>)
    ensures
        forall|i: int, j: int|
            0 <= i < j < distinct_sorted(items).len() ==> text_before(
                #[trigger] distinct_sorted(items)[i],
                #[trigger] distinct_sorted(items)[j],
            ),
        forall|text: Seq<char>|
            distinct_sorted(items).contains(text) <==> #[trigger] items.contains(text),
        distinct_sorted(items).len() <= items.len(),
{
    broadcast use vstd::seq_lib::group_to_multiset_ensures;

    let kept = text::first_occurrences(items);
    let sorted = distinct_sorted(items);
    text_order_is_strict_weak();
    text::first_occurrences_are_distinct(items);
    sorting_is_an_ordered_rearrangement(text_order(), kept);
    kept.lemma_multiset_has_no_duplicates();
    assert(sorted.to_multiset() == kept.to_multiset());
    assert forall|text: Seq<char>|
        sorted.contains(text) <==> #[trigger] items.contains(text) by {
        assert(sorted.contains(text) <==> sorted.to_multiset().count(text) > 0);
        assert(kept.contains(text) <==> kept.to_multiset().count(text) > 0);
    }
    sorted.lemma_multiset_has_no_duplicates_conv();
    assert forall|i: int, j: int| 0 <= i < j < sorted.len() implies text_before(
        #[trigger] sorted[i],
        #[trigger] sorted[j],
    ) by {
        text_order_is_total(sorted[i], sorted[j]);
        assert(sorted[i] != sorted[j]);
        assert(!text_order()(sorted[j], sorted[i]));
    }
}

/// Where two texts part: before that place they agree, and there the first
/// one ends or has the lower character.
pub open spec fn parts_lower(left: Seq<char>, right: Seq<char>, place: int) -> bool {
    &&& 0 <= place <= left.len()
    &&& place < right.len()
    &&& forall|i: int| 0 <= i < place ==> left[i] == #[trigger] right[i]
    &&& place < left.len() ==> (left[place] as int) < (right[place] as int)
}

/// One text is before another exactly where they part so at some place.
pub proof fn text_order_is_lexicographic(left: Seq<char>, right: Seq<char>)
    ensures
        text_before(left, right) <==> exists|place: int| #[trigger] parts_lower(left, right, place),
    decreases left.len(),
{
    if right.len() > 0 && left.len() > 0 && left[0] == right[0] {
        let (a, b) = (left.drop_first(), right.drop_first());
        text_order_is_lexicographic(a, b);
        if text_before(a, b) {
            let place = choose|place: int| #[trigger] parts_lower(a, b, place);
            assert forall|i: int| 0 <= i < place + 1 implies left[i] == #[trigger] right[i] by {
                if i > 0 {
                    assert(a[i - 1] == b[i - 1]);
                }
            }
            assert(parts_lower(left, right, place + 1));
        }
        if exists|place: int| #[trigger] parts_lower(left, right, place) {
            let place = choose|place: int| #[trigger] parts_lower(left, right, place);
            assert(place > 0);
            assert forall|i: int| 0 <= i < place - 1 implies a[i] == #[trigger] b[i] by {
                assert(left[i + 1] == right[i + 1]);
            }
            assert(parts_lower(a, b, place - 1));
        }
    } else {
        if text_before(left, right) {
            assert(parts_lower(left, right, 0));
        }
        if exists|place: int| #[trigger] parts_lower(left, right, place) {
            let place = choose|place: int| #[trigger] parts_lower(left, right, place);
            if place > 0 {
                assert(left[0] == right[0]);
            }
        }
    }
}

/// A further item is put behind those that it does not rank before and in front
/// of the others, so that equivalent items keep their order.
pub proof fn further_items_come_after_their_equals<A>(
    before: spec_fn(A, A) -> bool,
    items: Seq<A>,
    item: A,
)
    ensures
        exists|place: int|
            {
                &&& 0 <= place <= items.len()
                &&& stably_sorted(before, items.push(item)) == #[trigger] stably_sorted(
                    before,
                    items,
                ).take(place).push(item) + stably_sorted(before, items).skip(place)
                &&& place > 0 ==> !before(item, stably_sorted(before, items)[place - 1])
                &&& forall|i: int|
                    place <= i < items.len() ==> before(
                        item,
                        #[trigger] stably_sorted(before, items)[i],
                    )
            },
{
    let sorted = stably_sorted(before, items);
    lemma_sorted_len(before, items);
    assert(items.push(item).drop_last() =~= items);
    lemma_placed_behind(before, sorted, item);
}

proof fn lemma_placed_len<A>(before: spec_fn(A, A) -> bool, sorted: Seq<A>, item: A)
    ensures
        placed(before, sorted, item).len() == sorted.len() + 1,
    decreases sorted.len(),
{
    if sorted.len() > 0 && before(item, sorted.last()) {
        lemma_placed_len(before, sorted.drop_last(), item);
    }
}

proof fn lemma_sorted_len<A>(before: spec_fn(A, A) -> bool, items: Seq<A>)
    ensures
        stably_sorted(before, items).len() == items.len(),
    decreases items.len(),
{
    if items.len() > 0 {
        lemma_sorted_len(before, items.drop_last());
        lemma_placed_len(before, stably_sorted(before, items.drop_last()), items.last());
    }
}

proof fn lemma_placed_behind<A>(before: spec_fn(A, A) -> bool, sorted: Seq<A>, item: A)
    ensures
        exists|place: int|
            {
                &&& 0 <= place <= sorted.len()
                &&& placed(before, sorted, item) == #[trigger] sorted.take(place).push(item)
                    + sorted.skip(place)
                &&& place > 0 ==> !before(item, sorted[place - 1])
                &&& forall|i: int| place <= i < sorted.len() ==> before(item, #[trigger] sorted[i])
            },
    decreases sorted.len(),
{
    if sorted.len() == 0 || !before(item, sorted.last()) {
        let place = sorted.len() as int;
        assert(placed(before, sorted, item) =~= sorted.take(place).push(item) + sorted.skip(place));
    } else {
        let shorter = sorted.drop_last();
        lemma_placed_behind(before, shorter, item);
        let place = choose|place: int|
            {
                &&& 0 <= place <= shorter.len()
                &&& placed(before, shorter, item) == #[trigger] shorter.take(place).push(item)
                    + shorter.skip(place)
                &&& place > 0 ==> !before(item, shorter[place - 1])
                &&& forall|i: int|
                    place <= i < shorter.len() ==> before(item, #[trigger] shorter[i])
            };
        assert(placed(before, sorted, item) =~= sorted.take(place).push(item) + sorted.skip(place));
        assert forall|i: int| place <= i < sorted.len() implies before(
            item,
            #[trigger] sorted[i],
        ) by {
            if i < shorter.len() {
                assert(shorter[i] == sorted[i]);
            }
        }
    }
}

} // verus!
