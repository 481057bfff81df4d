//! The chronological list of the spans of a trace, loaded page by page.

use super::model::SpanRow;
use crate::controllers::bounded_cache;
use crate::controllers::BoundedPageCache;
use crate::keyed::KeySet;
use crate::sorting::{self, rank_texts, sort_by_order, Rank, SortOrder};
use vstd::prelude::*;

verus! {

/// How many spans one page holds.
pub const TIMELINE_PAGE_SIZE: u64 = 500;

/// The model of a timeline.
#[verifier::ext_equal]
pub struct TimelineState {
    /// The cached pages, from the least to the most recently loaded one.
    pub pages: Seq<(u64, Vec<SpanRow>)>,
    /// How many pages are cached at most.
    pub capacity: nat,
    /// The pages that are being loaded.
    pub loading: Set<u64>,
    /// How many spans the trace has.
    pub total: u64,
}

impl TimelineState {
    /// A trace of which nothing is loaded, with room for so many pages, at
    /// least one.
    pub open spec fn empty(cached_pages: nat) -> TimelineState {
        TimelineState {
            pages: Seq::empty(),
            capacity: if cached_pages == 0 {
                1
            } else {
                cached_pages
            },
            loading: Set::empty(),
            total: 0,
        }
    }
}

/// All spans of the given pages.
pub open spec fn timeline_spans(pages: Seq<(u64, Vec<SpanRow>)>) -> Seq<SpanRow>
    decreases pages.len(),
{
    if pages.len() == 0 {
        Seq::empty()
    } else {
        timeline_spans(pages.drop_last()) + pages.last().1@
    }
}

impl TimelineState {
    /// Whether a page is cached.
    pub open spec fn has_page(self, page: u64) -> bool {
        bounded_cache::has_key(self.pages, page)
    }

    /// The span at a place of the timeline, where its page is cached.
    pub open spec fn row(self, index: nat) -> Option<SpanRow> {
        let page = (index / 500) as u64;
        if !self.has_page(page) {
            None
        } else {
            let rows = bounded_cache::value_at(self.pages, page)@;
            if index % 500 < rows.len() {
                Some(rows[(index % 500) as int])
            } else {
                None
            }
        }
    }

    /// The cached spans in chronological order.
    pub open spec fn loaded(self) -> Seq<SpanRow> {
        sorting::stably_sorted(chronological(), timeline_spans(self.pages))
    }
}

/// Whether one span comes before another: by start, then by identity.
pub open spec fn chronological() -> spec_fn(SpanRow, SpanRow) -> bool {
    |left: SpanRow, right: SpanRow|
        left.start_time_unix_nano < right.start_time_unix_nano || (left.start_time_unix_nano
            == right.start_time_unix_nano && sorting::text_before(left.span_id@, right.span_id@))
}

/// Spans in chronological order.
pub struct Chronological;

impl SortOrder<SpanRow> for Chronological {
    open spec fn before(&self) -> spec_fn(SpanRow, SpanRow) -> bool {
        chronological()
    }

    fn precedes(&self, left: &SpanRow, right: &SpanRow) -> (first: bool) {
        if left.start_time_unix_nano != right.start_time_unix_nano {
            return left.start_time_unix_nano < right.start_time_unix_nano;
        }
        proof {
            sorting::text_order_is_total(left.span_id@, right.span_id@);
        }
        rank_texts(left.span_id.as_str(), right.span_id.as_str()) == Rank::Before
    }
}

/// Chronological order is a strict weak order.
pub proof fn chronological_order_is_strict_weak()
    ensures
        sorting::strict_weak(chronological()),
{
    let before = chronological();
    sorting::text_order_is_strict_weak();
    let by_text = sorting::text_order();
    assert forall|a: SpanRow, b: SpanRow| #[trigger] before(a, b) implies !before(b, a) by {
        assert(by_text(a.span_id@, b.span_id@) ==> !by_text(b.span_id@, a.span_id@));
    }
    assert forall|a: SpanRow, b: SpanRow, c: SpanRow|
        !#[trigger] before(a, b) && !#[trigger] before(b, c) implies !before(a, c) by {
        assert(!by_text(a.span_id@, b.span_id@) && !by_text(b.span_id@, c.span_id@)
            ==> !by_text(a.span_id@, c.span_id@));
    }
}

/// The timeline of a trace.
#[derive(Debug)]
pub struct FullTraceTimelineModel {
    pages: BoundedPageCache<u64, Vec<SpanRow>>,
    loading: KeySet<u64>,
    total: u64,
}

impl View for FullTraceTimelineModel {
    type V = TimelineState;

    closed spec fn view(&self) -> TimelineState {
        TimelineState {
            pages: self.pages@,
            capacity: self.pages.limit(),
            loading: self.loading@,
            total: self.total,
        }
    }
}

impl FullTraceTimelineModel {
    /// A valid timeline: its cache and its set are.
    pub closed spec fn wf(&self) -> bool {
        self.pages.wf() && self.loading.wf()
    }

    /// A valid timeline has room for a page, keeps to that room, and caches no
    /// page twice.
    pub proof fn valid_timelines_are_bounded(&self)
        requires
            self.wf(),
        ensures
            self@.capacity >= 1,
            self@.pages.len() <= self@.capacity,
            bounded_cache::distinct_keys(self@.pages),
    {
    }

    /// An empty timeline that caches at least one page.
    pub fn new(cached_pages: usize) -> (timeline: Self)
        ensures
            timeline@ == TimelineState::empty(cached_pages as nat),
            timeline.wf(),
    {
        FullTraceTimelineModel {
            pages: BoundedPageCache::new(cached_pages),
            loading: KeySet::new(),
            total: 0,
        }
    }

    /// Forgets every page.
    pub fn clear(&mut self)
        requires
            old(self).wf(),
        ensures
            final(self)@ == (TimelineState {
                pages: Seq::empty(),
                loading: Set::empty(),
                total: 0,
                ..old(self)@
            }),
            final(self).wf(),
    {
        self.pages.clear();
        self.loading.clear();
        self.total = 0;
    }

    /// Sets how many spans the trace has.
    pub fn set_total(&mut self, total: u64)
        requires
            old(self).wf(),
        ensures
            final(self)@ == (TimelineState { total, ..old(self)@ }),
            final(self).wf(),
    {
        self.total = total;
    }

    /// How many rows the timeline has, as far as they can be counted.
    pub fn total(&self) -> (total: usize)
        ensures
            total == (if self@.total > usize::MAX {
                usize::MAX
            } else {
                self@.total as usize
            }),
    {
        if self.total > usize::MAX as u64 {
            usize::MAX
        } else {
            self.total as usize
        }
    }

    /// Marks a page as being loaded, unless it is cached or being loaded
    /// already; the result says whether to load it.
    pub fn begin_load(&mut self, page: u64) -> (start: bool)
        requires
            old(self).wf(),
        ensures
            start == (!old(self)@.has_page(page) && !old(self)@.loading.contains(page)),
            final(self)@ == (TimelineState {
                loading: if old(self)@.has_page(page) {
                    old(self)@.loading
                } else {
                    old(self)@.loading.insert(page)
                },
                ..old(self)@
            }),
            final(self).wf(),
    {
        if self.pages.contains_key(&page) {
            false
        } else {
            self.loading.insert(page)
        }
    }

    /// Caches a page that was loaded.
    pub fn finish_load(&mut self, page: u64, rows: Vec<SpanRow>)
        requires
            old(self).wf(),
        ensures
            final(self)@ == (TimelineState {
                pages: bounded_cache::inserted(
                    old(self)@.pages,
                    old(self)@.capacity,
                    page,
                    rows,
                ),
                loading: old(self)@.loading.remove(page),
                ..old(self)@
            }),
            final(self).wf(),
    {
        self.loading.remove(&page);
        self.pages.insert(page, rows);
    }

    /// Gives up loading a page.
    pub fn fail_load(&mut self, page: u64)
        requires
            old(self).wf(),
        ensures
            final(self)@ == (TimelineState {
                loading: old(self)@.loading.remove(page),
                ..old(self)@
            }),
            final(self).wf(),
    {
        self.loading.remove(&page);
    }

    /// The span at a place of the timeline, where its page is cached.
    pub fn row(&self, index: usize) -> (row: Option<&SpanRow>)
        requires
            self.wf(),
        ensures
            row is Some <==> self@.row(index as nat) is Some,
            row is Some ==> *row->0 == self@.row(index as nat)->0,
    {
        let page: u64 = index as u64 / TIMELINE_PAGE_SIZE;
        let place: usize = index % 500;
        match self.pages.peek(&page) {
            Some(rows) => if place < rows.len() {
                Some(&rows[place])
            } else {
                None
            },
            None => None,
        }
    }

    /// How many spans are cached.
    pub fn loaded_count(&self) -> (count: usize)
        requires
            self.wf(),
            timeline_spans(self@.pages).len() <= usize::MAX,
        ensures
            count == timeline_spans(self@.pages).len(),
    {
        let pages = self.pages.values();
        let mut count: usize = 0;
        let mut index: usize = 0;
        assert(self@.pages.take(0) =~= Seq::empty());
        while index < pages.len()
            invariant
                index <= pages@.len(),
                pages@.len() == self@.pages.len(),
                forall|i: int|
                    0 <= i < pages@.len() ==> *(#[trigger] pages@[i]) == self@.pages[i].1,
                timeline_spans(self@.pages).len() <= usize::MAX,
                count == timeline_spans(self@.pages.take(index as int)).len(),
            decreases pages@.len() - index,
        {
            proof {
                let now = self@.pages.take(index + 1);
                assert(now.drop_last() =~= self@.pages.take(index as int));
                assert(now.last() == self@.pages[index as int]);
                lemma_prefix_spans(self@.pages, index + 1);
            }
            count += pages[index].len();
            index += 1;
        }
        assert(self@.pages.take(index as int) =~= self@.pages);
        count
    }

    /// The cached spans in chronological order.
    pub fn loaded_rows(&self) -> (rows: Vec<SpanRow>)
        requires
            self.wf(),
        ensures
            rows@ == self@.loaded(),
    {
        let pages = self.pages.values();
        let mut rows: Vec<SpanRow> = Vec::new();
        let mut index: usize = 0;
        assert(self@.pages.take(0) =~= Seq::empty());
        while index < pages.len()
            invariant
                index <= pages@.len(),
                pages@.len() == self@.pages.len(),
                forall|i: int|
                    0 <= i < pages@.len() ==> *(#[trigger] pages@[i]) == self@.pages[i].1,
                rows@ == timeline_spans(self@.pages.take(index as int)),
            decreases pages@.len() - index,
        {
            let page = pages[index];
            let ghost before = rows@;
            let mut place: usize = 0;
            assert(before + page@.take(0) =~= before);
            while place < page.len()
                invariant
                    place <= page@.len(),
                    rows@ == before + page@.take(place as int),
                decreases page@.len() - place,
            {
                rows.push(page[place].copy());
                place += 1;
                assert(rows@ =~= before + page@.take(place as int));
            }
            proof {
                assert(page@.take(place as int) =~= page@);
                let now = self@.pages.take(index + 1);
                assert(now.drop_last() =~= self@.pages.take(index as int));
                assert(now.last() == self@.pages[index as int]);
            }
            index += 1;
        }
        proof {
            assert(self@.pages.take(index as int) =~= self@.pages);
            assert(sorting::views(rows@) =~= rows@);
        }
        let sorted = sort_by_order(&Chronological, rows);
        assert(sorting::views(sorted@) =~= sorted@);
        sorted
    }
}

proof fn lemma_prefix_spans(pages: Seq<(u64, Vec<SpanRow>)>, count: int)
    requires
        0 <= count <= pages.len(),
    ensures
        timeline_spans(pages.take(count)).len() <= timeline_spans(pages).len(),
    decreases pages.len() - count,
{
    if count == pages.len() {
        assert(pages.take(count) =~= pages);
    } else {
        let longer = pages.take(count + 1);
        assert(longer.drop_last() =~= pages.take(count));
        lemma_prefix_spans(pages, count + 1);
    }
}

/// Caching another page keeps the timeline within its capacity and its pages
/// distinct, and that page is found afterwards.
pub proof fn retained_pages_stay_bounded(state: TimelineState, page: u64, rows: Vec<SpanRow>)
    requires
        bounded_cache::distinct_keys(state.pages),
        state.pages.len() <= state.capacity,
        state.capacity >= 1,
    ensures
        ({
            let after = TimelineState {
                pages: bounded_cache::inserted(state.pages, state.capacity, page, rows),
                ..state
            };
            &&& after.pages.len() <= after.capacity
            &&& bounded_cache::distinct_keys(after.pages)
            &&& after.has_page(page)
            &&& bounded_cache::lookup(after.pages, page) == Some(rows)
        }),
{
    bounded_cache::insertion_respects_capacity(state.pages, state.capacity, page, rows);
}

/// The cached spans come out in order, and none is lost or added.
pub proof fn loaded_spans_are_chronological(state: TimelineState)
    ensures
        sorting::in_order(chronological(), state.loaded()),
        state.loaded().to_multiset() == timeline_spans(state.pages).to_multiset(),
{
    chronological_order_is_strict_weak();
    sorting::sorting_is_an_ordered_rearrangement(chronological(), timeline_spans(state.pages));
}

/// Spans are ordered by their start, and those of one start by identity.
pub proof fn spans_are_ordered_by_their_start(left: SpanRow, right: SpanRow)
    ensures
        left.start_time_unix_nano < right.start_time_unix_nano ==> chronological()(left, right)
            && !chronological()(right, left),
        left.start_time_unix_nano == right.start_time_unix_nano && (exists|place: int|
            #[trigger] sorting::parts_lower(left.span_id@, right.span_id@, place))
            ==> chronological()(left, right) && !chronological()(right, left),
        !chronological()(left, left),
{
    sorting::text_order_is_total(left.span_id@, left.span_id@);
    sorting::text_order_is_total(left.span_id@, right.span_id@);
    sorting::text_order_is_lexicographic(left.span_id@, right.span_id@);
}

/// The span at a place is that of its page of five hundred, at the place within
/// the page; there is none where the page is not loaded or not that long.
pub proof fn places_belong_to_pages_of_five_hundred(
    state: TimelineState,
    page: u64,
    place: nat,
    entry: int,
)
    requires
        place < 500,
        page <= 0x20_0000_0000_0000,
        bounded_cache::distinct_keys(state.pages),
        0 <= entry < state.pages.len(),
        state.pages[entry].0 == page,
    ensures
        TIMELINE_PAGE_SIZE == 500,
        place < state.pages[entry].1@.len() ==> state.row(page as nat * 500 + place) == Some(
            state.pages[entry].1@[place as int],
        ),
        place >= state.pages[entry].1@.len() ==> state.row(page as nat * 500 + place) is None,
{
    let index = page as nat * 500 + place;
    assert(index / 500 == page && index % 500 == place);
    assert(state.has_page(page));
    let found = bounded_cache::place_of(state.pages, page);
    assert(state.pages[found].0 == page);
    assert(found == entry);
}

/// No span is shown of a page that is not loaded.
pub proof fn missing_pages_show_no_spans(state: TimelineState, index: nat)
    requires
        forall|i: int|
            0 <= i < state.pages.len() ==> (#[trigger] state.pages[i]).0 != (index / 500) as u64,
    ensures
        state.row(index) is None,
{
}

/// The loaded spans are those of each page, page after page.
pub proof fn pages_hold_the_loaded_spans(pages: Seq<(u64, Vec<SpanRow>)>, page: (u64, Vec<SpanRow>))
    ensures
        timeline_spans(Seq::empty()).len() == 0,
        timeline_spans(pages.push(page)) == timeline_spans(pages) + page.1@,
{
    assert(pages.push(page).drop_last() =~= pages);
}

/// An empty timeline has room for the given number of pages, and for one at
/// least.
pub proof fn empty_timelines_have_room(cached_pages: nat)
    ensures
        TimelineState::empty(cached_pages).pages.len() == 0,
        TimelineState::empty(cached_pages).total == 0,
        TimelineState::empty(cached_pages).loading == Set::<u64>::empty(),
        cached_pages >= 1 ==> TimelineState::empty(cached_pages).capacity == cached_pages,
        TimelineState::empty(0).capacity == 1,
{
}

} // verus!
