//! The expandable tree of a trace, loaded page by page.
//!
//! Pages of children are cached under their parent. The visible rows come from
//! a walk over the cached pages that enters the expanded spans and shows each
//! span once, even where the recorded parents form a cycle.

use super::model::{copy_optional, SpanRow, SpanTreePageV1};
use crate::controllers::bounded_cache;
use crate::controllers::BoundedPageCache;
use crate::keyed::{KeySet, PageKey};
use vstd::prelude::*;

verus! {

/// How many children one page holds.
pub const TREE_PAGE_SIZE: u64 = 500;

/// The key of a page of children.
#[derive(Debug)]
pub struct TreePageKey {
    pub parent_span_id: Option<String>,
    pub page: u64,
}

/// The identity of a page of children.
pub struct TreePageId {
    pub parent: Option<Seq<char>>,
    pub page: u64,
}

/// The identity of an optional span.
pub open spec fn parent_identity(parent: Option<String>) -> Option<Seq<char>> {
    match parent {
        Some(span_id) => Some(span_id@),
        None => None,
    }
}

impl View for TreePageKey {
    type V = TreePageId;

    open spec fn view(&self) -> TreePageId {
        TreePageId { parent: parent_identity(self.parent_span_id), page: self.page }
    }
}

impl PageKey for TreePageKey {
    fn same_key(&self, other: &Self) -> (same: bool) {
        if self.page != other.page {
            return false;
        }
        match (&self.parent_span_id, &other.parent_span_id) {
            (Some(left), Some(right)) => *left == *right,
            (None, None) => true,
            _ => false,
        }
    }

    fn copy_key(&self) -> (copy: Self) {
        TreePageKey { parent_span_id: copy_optional(&self.parent_span_id), page: self.page }
    }
}

impl TreePageKey {
    /// The key of the page that holds the child at `offset`.
    pub fn new(parent_span_id: Option<String>, offset: u64) -> (key: Self)
        ensures
            key.parent_span_id == parent_span_id,
            key.page == offset / TREE_PAGE_SIZE,
    {
        TreePageKey { parent_span_id, page: offset / TREE_PAGE_SIZE }
    }
}

/// A row of the visible tree.
#[derive(Debug)]
pub enum FullTraceListRow {
    Span(Box<SpanRow>),
    LoadMore { parent_span_id: Option<String>, offset: u64, depth: u32 },
    Loading { depth: u32 },
}

/// The model of a trace tree.
#[verifier::ext_equal]
pub struct TreeState {
    /// The cached pages, from the least to the most recently loaded one.
    pub pages: Seq<(TreePageId, SpanTreePageV1)>,
    /// How many pages are cached at most.
    pub capacity: nat,
    /// The expanded spans.
    pub expanded: Set<Seq<char>>,
    /// The pages that are being loaded.
    pub loading: Set<TreePageId>,
}

/// The rows found so far, and the spans that were shown.
pub struct Walk {
    pub rows: Seq<FullTraceListRow>,
    pub visited: Set<Seq<char>>,
}

/// All spans of the given pages.
pub open spec fn spans_of(pages: Seq<(TreePageId, SpanTreePageV1)>) -> Seq<SpanRow>
    decreases pages.len(),
{
    if pages.len() == 0 {
        Seq::empty()
    } else {
        spans_of(pages.drop_last()) + pages.last().1.rows@
    }
}

/// The identities of spans.
pub open spec fn span_ids(spans: Seq<SpanRow>) -> Seq<Seq<char>> {
    spans.map_values(|span: SpanRow| span.span_id@)
}

/// The spans that have children.
pub open spec fn expandable(spans: Seq<SpanRow>) -> Set<Seq<char>> {
    Set::new(
        |id: Seq<char>|
            exists|i: int|
                0 <= i < spans.len() && (#[trigger] spans[i]).has_children && spans[i].span_id@
                    == id,
    )
}

/// The number of children seen after another page.
pub open spec fn loaded_after(loaded: u64, page: SpanTreePageV1) -> u64 {
    if loaded + page.rows@.len() > u64::MAX {
        u64::MAX
    } else {
        (loaded + page.rows@.len()) as u64
    }
}

impl TreeState {
    /// A tree of which nothing is loaded, with room for so many pages, at
    /// least one.
    pub open spec fn empty(cached_pages: nat) -> TreeState {
        TreeState {
            pages: Seq::empty(),
            capacity: if cached_pages == 0 {
                1
            } else {
                cached_pages
            },
            expanded: Set::empty(),
            loading: Set::empty(),
        }
    }

    /// The identity of a page.
    pub open spec fn id(parent: Option<String>, page: u64) -> TreePageId {
        TreePageId { parent: parent_identity(parent), page }
    }

    /// All cached spans.
    pub open spec fn spans(self) -> Seq<SpanRow> {
        spans_of(self.pages)
    }

    /// Whether a page is cached.
    pub open spec fn has_page(self, id: TreePageId) -> bool {
        bounded_cache::has_key(self.pages, id)
    }

    /// A cached page.
    pub open spec fn page(self, id: TreePageId) -> SpanTreePageV1 {
        bounded_cache::value_at(self.pages, id)
    }

    /// A walk with one row more.
    pub open spec fn with_row(walk: Walk, row: FullTraceListRow) -> Walk {
        Walk { rows: walk.rows.push(row), ..walk }
    }

    /// The walk over the pages of `parent` from page number `page` on, of
    /// which `loaded` children stand on earlier pages. A parent has no more
    /// pages than the tree caches, which bounds the walk.
    pub open spec fn walk_pages(
        self,
        parent: Option<String>,
        depth: nat,
        page: nat,
        loaded: u64,
        walk: Walk,
    ) -> Walk
        decreases self.spans().len() - depth, 1nat, self.pages.len() - page,
    {
        let id = Self::id(parent, page as u64);
        if !self.has_page(id) {
            if self.loading.contains(id) {
                Self::with_row(walk, FullTraceListRow::Loading { depth: depth as u32 })
            } else {
                walk
            }
        } else {
            let current = self.page(id);
            let shown = self.walk_rows(current.rows@, depth, walk);
            let loaded = loaded_after(loaded, current);
            let next = Self::id(parent, (page + 1) as u64);
            if loaded >= current.total {
                shown
            } else if !self.has_page(next) {
                if self.loading.contains(next) {
                    Self::with_row(shown, FullTraceListRow::Loading { depth: depth as u32 })
                } else {
                    Self::with_row(
                        shown,
                        FullTraceListRow::LoadMore {
                            parent_span_id: parent,
                            offset: loaded,
                            depth: depth as u32,
                        },
                    )
                }
            } else if page + 1 < self.pages.len() {
                self.walk_pages(parent, depth, page + 1, loaded, shown)
            } else {
                shown
            }
        }
    }

    /// The walk over the children of one page: each span that was not shown
    /// before is shown at `depth`, followed by its own children where it is
    /// expanded. No span is deeper than there are spans, which bounds the walk.
    pub open spec fn walk_rows(self, rows: Seq<SpanRow>, depth: nat, walk: Walk) -> Walk
        decreases self.spans().len() - depth, 0nat, rows.len(),
    {
        if rows.len() == 0 {
            walk
        } else {
            let span = rows[0];
            let rest = rows.drop_first();
            if walk.visited.contains(span.span_id@) {
                self.walk_rows(rest, depth, walk)
            } else {
                let shown = Walk {
                    rows: walk.rows.push(
                        FullTraceListRow::Span(Box::new(SpanRow { depth: depth as u32, ..span })),
                    ),
                    visited: walk.visited.insert(span.span_id@),
                };
                let entered = if span.has_children && self.expanded.contains(span.span_id@) && depth
                    < self.spans().len() {
                    self.walk_pages(Some(span.span_id), depth + 1, 0, 0, shown)
                } else {
                    shown
                };
                self.walk_rows(rest, depth, entered)
            }
        }
    }

    /// The rows of the visible tree.
    pub open spec fn visible(self) -> Seq<FullTraceListRow> {
        self.walk_pages(None, 0, 0, 0, Walk { rows: Seq::empty(), visited: Set::empty() }).rows
    }
}

proof fn lemma_spans_contain(
    pages: Seq<(TreePageId, SpanTreePageV1)>,
    index: int,
    row: int,
)
    requires
        0 <= index < pages.len(),
        0 <= row < pages[index].1.rows@.len(),
    ensures
        spans_of(pages).contains(pages[index].1.rows@[row]),
    decreases pages.len(),
{
    let shorter = pages.drop_last();
    let before = spans_of(shorter);
    let last = pages.last().1.rows@;
    if index == pages.len() - 1 {
        assert(spans_of(pages)[before.len() + row] == last[row]);
    } else {
        lemma_spans_contain(shorter, index, row);
        let wanted = pages[index].1.rows@[row];
        let i = choose|i: int| 0 <= i < before.len() && before[i] == wanted;
        assert(spans_of(pages)[i] == wanted);
    }
}

/// A parent has no more consecutive pages than there are pages.
proof fn lemma_page_count(
    pages: Seq<(TreePageId, SpanTreePageV1)>,
    parent: Option<String>,
    count: nat,
)
    requires
        bounded_cache::distinct_keys(pages),
        count <= u64::MAX + 1,
        forall|page: u64|
            page < count ==> #[trigger] bounded_cache::has_key(pages, TreeState::id(parent, page)),
    ensures
        count <= pages.len(),
    decreases count,
{
    if count > 0 {
        let last = TreeState::id(parent, (count - 1) as u64);
        assert(bounded_cache::has_key(pages, last));
        let place = choose|i: int| 0 <= i < pages.len() && (#[trigger] pages[i]).0 == last;
        let fewer = pages.remove(place);
        assert forall|page: u64| page < count - 1 implies #[trigger] bounded_cache::has_key(
            fewer,
            TreeState::id(parent, page),
        ) by {
            let wanted = TreeState::id(parent, page);
            assert(bounded_cache::has_key(pages, wanted));
            let i = choose|i: int| 0 <= i < pages.len() && (#[trigger] pages[i]).0 == wanted;
            assert(i != place);
            if i < place {
                assert(fewer[i].0 == wanted);
            } else {
                assert(fewer[i - 1].0 == wanted);
            }
        }
        assert forall|i: int, j: int| 0 <= i < j < fewer.len() implies (#[trigger] fewer[i]).0 != (
        #[trigger] fewer[j]).0 by {
            let p = if i < place {
                i
            } else {
                i + 1
            };
            let q = if j < place {
                j
            } else {
                j + 1
            };
            assert(pages[p].0 != pages[q].0);
        }
        lemma_page_count(fewer, parent, (count - 1) as nat);
    }
}

/// The expandable tree of a trace.
#[derive(Debug)]
pub struct FullTraceTreeModel {
    pages: BoundedPageCache<TreePageKey, SpanTreePageV1>,
    expanded: KeySet<String>,
    loading: KeySet<TreePageKey>,
}

impl View for FullTraceTreeModel {
    type V = TreeState;

    closed spec fn view(&self) -> TreeState {
        TreeState {
            pages: self.pages@,
            capacity: self.pages.limit(),
            expanded: self.expanded@,
            loading: self.loading@,
        }
    }
}

impl TreeState {
    /// Whether the shown spans are cached ones, at least as many as the walk is deep.
    pub open spec fn valid_walk(self, depth: nat, visited: Set<Seq<char>>) -> bool {
        &&& visited.subset_of(span_ids(self.spans()).to_set())
        &&& depth <= visited.len()
    }

    proof fn lemma_page_spans(self, id: TreePageId)
        requires
            self.has_page(id),
        ensures
            forall|i: int|
                0 <= i < self.page(id).rows@.len() ==> span_ids(self.spans()).contains(
                    (#[trigger] self.page(id).rows@[i]).span_id@,
                ),
    {
        let rows = self.page(id).rows@;
        let place = bounded_cache::place_of(self.pages, id);
        assert forall|i: int| 0 <= i < rows.len() implies span_ids(self.spans()).contains(
            (#[trigger] rows[i]).span_id@,
        ) by {
            lemma_spans_contain(self.pages, place, i);
            let k = choose|k: int| 0 <= k < self.spans().len() && self.spans()[k] == rows[i];
            assert(span_ids(self.spans())[k] == rows[i].span_id@);
        }
    }

    proof fn lemma_visited_bound(self, visited: Set<Seq<char>>)
        requires
            visited.subset_of(span_ids(self.spans()).to_set()),
        ensures
            visited.finite(),
            visited.len() <= self.spans().len(),
    {
        broadcast use vstd::seq_lib::seq_to_set_is_finite;

        let ids = span_ids(self.spans());
        ids.lemma_cardinality_of_set();
        vstd::set_lib::lemma_len_subset(visited, ids.to_set());
    }
}

impl FullTraceTreeModel {
    /// A valid tree: its cache and its sets are.
    pub closed spec fn wf(&self) -> bool {
        &&& self.pages.wf()
        &&& self.expanded.wf()
        &&& self.loading.wf()
    }

    /// A valid tree has room for a page, keeps to that room, and caches no page
    /// twice.
    pub proof fn valid_trees_are_bounded(&self)
        requires
            self.wf(),
        ensures
            self@.capacity >= 1,
            self@.pages.len() <= self@.capacity,
            bounded_cache::distinct_keys(self@.pages),
            self@.countable(),
    {
    }

    /// An empty tree that caches at least one page.
    pub fn new(cached_pages: usize) -> (tree: Self)
        ensures
            tree@ == TreeState::empty(cached_pages as nat),
            tree.wf(),
    {
        FullTraceTreeModel {
            pages: BoundedPageCache::new(cached_pages),
            expanded: KeySet::new(),
            loading: KeySet::new(),
        }
    }

    /// Forgets every page and every expansion.
    pub fn clear(&mut self)
        requires
            old(self).wf(),
        ensures
            final(self)@ == (TreeState {
                pages: Seq::empty(),
                expanded: Set::empty(),
                loading: Set::empty(),
                ..old(self)@
            }),
            final(self).wf(),
    {
        self.pages.clear();
        self.expanded.clear();
        self.loading.clear();
    }

    /// Marks a page as being loaded, unless it is cached or being loaded
    /// already; the result says whether to load it.
    pub fn begin_load(&mut self, key: TreePageKey) -> (start: bool)
        requires
            old(self).wf(),
        ensures
            start == (!old(self)@.has_page(key@) && !old(self)@.loading.contains(key@)),
            final(self)@ == (TreeState {
                loading: if old(self)@.has_page(key@) {
                    old(self)@.loading
                } else {
                    old(self)@.loading.insert(key@)
                },
                ..old(self)@
            }),
            final(self).wf(),
    {
        if self.pages.contains_key(&key) {
            false
        } else {
            self.loading.insert(key)
        }
    }

    /// Caches a page that was loaded.
    pub fn finish_load(&mut self, key: &TreePageKey, page: SpanTreePageV1)
        requires
            old(self).wf(),
        ensures
            final(self)@ == (TreeState {
                pages: bounded_cache::inserted(
                    old(self)@.pages,
                    old(self)@.capacity,
                    key@,
                    page,
                ),
                loading: old(self)@.loading.remove(key@),
                ..old(self)@
            }),
            final(self).wf(),
    {
        self.loading.remove(key);
        self.pages.insert(key.copy_key(), page);
    }

    /// Gives up loading a page.
    pub fn fail_load(&mut self, key: &TreePageKey)
        requires
            old(self).wf(),
        ensures
            final(self)@ == (TreeState {
                loading: old(self)@.loading.remove(key@),
                ..old(self)@
            }),
            final(self).wf(),
    {
        self.loading.remove(key);
    }

    /// Expands or collapses a span; the result says whether it is expanded now.
    pub fn toggle(&mut self, span_id: &str) -> (expanded: bool)
        requires
            old(self).wf(),
        ensures
            expanded == !old(self)@.expanded.contains(span_id@),
            final(self)@ == (TreeState {
                expanded: if expanded {
                    old(self)@.expanded.insert(span_id@)
                } else {
                    old(self)@.expanded.remove(span_id@)
                },
                ..old(self)@
            }),
            final(self).wf(),
    {
        let key = span_id.to_owned();
        if !self.expanded.remove(&key) {
            let ghost before = self.expanded@;
            self.expanded.insert(key);
            assert(before =~= old(self).expanded@);
            true
        } else {
            false
        }
    }

    /// Whether a span is expanded.
    pub fn is_expanded(&self, span_id: &str) -> (expanded: bool)
        ensures
            expanded == self@.expanded.contains(span_id@),
    {
        self.expanded.contains(&span_id.to_owned())
    }

    /// Expands every cached span that has children.
    pub fn expand_all_loaded(&mut self)
        requires
            old(self).wf(),
        ensures
            final(self)@ == (TreeState {
                expanded: old(self)@.expanded.union(expandable(old(self)@.spans())),
                ..old(self)@
            }),
            final(self).wf(),
    {
        let pages = self.pages.values();
        let ghost before = self@;
        let mut found: Vec<String> = Vec::new();
        let mut index: usize = 0;
        assert(before.pages.take(0) =~= Seq::empty());
        while index < pages.len()
            invariant
                index <= pages@.len(),
                before == self@,
                pages@.len() == before.pages.len(),
                forall|i: int|
                    0 <= i < pages@.len() ==> *(#[trigger] pages@[i]) == before.pages[i].1,
                forall|id: Seq<char>|
                    crate::text::texts(found@).contains(id) <==> #[trigger] expandable(
                        spans_of(before.pages.take(index as int)),
                    ).contains(id),
            decreases pages@.len() - index,
        {
            let page = pages[index];
            let ghost earlier = spans_of(before.pages.take(index as int));
            let mut row: usize = 0;
            proof {
                assert(earlier + page.rows@.take(0) =~= earlier);
                assert(before.pages.take(index + 1).drop_last() =~= before.pages.take(
                    index as int,
                ));
                assert(before.pages.take(index + 1).last() == before.pages[index as int]);
            }
            while row < page.rows.len()
                invariant
                    row <= page.rows@.len(),
                    forall|id: Seq<char>|
                        crate::text::texts(found@).contains(id) <==> #[trigger] expandable(
                            earlier + page.rows@.take(row as int),
                        ).contains(id),
                decreases page.rows@.len() - row,
            {
                let span = &page.rows[row];
                let ghost listed = crate::text::texts(found@);
                let ghost so_far = earlier + page.rows@.take(row as int);
                if span.has_children {
                    found.push(span.span_id.clone());
                    assert(crate::text::texts(found@) =~= listed.push(span.span_id@));
                }
                row += 1;
                proof {
                    assert(earlier + page.rows@.take(row as int) =~= so_far.push(*span));
                    lemma_expandable_push(so_far, *span);
                    let now = crate::text::texts(found@);
                    assert forall|id: Seq<char>|
                        now.contains(id) <==> #[trigger] expandable(
                            earlier + page.rows@.take(row as int),
                        ).contains(id) by {
                        assert(listed.contains(id) <==> expandable(so_far).contains(id));
                        if span.has_children {
                            assert(now[listed.len() as int] == span.span_id@);
                            if listed.contains(id) {
                                let i = choose|i: int| 0 <= i < listed.len() && listed[i] == id;
                                assert(now[i] == id);
                            }
                            if now.contains(id) {
                                let i = choose|i: int| 0 <= i < now.len() && now[i] == id;
                                if i < listed.len() {
                                    assert(listed[i] == id);
                                }
                            }
                        }
                    }
                }
            }
            index += 1;
            proof {
                assert(page.rows@.take(row as int) =~= page.rows@);
                assert(spans_of(before.pages.take(index as int)) == earlier + page.rows@);
            }
        }
        proof {
            assert(before.pages.take(index as int) =~= before.pages);
        }
        let ghost ids = crate::text::texts(found@);
        let mut place: usize = 0;
        let ghost start = self.expanded@;
        assert(start.union(ids.take(0).to_set()) =~= start);
        while place < found.len()
            invariant
                place <= found@.len(),
                ids == crate::text::texts(found@),
                self.pages == old(self).pages,
                self.loading == old(self).loading,
                self.wf(),
                self.expanded@ == start.union(ids.take(place as int).to_set()),
            decreases found@.len() - place,
        {
            let id = found[place].clone();
            let ghost expanded = self.expanded@;
            self.expanded.insert(id);
            place += 1;
            proof {
                let shorter = ids.take(place - 1);
                let longer = ids.take(place as int);
                assert(longer =~= shorter.push(id@));
                assert forall|x: Seq<char>|
                    #[trigger] longer.to_set().contains(x) <==> shorter.to_set().contains(x) || x
                        == id@ by {
                    assert(longer[shorter.len() as int] == id@);
                    if shorter.contains(x) {
                        let i = choose|i: int| 0 <= i < shorter.len() && shorter[i] == x;
                        assert(longer[i] == x);
                    }
                    if longer.contains(x) {
                        let i = choose|i: int| 0 <= i < longer.len() && longer[i] == x;
                        if i < shorter.len() {
                            assert(shorter[i] == x);
                        }
                    }
                }
                assert(self.expanded@ =~= start.union(longer.to_set()));
            }
        }
        proof {
            assert(ids.take(place as int) =~= ids);
            assert(start.union(ids.to_set()) =~= start.union(expandable(before.spans())));
        }
    }

    /// Whether a page is cached.
    pub fn has_page(&self, key: &TreePageKey) -> (cached: bool)
        ensures
            cached == self@.has_page(key@),
    {
        self.pages.contains_key(key)
    }

    /// The rows of the visible tree.
    pub fn visible_rows(&self) -> (rows: Vec<FullTraceListRow>)
        requires
            self.wf(),
            self@.spans().len() <= u32::MAX,
        ensures
            rows@ == self@.visible(),
    {
        let mut rows: Vec<FullTraceListRow> = Vec::new();
        let mut visited: KeySet<String> = KeySet::new();
        self.append_pages(None, 0, &mut visited, &mut rows);
        rows
    }

    fn append_pages(
        &self,
        parent_span_id: Option<&String>,
        depth: u32,
        visited: &mut KeySet<String>,
        rows: &mut Vec<FullTraceListRow>,
    )
        requires
            self.wf(),
            old(visited).wf(),
            self@.spans().len() <= u32::MAX,
            self@.valid_walk(depth as nat, old(visited)@),
        ensures
            final(visited).wf(),
            old(visited)@.subset_of(final(visited)@),
            self@.valid_walk(depth as nat, final(visited)@),
            ({
                let parent = match parent_span_id {
                    Some(span_id) => Some(*span_id),
                    None => None,
                };
                let before = Walk { rows: old(rows)@, visited: old(visited)@ };
                let after = Walk { rows: final(rows)@, visited: final(visited)@ };
                after == self@.walk_pages(parent, depth as nat, 0, 0, before)
            }),
        decreases self@.spans().len() - depth, 1nat,
    {
        let ghost parent = match parent_span_id {
            Some(span_id) => Some(*span_id),
            None => None,
        };
        let ghost target = self@.walk_pages(
            parent,
            depth as nat,
            0,
            0,
            Walk { rows: rows@, visited: visited@ },
        );
        let mut page_index: u64 = 0;
        let mut loaded: u64 = 0;
        loop
            invariant_except_break
                self@.walk_pages(
                    parent,
                    depth as nat,
                    page_index as nat,
                    loaded,
                    Walk { rows: rows@, visited: visited@ },
                ) == target,
            invariant
                self.wf(),
                visited.wf(),
                self@.spans().len() <= u32::MAX,
                self@.valid_walk(depth as nat, visited@),
                old(visited)@.subset_of(visited@),
                parent == (match parent_span_id {
                    Some(span_id) => Some(*span_id),
                    None => None,
                }),
                page_index <= self@.pages.len(),
                forall|page: u64|
                    page < page_index ==> #[trigger] bounded_cache::has_key(
                        self@.pages,
                        TreeState::id(parent, page),
                    ),
            ensures
                target == (Walk { rows: rows@, visited: visited@ }),
            decreases self@.pages.len() - page_index,
        {
            let key = Self::key_of(parent_span_id, page_index);
            let page = match self.pages.peek(&key) {
                Some(page) => page,
                None => {
                    if self.loading.contains(&key) {
                        rows.push(FullTraceListRow::Loading { depth });
                    }
                    break ;
                },
            };
            proof {
                self@.lemma_page_spans(key@);
            }
            self.append_rows(&page.rows, depth, visited, rows);
            loaded = loaded.saturating_add(page.rows.len() as u64);
            if loaded >= page.total {
                break ;
            }
            proof {
                assert forall|earlier: u64| earlier < page_index + 1 implies
                    #[trigger] bounded_cache::has_key(self@.pages, TreeState::id(parent, earlier))
                    by {
                    if earlier == page_index {
                        assert(TreeState::id(parent, earlier) == key@);
                    }
                }
                lemma_page_count(self@.pages, parent, (page_index + 1) as nat);
            }
            page_index += 1;
            let next = Self::key_of(parent_span_id, page_index);
            if !self.pages.contains_key(&next) {
                if self.loading.contains(&next) {
                    rows.push(FullTraceListRow::Loading { depth });
                } else {
                    rows.push(
                        FullTraceListRow::LoadMore {
                            parent_span_id: match parent_span_id {
                                Some(span_id) => Some(span_id.clone()),
                                None => None,
                            },
                            offset: loaded,
                            depth,
                        },
                    );
                }
                break ;
            }
            proof {
                assert forall|earlier: u64| earlier < page_index + 1 implies
                    #[trigger] bounded_cache::has_key(self@.pages, TreeState::id(parent, earlier))
                    by {
                    if earlier == page_index {
                        assert(TreeState::id(parent, earlier) == next@);
                    }
                }
                lemma_page_count(self@.pages, parent, (page_index + 1) as nat);
            }
        }
    }

    fn append_rows(
        &self,
        page_rows: &Vec<SpanRow>,
        depth: u32,
        visited: &mut KeySet<String>,
        rows: &mut Vec<FullTraceListRow>,
    )
        requires
            self.wf(),
            old(visited).wf(),
            self@.spans().len() <= u32::MAX,
            self@.valid_walk(depth as nat, old(visited)@),
            forall|i: int|
                0 <= i < page_rows@.len() ==> span_ids(self@.spans()).contains(
                    (#[trigger] page_rows@[i]).span_id@,
                ),
        ensures
            final(visited).wf(),
            old(visited)@.subset_of(final(visited)@),
            self@.valid_walk(depth as nat, final(visited)@),
            ({
                let before = Walk { rows: old(rows)@, visited: old(visited)@ };
                let after = Walk { rows: final(rows)@, visited: final(visited)@ };
                after == self@.walk_rows(page_rows@, depth as nat, before)
            }),
        decreases self@.spans().len() - depth, 0nat,
    {
        let ghost target = self@.walk_rows(
            page_rows@,
            depth as nat,
            Walk { rows: rows@, visited: visited@ },
        );
        let mut index: usize = 0;
        assert(page_rows@.skip(0) =~= page_rows@);
        while index < page_rows.len()
            invariant
                index <= page_rows@.len(),
                self.wf(),
                visited.wf(),
                self@.spans().len() <= u32::MAX,
                self@.valid_walk(depth as nat, visited@),
                old(visited)@.subset_of(visited@),
                forall|i: int|
                    0 <= i < page_rows@.len() ==> span_ids(self@.spans()).contains(
                        (#[trigger] page_rows@[i]).span_id@,
                    ),
                self@.walk_rows(
                    page_rows@.skip(index as int),
                    depth as nat,
                    Walk { rows: rows@, visited: visited@ },
                ) == target,
            decreases page_rows@.len() - index,
        {
            let span = &page_rows[index];
            let ghost waiting = page_rows@.skip(index as int);
            let ghost shown_before = visited@;
            proof {
                assert(waiting[0] == *span);
                assert(waiting.drop_first() =~= page_rows@.skip(index + 1));
            }
            if visited.insert(span.span_id.clone()) {
                let mut row = span.copy();
                row.depth = depth;
                rows.push(FullTraceListRow::Span(Box::new(row)));
                proof {
                    assert(visited@ == shown_before.insert(span.span_id@));
                    assert(self@.valid_walk(depth as nat, visited@)) by {
                        self@.lemma_visited_bound(shown_before);
                        assert(visited@.subset_of(span_ids(self@.spans()).to_set()));
                    }
                    self@.lemma_visited_bound(visited@);
                    self@.lemma_visited_bound(shown_before);
                    assert(visited@.len() == shown_before.len() + 1);
                }
                if span.has_children && self.expanded.contains(&span.span_id) {
                    let ghost shown = visited@;
                    self.append_pages(Some(&span.span_id), depth + 1, visited, rows);
                    proof {
                        self@.lemma_visited_bound(visited@);
                        self@.lemma_visited_bound(shown);
                    }
                }
            } else {
                assert(visited@ =~= shown_before);
            }
            index += 1;
        }
        assert(page_rows@.skip(index as int) =~= Seq::empty());
    }

    fn key_of(parent_span_id: Option<&String>, page: u64) -> (key: TreePageKey)
        ensures
            key@ == TreeState::id(
                match parent_span_id {
                    Some(span_id) => Some(*span_id),
                    None => None,
                },
                page,
            ),
    {
        TreePageKey {
            parent_span_id: match parent_span_id {
                Some(span_id) => Some(span_id.clone()),
                None => None,
            },
            page,
        }
    }
}

proof fn lemma_expandable_push(spans: Seq<SpanRow>, span: SpanRow)
    ensures
        forall|id: Seq<char>| #[trigger]
            expandable(spans.push(span)).contains(id) <==> expandable(spans).contains(id) || (
            span.has_children && span.span_id@ == id),
{
    let longer = spans.push(span);
    assert forall|id: Seq<char>| #[trigger]
        expandable(longer).contains(id) <==> expandable(spans).contains(id) || (span.has_children
            && span.span_id@ == id) by {
        if expandable(spans).contains(id) {
            let i = choose|i: int|
                0 <= i < spans.len() && (#[trigger] spans[i]).has_children && spans[i].span_id@
                    == id;
            assert(longer[i].has_children && longer[i].span_id@ == id);
        }
        if span.has_children && span.span_id@ == id {
            assert(longer[spans.len() as int].has_children);
        }
        if expandable(longer).contains(id) {
            let i = choose|i: int|
                0 <= i < longer.len() && (#[trigger] longer[i]).has_children && longer[i].span_id@
                    == id;
            if i < spans.len() {
                assert(spans[i].has_children);
            }
        }
    }
}

/// The span that a row shows.
pub open spec fn row_span(row: FullTraceListRow) -> Option<SpanRow> {
    match row {
        FullTraceListRow::Span(span) => Some(*span),
        _ => None,
    }
}

/// No two rows show the same span.
pub open spec fn spans_once(rows: Seq<FullTraceListRow>) -> bool {
    forall|i: int, j: int|
        0 <= i < j < rows.len() && (#[trigger] row_span(rows[i])) is Some && (#[trigger] row_span(
            rows[j],
        )) is Some ==> row_span(rows[i])->0.span_id@ != row_span(rows[j])->0.span_id@
}

/// Whether the spans shown by the rows from one place up to another stand at
/// the given depth or deeper.
pub open spec fn deep_between(
    rows: Seq<FullTraceListRow>,
    from: int,
    until: int,
    depth: nat,
) -> bool {
    forall|i: int|
        from <= i < until && (#[trigger] row_span(rows[i])) is Some ==> depth <= row_span(
            rows[i],
        )->0.depth
}

/// The depth at which a row stands.
pub open spec fn row_depth(row: FullTraceListRow) -> nat {
    match row {
        FullTraceListRow::Span(span) => span.depth as nat,
        FullTraceListRow::LoadMore { depth, .. } => depth as nat,
        FullTraceListRow::Loading { depth } => depth as nat,
    }
}

/// Whether a row shows the span with the given identity.
pub open spec fn shows_id(row: FullTraceListRow, id: Seq<char>) -> bool {
    match row_span(row) {
        Some(span) => span.span_id@ == id,
        None => false,
    }
}

/// Whether a row before the given place shows the span with the given identity.
pub open spec fn shown_before(rows: Seq<FullTraceListRow>, place: int, id: Seq<char>) -> bool {
    exists|i: int| 0 <= i < place && #[trigger] shows_id(rows[i], id)
}

impl TreeState {
    /// Whether a page of a parent's children is cached.
    pub open spec fn cached(self, parent: Option<Seq<char>>, page: nat) -> bool {
        self.has_page(TreePageId { parent, page: page as u64 })
    }

    /// The children on a page of a parent.
    pub open spec fn children(self, parent: Option<Seq<char>>, page: nat) -> Seq<SpanRow> {
        self.page(TreePageId { parent, page: page as u64 }).rows@
    }

    /// How many children a parent has in all, as a page of it says.
    pub open spec fn announced(self, parent: Option<Seq<char>>, page: nat) -> u64 {
        self.page(TreePageId { parent, page: page as u64 }).total
    }

    /// How many children of a parent stand on the pages before the given one.
    pub open spec fn children_before(self, parent: Option<Seq<char>>, page: nat) -> nat
        decreases page,
    {
        if page == 0 {
            0
        } else {
            self.children_before(parent, (page - 1) as nat) + self.children(
                parent,
                (page - 1) as nat,
            ).len()
        }
    }

    /// Whether children are left out by a page and the pages before it.
    pub open spec fn leaves_out(self, parent: Option<Seq<char>>, page: nat) -> bool {
        self.children_before(parent, page + 1) < self.announced(parent, page)
    }

    /// Whether a page belongs to what is loaded of a parent: it and the pages
    /// before it are cached, and each of those before it leaves children out.
    pub open spec fn reaches(self, parent: Option<Seq<char>>, page: nat) -> bool {
        &&& forall|p: nat| p <= page ==> #[trigger] self.cached(parent, p)
        &&& forall|p: nat| p < page ==> #[trigger] self.leaves_out(parent, p)
    }

    /// Whether a child stands at a place on a page that is loaded of a parent.
    pub open spec fn lists(self, parent: Option<Seq<char>>, page: nat, place: int) -> bool {
        self.reaches(parent, page) && 0 <= place < self.children(parent, page).len()
    }

    /// Whether every child that is listed before a place of a page is shown
    /// before a row.
    pub open spec fn shown_up_to(
        self,
        rows: Seq<FullTraceListRow>,
        at: int,
        parent: Option<Seq<char>>,
        page: nat,
        place: int,
    ) -> bool {
        forall|p: nat, q: int| #[trigger]
            self.lists(parent, p, q) && (p < page || (p == page && q < place)) ==> shown_before(
                rows,
                at,
                self.children(parent, p)[q].span_id@,
            )
    }

    /// Whether a shown span is listed on a cached page of the given parent.
    pub open spec fn listed(self, parent: Option<Seq<char>>, span: SpanRow) -> bool {
        exists|page: u64, place: int|
            #![trigger self.page(TreePageId { parent, page }).rows@[place]]
            {
                let id = TreePageId { parent, page };
                &&& self.has_page(id)
                &&& 0 <= place < self.page(id).rows@.len()
                &&& span == (SpanRow { depth: span.depth, ..self.page(id).rows@[place] })
            }
    }

    /// Whether a shown span is listed under the given parent, and every child
    /// that is listed before it is shown before it.
    pub open spec fn in_turn(
        self,
        rows: Seq<FullTraceListRow>,
        at: int,
        parent: Option<Seq<char>>,
        span: SpanRow,
    ) -> bool {
        &&& self.listed(parent, span)
        &&& exists|page: nat, place: int|
            {
                &&& #[trigger] self.lists(parent, page, place)
                &&& span == (SpanRow { depth: span.depth, ..self.children(parent, page)[place] })
                &&& self.shown_up_to(rows, at, parent, page, place)
            }
    }

    /// Whether a page is the first one of a parent that is needed and not cached.
    pub open spec fn lacks(self, parent: Option<Seq<char>>, page: nat) -> bool {
        &&& !self.cached(parent, page)
        &&& page > 0 ==> self.reaches(parent, (page - 1) as nat) && self.leaves_out(
            parent,
            (page - 1) as nat,
        )
    }

    /// Whether a row stands for the children that are not loaded yet: it says
    /// that they are being loaded, or offers to load them from the first one
    /// that is left out on.
    pub open spec fn stands_for_rest(
        self,
        row: FullTraceListRow,
        parent: Option<Seq<char>>,
        depth: nat,
        page: nat,
    ) -> bool {
        &&& self.lacks(parent, page)
        &&& row_depth(row) == depth
        &&& match row {
            FullTraceListRow::Span(_) => false,
            FullTraceListRow::Loading { .. } => self.loading.contains(
                TreePageId { parent, page: page as u64 },
            ),
            FullTraceListRow::LoadMore { parent_span_id, offset, .. } => {
                &&& page > 0
                &&& !self.loading.contains(TreePageId { parent, page: page as u64 })
                &&& parent_identity(parent_span_id) == parent
                &&& offset == self.children_before(parent, page)
            },
        }
    }

    /// Whether a row that is no span stands for the rest of a parent's
    /// children, behind all those that are loaded.
    pub open spec fn rest_in_turn(
        self,
        rows: Seq<FullTraceListRow>,
        at: int,
        parent: Option<Seq<char>>,
        depth: nat,
    ) -> bool {
        exists|page: nat| #[trigger]
            self.stands_for_rest(rows[at], parent, depth, page) && self.shown_up_to(
                rows,
                at,
                parent,
                page,
                0,
            )
    }

    /// Whether a row is in turn among the children of a parent.
    pub open spec fn entry_in_turn(
        self,
        rows: Seq<FullTraceListRow>,
        at: int,
        parent: Option<Seq<char>>,
        depth: nat,
    ) -> bool {
        match row_span(rows[at]) {
            Some(span) => self.in_turn(rows, at, parent, span),
            None => self.rest_in_turn(rows, at, parent, depth),
        }
    }

    /// Whether a row shows an expanded span whose children stand at the given depth.
    pub open spec fn opens(self, row: FullTraceListRow, depth: nat, span_id: Seq<char>) -> bool {
        match row_span(row) {
            Some(span) => {
                &&& span.depth + 1 == depth
                &&& span.span_id@ == span_id
                &&& span.has_children
                &&& self.expanded.contains(span_id)
            },
            None => false,
        }
    }

    /// Whether a row may stand behind the rows before it: one without depth is
    /// in turn among the roots, and another one is in turn among the children
    /// of an expanded span one level above, behind which no span stands less
    /// deep than the row. That span is so the nearest one of its level.
    pub open spec fn justified(self, rows: Seq<FullTraceListRow>, place: int) -> bool {
        let depth = row_depth(rows[place]);
        if depth == 0 {
            self.entry_in_turn(rows, place, None, 0)
        } else {
            exists|above: int|
                #![trigger rows[above]]
                {
                    &&& 0 <= above < place
                    &&& row_span(rows[above]) is Some
                    &&& self.opens(rows[above], depth, row_span(rows[above])->0.span_id@)
                    &&& self.entry_in_turn(
                        rows,
                        place,
                        Some(row_span(rows[above])->0.span_id@),
                        depth,
                    )
                    &&& deep_between(rows, above + 1, place, depth)
                }
        }
    }

    /// Whether a child is shown: no later than its parent, or behind it with
    /// no span between that stands less deep than the parent's children.
    pub open spec fn child_shown(
        self,
        rows: Seq<FullTraceListRow>,
        above: int,
        depth: nat,
        id: Seq<char>,
    ) -> bool {
        exists|at: int|
            {
                &&& 0 <= at < rows.len()
                &&& #[trigger] shows_id(rows[at], id)
                &&& at <= above || deep_between(rows, above + 1, at + 1, depth)
            }
    }

    /// Whether the rest of a parent's children is stood for behind the parent,
    /// with no span between that stands less deep than the parent's children.
    pub open spec fn rest_shown(
        self,
        rows: Seq<FullTraceListRow>,
        above: int,
        parent: Option<Seq<char>>,
        depth: nat,
        page: nat,
    ) -> bool {
        exists|at: int|
            {
                &&& above < at < rows.len()
                &&& #[trigger] self.stands_for_rest(rows[at], parent, depth, page)
                &&& deep_between(rows, above + 1, at, depth)
            }
    }

    /// Whether everything that is loaded of a parent's children is shown, and
    /// what is not loaded is stood for.
    pub open spec fn complete_below(
        self,
        rows: Seq<FullTraceListRow>,
        above: int,
        parent: Option<Seq<char>>,
        depth: nat,
    ) -> bool {
        &&& forall|page: nat, place: int| #[trigger]
            self.lists(parent, page, place) ==> self.child_shown(
                rows,
                above,
                depth,
                self.children(parent, page)[place].span_id@,
            )
        &&& forall|page: nat| #[trigger]
            self.lacks(parent, page) && (page > 0 || self.loading.contains(
                TreePageId { parent, page: 0 },
            )) ==> self.rest_shown(rows, above, parent, depth, page)
    }

    /// Whether the children of the span at a place are all shown where it is
    /// expanded.
    pub open spec fn complete_at(self, rows: Seq<FullTraceListRow>, above: int) -> bool {
        match row_span(rows[above]) {
            Some(span) => span.has_children && self.expanded.contains(span.span_id@)
                ==> self.complete_below(
                rows,
                above,
                Some(span.span_id@),
                (span.depth + 1) as nat,
            ),
            None => true,
        }
    }

    /// What a walk keeps true of its rows.
    pub open spec fn sound(self, walk: Walk) -> bool {
        &&& spans_once(walk.rows)
        &&& forall|i: int|
            0 <= i < walk.rows.len() && (#[trigger] row_span(walk.rows[i])) is Some
                ==> walk.visited.contains(row_span(walk.rows[i])->0.span_id@)
        &&& forall|id: Seq<char>| #[trigger]
            walk.visited.contains(id) ==> shown_before(walk.rows, walk.rows.len() as int, id)
        &&& forall|i: int|
            0 <= i < walk.rows.len() ==> #[trigger] self.justified(walk.rows, i)
    }

    /// Whether the walk stands below the given parent: at the root, or behind
    /// an expanded row that shows the parent.
    pub open spec fn stands_below(
        self,
        walk: Walk,
        parent: Option<Seq<char>>,
        depth: nat,
    ) -> bool {
        match parent {
            Some(span_id) => depth > 0 && self.opened_in(walk.rows, depth, span_id),
            None => depth == 0,
        }
    }

    /// Whether a row shows the given span, expanded, with children at the given
    /// depth, and no span behind it stands less deep than those.
    pub open spec fn opened_in(
        self,
        rows: Seq<FullTraceListRow>,
        depth: nat,
        span_id: Seq<char>,
    ) -> bool {
        exists|above: int|
            0 <= above < rows.len() && #[trigger] self.opens(rows[above], depth, span_id)
                && deep_between(rows, above + 1, rows.len() as int, depth)
    }

    proof fn lemma_shown_up_to(
        self,
        rows: Seq<FullTraceListRow>,
        longer: Seq<FullTraceListRow>,
        at: int,
        parent: Option<Seq<char>>,
        page: nat,
        place: int,
    )
        requires
            rows.is_prefix_of(longer),
            0 <= at <= rows.len(),
            self.shown_up_to(rows, at, parent, page, place),
        ensures
            self.shown_up_to(longer, at, parent, page, place),
    {
        assert forall|p: nat, q: int| #[trigger]
            self.lists(parent, p, q) && (p < page || (p == page && q < place)) implies shown_before(
            longer,
            at,
            self.children(parent, p)[q].span_id@,
        ) by {
            let id = self.children(parent, p)[q].span_id@;
            assert(shown_before(rows, at, id));
            let i = choose|i: int| 0 <= i < at && #[trigger] shows_id(rows[i], id);
            assert(longer[i] == rows[i]);
            assert(shows_id(longer[i], id));
        }
    }

    proof fn lemma_entry_extends(
        self,
        rows: Seq<FullTraceListRow>,
        longer: Seq<FullTraceListRow>,
        at: int,
        parent: Option<Seq<char>>,
        depth: nat,
    )
        requires
            rows.is_prefix_of(longer),
            0 <= at < rows.len(),
            self.entry_in_turn(rows, at, parent, depth),
        ensures
            self.entry_in_turn(longer, at, parent, depth),
    {
        assert(longer[at] == rows[at]);
        match row_span(rows[at]) {
            Some(span) => {
                let (page, place) = choose|page: nat, place: int|
                    {
                        &&& #[trigger] self.lists(parent, page, place)
                        &&& span == (SpanRow {
                            depth: span.depth,
                            ..self.children(parent, page)[place]
                        })
                        &&& self.shown_up_to(rows, at, parent, page, place)
                    };
                self.lemma_shown_up_to(rows, longer, at, parent, page, place);
            },
            None => {
                let page = choose|page: nat| #[trigger]
                    self.stands_for_rest(rows[at], parent, depth, page) && self.shown_up_to(
                        rows,
                        at,
                        parent,
                        page,
                        0,
                    );
                self.lemma_shown_up_to(rows, longer, at, parent, page, 0);
                assert(self.stands_for_rest(longer[at], parent, depth, page));
            },
        }
    }

    proof fn lemma_deep_extends(
        rows: Seq<FullTraceListRow>,
        longer: Seq<FullTraceListRow>,
        from: int,
        until: int,
        depth: nat,
    )
        requires
            rows.is_prefix_of(longer),
            0 <= from,
            until <= rows.len(),
            deep_between(rows, from, until, depth),
        ensures
            deep_between(longer, from, until, depth),
    {
        assert forall|i: int|
            from <= i < until && (#[trigger] row_span(longer[i])) is Some implies depth
            <= row_span(longer[i])->0.depth by {
            assert(longer[i] == rows[i]);
            assert(row_span(rows[i]) is Some);
        }
    }

    proof fn lemma_justified_extends(
        self,
        rows: Seq<FullTraceListRow>,
        longer: Seq<FullTraceListRow>,
        place: int,
    )
        requires
            rows.is_prefix_of(longer),
            0 <= place < rows.len(),
            self.justified(rows, place),
        ensures
            self.justified(longer, place),
    {
        assert(longer[place] == rows[place]);
        let depth = row_depth(rows[place]);
        if depth == 0 {
            self.lemma_entry_extends(rows, longer, place, None, 0);
        } else {
            let above = choose|above: int|
                #![trigger rows[above]]
                {
                    &&& 0 <= above < place
                    &&& row_span(rows[above]) is Some
                    &&& self.opens(rows[above], depth, row_span(rows[above])->0.span_id@)
                    &&& self.entry_in_turn(
                        rows,
                        place,
                        Some(row_span(rows[above])->0.span_id@),
                        depth,
                    )
                    &&& deep_between(rows, above + 1, place, depth)
                };
            assert(longer[above] == rows[above]);
            let parent = Some(row_span(rows[above])->0.span_id@);
            self.lemma_entry_extends(rows, longer, place, parent, depth);
            Self::lemma_deep_extends(rows, longer, above + 1, place, depth);
        }
    }

    proof fn lemma_complete_extends(
        self,
        rows: Seq<FullTraceListRow>,
        longer: Seq<FullTraceListRow>,
        above: int,
    )
        requires
            rows.is_prefix_of(longer),
            0 <= above < rows.len(),
            self.complete_at(rows, above),
        ensures
            self.complete_at(longer, above),
    {
        assert(longer[above] == rows[above]);
        match row_span(rows[above]) {
            Some(span) => {
                if span.has_children && self.expanded.contains(span.span_id@) {
                    let parent = Some(span.span_id@);
                    let depth = (span.depth + 1) as nat;
                    assert forall|page: nat, place: int| #[trigger]
                        self.lists(parent, page, place) implies self.child_shown(
                        longer,
                        above,
                        depth,
                        self.children(parent, page)[place].span_id@,
                    ) by {
                        let id = self.children(parent, page)[place].span_id@;
                        assert(self.child_shown(rows, above, depth, id));
                        let at = choose|at: int|
                            {
                                &&& 0 <= at < rows.len()
                                &&& #[trigger] shows_id(rows[at], id)
                                &&& at <= above || deep_between(rows, above + 1, at + 1, depth)
                            };
                        assert(longer[at] == rows[at]);
                        assert(shows_id(longer[at], id));
                        if at > above {
                            Self::lemma_deep_extends(rows, longer, above + 1, at + 1, depth);
                        }
                    }
                    assert forall|page: nat| #[trigger]
                        self.lacks(parent, page) && (page > 0 || self.loading.contains(
                            TreePageId { parent, page: 0 },
                        )) implies self.rest_shown(longer, above, parent, depth, page) by {
                        assert(self.rest_shown(rows, above, parent, depth, page));
                        let at = choose|at: int|
                            {
                                &&& above < at < rows.len()
                                &&& #[trigger] self.stands_for_rest(rows[at], parent, depth, page)
                                &&& deep_between(rows, above + 1, at, depth)
                            };
                        assert(longer[at] == rows[at]);
                        assert(self.stands_for_rest(longer[at], parent, depth, page));
                        Self::lemma_deep_extends(rows, longer, above + 1, at, depth);
                    }
                }
            },
            None => {},
        }
    }

    /// A walk with one row more stays sound where the row is in turn among the
    /// children of the parent below which the walk stands.
    proof fn lemma_push_keeps(
        self,
        walk: Walk,
        row: FullTraceListRow,
        parent: Option<Seq<char>>,
        depth: nat,
    )
        requires
            self.sound(walk),
            self.stands_below(walk, parent, depth),
            row_depth(row) == depth,
            self.entry_in_turn(walk.rows.push(row), walk.rows.len() as int, parent, depth),
            row_span(row) is Some ==> !walk.visited.contains(row_span(row)->0.span_id@),
        ensures
            ({
                let after = Walk {
                    rows: walk.rows.push(row),
                    visited: match row_span(row) {
                        Some(span) => walk.visited.insert(span.span_id@),
                        None => walk.visited,
                    },
                };
                &&& self.sound(after)
                &&& Self::extends(walk, after, depth)
            }),
    {
        let rows = walk.rows.push(row);
        let last = walk.rows.len() as int;
        let visited = match row_span(row) {
            Some(span) => walk.visited.insert(span.span_id@),
            None => walk.visited,
        };
        assert(walk.rows.is_prefix_of(rows));
        assert forall|i: int| 0 <= i < rows.len() implies #[trigger] self.justified(rows, i) by {
            if i < last {
                assert(self.justified(walk.rows, i));
                self.lemma_justified_extends(walk.rows, rows, i);
            } else {
                assert(rows[last] == row);
                if let Some(span_id) = parent {
                    let above = choose|above: int|
                        0 <= above < walk.rows.len() && #[trigger] self.opens(
                            walk.rows[above],
                            depth,
                            span_id,
                        ) && deep_between(
                            walk.rows,
                            above + 1,
                            walk.rows.len() as int,
                            depth,
                        );
                    assert(rows[above] == walk.rows[above]);
                    Self::lemma_deep_extends(walk.rows, rows, above + 1, last, depth);
                }
            }
        }
        assert forall|i: int, j: int|
            0 <= i < j < rows.len() && (#[trigger] row_span(rows[i])) is Some && (
            #[trigger] row_span(rows[j])) is Some implies row_span(rows[i])->0.span_id@ != row_span(
            rows[j],
        )->0.span_id@ by {
            assert(rows[i] == walk.rows[i]);
            if j < last {
                assert(rows[j] == walk.rows[j]);
            }
        }
        assert forall|i: int| 0 <= i < rows.len() && (#[trigger] row_span(rows[i])) is Some implies
            visited.contains(row_span(rows[i])->0.span_id@) by {
            if i < last {
                assert(rows[i] == walk.rows[i]);
            }
        }
        assert forall|id: Seq<char>| #[trigger] visited.contains(id) implies shown_before(
            rows,
            rows.len() as int,
            id,
        ) by {
            if walk.visited.contains(id) {
                assert(shown_before(walk.rows, last, id));
                let i = choose|i: int| 0 <= i < last && #[trigger] shows_id(walk.rows[i], id);
                assert(rows[i] == walk.rows[i]);
                assert(shows_id(rows[i], id));
            } else {
                assert(shows_id(rows[last], id));
            }
        }
    }

    /// Rows that a walk found stay in front of what it finds later, which
    /// stands at the given depth or deeper.
    spec fn extends(before: Walk, after: Walk, depth: nat) -> bool {
        &&& before.rows.is_prefix_of(after.rows)
        &&& deep_between(after.rows, before.rows.len() as int, after.rows.len() as int, depth)
    }

    proof fn lemma_extends_keeps_place(
        self,
        before: Walk,
        after: Walk,
        parent: Option<Seq<char>>,
        depth: nat,
    )
        requires
            Self::extends(before, after, depth),
            self.stands_below(before, parent, depth),
        ensures
            self.stands_below(after, parent, depth),
    {
        if let Some(span_id) = parent {
            let above = choose|above: int|
                0 <= above < before.rows.len() && #[trigger] self.opens(
                    before.rows[above],
                    depth,
                    span_id,
                ) && deep_between(before.rows, above + 1, before.rows.len() as int, depth);
            assert(forall|i: int|
                0 <= i < before.rows.len() ==> after.rows[i] == #[trigger] before.rows[i]);
            assert(self.opens(after.rows[above], depth, span_id));
            assert forall|i: int|
                above + 1 <= i < after.rows.len() && (#[trigger] row_span(after.rows[i])) is Some
                implies depth <= row_span(after.rows[i])->0.depth by {
                if i < before.rows.len() {
                    assert(row_span(before.rows[i]) is Some);
                }
            }
        }
    }

    proof fn lemma_extends_on(first: Walk, second: Walk, third: Walk, depth: nat)
        requires
            Self::extends(first, second, depth),
            Self::extends(second, third, depth),
        ensures
            Self::extends(first, third, depth),
    {
        assert(first.rows =~= third.rows.take(first.rows.len() as int));
        assert forall|i: int|
            first.rows.len() <= i < third.rows.len() && (#[trigger] row_span(third.rows[i])) is Some
            implies depth <= row_span(third.rows[i])->0.depth by {
            if i < second.rows.len() {
                assert(third.rows[i] == second.rows[i]);
                assert(row_span(second.rows[i]) is Some);
            }
        }
    }

    /// Whether no page is cached twice and pages can be numbered in 64 bits, as
    /// in every valid tree.
    pub open spec fn countable(self) -> bool {
        bounded_cache::distinct_keys(self.pages) && self.pages.len() <= u64::MAX
    }

    /// What a part of a walk achieves: it stays sound and in its place, forgets
    /// nothing, and leaves no span behind whose children are missing.
    spec fn proceeds(self, before: Walk, after: Walk, depth: nat) -> bool {
        &&& self.sound(after)
        &&& Self::extends(before, after, depth)
        &&& before.visited.subset_of(after.visited)
        &&& self.valid_walk(depth, after.visited)
        &&& self.countable() ==> forall|i: int|
            before.rows.len() <= i < after.rows.len() ==> #[trigger] self.complete_at(
                after.rows,
                i,
            )
    }

    proof fn lemma_proceeds_on(self, first: Walk, second: Walk, third: Walk, depth: nat)
        requires
            self.proceeds(first, second, depth),
            self.proceeds(second, third, depth),
        ensures
            self.proceeds(first, third, depth),
    {
        Self::lemma_extends_on(first, second, third, depth);
        assert forall|i: int|
            self.countable() && first.rows.len() <= i < third.rows.len() implies
            #[trigger] self.complete_at(third.rows, i) by {
            if i < second.rows.len() {
                assert(self.complete_at(second.rows, i));
                self.lemma_complete_extends(second.rows, third.rows, i);
            }
        }
    }

    /// Whether every child that is listed before a place of a page was shown.
    spec fn visited_up_to(
        self,
        visited: Set<Seq<char>>,
        parent: Option<Seq<char>>,
        page: nat,
        place: int,
    ) -> bool {
        forall|p: nat, q: int| #[trigger]
            self.lists(parent, p, q) && (p < page || (p == page && q < place)) ==> visited.contains(
                self.children(parent, p)[q].span_id@,
            )
    }

    proof fn lemma_visited_is_shown(
        self,
        walk: Walk,
        parent: Option<Seq<char>>,
        page: nat,
        place: int,
    )
        requires
            self.sound(walk),
            self.visited_up_to(walk.visited, parent, page, place),
        ensures
            self.shown_up_to(walk.rows, walk.rows.len() as int, parent, page, place),
    {
        assert forall|p: nat, q: int| #[trigger]
            self.lists(parent, p, q) && (p < page || (p == page && q < place)) implies shown_before(
            walk.rows,
            walk.rows.len() as int,
            self.children(parent, p)[q].span_id@,
        ) by {
            assert(walk.visited.contains(self.children(parent, p)[q].span_id@));
        }
    }

    /// Whether all that is loaded of a parent was shown, and the rest is stood
    /// for from a place on.
    spec fn finished(
        self,
        walk: Walk,
        parent: Option<Seq<char>>,
        depth: nat,
        from: int,
    ) -> bool {
        &&& forall|p: nat, q: int| #[trigger]
            self.lists(parent, p, q) ==> walk.visited.contains(
                self.children(parent, p)[q].span_id@,
            )
        &&& forall|p: nat| #[trigger]
            self.lacks(parent, p) && (p > 0 || self.loading.contains(TreePageId { parent, page: 0 }))
                ==> exists|at: int|
                from <= at < walk.rows.len() && #[trigger] self.stands_for_rest(
                    walk.rows[at],
                    parent,
                    depth,
                    p,
                )
    }

    /// A row that stands for the rest of a parent's children ends the walk over
    /// that parent.
    proof fn lemma_rest_finishes(
        self,
        walk: Walk,
        row: FullTraceListRow,
        parent: Option<Seq<char>>,
        depth: nat,
        page: nat,
    )
        requires
            self.sound(walk),
            self.stands_below(walk, parent, depth),
            self.valid_walk(depth, walk.visited),
            self.stands_for_rest(row, parent, depth, page),
            self.visited_up_to(walk.visited, parent, page, 0),
        ensures
            self.proceeds(walk, Self::with_row(walk, row), depth),
            self.finished(Self::with_row(walk, row), parent, depth, walk.rows.len() as int),
    {
        let after = Self::with_row(walk, row);
        let last = walk.rows.len() as int;
        self.lemma_visited_is_shown(walk, parent, page, 0);
        self.lemma_shown_up_to(walk.rows, after.rows, last, parent, page, 0);
        assert(after.rows[last] == row);
        assert(self.stands_for_rest(after.rows[last], parent, depth, page));
        self.lemma_push_keeps(walk, row, parent, depth);
        assert forall|p: nat, q: int| #[trigger] self.lists(parent, p, q) implies
            after.visited.contains(self.children(parent, p)[q].span_id@) by {
            if p >= page {
                assert(self.cached(parent, page));
            }
        }
        assert forall|p: nat| #[trigger]
            self.lacks(parent, p) && (p > 0 || self.loading.contains(
                TreePageId { parent, page: 0 },
            )) implies exists|at: int|
            last <= at < after.rows.len() && #[trigger] self.stands_for_rest(
                after.rows[at],
                parent,
                depth,
                p,
            ) by {
            if p > page {
                assert(self.reaches(parent, (p - 1) as nat));
                assert(self.cached(parent, page));
            } else if p < page {
                assert(self.reaches(parent, (page - 1) as nat));
                assert(self.cached(parent, p));
            }
        }
    }

    proof fn lemma_walk_pages_sound(
        self,
        parent: Option<String>,
        depth: nat,
        page: nat,
        loaded: u64,
        walk: Walk,
    )
        requires
            self.sound(walk),
            self.stands_below(walk, parent_identity(parent), depth),
            self.valid_walk(depth, walk.visited),
            depth <= self.spans().len() <= u32::MAX,
            page > 0 ==> {
                &&& page < self.pages.len()
                &&& self.cached(parent_identity(parent), page)
                &&& self.reaches(parent_identity(parent), (page - 1) as nat)
                &&& self.leaves_out(parent_identity(parent), (page - 1) as nat)
            },
            loaded == (if self.children_before(parent_identity(parent), page) > u64::MAX {
                u64::MAX as nat
            } else {
                self.children_before(parent_identity(parent), page)
            }),
            self.visited_up_to(walk.visited, parent_identity(parent), page, 0),
        ensures
            self.proceeds(walk, self.walk_pages(parent, depth, page, loaded, walk), depth),
            self.countable() ==> self.finished(
                self.walk_pages(parent, depth, page, loaded, walk),
                parent_identity(parent),
                depth,
                walk.rows.len() as int,
            ),
        decreases self.spans().len() - depth, 1nat, self.pages.len() - page,
    {
        let above = parent_identity(parent);
        let id = Self::id(parent, page as u64);
        let done = self.walk_pages(parent, depth, page, loaded, walk);
        if !self.has_page(id) {
            assert(!self.cached(above, page));
            if self.loading.contains(id) {
                let row = FullTraceListRow::Loading { depth: depth as u32 };
                self.lemma_rest_finishes(walk, row, above, depth, page);
            } else {
                assert(page == 0);
                assert forall|p: nat, q: int| #[trigger] self.lists(above, p, q) implies
                    walk.visited.contains(self.children(above, p)[q].span_id@) by {
                    assert(self.cached(above, 0));
                }
                assert forall|p: nat| #[trigger] self.lacks(above, p) implies p == 0 by {
                    if p > 0 {
                        assert(self.reaches(above, (p - 1) as nat));
                        assert(self.cached(above, 0));
                    }
                }
            }
        } else {
            assert(self.cached(above, page));
            assert(self.reaches(above, page)) by {
                assert forall|p: nat| p < page implies #[trigger] self.cached(above, p) by {
                    assert(self.reaches(above, (page - 1) as nat));
                }
                assert forall|p: nat| p < page implies #[trigger] self.leaves_out(above, p) by {
                    if p < page - 1 {
                        assert(self.reaches(above, (page - 1) as nat));
                    }
                }
            }
            let current = self.page(id);
            let rows = current.rows@;
            assert(rows == self.children(above, page));
            assert(rows.skip(0) =~= rows);
            self.lemma_walk_rows_sound(rows, above, page, 0, depth, walk);
            let shown = self.walk_rows(rows, depth, walk);
            self.lemma_extends_keeps_place(walk, shown, above, depth);
            let more = loaded_after(loaded, current);
            assert(self.children_before(above, page + 1) == self.children_before(above, page)
                + rows.len());
            assert(self.visited_up_to(shown.visited, above, page + 1, 0));
            let next = Self::id(parent, (page + 1) as u64);
            assert(self.announced(above, page) == current.total);
            if more >= current.total {
                assert(!self.leaves_out(above, page));
                assert forall|p: nat, q: int| #[trigger] self.lists(above, p, q) implies
                    shown.visited.contains(self.children(above, p)[q].span_id@) by {
                    if p > page {
                        assert(self.leaves_out(above, page));
                    }
                }
                assert forall|p: nat| #[trigger] self.lacks(above, p) implies false by {
                    if p <= page {
                        assert(self.cached(above, p));
                    } else if p == page + 1 {
                        assert(self.leaves_out(above, page));
                    } else {
                        assert(self.reaches(above, (p - 1) as nat));
                        assert(self.leaves_out(above, page));
                    }
                }
            } else {
                assert(self.leaves_out(above, page));
                if !self.has_page(next) {
                    assert(!self.cached(above, page + 1));
                    assert(self.lacks(above, page + 1));
                    let row = if self.loading.contains(next) {
                        FullTraceListRow::Loading { depth: depth as u32 }
                    } else {
                        FullTraceListRow::LoadMore {
                            parent_span_id: parent,
                            offset: more,
                            depth: depth as u32,
                        }
                    };
                    assert(self.stands_for_rest(row, above, depth, page + 1));
                    self.lemma_rest_finishes(shown, row, above, depth, page + 1);
                    assert(done == Self::with_row(shown, row));
                    self.lemma_proceeds_on(walk, shown, done, depth);
                } else {
                    assert(self.cached(above, page + 1));
                    assert forall|p: u64| self.countable() && p < page + 2 implies #[trigger] bounded_cache::has_key(
                        self.pages,
                        TreeState::id(parent, p),
                    ) by {
                        if p <= page {
                            assert(self.cached(above, p as nat));
                        } else {
                            assert(p == page + 1);
                        }
                    }
                    if self.countable() {
                        lemma_page_count(self.pages, parent, page + 2);
                    }
                    if page + 1 < self.pages.len() {
                        self.lemma_walk_pages_sound(parent, depth, page + 1, more, shown);
                        self.lemma_proceeds_on(walk, shown, done, depth);
                    }
                }
            }
        }
    }

    proof fn lemma_walk_rows_sound(
        self,
        rows: Seq<SpanRow>,
        parent: Option<Seq<char>>,
        page: nat,
        place: int,
        depth: nat,
        walk: Walk,
    )
        requires
            self.sound(walk),
            self.stands_below(walk, parent, depth),
            self.valid_walk(depth, walk.visited),
            depth <= self.spans().len() <= u32::MAX,
            self.reaches(parent, page),
            0 <= place <= self.children(parent, page).len(),
            rows == self.children(parent, page).skip(place),
            self.visited_up_to(walk.visited, parent, page, place),
        ensures
            self.proceeds(walk, self.walk_rows(rows, depth, walk), depth),
            self.visited_up_to(
                self.walk_rows(rows, depth, walk).visited,
                parent,
                page,
                self.children(parent, page).len() as int,
            ),
        decreases self.spans().len() - depth, 0nat, rows.len(),
    {
        if rows.len() > 0 {
            let span = rows[0];
            let rest = rows.drop_first();
            assert(span == self.children(parent, page)[place]);
            assert(rest =~= self.children(parent, page).skip(place + 1));
            assert(self.lists(parent, page, place));
            let done = self.walk_rows(rows, depth, walk);
            if walk.visited.contains(span.span_id@) {
                assert(self.visited_up_to(walk.visited, parent, page, place + 1));
                self.lemma_walk_rows_sound(rest, parent, page, place + 1, depth, walk);
            } else {
                let last = walk.rows.len() as int;
                let shown_span = SpanRow { depth: depth as u32, ..span };
                let row = FullTraceListRow::Span(Box::new(shown_span));
                let shown = Walk {
                    rows: walk.rows.push(row),
                    visited: walk.visited.insert(span.span_id@),
                };
                assert(shown.rows[last] == row);
                self.lemma_visited_is_shown(walk, parent, page, place);
                self.lemma_shown_up_to(walk.rows, shown.rows, last, parent, page, place);
                assert(self.cached(parent, page));
                assert(self.page(TreePageId { parent, page: page as u64 }).rows@[place] == span);
                assert(self.in_turn(shown.rows, last, parent, shown_span));
                self.lemma_push_keeps(walk, row, parent, depth);
                self.lemma_page_spans(TreePageId { parent, page: page as u64 });
                self.lemma_visited_bound(walk.visited);
                assert(span_ids(self.spans()).contains(span.span_id@));
                self.lemma_visited_bound(shown.visited);
                assert(shown.visited.len() == walk.visited.len() + 1);
                let enters = span.has_children && self.expanded.contains(span.span_id@);
                let entered = if enters {
                    self.walk_pages(Some(span.span_id), depth + 1, 0, 0, shown)
                } else {
                    shown
                };
                if enters {
                    assert(self.opens(shown.rows[last], depth + 1, span.span_id@));
                    assert(self.opened_in(shown.rows, depth + 1, span.span_id@));
                    self.lemma_walk_pages_sound(Some(span.span_id), depth + 1, 0, 0, shown);
                    if self.countable() {
                        self.lemma_entered(shown, entered, last, span.span_id@, depth);
                    }
                }
                assert(self.proceeds(walk, entered, depth)) by {
                    assert(Self::extends(shown, entered, depth)) by {
                        assert forall|i: int|
                            shown.rows.len() <= i < entered.rows.len() && (#[trigger] row_span(
                                entered.rows[i],
                            )) is Some implies depth <= row_span(entered.rows[i])->0.depth by {}
                    }
                    Self::lemma_extends_on(walk, shown, entered, depth);
                    assert forall|i: int|
                        self.countable() && last <= i < entered.rows.len() implies
                        #[trigger] self.complete_at(entered.rows, i) by {
                        assert(entered.rows[last] == row);
                    }
                }
                self.lemma_extends_keeps_place(walk, entered, parent, depth);
                assert(self.visited_up_to(entered.visited, parent, page, place + 1));
                self.lemma_walk_rows_sound(rest, parent, page, place + 1, depth, entered);
                self.lemma_proceeds_on(walk, entered, done, depth);
            }
        }
    }

    proof fn lemma_visible(self)
        requires
            self.spans().len() <= u32::MAX,
        ensures
            spans_once(self.visible()),
            forall|i: int|
                0 <= i < self.visible().len() ==> #[trigger] self.justified(self.visible(), i),
            self.countable() ==> self.complete_below(self.visible(), -1, None, 0),
            self.countable() ==> forall|i: int|
                0 <= i < self.visible().len() ==> #[trigger] self.complete_at(self.visible(), i),
    {
        let start = Walk { rows: Seq::empty(), visited: Set::empty() };
        self.lemma_walk_pages_sound(None, 0, 0, 0, start);
        let done = self.walk_pages(None, 0, 0, 0, start);
        let rows = self.visible();
        assert forall|p: nat, q: int|
            self.countable() && #[trigger] self.lists(None, p, q) implies self.child_shown(
            rows,
            -1,
            0,
            self.children(None, p)[q].span_id@,
        ) by {
            let id = self.children(None, p)[q].span_id@;
            assert(done.visited.contains(id));
            assert(shown_before(rows, rows.len() as int, id));
            let at = choose|at: int| 0 <= at < rows.len() && #[trigger] shows_id(rows[at], id);
            assert(deep_between(rows, 0, at + 1, 0));
        }
        assert forall|p: nat|
            self.countable() && #[trigger] self.lacks(None, p) && (p > 0 || self.loading.contains(
                TreePageId { parent: None, page: 0 },
            )) implies self.rest_shown(rows, -1, None, 0, p) by {
            let at = choose|at: int|
                0 <= at < rows.len() && #[trigger] self.stands_for_rest(rows[at], None, 0, p);
            assert(deep_between(rows, 0, at, 0));
        }
    }

    /// The children of an entered span are complete once the walk below it is done.
    proof fn lemma_entered(
        self,
        shown: Walk,
        entered: Walk,
        last: int,
        span_id: Seq<char>,
        depth: nat,
    )
        requires
            last == shown.rows.len() - 1,
            last >= 0,
            self.opens(shown.rows[last], depth + 1, span_id),
            self.proceeds(shown, entered, depth + 1),
            self.finished(entered, Some(span_id), depth + 1, shown.rows.len() as int),
        ensures
            self.complete_at(entered.rows, last),
    {
        let parent = Some(span_id);
        assert(entered.rows[last] == shown.rows[last]);
        assert forall|p: nat, q: int| #[trigger] self.lists(parent, p, q) implies self.child_shown(
            entered.rows,
            last,
            depth + 1,
            self.children(parent, p)[q].span_id@,
        ) by {
            let id = self.children(parent, p)[q].span_id@;
            assert(entered.visited.contains(id));
            assert(shown_before(entered.rows, entered.rows.len() as int, id));
            let at = choose|at: int|
                0 <= at < entered.rows.len() && #[trigger] shows_id(entered.rows[at], id);
            if at > last {
                assert(deep_between(entered.rows, last + 1, at + 1, depth + 1));
            }
        }
        assert forall|p: nat| #[trigger]
            self.lacks(parent, p) && (p > 0 || self.loading.contains(
                TreePageId { parent, page: 0 },
            )) implies self.rest_shown(entered.rows, last, parent, depth + 1, p) by {
            let at = choose|at: int|
                shown.rows.len() <= at < entered.rows.len() && #[trigger] self.stands_for_rest(
                    entered.rows[at],
                    parent,
                    depth + 1,
                    p,
                );
            assert(deep_between(entered.rows, last + 1, at, depth + 1));
        }
    }
}

/// Caching another page keeps the tree within its capacity and its pages
/// distinct, and that page is found afterwards.
pub proof fn retained_pages_stay_bounded(state: TreeState, id: TreePageId, page: SpanTreePageV1)
    requires
        bounded_cache::distinct_keys(state.pages),
        state.pages.len() <= state.capacity,
        state.capacity >= 1,
    ensures
        ({
            let after = TreeState {
                pages: bounded_cache::inserted(state.pages, state.capacity, id, page),
                ..state
            };
            &&& after.pages.len() <= after.capacity
            &&& bounded_cache::distinct_keys(after.pages)
            &&& after.has_page(id)
            &&& after.page(id) == page
        }),
{
    bounded_cache::insertion_respects_capacity(state.pages, state.capacity, id, page);
}

/// Each span is visible at most once, roots are listed as roots, and a span
/// below the roots is visible only behind its expanded parent, under which it
/// is listed: the nearest span before it that stands one level above. What is
/// listed before it under that parent is visible before it.
pub proof fn visible_spans_are_justified(tree: TreeState)
    requires
        tree.spans().len() <= u32::MAX,
    ensures
        spans_once(tree.visible()),
        forall|i: int| 0 <= i < tree.visible().len() ==> #[trigger] tree.justified(tree.visible(), i),
{
    tree.lemma_visible();
}

/// Nothing that is loaded and expanded is left out: the roots on the loaded
/// root pages are visible, and so are the children on the loaded pages of every
/// visible span that has children and is expanded, however deep it stands. A
/// child stands no later than its parent, where it was shown before, or within
/// the spans below its parent. Where children are not loaded, a row says so.
pub proof fn visible_trees_are_complete(tree: TreeState)
    requires
        tree.spans().len() <= u32::MAX,
        tree.countable(),
    ensures
        tree.complete_below(tree.visible(), -1, None, 0),
        forall|i: int|
            0 <= i < tree.visible().len() && (#[trigger] row_span(tree.visible()[i])) is Some
                && row_span(tree.visible()[i])->0.has_children && tree.expanded.contains(
                row_span(tree.visible()[i])->0.span_id@,
            ) ==> tree.complete_below(
                tree.visible(),
                i,
                Some(row_span(tree.visible()[i])->0.span_id@),
                (row_span(tree.visible()[i])->0.depth + 1) as nat,
            ),
{
    tree.lemma_visible();
    let rows = tree.visible();
    assert forall|i: int|
        0 <= i < rows.len() && (#[trigger] row_span(rows[i])) is Some && row_span(
            rows[i],
        )->0.has_children && tree.expanded.contains(row_span(rows[i])->0.span_id@) implies
        tree.complete_below(
        rows,
        i,
        Some(row_span(rows[i])->0.span_id@),
        (row_span(rows[i])->0.depth + 1) as nat,
    ) by {
        assert(tree.complete_at(rows, i));
    }
}

/// Every span on the first loaded page of an expanded visible span's children
/// is visible: directly below it, unless another listing of the span came
/// first.
pub proof fn first_children_of_expanded_spans_are_visible(
    tree: TreeState,
    place: int,
    span: SpanRow,
    child: SpanRow,
)
    requires
        tree.spans().len() <= u32::MAX,
        tree.countable(),
        0 <= place < tree.visible().len(),
        tree.visible()[place] == FullTraceListRow::Span(Box::new(span)),
        span.has_children,
        tree.expanded.contains(span.span_id@),
        tree.has_page(TreePageId { parent: Some(span.span_id@), page: 0 }),
        tree.page(TreePageId { parent: Some(span.span_id@), page: 0 }).rows@.contains(child),
    ensures
        exists|at: int|
            {
                &&& 0 <= at < tree.visible().len()
                &&& #[trigger] shows_id(tree.visible()[at], child.span_id@)
                &&& at > place ==> row_span(tree.visible()[at])->0.depth > span.depth
            },
{
    visible_trees_are_complete(tree);
    let rows = tree.visible();
    let parent = Some(span.span_id@);
    let listed = tree.page(TreePageId { parent, page: 0 }).rows@;
    let q = choose|q: int| 0 <= q < listed.len() && listed[q] == child;
    assert(row_span(rows[place]) is Some);
    assert(tree.cached(parent, 0));
    assert(tree.lists(parent, 0, q));
    let depth = (span.depth + 1) as nat;
    assert(tree.child_shown(rows, place, depth, child.span_id@));
    let at = choose|at: int|
        {
            &&& 0 <= at < rows.len()
            &&& #[trigger] shows_id(rows[at], child.span_id@)
            &&& at <= place || deep_between(rows, place + 1, at + 1, depth)
        };
    assert(row_span(rows[at]) is Some);
}

/// While no span is expanded, only roots are visible.
pub proof fn collapsed_trees_show_roots_only(tree: TreeState)
    requires
        tree.spans().len() <= u32::MAX,
        tree.expanded == Set::<Seq<char>>::empty(),
    ensures
        forall|i: int|
            0 <= i < tree.visible().len() && (#[trigger] row_span(tree.visible()[i])) is Some
                ==> row_span(tree.visible()[i])->0.depth == 0,
{
    visible_spans_are_justified(tree);
    assert forall|i: int|
        0 <= i < tree.visible().len() && (#[trigger] row_span(tree.visible()[i])) is Some implies
        row_span(tree.visible()[i])->0.depth == 0 by {
        assert(tree.justified(tree.visible(), i));
    }
}

/// Expanding a collapsed span and collapsing it again restores the tree.
pub proof fn toggling_twice_restores(expanded: Set<Seq<char>>, span_id: Seq<char>)
    ensures
        !expanded.contains(span_id) ==> expanded.insert(span_id).remove(span_id) == expanded,
        expanded.contains(span_id) ==> expanded.remove(span_id).insert(span_id) == expanded,
{
    assert(!expanded.contains(span_id) ==> expanded.insert(span_id).remove(span_id) =~= expanded);
    assert(expanded.contains(span_id) ==> expanded.remove(span_id).insert(span_id) =~= expanded);
}

/// Expanding everything expands exactly the loaded spans that have children.
pub proof fn spans_with_children_can_be_expanded(spans: Seq<SpanRow>, id: Seq<char>, place: int)
    ensures
        0 <= place < spans.len() && spans[place].has_children && spans[place].span_id@ == id
            ==> expandable(spans).contains(id),
        (forall|i: int|
            0 <= i < spans.len() && (#[trigger] spans[i]).span_id@ == id ==> !spans[i].has_children)
            ==> !expandable(spans).contains(id),
{
}

/// A page of children stands under its parent and its number, and the first
/// page of five hundred is page zero.
pub proof fn pages_stand_under_parent_and_number(left: TreePageKey, right: TreePageKey)
    ensures
        left@ == right@ <==> left.page == right.page && (match (
            left.parent_span_id,
            right.parent_span_id,
        ) {
            (Some(one), Some(other)) => one@ == other@,
            (None, None) => true,
            _ => false,
        }),
        TREE_PAGE_SIZE == 500,
{
}

/// Each page adds its rows to the children that were seen.
pub proof fn pages_add_their_rows(loaded: u64, page: SpanTreePageV1)
    requires
        loaded + page.rows@.len() <= u64::MAX,
    ensures
        loaded_after(loaded, page) == loaded + page.rows@.len(),
{
}

/// An empty tree has room for the given number of pages, and for one at least.
pub proof fn empty_trees_have_room(cached_pages: nat)
    ensures
        TreeState::empty(cached_pages).pages.len() == 0,
        TreeState::empty(cached_pages).expanded == Set::<Seq<char>>::empty(),
        cached_pages >= 1 ==> TreeState::empty(cached_pages).capacity == cached_pages,
        TreeState::empty(0).capacity == 1,
{
}

} // verus!
