//! The order of failure groups, and saved views of the inbox.

use super::components::{self, humanize};
use super::model::{
    copy_optional, optional_text, FailureFiltersV1, FailureGroupSummary,
    FailureInboxPreferencesV1, FailureInboxSort, FailureInboxViewV1, InboxViewContent, QueryScopeV1,
    SavedFailureInboxViewV1,
};
use crate::sorting::{self, rank_texts, sort_by_order, Rank, SortOrder};
use crate::text::{self, append_decimal, join, same_text};
use vstd::prelude::*;
use vstd::string::*;

verus! {

/// The findings of a group that are not known to be recovered.
pub open spec fn unresolved_count(group: FailureGroupSummary) -> nat {
    group.unrecovered_count as nat + group.unknown_recovery_count as nat
}

/// The findings of a group that are not known to be recovered.
pub fn unresolved(group: &FailureGroupSummary) -> (count: u128)
    ensures
        count == unresolved_count(*group),
{
    group.unrecovered_count as u128 + group.unknown_recovery_count as u128
}

/// The rank of a higher number before a lower one.
pub open spec fn rank_down(left: nat, right: nat) -> Rank {
    if left > right {
        Rank::Before
    } else if left == right {
        Rank::Same
    } else {
        Rank::After
    }
}

/// What the chosen order looks at first.
pub open spec fn primary_rank(
    sort: FailureInboxSort,
    left: FailureGroupSummary,
    right: FailureGroupSummary,
) -> Rank {
    match sort {
        FailureInboxSort::Priority => Rank::Same,
        FailureInboxSort::MostRecent => sorting::text_rank(
            right.last_seen_at@,
            left.last_seen_at@,
        ),
        FailureInboxSort::MostFrequent => rank_down(
            left.occurrence_count as nat,
            right.occurrence_count as nat,
        ),
        FailureInboxSort::MostUnresolved => rank_down(
            unresolved_count(left),
            unresolved_count(right),
        ),
    }
}

/// The first rank that decides.
pub open spec fn first_rank(first: Rank, second: Rank) -> Rank {
    if first == Rank::Same {
        second
    } else {
        first
    }
}

/// The rank of a group against another: by the chosen order, then the latest
/// first, then by project and group.
pub open spec fn group_rank(
    sort: FailureInboxSort,
    left: FailureGroupSummary,
    right: FailureGroupSummary,
) -> Rank {
    first_rank(
        primary_rank(sort, left, right),
        first_rank(
            sorting::text_rank(right.last_seen_at@, left.last_seen_at@),
            first_rank(
                sorting::text_rank(left.project_id@, right.project_id@),
                sorting::text_rank(left.group_id@, right.group_id@),
            ),
        ),
    )
}

/// Whether one group is listed before another.
pub open spec fn group_before(sort: FailureInboxSort) -> spec_fn(
    FailureGroupSummary,
    FailureGroupSummary,
) -> bool {
    |left: FailureGroupSummary, right: FailureGroupSummary|
        group_rank(sort, left, right) == Rank::Before
}

/// The groups in the chosen order; by priority they stay as they came.
pub open spec fn sorted_groups(
    sort: FailureInboxSort,
    groups: Seq<FailureGroupSummary>,
) -> Seq<FailureGroupSummary> {
    if sort == FailureInboxSort::Priority {
        groups
    } else {
        sorting::stably_sorted(group_before(sort), groups)
    }
}

/// Groups in a chosen order.
pub struct GroupOrder {
    pub sort: FailureInboxSort,
}

fn rank_numbers_down(left: u128, right: u128) -> (rank: Rank)
    ensures
        rank == rank_down(left as nat, right as nat),
{
    if left > right {
        Rank::Before
    } else if left == right {
        Rank::Same
    } else {
        Rank::After
    }
}

impl SortOrder<FailureGroupSummary> for GroupOrder {
    open spec fn before(&self) -> spec_fn(FailureGroupSummary, FailureGroupSummary) -> bool {
        group_before(self.sort)
    }

    fn precedes(&self, left: &FailureGroupSummary, right: &FailureGroupSummary) -> (first: bool) {
        let primary = match self.sort {
            FailureInboxSort::Priority => Rank::Same,
            FailureInboxSort::MostRecent => rank_texts(
                right.last_seen_at.as_str(),
                left.last_seen_at.as_str(),
            ),
            FailureInboxSort::MostFrequent => rank_numbers_down(
                left.occurrence_count as u128,
                right.occurrence_count as u128,
            ),
            FailureInboxSort::MostUnresolved => rank_numbers_down(
                unresolved(left),
                unresolved(right),
            ),
        };
        if primary != Rank::Same {
            return primary == Rank::Before;
        }
        let seen = rank_texts(right.last_seen_at.as_str(), left.last_seen_at.as_str());
        if seen != Rank::Same {
            return seen == Rank::Before;
        }
        let project = rank_texts(left.project_id.as_str(), right.project_id.as_str());
        if project != Rank::Same {
            return project == Rank::Before;
        }
        rank_texts(left.group_id.as_str(), right.group_id.as_str()) == Rank::Before
    }
}

/// The groups in the chosen order.
pub fn sort_groups(sort: FailureInboxSort, groups: Vec<FailureGroupSummary>) -> (sorted: Vec<
    FailureGroupSummary,
>)
    ensures
        sorted@ == sorted_groups(sort, groups@),
{
    match sort {
        FailureInboxSort::Priority => groups,
        _ => {
            assert(sorting::views(groups@) =~= groups@);
            let sorted = sort_by_order(&GroupOrder { sort }, groups);
            assert(sorting::views(sorted@) =~= sorted@);
            sorted
        },
    }
}

/// The text of a saved view's identity.
pub open spec fn view_id(sequence: nat) -> Seq<char> {
    "failure-view-"@ + text::decimal(sequence)
}

/// The identities of saved views.
pub open spec fn saved_ids(saved: Seq<SavedFailureInboxViewV1>) -> Seq<Seq<char>> {
    saved.map_values(|view: SavedFailureInboxViewV1| view.id@)
}

/// Whether a number is the first one whose identity is not in use.
pub open spec fn first_unused(saved: Seq<SavedFailureInboxViewV1>, sequence: nat) -> bool {
    &&& sequence >= 1
    &&& !saved_ids(saved).contains(view_id(sequence))
    &&& forall|earlier: nat|
        1 <= earlier < sequence ==> #[trigger] saved_ids(saved).contains(view_id(earlier))
}

proof fn lemma_view_id_injective(left: nat, right: nat)
    requires
        view_id(left) == view_id(right),
    ensures
        left == right,
{
    let prefix = "failure-view-"@;
    assert(text::decimal(left) =~= view_id(left).skip(prefix.len() as int));
    assert(text::decimal(right) =~= view_id(right).skip(prefix.len() as int));
    text::decimal_is_injective(left, right);
}

/// As many identities as are in use in a row, there are saved views.
proof fn lemma_used_ids(ids: Seq<Seq<char>>, count: nat)
    requires
        forall|earlier: nat| 1 <= earlier <= count ==> #[trigger] ids.contains(view_id(earlier)),
    ensures
        count <= ids.len(),
    decreases count,
{
    if count > 0 {
        assert(ids.contains(view_id(count)));
        let place = choose|i: int| 0 <= i < ids.len() && ids[i] == view_id(count);
        let fewer = ids.remove(place);
        assert forall|earlier: nat| 1 <= earlier <= count - 1 implies #[trigger] fewer.contains(
            view_id(earlier),
        ) by {
            assert(ids.contains(view_id(earlier)));
            let i = choose|i: int| 0 <= i < ids.len() && ids[i] == view_id(earlier);
            if i == place {
                lemma_view_id_injective(earlier, count);
            } else if i < place {
                assert(fewer[i] == view_id(earlier));
            } else {
                assert(fewer[i - 1] == view_id(earlier));
            }
        }
        lemma_used_ids(fewer, (count - 1) as nat);
    }
}

fn id_in_use(saved: &Vec<SavedFailureInboxViewV1>, id: &str) -> (used: bool)
    ensures
        used == saved_ids(saved@).contains(id@),
{
    let mut index: usize = 0;
    while index < saved.len()
        invariant
            index <= saved@.len(),
            forall|i: int| 0 <= i < index ==> saved_ids(saved@)[i] != id@,
        decreases saved@.len() - index,
    {
        if same_text(saved[index].id.as_str(), id) {
            assert(saved_ids(saved@)[index as int] == id@);
            return true;
        }
        index += 1;
    }
    false
}

/// The first identity that no saved view has.
pub fn next_saved_view_id(preferences: &FailureInboxPreferencesV1) -> (id: String)
    requires
        preferences.saved@.len() < u64::MAX,
    ensures
        exists|sequence: nat|
            id@ == view_id(sequence) && #[trigger] first_unused(preferences.saved@, sequence),
{
    let mut sequence: u64 = 1;
    loop
        invariant
            1 <= sequence <= preferences.saved@.len() + 1,
            preferences.saved@.len() < u64::MAX,
            forall|earlier: nat|
                1 <= earlier < sequence ==> #[trigger] saved_ids(preferences.saved@).contains(
                    view_id(earlier),
                ),
        decreases preferences.saved@.len() + 1 - sequence,
    {
        let mut id = "failure-view-".to_owned();
        append_decimal(&mut id, sequence);
        if !id_in_use(&preferences.saved, id.as_str()) {
            assert(first_unused(preferences.saved@, sequence as nat));
            return id;
        }
        proof {
            assert forall|earlier: nat| 1 <= earlier <= sequence implies #[trigger] saved_ids(
                preferences.saved@,
            ).contains(view_id(earlier)) by {
                if earlier == sequence {
                    assert(view_id(earlier) == id@);
                }
            }
            lemma_used_ids(saved_ids(preferences.saved@), sequence as nat);
        }
        sequence += 1;
    }
}

/// The filters of a view, in words.
pub open spec fn view_parts(view: FailureInboxViewV1) -> Seq<Seq<char>> {
    let severity = match view.severity {
        Some(severity) => seq![severity.name()],
        None => Seq::empty(),
    };
    let recovery = match view.recovery {
        Some(recovery) => seq![recovery.name()],
        None => Seq::empty(),
    };
    let detector = match view.detector_id {
        Some(detector) => seq![components::humanized(detector@)],
        None => Seq::empty(),
    };
    let service = match view.service_name {
        Some(service) => seq![service@],
        None => Seq::empty(),
    };
    severity + recovery + detector + service
}

/// A view, in words: its filters, or that there are none, and its order
/// unless that is priority.
pub open spec fn view_description(view: FailureInboxViewV1) -> Seq<char> {
    let filters = if view_parts(view).len() == 0 {
        seq!["All failures"@]
    } else {
        view_parts(view)
    };
    let parts = if view.sort == FailureInboxSort::Priority {
        filters
    } else {
        filters.push(view.sort.name())
    };
    text::joined(parts, " · "@)
}

/// A view, in words.
pub fn describe_view(view: &FailureInboxViewV1) -> (description: String)
    ensures
        description@ == view_description(*view),
{
    let mut parts: Vec<String> = Vec::new();
    if let Some(severity) = view.severity {
        parts.push(severity.label().to_owned());
    }
    if let Some(recovery) = view.recovery {
        parts.push(recovery.label().to_owned());
    }
    if let Some(detector) = &view.detector_id {
        parts.push(humanize(detector.as_str()));
    }
    if let Some(service) = &view.service_name {
        parts.push(service.clone());
    }
    assert(text::texts(parts@) =~= view_parts(*view));
    if parts.len() == 0 {
        parts.push("All failures".to_owned());
    }
    let ghost filters = text::texts(parts@);
    assert(view_parts(*view).len() == 0 ==> filters =~= seq!["All failures"@]);
    if view.sort != FailureInboxSort::Priority {
        parts.push(view.sort.label().to_owned());
        assert(text::texts(parts@) =~= filters.push(view.sort.name()));
    }
    join(&parts, " · ")
}

/// The view that filters and an order make up.
pub open spec fn captured_view(filters: FailureFiltersV1, sort: FailureInboxSort) -> InboxViewContent {
    InboxViewContent {
        severity: filters.severity,
        recovery: filters.recovery,
        detector_id: optional_text(filters.detector_id),
        service_name: optional_text(filters.scope.criteria.service_name),
        search: optional_text(filters.search),
        sort,
    }
}

/// The first saved view that shows the same.
pub open spec fn saved_like(
    saved: Seq<SavedFailureInboxViewV1>,
    view: InboxViewContent,
) -> Option<String>
    decreases saved.len(),
{
    if saved.len() == 0 {
        None
    } else if saved[0].view@ == view {
        Some(saved[0].id)
    } else {
        saved_like(saved.drop_first(), view)
    }
}

fn find_saved_like(saved: &Vec<SavedFailureInboxViewV1>, view: &FailureInboxViewV1) -> (found:
    Option<String>)
    ensures
        found == saved_like(saved@, view@),
{
    let mut index: usize = 0;
    assert(saved@.skip(0) =~= saved@);
    while index < saved.len()
        invariant
            index <= saved@.len(),
            saved_like(saved@, view@) == saved_like(saved@.skip(index as int), view@),
        decreases saved@.len() - index,
    {
        proof {
            assert(saved@.skip(index as int)[0] == saved@[index as int]);
            assert(saved@.skip(index as int).drop_first() =~= saved@.skip(index + 1));
        }
        if saved[index].view.same(view) {
            return Some(saved[index].id.clone());
        }
        index += 1;
    }
    None
}

impl FailureInboxPreferencesV1 {
    /// Takes the current filters over into the current view.
    pub fn capture_current_view(&mut self, filters: &FailureFiltersV1)
        ensures
            final(self).current@ == captured_view(*filters, old(self).current.sort),
            final(self).saved == old(self).saved,
            final(self).active_saved_view_id == old(self).active_saved_view_id,
    {
        self.current = FailureInboxViewV1 {
            severity: filters.severity,
            recovery: filters.recovery,
            detector_id: copy_optional(&filters.detector_id),
            service_name: copy_optional(&filters.scope.criteria.service_name),
            search: copy_optional(&filters.search),
            sort: self.current.sort,
        };
    }

    /// Saves the current view, unless one that shows the same is saved, and
    /// makes it the active one.
    pub fn save_current_view(&mut self, filters: &FailureFiltersV1)
        requires
            old(self).saved@.len() < u64::MAX,
        ensures
            final(self).current@ == captured_view(*filters, old(self).current.sort),
            match saved_like(
                old(self).saved@,
                captured_view(*filters, old(self).current.sort),
            ) {
                Some(id) => {
                    &&& final(self).saved == old(self).saved
                    &&& final(self).active_saved_view_id == Some(id)
                },
                None => {
                    &&& final(self).saved@.len() == old(self).saved@.len() + 1
                    &&& final(self).saved@.drop_last() == old(self).saved@
                    &&& final(self).saved@.last().view == final(self).current
                    &&& final(self).saved@.last().name@ == view_description(final(self).current)
                    &&& exists|sequence: nat|
                        final(self).saved@.last().id@ == view_id(sequence)
                            && #[trigger] first_unused(old(self).saved@, sequence)
                    &&& final(self).active_saved_view_id == Some(final(self).saved@.last().id)
                },
            },
    {
        self.capture_current_view(filters);
        match find_saved_like(&self.saved, &self.current) {
            Some(id) => {
                self.active_saved_view_id = Some(id);
            },
            None => {
                let id = next_saved_view_id(&*self);
                let name = describe_view(&self.current);
                let view = self.current.copy();
                let ghost before = self.saved@;
                self.saved.push(SavedFailureInboxViewV1 { id: id.clone(), name, view });
                self.active_saved_view_id = Some(id);
                assert(self.saved@.drop_last() =~= before);
            },
        }
    }

    /// Shows a saved view; the result says whether there is one.
    pub fn activate_saved_view(&mut self, id: String) -> (found: bool)
        ensures
            found == saved_ids(old(self).saved@).contains(id@),
            found ==> final(self).active_saved_view_id == Some(id) && (exists|i: int|
                0 <= i < old(self).saved@.len() && (#[trigger] old(self).saved@[i]).id@ == id@
                    && final(self).current == old(self).saved@[i].view && (forall|j: int|
                    0 <= j < i ==> (#[trigger] old(self).saved@[j]).id@ != id@)),
            !found ==> *final(self) == *old(self),
            final(self).saved == old(self).saved,
    {
        let mut index: usize = 0;
        while index < self.saved.len()
            invariant
                index <= self.saved@.len(),
                *self == *old(self),
                forall|j: int| 0 <= j < index ==> (#[trigger] self.saved@[j]).id@ != id@,
            decreases self.saved@.len() - index,
        {
            if self.saved[index].id == id {
                proof {
                    assert(saved_ids(self.saved@)[index as int] == id@);
                }
                self.current = self.saved[index].view.copy();
                self.active_saved_view_id = Some(id);
                return true;
            }
            index += 1;
        }
        assert forall|i: int| 0 <= i < saved_ids(self.saved@).len() implies saved_ids(
            self.saved@,
        )[i] != id@ by {
            assert(self.saved@[i].id@ != id@);
        }
        false
    }

    /// Removes a saved view.
    pub fn remove_saved_view(&mut self, id: &str)
        ensures
            final(self).saved@ == old(self).saved@.filter(
                |view: SavedFailureInboxViewV1| view.id@ != id@,
            ),
            final(self).current == old(self).current,
            final(self).active_saved_view_id == (match old(self).active_saved_view_id {
                Some(active) => if active@ == id@ {
                    None
                } else {
                    Some(active)
                },
                None => None,
            }),
    {
        let ghost keep = |view: SavedFailureInboxViewV1| view.id@ != id@;
        let ghost all = self.saved@;
        let mut index: usize = 0;
        let ghost mut done: int = 0;
        assert(all.skip(0) =~= all);
        assert(all.take(0).filter(keep) =~= Seq::empty()) by {
            reveal(Seq::filter);
        }
        assert(self.saved@ =~= Seq::empty() + all.skip(0));
        while index < self.saved.len()
            invariant
                keep == (|view: SavedFailureInboxViewV1| view.id@ != id@),
                0 <= done <= all.len(),
                index == all.take(done).filter(keep).len(),
                self.saved@ == all.take(done).filter(keep) + all.skip(done),
                self.current == old(self).current,
                self.active_saved_view_id == old(self).active_saved_view_id,
            decreases all.len() - done,
        {
            proof {
                reveal(Seq::filter);
                assert(self.saved@[index as int] == all.skip(done)[0]);
                assert(all.take(done + 1).drop_last() =~= all.take(done));
                assert(all.take(done + 1).last() == all[done]);
                assert(all.skip(done).drop_first() =~= all.skip(done + 1));
            }
            if same_text(self.saved[index].id.as_str(), id) {
                let ghost before = self.saved@;
                self.saved.remove(index);
                proof {
                    assert(self.saved@ =~= all.take(done).filter(keep) + all.skip(done + 1));
                }
            } else {
                index += 1;
                proof {
                    assert(self.saved@ =~= all.take(done + 1).filter(keep) + all.skip(done + 1));
                }
            }
            proof {
                done = done + 1;
            }
        }
        proof {
            assert(all.skip(done).len() == 0);
            assert(all.take(done) =~= all);
            assert(self.saved@ =~= all.filter(keep));
        }
        let drops = match &self.active_saved_view_id {
            Some(active) => same_text(active.as_str(), id),
            None => false,
        };
        if drops {
            self.active_saved_view_id = None;
        }
    }

    /// Takes the current filters over and marks the saved view that shows the
    /// same, if any, as the active one.
    pub fn commit_current_view(&mut self, filters: &FailureFiltersV1)
        ensures
            final(self).current@ == captured_view(*filters, old(self).current.sort),
            final(self).saved == old(self).saved,
            final(self).active_saved_view_id == saved_like(
                old(self).saved@,
                captured_view(*filters, old(self).current.sort),
            ),
    {
        self.capture_current_view(filters);
        self.active_saved_view_id = find_saved_like(&self.saved, &self.current);
    }
}

/// Makes the filters those of a view, keeping the rest of the scope.
pub fn apply_view(filters: &mut FailureFiltersV1, view: &FailureInboxViewV1)
    ensures
        *final(filters) == (FailureFiltersV1 {
            severity: view.severity,
            recovery: view.recovery,
            detector_id: view.detector_id,
            search: view.search,
            scope: QueryScopeV1 {
                criteria: super::model::QueryScopeCriteriaV1 {
                    service_name: view.service_name,
                    ..old(filters).scope.criteria
                },
            },
            ..*old(filters)
        }),
{
    filters.severity = view.severity;
    filters.recovery = view.recovery;
    filters.detector_id = copy_optional(&view.detector_id);
    let mut criteria = filters.scope.criteria.copy();
    criteria.service_name = copy_optional(&view.service_name);
    filters.scope = QueryScopeV1::new(criteria);
    filters.search = copy_optional(&view.search);
}

/// Applying a view and capturing the filters gives the view back.
pub proof fn applied_views_are_captured(filters: FailureFiltersV1, view: FailureInboxViewV1)
    ensures
        ({
            let applied = FailureFiltersV1 {
                severity: view.severity,
                recovery: view.recovery,
                detector_id: view.detector_id,
                search: view.search,
                scope: QueryScopeV1 {
                    criteria: super::model::QueryScopeCriteriaV1 {
                        service_name: view.service_name,
                        ..filters.scope.criteria
                    },
                },
                ..filters
            };
            captured_view(applied, view.sort) == view@
        }),
{
}

/// The identity of a newly saved view is not in use, and is determined.
pub proof fn new_view_ids_are_unique(
    saved: Seq<SavedFailureInboxViewV1>,
    left: nat,
    right: nat,
)
    requires
        first_unused(saved, left),
        first_unused(saved, right),
    ensures
        left == right,
        !saved_ids(saved).contains(view_id(left)),
{
    if left < right {
        assert(saved_ids(saved).contains(view_id(left)));
    } else if right < left {
        assert(saved_ids(saved).contains(view_id(right)));
    }
}

/// The order of groups is a strict weak order.
pub proof fn group_order_is_strict_weak(sort: FailureInboxSort)
    ensures
        sorting::strict_weak(group_before(sort)),
{
    let before = group_before(sort);
    let by_text = sorting::text_order();
    sorting::text_order_is_strict_weak();
    assert forall|a: FailureGroupSummary, b: FailureGroupSummary| #[trigger]
        before(a, b) implies !before(b, a) by {
        lemma_text_pair(a.last_seen_at@, b.last_seen_at@);
        lemma_text_pair(a.project_id@, b.project_id@);
        lemma_text_pair(a.group_id@, b.group_id@);
    }
    assert forall|a: FailureGroupSummary, b: FailureGroupSummary, c: FailureGroupSummary|
        !#[trigger] before(a, b) && !#[trigger] before(b, c) implies !before(a, c) by {
        lemma_text_triple(a.last_seen_at@, b.last_seen_at@, c.last_seen_at@);
        lemma_text_triple(a.project_id@, b.project_id@, c.project_id@);
        lemma_text_triple(a.group_id@, b.group_id@, c.group_id@);
    }
}

proof fn lemma_text_pair(a: Seq<char>, b: Seq<char>)
    ensures
        sorting::text_rank(a, b) == Rank::Before <==> sorting::text_rank(b, a) == Rank::After,
        sorting::text_rank(a, b) == Rank::After <==> sorting::text_rank(b, a) == Rank::Before,
        sorting::text_rank(a, b) == Rank::Same <==> a == b,
{
    sorting::text_order_is_total(a, b);
}

proof fn lemma_text_triple(a: Seq<char>, b: Seq<char>, c: Seq<char>)
    ensures
        sorting::text_rank(a, b) == Rank::Before <==> sorting::text_rank(b, a) == Rank::After,
        sorting::text_rank(a, b) == Rank::After <==> sorting::text_rank(b, a) == Rank::Before,
        sorting::text_rank(b, c) == Rank::Before <==> sorting::text_rank(c, b) == Rank::After,
        sorting::text_rank(b, c) == Rank::After <==> sorting::text_rank(c, b) == Rank::Before,
        sorting::text_rank(a, c) == Rank::Before <==> sorting::text_rank(c, a) == Rank::After,
        sorting::text_rank(a, c) == Rank::After <==> sorting::text_rank(c, a) == Rank::Before,
        sorting::text_rank(a, b) == Rank::Same <==> a == b,
        sorting::text_rank(b, c) == Rank::Same <==> b == c,
        sorting::text_rank(a, c) == Rank::Same <==> a == c,
        sorting::text_rank(b, a) == Rank::Same <==> a == b,
        sorting::text_rank(c, b) == Rank::Same <==> b == c,
        sorting::text_rank(c, a) == Rank::Same <==> a == c,
        sorting::text_rank(a, b) == Rank::Before && sorting::text_rank(b, c) == Rank::Before
            ==> sorting::text_rank(a, c) == Rank::Before,
        sorting::text_rank(a, b) == Rank::After && sorting::text_rank(b, c) == Rank::After
            ==> sorting::text_rank(a, c) == Rank::After,
{
    lemma_text_pair(a, b);
    lemma_text_pair(b, c);
    lemma_text_pair(a, c);
    if sorting::text_before(a, b) && sorting::text_before(b, c) {
        sorting::text_order_is_transitive(a, b, c);
    }
    if sorting::text_before(c, b) && sorting::text_before(b, a) {
        sorting::text_order_is_transitive(c, b, a);
    }
}

/// Sorting lists the same groups, in the chosen order.
pub proof fn sorting_groups_is_deterministic(
    sort: FailureInboxSort,
    groups: Seq<FailureGroupSummary>,
)
    ensures
        sorted_groups(sort, groups).to_multiset() == groups.to_multiset(),
        sort != FailureInboxSort::Priority ==> sorting::in_order(
            group_before(sort),
            sorted_groups(sort, groups),
        ),
        sorted_groups(sort, sorted_groups(sort, groups)) == sorted_groups(sort, groups),
{
    if sort != FailureInboxSort::Priority {
        group_order_is_strict_weak(sort);
        sorting::sorting_is_an_ordered_rearrangement(group_before(sort), groups);
        sorting::sorting_keeps_what_is_in_order(group_before(sort), sorted_groups(sort, groups));
    }
}

/// What each order means: along the list, the time of the last occurrence
/// never rises in the most recent order, the number of occurrences never rises
/// in the most frequent one, and the number of findings that are not recovered
/// never rises in the most unresolved one. Groups that agree in that come the
/// latest first, and groups of the same time by project and group.
pub proof fn orders_list_the_highest_first(
    sort: FailureInboxSort,
    groups: Seq<FailureGroupSummary>,
    first: int,
    second: int,
)
    requires
        0 <= first < second < groups.len(),
    ensures
        ({
            let sorted = sorted_groups(sort, groups);
            let (upper, lower) = (sorted[first], sorted[second]);
            let by_time = {
                &&& !sorting::text_before(upper.last_seen_at@, lower.last_seen_at@)
                &&& upper.last_seen_at@ == lower.last_seen_at@ ==> !sorting::text_before(
                    lower.project_id@,
                    upper.project_id@,
                )
                &&& upper.last_seen_at@ == lower.last_seen_at@ && upper.project_id@
                    == lower.project_id@ ==> !sorting::text_before(
                    lower.group_id@,
                    upper.group_id@,
                )
            };
            &&& sorted.len() == groups.len()
            &&& sort == FailureInboxSort::Priority ==> upper == groups[first] && lower
                == groups[second]
            &&& sort == FailureInboxSort::MostRecent ==> by_time
            &&& sort == FailureInboxSort::MostFrequent ==> {
                &&& upper.occurrence_count >= lower.occurrence_count
                &&& upper.occurrence_count == lower.occurrence_count ==> by_time
            }
            &&& sort == FailureInboxSort::MostUnresolved ==> {
                &&& upper.unrecovered_count + upper.unknown_recovery_count
                    >= lower.unrecovered_count + lower.unknown_recovery_count
                &&& upper.unrecovered_count + upper.unknown_recovery_count
                    == lower.unrecovered_count + lower.unknown_recovery_count ==> by_time
            }
        }),
{
    let sorted = sorted_groups(sort, groups);
    if sort != FailureInboxSort::Priority {
        group_order_is_strict_weak(sort);
        sorting::sorting_is_an_ordered_rearrangement(group_before(sort), groups);
        let (upper, lower) = (sorted[first], sorted[second]);
        assert(!group_before(sort)(lower, upper));
        lemma_text_pair(upper.last_seen_at@, lower.last_seen_at@);
        lemma_text_pair(upper.project_id@, lower.project_id@);
        lemma_text_pair(upper.group_id@, lower.group_id@);
        sorting::text_order_is_total(upper.last_seen_at@, lower.last_seen_at@);
        sorting::text_order_is_total(upper.project_id@, lower.project_id@);
        sorting::text_order_is_total(upper.group_id@, lower.group_id@);
    }
}

/// In the most recent order the time of the last occurrence never rises: of
/// two neighbours' times the later listed one is the same, ends first, or has
/// the lower character where they part.
pub proof fn the_most_recent_come_first(groups: Seq<FailureGroupSummary>, first: int, second: int)
    requires
        0 <= first < second < groups.len(),
    ensures
        ({
            let sorted = sorted_groups(FailureInboxSort::MostRecent, groups);
            let (upper, lower) = (sorted[first].last_seen_at@, sorted[second].last_seen_at@);
            lower == upper || exists|place: int| #[trigger] sorting::parts_lower(lower, upper, place)
        }),
{
    orders_list_the_highest_first(FailureInboxSort::MostRecent, groups, first, second);
    let sorted = sorted_groups(FailureInboxSort::MostRecent, groups);
    let (upper, lower) = (sorted[first].last_seen_at@, sorted[second].last_seen_at@);
    sorting::text_order_is_total(lower, upper);
    sorting::text_order_is_lexicographic(lower, upper);
}

/// A captured view holds each filter as it is set, and the order.
pub proof fn captured_views_hold_every_filter(filters: FailureFiltersV1, sort: FailureInboxSort)
    ensures
        ({
            let view = captured_view(filters, sort);
            &&& view.severity == filters.severity
            &&& view.recovery == filters.recovery
            &&& view.detector_id == optional_text(filters.detector_id)
            &&& view.service_name == optional_text(filters.scope.criteria.service_name)
            &&& view.search == optional_text(filters.search)
            &&& view.sort == sort
        }),
{
}

/// The active saved view is the first that holds the same filters and order;
/// there is none where none does.
pub proof fn active_views_hold_the_same(
    saved: Seq<SavedFailureInboxViewV1>,
    view: InboxViewContent,
)
    ensures
        match saved_like(saved, view) {
            Some(id) => exists|i: int|
                {
                    &&& 0 <= i < saved.len()
                    &&& (#[trigger] saved[i]).id == id
                    &&& saved[i].view@ == view
                    &&& forall|j: int| 0 <= j < i ==> (#[trigger] saved[j]).view@ != view
                },
            None => forall|i: int| 0 <= i < saved.len() ==> (#[trigger] saved[i]).view@ != view,
        },
    decreases saved.len(),
{
    if saved.len() > 0 && saved[0].view@ != view {
        let rest = saved.drop_first();
        active_views_hold_the_same(rest, view);
        match saved_like(rest, view) {
            Some(id) => {
                let i = choose|i: int|
                    {
                        &&& 0 <= i < rest.len()
                        &&& (#[trigger] rest[i]).id == id
                        &&& rest[i].view@ == view
                        &&& forall|j: int| 0 <= j < i ==> (#[trigger] rest[j]).view@ != view
                    };
                assert(saved[i + 1] == rest[i]);
                assert forall|j: int| 0 <= j < i + 1 implies (#[trigger] saved[j]).view@
                    != view by {
                    if j > 0 {
                        assert(rest[j - 1] == saved[j]);
                    }
                }
            },
            None => {
                assert forall|i: int| 0 <= i < saved.len() implies (#[trigger] saved[i]).view@
                    != view by {
                    if i > 0 {
                        assert(rest[i - 1] == saved[i]);
                    }
                }
            },
        }
    }
}

/// A view is described by its filters in a fixed order, by all failures without
/// any, and by its order unless that is the priority.
pub proof fn descriptions_name_what_is_set(view: FailureInboxViewV1)
    ensures
        view.severity is None && view.recovery is None && view.detector_id is None
            && view.service_name is None && view.sort == FailureInboxSort::Priority
            ==> view_description(view) == "All failures"@,
        view.severity is Some && view.recovery is None && view.detector_id is None
            && view.service_name is None && view.sort == FailureInboxSort::Priority
            ==> view_description(view) == view.severity->0.name(),
        view_parts(view).len() == (if view.severity is Some {
            1int
        } else {
            0
        }) + (if view.recovery is Some {
            1int
        } else {
            0
        }) + (if view.detector_id is Some {
            1int
        } else {
            0
        }) + (if view.service_name is Some {
            1int
        } else {
            0
        }),
        view.severity is Some ==> view_parts(view)[0] == view.severity->0.name(),
        view.severity is None && view.recovery is Some ==> view_parts(view)[0]
            == view.recovery->0.name(),
        view.severity is Some && view.recovery is Some ==> view_parts(view)[1]
            == view.recovery->0.name(),
        view.service_name is Some ==> view_parts(view).last() == view.service_name->0@,
        view.service_name is None && view.detector_id is Some ==> view_parts(view).last()
            == components::humanized(view.detector_id->0@),
        view.service_name is Some && view.detector_id is Some ==> view_parts(
            view,
        )[view_parts(view).len() - 2] == components::humanized(view.detector_id->0@),
        view_parts(view).len() > 0 && view.sort == FailureInboxSort::Priority ==> view_description(
            view,
        ) == text::joined(view_parts(view), " · "@),
        view_parts(view).len() > 0 && view.sort != FailureInboxSort::Priority ==> view_description(
            view,
        ) == text::joined(view_parts(view), " · "@) + " · "@ + view.sort.name(),
        view_parts(view).len() == 0 && view.sort != FailureInboxSort::Priority ==> view_description(
            view,
        ) == "All failures"@ + " · "@ + view.sort.name(),
{
    let parts = view_parts(view);
    text::separators_stand_between_parts(parts, seq![view.sort.name()], " · "@);
    text::separators_stand_between_parts(seq![view.sort.name()], parts, " · "@);
    assert(parts + seq![view.sort.name()] =~= parts.push(view.sort.name()));
    text::separators_stand_between_parts(
        seq!["All failures"@],
        seq![view.sort.name()],
        " · "@,
    );
    assert(seq!["All failures"@] + seq![view.sort.name()] =~= seq!["All failures"@].push(
        view.sort.name(),
    ));
}

/// Saved views are numbered from one on.
pub proof fn saved_views_are_numbered(sequence: nat)
    ensures
        view_id(sequence) == "failure-view-"@ + text::decimal(sequence),
        first_unused(Seq::empty(), 1),
{
}

/// By priority the groups stand as they were given.
pub proof fn priority_keeps_the_given_order(groups: Seq<FailureGroupSummary>)
    ensures
        sorted_groups(FailureInboxSort::Priority, groups) == groups,
{
}

} // verus!
