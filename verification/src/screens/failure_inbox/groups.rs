//! Loading the list of failure groups.

use super::model::{FailureFiltersV1, FailureGroupSummary};
use super::preferences::{self, sort_groups};
use super::selection::{self, find_group, reconcile_group_identity_state};
use super::state::{self, following_request, FailureInbox, GroupPages, GROUP_PAGE_SIZE};
use vstd::prelude::*;
use vstd::string::*;

verus! {

/// A page of failure groups.
#[derive(Debug)]
pub struct FailureGroupPage {
    pub rows: Vec<FailureGroupSummary>,
    pub total: u64,
}

/// A request for a page of groups.
#[derive(Debug)]
pub struct GroupPageRequest {
    pub generation: u64,
    pub filters: FailureFiltersV1,
    pub offset: u64,
    pub limit: u32,
    /// The group that had the focus.
    pub previous_focus: Option<(String, String)>,
    /// The group at the top of the list.
    pub scroll_anchor: Option<(String, String)>,
}

/// The identities of groups.
pub open spec fn group_identities(groups: Seq<FailureGroupSummary>) -> Seq<(String, String)> {
    groups.map_values(|group: FailureGroupSummary| (group.project_id, group.group_id))
}

/// Another identity of the same group.
pub fn copy_identity(identity: &Option<(String, String)>) -> (copy: Option<(String, String)>)
    ensures
        copy == *identity,
{
    match identity {
        Some(key) => Some((key.0.clone(), key.1.clone())),
        None => None,
    }
}

fn identities_of(groups: &Vec<FailureGroupSummary>) -> (identities: Vec<(String, String)>)
    ensures
        identities@ == group_identities(groups@),
{
    let mut identities: Vec<(String, String)> = Vec::new();
    let mut index: usize = 0;
    while index < groups.len()
        invariant
            index <= groups@.len(),
            identities@ == group_identities(groups@.take(index as int)),
        decreases groups@.len() - index,
    {
        let ghost before = identities@;
        identities.push((groups[index].project_id.clone(), groups[index].group_id.clone()));
        index += 1;
        assert(identities@ =~= group_identities(groups@.take(index as int)));
    }
    assert(groups@.take(index as int) =~= groups@);
    identities
}

/// The group at a place of the list.
pub open spec fn identity_at(groups: Seq<FailureGroupSummary>, place: nat) -> Option<
    (String, String),
> {
    if place < groups.len() {
        Some((groups[place as int].project_id, groups[place as int].group_id))
    } else {
        None
    }
}

/// Where a group that was at the top stands now.
pub open spec fn anchor_place(
    groups: Seq<FailureGroupSummary>,
    anchor: Option<(String, String)>,
) -> Option<int> {
    match anchor {
        Some(key) => selection::place_of_group(groups, selection::key_text(key)),
        None => None,
    }
}

impl FailureInbox {
    /// Asks for the groups anew. The list scrolls to stay with the group at
    /// place `top_index`.
    pub fn reload_groups(&mut self, top_index: usize) -> (request: GroupPageRequest)
        ensures
            *final(self) == (FailureInbox {
                list: GroupPages {
                    loading: true,
                    generation: state::next_request(old(self).list.generation),
                    ..old(self).list
                },
                ..*old(self)
            }),
            request == (GroupPageRequest {
                generation: state::next_request(old(self).list.generation),
                filters: old(self).filters,
                offset: 0,
                limit: GROUP_PAGE_SIZE,
                previous_focus: old(self).selection.focused,
                scroll_anchor: identity_at(old(self).list.groups@, top_index as nat),
            }),
    {
        let scroll_anchor = if top_index < self.list.groups.len() {
            let group = &self.list.groups[top_index];
            Some((group.project_id.clone(), group.group_id.clone()))
        } else {
            None
        };
        self.list.loading = true;
        self.list.generation = following_request(self.list.generation);
        GroupPageRequest {
            generation: self.list.generation,
            filters: self.filters.copy(),
            offset: 0,
            limit: GROUP_PAGE_SIZE,
            previous_focus: copy_identity(&self.selection.focused),
            scroll_anchor,
        }
    }

    /// Takes the groups that were asked for. An answer to an earlier request
    /// changes nothing. The result is where to scroll.
    pub fn finish_reload(
        &mut self,
        request: GroupPageRequest,
        answer: Result<FailureGroupPage, String>,
    ) -> (scroll: Option<usize>)
        requires
            old(self).wf(),
        ensures
            final(self).wf(),
            request.generation != old(self).list.generation ==> *final(self) == *old(self)
                && scroll is None,
            request.generation == old(self).list.generation ==> match answer {
                Err(error) => {
                    &&& *final(self) == (FailureInbox {
                        list: GroupPages { loading: false, ..old(self).list },
                        load_error: Some(error),
                        ..*old(self)
                    })
                    &&& scroll is None
                },
                Ok(page) => {
                    let groups = preferences::sorted_groups(
                        old(self).preferences.current.sort,
                        page.rows@,
                    );
                    let available = group_identities(groups);
                    &&& *final(self) == (FailureInbox {
                        list: final(self).list,
                        selection: final(self).selection,
                        load_error: None,
                        ..*old(self)
                    })
                    &&& final(self).list == (GroupPages {
                        groups: final(self).list.groups,
                        total: page.total,
                        loading: false,
                        generation: old(self).list.generation,
                    })
                    &&& final(self).list.groups@ == groups
                    &&& final(self).selection.focused == selection::still_available(
                        available,
                        request.previous_focus,
                    )
                    &&& final(self).selection@.selected == old(self).selection@.selected.intersect(selection::available_ids(available).to_set())
                    &&& final(self).selection.anchor == selection::still_available(
                        available,
                        old(self).selection.anchor,
                    )
                    &&& scroll is Some <==> anchor_place(groups, request.scroll_anchor) is Some
                    &&& scroll is Some ==> scroll->0 as int == anchor_place(
                        groups,
                        request.scroll_anchor,
                    )->0
                },
            },
    {
        if request.generation != self.list.generation {
            return None;
        }
        self.list.loading = false;
        match answer {
            Err(error) => {
                self.load_error = Some(error);
                None
            },
            Ok(page) => {
                self.list.groups = sort_groups(self.preferences.current.sort, page.rows);
                self.list.total = page.total;
                let available = identities_of(&self.list.groups);
                reconcile_group_identity_state(
                    &available,
                    &mut self.selection.focused,
                    &mut self.selection.selected,
                    &mut self.selection.anchor,
                    request.previous_focus,
                );
                self.load_error = None;
                match &request.scroll_anchor {
                    Some(key) => find_group(&self.list.groups, key.0.as_str(), key.1.as_str()),
                    None => None,
                }
            },
        }
    }

    /// Asks for the groups after those that are listed, where there are any.
    pub fn load_more_groups(&mut self) -> (request: Option<GroupPageRequest>)
        ensures
            old(self).list.groups@.len() >= old(self).list.total ==> request is None
                && *final(self) == *old(self),
            old(self).list.groups@.len() < old(self).list.total ==> {
                &&& *final(self) == (FailureInbox {
                    list: GroupPages {
                        loading: true,
                        generation: state::next_request(old(self).list.generation),
                        ..old(self).list
                    },
                    ..*old(self)
                })
                &&& request == Some(
                    GroupPageRequest {
                        generation: state::next_request(old(self).list.generation),
                        filters: old(self).filters,
                        offset: old(self).list.groups@.len() as u64,
                        limit: GROUP_PAGE_SIZE,
                        previous_focus: None,
                        scroll_anchor: None,
                    },
                )
            },
    {
        let offset: u64 = self.list.groups.len() as u64;
        if offset >= self.list.total {
            return None;
        }
        self.list.loading = true;
        self.list.generation = following_request(self.list.generation);
        Some(
            GroupPageRequest {
                generation: self.list.generation,
                filters: self.filters.copy(),
                offset,
                limit: GROUP_PAGE_SIZE,
                previous_focus: None,
                scroll_anchor: None,
            },
        )
    }

    /// Takes more groups. An answer to an earlier request changes nothing.
    pub fn finish_more(&mut self, generation: u64, answer: Result<FailureGroupPage, String>)
        requires
            old(self).wf(),
        ensures
            final(self).wf(),
            generation != old(self).list.generation ==> *final(self) == *old(self),
            generation == old(self).list.generation ==> match answer {
                Err(error) => *final(self) == (FailureInbox {
                    list: GroupPages { loading: false, ..old(self).list },
                    load_error: Some(error),
                    ..*old(self)
                }),
                Ok(page) => {
                    &&& *final(self) == (FailureInbox {
                        list: final(self).list,
                        load_error: None,
                        ..*old(self)
                    })
                    &&& final(self).list == (GroupPages {
                        groups: final(self).list.groups,
                        total: page.total,
                        loading: false,
                        generation: old(self).list.generation,
                    })
                    &&& final(self).list.groups@ == preferences::sorted_groups(
                        old(self).preferences.current.sort,
                        old(self).list.groups@ + page.rows@,
                    )
                },
            },
    {
        if generation != self.list.generation {
            return;
        }
        self.list.loading = false;
        match answer {
            Err(error) => {
                self.load_error = Some(error);
            },
            Ok(page) => {
                let mut groups: Vec<FailureGroupSummary> = Vec::new();
                let mut rows = page.rows;
                groups.append(&mut self.list.groups);
                groups.append(&mut rows);
                assert(groups@ =~= old(self).list.groups@ + page.rows@);
                self.list.groups = sort_groups(self.preferences.current.sort, groups);
                self.list.total = page.total;
                self.load_error = None;
            },
        }
    }
}

/// An answer to a request that another one followed is dropped.
pub proof fn only_the_latest_answer_counts(generation: u64)
    ensures
        state::next_request(generation) != generation,
        state::next_request(state::next_request(generation)) != generation,
{
}

/// A group is identified by its project and its own identity, at each place.
pub proof fn groups_keep_their_identities(groups: Seq<FailureGroupSummary>, place: nat)
    ensures
        group_identities(groups).len() == groups.len(),
        place < groups.len() ==> group_identities(groups)[place as int] == (
            groups[place as int].project_id,
            groups[place as int].group_id,
        ),
        place < groups.len() ==> identity_at(groups, place) == Some(
            (groups[place as int].project_id, groups[place as int].group_id),
        ),
        place >= groups.len() ==> identity_at(groups, place) is None,
{
}

/// The list is scrolled to the group that was topmost where it is still there.
pub proof fn lists_scroll_to_the_same_group(
    groups: Seq<FailureGroupSummary>,
    anchor: (String, String),
)
    ensures
        anchor_place(groups, None) is None,
        match anchor_place(groups, Some(anchor)) {
            Some(place) => {
                &&& 0 <= place < groups.len()
                &&& groups[place].project_id@ == anchor.0@
                &&& groups[place].group_id@ == anchor.1@
            },
            None => forall|i: int|
                0 <= i < groups.len() ==> (#[trigger] groups[i]).project_id@ != anchor.0@
                    || groups[i].group_id@ != anchor.1@,
        },
{
    selection::groups_are_found_by_project_and_identity(groups, (anchor.0@, anchor.1@));
}

} // verus!
