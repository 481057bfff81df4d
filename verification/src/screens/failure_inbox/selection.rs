//! Focus and selection of failure groups.

use super::model::FailureGroupSummary;
use crate::keyed::{self, KeySet};
use vstd::prelude::*;
use vstd::string::*;

verus! {

/// Whether there is an example before and behind the selected one, among the
/// loaded ones or on another page.
pub fn occurrence_navigation_state(
    offset: u64,
    selected_index: usize,
    loaded_count: usize,
    total_count: u64,
) -> (state: (bool, bool))
    requires
        selected_index < usize::MAX,
        offset + loaded_count <= u64::MAX,
    ensures
        state.0 == (selected_index > 0 || offset > 0),
        state.1 == (selected_index + 1 < loaded_count || offset + loaded_count < total_count),
{
    let previous = selected_index > 0 || offset > 0;
    let next = selected_index + 1 < loaded_count || offset + (loaded_count as u64) < total_count;
    (previous, next)
}

/// The place that is `delta` away, kept within the list; without a place to
/// start from, the end of the list that the direction starts at.
pub open spec fn adjacent(current: Option<usize>, count: nat, delta: int) -> Option<int> {
    if count == 0 {
        None
    } else {
        Some(
            match current {
                Some(current) => if current + delta < 0 {
                    0
                } else if current + delta > count - 1 {
                    count - 1
                } else {
                    current + delta
                },
                None => if delta < 0 {
                    count - 1
                } else {
                    0
                },
            },
        )
    }
}

/// The place that is `delta` away, kept within the list.
pub fn adjacent_group_index(current: Option<usize>, count: usize, delta: isize) -> (next: Option<
    usize,
>)
    ensures
        next is Some <==> count > 0,
        match next {
            Some(next) => Some(next as int) == adjacent(current, count as nat, delta as int),
            None => true,
        },
        next is Some ==> next->0 < count,
{
    if count == 0 {
        return None;
    }
    match current {
        Some(current) => {
            let moved: i128 = current as i128 + delta as i128;
            let last: i128 = count as i128 - 1;
            if moved < 0 {
                Some(0)
            } else if moved > last {
                Some(count - 1)
            } else {
                Some(moved as usize)
            }
        },
        None => if delta < 0 {
            Some(count - 1)
        } else {
            Some(0)
        },
    }
}

/// The lower of two places.
pub open spec fn lower(left: int, right: int) -> int {
    if left < right {
        left
    } else {
        right
    }
}

/// The higher of two places.
pub open spec fn higher(left: int, right: int) -> int {
    if left < right {
        right
    } else {
        left
    }
}

/// The places from one to another, both included, in a list of `count`.
pub open spec fn inclusive_places(anchor: int, target: int, count: nat) -> Seq<usize> {
    let last = if count == 0 {
        0
    } else {
        count - 1
    };
    let first = lower(lower(anchor, target), last);
    let end = lower(higher(anchor, target), last);
    Seq::new((end - first + 1) as nat, |i: int| (first + i) as usize)
}

/// The places from one to another, both included, in a list of `count`.
pub fn inclusive_selection_indices(anchor: usize, target: usize, count: usize) -> (indices: Vec<
    usize,
>)
    ensures
        indices@ == inclusive_places(anchor as int, target as int, count as nat),
{
    let last: usize = count.saturating_sub(1);
    let low: usize = if anchor < target {
        anchor
    } else {
        target
    };
    let high: usize = if anchor < target {
        target
    } else {
        anchor
    };
    let first: usize = if low < last {
        low
    } else {
        last
    };
    let end: usize = if high < last {
        high
    } else {
        last
    };
    let mut indices: Vec<usize> = Vec::new();
    let mut place: usize = first;
    while place < end
        invariant
            first <= place <= end,
            indices@ == Seq::new((place - first) as nat, |i: int| (first + i) as usize),
        decreases end - place,
    {
        indices.push(place);
        place += 1;
        assert(indices@ =~= Seq::new((place - first) as nat, |i: int| (first + i) as usize));
    }
    indices.push(place);
    assert(indices@ =~= inclusive_places(anchor as int, target as int, count as nat));
    indices
}

/// The content of a group identity.
pub open spec fn key_text(key: (String, String)) -> (Seq<char>, Seq<char>) {
    (key.0@, key.1@)
}

/// Whether a group is among the available ones.
pub open spec fn available_key(
    available: Seq<(String, String)>,
    key: (Seq<char>, Seq<char>),
) -> bool {
    exists|i: int| 0 <= i < available.len() && key_text(#[trigger] available[i]) == key
}

/// The group identities without their projects.
pub open spec fn available_ids(available: Seq<(String, String)>) -> Seq<Seq<char>> {
    available.map_values(|key: (String, String)| key.1@)
}

/// A group identity, where it is among the available ones.
pub open spec fn still_available(
    available: Seq<(String, String)>,
    key: Option<(String, String)>,
) -> Option<(String, String)> {
    match key {
        Some(key) => if available_key(available, key_text(key)) {
            Some(key)
        } else {
            None
        },
        None => None,
    }
}

fn is_available(available: &Vec<(String, String)>, key: &(String, String)) -> (found: bool)
    ensures
        found == available_key(available@, key_text(*key)),
{
    let mut index: usize = 0;
    while index < available.len()
        invariant
            index <= available@.len(),
            forall|i: int| 0 <= i < index ==> key_text(#[trigger] available@[i]) != key_text(*key),
        decreases available@.len() - index,
    {
        if available[index].0 == key.0 && available[index].1 == key.1 {
            assert(key_text(available@[index as int]) == key_text(*key));
            return true;
        }
        index += 1;
    }
    false
}

/// Drops from focus, selection and anchor the groups that are not available
/// any more, and keeps the others as they are.
pub fn reconcile_group_identity_state(
    available: &Vec<(String, String)>,
    focused: &mut Option<(String, String)>,
    selected_group_ids: &mut KeySet<String>,
    selection_anchor: &mut Option<(String, String)>,
    previous_focus: Option<(String, String)>,
)
    requires
        old(selected_group_ids).wf(),
    ensures
        *final(focused) == still_available(available@, previous_focus),
        final(selected_group_ids)@ == old(selected_group_ids)@.intersect(
            available_ids(available@).to_set(),
        ),
        final(selected_group_ids).wf(),
        *final(selection_anchor) == still_available(available@, *old(selection_anchor)),
{
    *focused = match previous_focus {
        Some(key) => if is_available(available, &key) {
            Some(key)
        } else {
            None
        },
        None => None,
    };
    let mut ids: Vec<String> = Vec::new();
    let mut index: usize = 0;
    while index < available.len()
        invariant
            index <= available@.len(),
            keyed::identities(ids@) == available_ids(available@).take(index as int),
        decreases available@.len() - index,
    {
        let ghost before = keyed::identities(ids@);
        ids.push(available[index].1.clone());
        index += 1;
        proof {
            assert(keyed::identities(ids@) =~= before.push(available@[index - 1].1@));
            assert(available_ids(available@).take(index as int) =~= available_ids(
                available@,
            ).take(index - 1).push(available_ids(available@)[index - 1]));
        }
    }
    assert(available_ids(available@).take(index as int) =~= available_ids(available@));
    selected_group_ids.retain_among(&ids);
    let kept = match selection_anchor.take() {
        Some(key) => if is_available(available, &key) {
            Some(key)
        } else {
            None
        },
        None => None,
    };
    *selection_anchor = kept;
}

/// The identity of a group.
pub open spec fn group_key(group: FailureGroupSummary) -> (Seq<char>, Seq<char>) {
    (group.project_id@, group.group_id@)
}

/// The first place of a group in a list.
pub open spec fn place_of_group(
    groups: Seq<FailureGroupSummary>,
    key: (Seq<char>, Seq<char>),
) -> Option<int>
    decreases groups.len(),
{
    if groups.len() == 0 {
        None
    } else {
        match place_of_group(groups.drop_last(), key) {
            Some(place) => Some(place),
            None => if group_key(groups.last()) == key {
                Some(groups.len() - 1)
            } else {
                None
            },
        }
    }
}

proof fn lemma_place_of_group(groups: Seq<FailureGroupSummary>, key: (Seq<char>, Seq<char>))
    ensures
        match place_of_group(groups, key) {
            Some(place) => 0 <= place < groups.len() && group_key(groups[place]) == key,
            None => forall|i: int| 0 <= i < groups.len() ==> group_key(#[trigger] groups[i]) != key,
        },
    decreases groups.len(),
{
    if groups.len() > 0 {
        lemma_place_of_group(groups.drop_last(), key);
        if place_of_group(groups.drop_last(), key) is None {
            assert forall|i: int| 0 <= i < groups.len() && group_key(groups.last())
                != key implies group_key(#[trigger] groups[i]) != key by {
                if i < groups.len() - 1 {
                    assert(groups.drop_last()[i] == groups[i]);
                }
            }
        }
    }
}

/// The first place of a group in a list.
pub fn find_group(groups: &Vec<FailureGroupSummary>, project_id: &str, group_id: &str) -> (found:
    Option<usize>)
    ensures
        found is Some <==> place_of_group(groups@, (project_id@, group_id@)) is Some,
        found is Some ==> found->0 < groups@.len() && found->0 as int == place_of_group(
            groups@,
            (project_id@, group_id@),
        )->0 && group_key(groups@[found->0 as int]) == (project_id@, group_id@),
{
    let ghost key = (project_id@, group_id@);
    let mut index: usize = 0;
    let mut found: Option<usize> = None;
    assert(groups@.take(0) =~= Seq::empty());
    while index < groups.len()
        invariant
            index <= groups@.len(),
            key == (project_id@, group_id@),
            match found {
                Some(place) => place_of_group(groups@.take(index as int), key) == Some(
                    place as int,
                ) && place < index,
                None => place_of_group(groups@.take(index as int), key) is None,
            },
        decreases groups@.len() - index,
    {
        proof {
            let now = groups@.take(index + 1);
            assert(now.drop_last() =~= groups@.take(index as int));
            assert(now.last() == groups@[index as int]);
        }
        if found.is_none() && crate::text::same_text(groups[index].project_id.as_str(), project_id)
            && crate::text::same_text(groups[index].group_id.as_str(), group_id) {
            found = Some(index);
        }
        index += 1;
    }
    proof {
        assert(groups@.take(index as int) =~= groups@);
        lemma_place_of_group(groups@, key);
    }
    found
}

/// Which group has the focus, which groups are selected, and where a range
/// selection starts.
#[derive(Debug)]
pub struct GroupSelection {
    pub focused: Option<(String, String)>,
    pub selected: KeySet<String>,
    pub anchor: Option<(String, String)>,
}

/// The model of a group selection.
#[verifier::ext_equal]
pub struct SelectionState {
    pub focused: Option<(Seq<char>, Seq<char>)>,
    pub selected: Set<Seq<char>>,
    pub anchor: Option<(Seq<char>, Seq<char>)>,
}

/// The content of an optional group identity.
pub open spec fn optional_key(key: Option<(String, String)>) -> Option<(Seq<char>, Seq<char>)> {
    match key {
        Some(key) => Some(key_text(key)),
        None => None,
    }
}

impl View for GroupSelection {
    type V = SelectionState;

    open spec fn view(&self) -> SelectionState {
        SelectionState {
            focused: optional_key(self.focused),
            selected: self.selected@,
            anchor: optional_key(self.anchor),
        }
    }
}

/// The identities of the groups at the given places.
pub open spec fn ids_at(groups: Seq<FailureGroupSummary>, places: Seq<usize>) -> Set<Seq<char>> {
    places.map_values(|place: usize| groups[place as int].group_id@).to_set()
}

impl SelectionState {
    /// A group in or out of the selection.
    pub open spec fn flipped(selected: Set<Seq<char>>, group_id: Seq<char>) -> Set<Seq<char>> {
        if selected.contains(group_id) {
            selected.remove(group_id)
        } else {
            selected.insert(group_id)
        }
    }

    /// A click on a group that may be selected: it gets the focus; with shift,
    /// the range from the anchor is selected, in addition with the secondary
    /// modifier; otherwise the group becomes the anchor and, with the
    /// modifier or on its check box, goes in or out of the selection.
    pub open spec fn interact(
        self,
        groups: Seq<FailureGroupSummary>,
        key: (Seq<char>, Seq<char>),
        shift: bool,
        secondary: bool,
        toggles: bool,
        selectable: bool,
    ) -> SelectionState {
        let focused = SelectionState { focused: Some(key), ..self };
        if !selectable {
            focused
        } else if shift {
            let anchor = match self.anchor {
                Some(anchor) => anchor,
                None => key,
            };
            match (place_of_group(groups, anchor), place_of_group(groups, key)) {
                (Some(from), Some(to)) => {
                    let range = ids_at(groups, inclusive_places(from, to, groups.len()));
                    SelectionState {
                        selected: if secondary {
                            self.selected.union(range)
                        } else {
                            range
                        },
                        ..focused
                    }
                },
                _ => focused,
            }
        } else {
            SelectionState {
                anchor: Some(key),
                selected: if secondary || toggles {
                    Self::flipped(self.selected, key.1)
                } else {
                    self.selected
                },
                ..focused
            }
        }
    }

    /// The place to which the focus moves along the list.
    pub open spec fn next_place(self, groups: Seq<FailureGroupSummary>, delta: int) -> Option<int> {
        let current = match self.focused {
            Some(key) => match place_of_group(groups, key) {
                Some(place) => Some(place as usize),
                None => None,
            },
            None => None,
        };
        adjacent(current, groups.len(), delta)
    }

    /// The focus moved along the list.
    pub open spec fn move_focus(
        self,
        groups: Seq<FailureGroupSummary>,
        delta: int,
    ) -> SelectionState {
        match self.next_place(groups, delta) {
            Some(next) => SelectionState { focused: Some(group_key(groups[next])), ..self },
            None => self,
        }
    }

    /// The selection extended along the list; without a focus, the focus moved.
    pub open spec fn extend(
        self,
        groups: Seq<FailureGroupSummary>,
        delta: int,
        selectable: bool,
    ) -> SelectionState {
        match self.focused {
            None => self.move_focus(groups, delta),
            Some(key) => match place_of_group(groups, key) {
                None => self,
                Some(place) => match adjacent(Some(place as usize), groups.len(), delta) {
                    None => self,
                    Some(next) => {
                        let anchored = SelectionState {
                            anchor: match self.anchor {
                                Some(anchor) => Some(anchor),
                                None => Some(key),
                            },
                            ..self
                        };
                        anchored.interact(
                            groups,
                            group_key(groups[next]),
                            true,
                            false,
                            false,
                            selectable,
                        )
                    },
                },
            },
        }
    }

    /// A group in or out of the selection, with the focus and the anchor on it.
    pub open spec fn toggle(self, key: (Seq<char>, Seq<char>)) -> SelectionState {
        SelectionState {
            focused: Some(key),
            selected: Self::flipped(self.selected, key.1),
            anchor: Some(key),
        }
    }
}

fn copy_key_of(key: &(String, String)) -> (copy: (String, String))
    ensures
        copy == *key,
{
    (key.0.clone(), key.1.clone())
}

impl GroupSelection {
    /// No focus and nothing selected.
    pub fn new() -> (selection: Self)
        ensures
            selection@ == (SelectionState {
                focused: None,
                selected: Set::empty(),
                anchor: None,
            }),
            selection.selected.wf(),
    {
        GroupSelection { focused: None, selected: KeySet::new(), anchor: None }
    }

    /// Forgets focus and selection.
    pub fn clear(&mut self)
        ensures
            final(self)@ == (SelectionState {
                focused: None,
                selected: Set::empty(),
                anchor: None,
            }),
            final(self).selected.wf(),
    {
        self.focused = None;
        self.selected.clear();
        self.anchor = None;
    }

    fn flip(&mut self, group_id: &String)
        requires
            old(self).selected.wf(),
        ensures
            final(self)@ == (SelectionState {
                selected: SelectionState::flipped(old(self)@.selected, group_id@),
                ..old(self)@
            }),
            final(self).selected.wf(),
    {
        if !self.selected.remove(group_id) {
            assert(self.selected@ =~= old(self).selected@);
            self.selected.insert(group_id.clone());
        }
    }

    /// Handles a click on a group.
    pub fn interact_with_group(
        &mut self,
        groups: &Vec<FailureGroupSummary>,
        project_id: String,
        group_id: String,
        shift: bool,
        secondary: bool,
        toggle_on_plain_click: bool,
        selectable: bool,
    )
        requires
            old(self).selected.wf(),
        ensures
            final(self)@ == old(self)@.interact(
                groups@,
                (project_id@, group_id@),
                shift,
                secondary,
                toggle_on_plain_click,
                selectable,
            ),
            final(self).selected.wf(),
    {
        let ghost before = self@;
        let ghost key = (project_id@, group_id@);
        self.focused = Some((project_id.clone(), group_id.clone()));
        if !selectable {
            return ;
        }
        if shift {
            let anchor = match &self.anchor {
                Some(anchor) => copy_key_of(anchor),
                None => (project_id.clone(), group_id.clone()),
            };
            let from = find_group(groups, anchor.0.as_str(), anchor.1.as_str());
            let to = find_group(groups, project_id.as_str(), group_id.as_str());
            if let (Some(from), Some(to)) = (from, to) {
                if !secondary {
                    self.selected.clear();
                }
                let places = inclusive_selection_indices(from, to, groups.len());
                let ghost start = self.selected@;
                let ghost ids = places@.map_values(
                    |place: usize| groups@[place as int].group_id@,
                );
                let mut index: usize = 0;
                assert(start.union(ids.take(0).to_set()) =~= start);
                while index < places.len()
                    invariant
                        index <= places@.len(),
                        forall|i: int| 0 <= i < places@.len() ==> places@[i] < groups@.len(),
                        ids == places@.map_values(
                            |place: usize| groups@[place as int].group_id@,
                        ),
                        self.selected.wf(),
                        self.selected@ == start.union(ids.take(index as int).to_set()),
                        optional_key(self.focused) == Some(key),
                        optional_key(self.anchor) == before.anchor,
                    decreases places@.len() - index,
                {
                    proof {
                        keyed::lemma_take_one_more(ids, index as int);
                        assert(ids[index as int] == groups@[places@[index as int] as int].group_id@);
                    }
                    self.selected.insert(groups[places[index]].group_id.clone());
                    index += 1;
                    assert(self.selected@ =~= start.union(ids.take(index as int).to_set()));
                }
                proof {
                    assert(ids.take(index as int) =~= ids);
                    assert(secondary || start.union(ids.to_set()) =~= ids.to_set());
                }
            }
        } else {
            let toggles = secondary || toggle_on_plain_click;
            if toggles {
                self.flip(&group_id);
            }
            self.anchor = Some((project_id, group_id));
        }
    }

    /// Moves the focus along the list; the result is where it went.
    pub fn move_group_focus(&mut self, groups: &Vec<FailureGroupSummary>, delta: isize) -> (moved:
        Option<usize>)
        ensures
            final(self)@ == old(self)@.move_focus(groups@, delta as int),
            moved is Some <==> groups@.len() > 0,
            moved is Some ==> moved->0 < groups@.len() && Some(moved->0 as int) == old(self)@.next_place(groups@, delta as int) && final(self)@.focused == Some(
                group_key(groups@[moved->0 as int]),
            ),
            old(self).selected.wf() ==> final(self).selected.wf(),
    {
        let current = match &self.focused {
            Some(key) => find_group(groups, key.0.as_str(), key.1.as_str()),
            None => None,
        };
        match adjacent_group_index(current, groups.len(), delta) {
            Some(next) => {
                let group = &groups[next];
                self.focused = Some((group.project_id.clone(), group.group_id.clone()));
                Some(next)
            },
            None => None,
        }
    }

    /// Extends the selection along the list; the result is where the focus went.
    pub fn extend_group_selection(
        &mut self,
        groups: &Vec<FailureGroupSummary>,
        delta: isize,
        selectable: bool,
    ) -> (moved: Option<usize>)
        requires
            old(self).selected.wf(),
        ensures
            final(self)@ == old(self)@.extend(groups@, delta as int, selectable),
            final(self).selected.wf(),
            moved is Some <==> groups@.len() > 0 && match old(self)@.focused {
                Some(key) => place_of_group(groups@, key) is Some,
                None => true,
            },
            moved is Some ==> moved->0 < groups@.len() && Some(moved->0 as int) == old(self)@.next_place(groups@, delta as int) && final(self)@.focused == Some(
                group_key(groups@[moved->0 as int]),
            ),
    {
        let focused = match &self.focused {
            Some(key) => copy_key_of(key),
            None => {
                return self.move_group_focus(groups, delta);
            },
        };
        let current = match find_group(groups, focused.0.as_str(), focused.1.as_str()) {
            Some(current) => current,
            None => {
                return None;
            },
        };
        let next = match adjacent_group_index(Some(current), groups.len(), delta) {
            Some(next) => next,
            None => {
                return None;
            },
        };
        if self.anchor.is_none() {
            self.anchor = Some(focused);
        }
        let project_id = groups[next].project_id.clone();
        let group_id = groups[next].group_id.clone();
        self.interact_with_group(groups, project_id, group_id, true, false, false, selectable);
        Some(next)
    }

    /// Takes a group in or out of the selection and puts the focus on it.
    pub fn toggle_group(&mut self, project_id: String, group_id: String)
        requires
            old(self).selected.wf(),
        ensures
            final(self)@ == old(self)@.toggle((project_id@, group_id@)),
            final(self).selected.wf(),
    {
        self.flip(&group_id);
        self.focused = Some((project_id.clone(), group_id.clone()));
        self.anchor = Some((project_id, group_id));
    }

    /// Takes the focused group in or out of the selection, where there is one
    /// and groups may be selected.
    pub fn toggle_focused_group(&mut self, showing_inbox: bool, selectable: bool)
        requires
            old(self).selected.wf(),
        ensures
            final(self)@ == (match old(self)@.focused {
                Some(key) => if showing_inbox && selectable {
                    old(self)@.toggle(key)
                } else {
                    old(self)@
                },
                None => old(self)@,
            }),
            final(self).selected.wf(),
    {
        if !showing_inbox || !selectable {
            return ;
        }
        let focused = match &self.focused {
            Some(key) => copy_key_of(key),
            None => {
                return ;
            },
        };
        self.toggle_group(focused.0, focused.1);
    }

    /// The group to open when exactly one is selected: the first listed one
    /// with its identity.
    pub fn only_selected_group(&self, groups: &Vec<FailureGroupSummary>) -> (place: Option<usize>)
        requires
            self.selected.wf(),
        ensures
            place is Some ==> self@.selected.len() == 1 && place->0 < groups@.len()
                && self@.selected.contains(groups@[place->0 as int].group_id@) && (forall|i: int|
                0 <= i < place->0 ==> !self@.selected.contains((#[trigger] groups@[i]).group_id@)),
            place is None ==> self@.selected.len() != 1 || (forall|i: int|
                0 <= i < groups@.len() ==> !self@.selected.contains(
                    (#[trigger] groups@[i]).group_id@,
                )),
    {
        if self.selected.len() != 1 {
            return None;
        }
        let mut index: usize = 0;
        while index < groups.len()
            invariant
                index <= groups@.len(),
                self.selected@.len() == 1,
                forall|i: int|
                    0 <= i < index ==> !self@.selected.contains((#[trigger] groups@[i]).group_id@),
            decreases groups@.len() - index,
        {
            if self.selected.contains(&groups[index].group_id) {
                return Some(index);
            }
            index += 1;
        }
        None
    }
}

/// Reconciling keeps the focus or drops it, never moves it to another group;
/// drops a selected group only when it is missing; and has no further effect
/// when repeated.
pub proof fn reconciling_never_retargets(
    available: Seq<(String, String)>,
    focus: Option<(String, String)>,
    selected: Set<Seq<char>>,
    group_id: Seq<char>,
)
    ensures
        still_available(available, focus) is None || still_available(available, focus) == focus,
        still_available(available, still_available(available, focus)) == still_available(
            available,
            focus,
        ),
        ({
            let kept = selected.intersect(available_ids(available).to_set());
            &&& kept.contains(group_id) <==> selected.contains(group_id) && available_ids(
                available,
            ).contains(group_id)
            &&& kept.intersect(available_ids(available).to_set()) == kept
        }),
{
    let kept = selected.intersect(available_ids(available).to_set());
    assert(kept.intersect(available_ids(available).to_set()) =~= kept);
}

/// A range selection is the same in both directions, holds both ends when they
/// lie in the list, and stays within the list.
pub proof fn range_selection_is_symmetric(anchor: nat, target: nat, count: nat)
    requires
        count > 0,
        anchor <= usize::MAX,
        target <= usize::MAX,
        count <= usize::MAX,
    ensures
        inclusive_places(anchor as int, target as int, count) == inclusive_places(
            target as int,
            anchor as int,
            count,
        ),
        forall|i: int|
            0 <= i < inclusive_places(anchor as int, target as int, count).len()
                ==> #[trigger] inclusive_places(anchor as int, target as int, count)[i] < count,
        anchor < count && target < count ==> inclusive_places(
            anchor as int,
            target as int,
            count,
        ).contains(anchor as usize) && inclusive_places(
            anchor as int,
            target as int,
            count,
        ).contains(target as usize),
{
    let places = inclusive_places(anchor as int, target as int, count);
    assert(places =~= inclusive_places(target as int, anchor as int, count));
    if anchor < count && target < count {
        let first = lower(anchor as int, target as int);
        assert(places[anchor - first] == anchor as usize);
        assert(places[target - first] == target as usize);
    }
}

/// Keyboard navigation stays within the list and starts at an edge.
pub proof fn keyboard_navigation_is_bounded(current: Option<usize>, count: nat, delta: int)
    requires
        count > 0,
    ensures
        0 <= adjacent(current, count, delta)->0 < count,
        current is None && delta >= 0 ==> adjacent(current, count, delta) == Some(0int),
        current is None && delta < 0 ==> adjacent(current, count, delta) == Some(count - 1),
{
}

/// Taking a group in and out of the selection restores the selection.
pub proof fn toggling_a_group_twice_restores(
    state: SelectionState,
    key: (Seq<char>, Seq<char>),
)
    ensures
        state.toggle(key).toggle(key).selected == state.selected,
{
    assert(state.toggle(key).toggle(key).selected =~= state.selected);
}

/// A step goes as far as asked, but not past either end of the list.
pub proof fn steps_go_as_far_as_asked(current: usize, count: nat, delta: int)
    ensures
        adjacent(Some(current), 0, delta) is None,
        adjacent(None, 0, delta) is None,
        0 <= current + delta < count ==> adjacent(Some(current), count, delta) == Some(
            current + delta,
        ),
        count > 0 && current + delta >= count ==> adjacent(Some(current), count, delta) == Some(
            count - 1,
        ),
        count > 0 && current + delta < 0 ==> adjacent(Some(current), count, delta) == Some(0int),
{
}

/// A range holds every place from the lower end up to the higher one, in order,
/// and no other.
pub proof fn ranges_hold_every_place_between(anchor: nat, target: nat, count: nat)
    requires
        anchor < count,
        target < count,
        count <= usize::MAX,
    ensures
        anchor <= target ==> {
            &&& inclusive_places(anchor as int, target as int, count).len() == target - anchor + 1
            &&& forall|i: int|
                0 <= i <= target - anchor ==> #[trigger] inclusive_places(
                    anchor as int,
                    target as int,
                    count,
                )[i] == anchor + i
        },
        target <= anchor ==> {
            &&& inclusive_places(anchor as int, target as int, count).len() == anchor - target + 1
            &&& forall|i: int|
                0 <= i <= anchor - target ==> #[trigger] inclusive_places(
                    anchor as int,
                    target as int,
                    count,
                )[i] == target + i
        },
{
}

/// A group is found at the first place that has its project and identity, and
/// nowhere where none has both.
pub proof fn groups_are_found_by_project_and_identity(
    groups: Seq<FailureGroupSummary>,
    key: (Seq<char>, Seq<char>),
)
    ensures
        match place_of_group(groups, key) {
            Some(place) => {
                &&& 0 <= place < groups.len()
                &&& groups[place].project_id@ == key.0
                &&& groups[place].group_id@ == key.1
                &&& forall|i: int|
                    0 <= i < place ==> (#[trigger] groups[i]).project_id@ != key.0
                        || groups[i].group_id@ != key.1
            },
            None => forall|i: int|
                0 <= i < groups.len() ==> (#[trigger] groups[i]).project_id@ != key.0
                    || groups[i].group_id@ != key.1,
        },
    decreases groups.len(),
{
    if groups.len() > 0 {
        let shorter = groups.drop_last();
        groups_are_found_by_project_and_identity(shorter, key);
        let end = match place_of_group(shorter, key) {
            Some(place) => place,
            None => shorter.len() as int,
        };
        assert forall|i: int| 0 <= i < end implies (#[trigger] groups[i]).project_id@ != key.0
            || groups[i].group_id@ != key.1 by {
            assert(shorter[i] == groups[i]);
        }
        if place_of_group(shorter, key) is None {
            assert forall|i: int| 0 <= i < groups.len() && group_key(groups.last())
                != key implies (#[trigger] groups[i]).project_id@ != key.0 || groups[i].group_id@
                != key.1 by {
                if i < shorter.len() {
                    assert(shorter[i] == groups[i]);
                }
            }
        }
    }
}

/// Whether a place lies between two places, or is one of them.
pub open spec fn between(place: int, one: int, other: int) -> bool {
    one <= place <= other || other <= place <= one
}

proof fn lemma_range_ids(groups: Seq<FailureGroupSummary>, from: int, to: int, id: Seq<char>)
    requires
        0 <= from < groups.len() <= usize::MAX,
        0 <= to < groups.len(),
    ensures
        ids_at(groups, inclusive_places(from, to, groups.len())).contains(id) <==> exists|i: int|
            between(i, from, to) && (#[trigger] groups[i]).group_id@ == id,
{
    let places = inclusive_places(from, to, groups.len());
    ranges_hold_every_place_between(from as nat, to as nat, groups.len());
    let ids = places.map_values(|place: usize| groups[place as int].group_id@);
    let first = if from <= to {
        from
    } else {
        to
    };
    if ids.to_set().contains(id) {
        let k = choose|k: int| 0 <= k < ids.len() && ids[k] == id;
        assert(places[k] == first + k);
        assert(between(first + k, from, to) && groups[first + k].group_id@ == id);
    }
    if exists|i: int| between(i, from, to) && (#[trigger] groups[i]).group_id@ == id {
        let i = choose|i: int| between(i, from, to) && (#[trigger] groups[i]).group_id@ == id;
        assert(places[i - first] == i);
        assert(ids[i - first] == id);
    }
}

/// A group that is interacted with gets the focus. Where groups cannot be
/// selected that is all; a plain click moves the anchor, a toggling one also
/// flips the group and no other, and one with shift selects the groups from the
/// anchor to it, besides those that were selected only with the second key.
pub proof fn clicks_select_as_their_keys_say(
    state: SelectionState,
    groups: Seq<FailureGroupSummary>,
    key: (Seq<char>, Seq<char>),
    secondary: bool,
    toggles: bool,
    id: Seq<char>,
)
    requires
        groups.len() <= usize::MAX,
    ensures
        forall|shift: bool, selectable: bool|
            (#[trigger] state.interact(groups, key, shift, secondary, toggles, selectable)).focused
                == Some(key),
        forall|shift: bool|
            {
                let after = #[trigger] state.interact(groups, key, shift, secondary, toggles, false);
                after.selected == state.selected && after.anchor == state.anchor
            },
        state.interact(groups, key, false, secondary, toggles, true).anchor == Some(key),
        state.interact(groups, key, false, false, false, true).selected == state.selected,
        secondary || toggles ==> (state.interact(
            groups,
            key,
            false,
            secondary,
            toggles,
            true,
        ).selected.contains(id) <==> (state.selected.contains(id) != (id == key.1))),
        state.interact(groups, key, true, secondary, toggles, true).anchor == state.anchor,
        ({
            let anchor = match state.anchor {
                Some(anchor) => anchor,
                None => key,
            };
            let after = state.interact(groups, key, true, secondary, toggles, true).selected;
            match (place_of_group(groups, anchor), place_of_group(groups, key)) {
                (Some(from), Some(to)) => after.contains(id) <==> {
                    ||| secondary && state.selected.contains(id)
                    ||| exists|i: int|
                        between(i, from, to) && (#[trigger] groups[i]).group_id@ == id
                },
                _ => after == state.selected,
            }
        }),
{
    let anchor = match state.anchor {
        Some(anchor) => anchor,
        None => key,
    };
    groups_are_found_by_project_and_identity(groups, anchor);
    groups_are_found_by_project_and_identity(groups, key);
    match (place_of_group(groups, anchor), place_of_group(groups, key)) {
        (Some(from), Some(to)) => lemma_range_ids(groups, from, to, id),
        _ => {},
    }
}

/// Moving the focus changes neither what is selected nor the anchor, and goes
/// to the group at the next place.
pub proof fn moving_the_focus_selects_nothing(
    state: SelectionState,
    groups: Seq<FailureGroupSummary>,
    delta: int,
)
    requires
        groups.len() <= usize::MAX,
    ensures
        state.move_focus(groups, delta).selected == state.selected,
        state.move_focus(groups, delta).anchor == state.anchor,
        groups.len() == 0 ==> state.move_focus(groups, delta) == state,
        groups.len() > 0 && state.focused is None ==> state.move_focus(groups, delta).focused
            == Some(
            if delta < 0 {
                (groups.last().project_id@, groups.last().group_id@)
            } else {
                (groups[0].project_id@, groups[0].group_id@)
            },
        ),
        state.focused is Some ==> match place_of_group(groups, state.focused->0) {
            Some(place) => 0 <= place + delta < groups.len() ==> state.move_focus(
                groups,
                delta,
            ).focused == Some(
                (groups[place + delta].project_id@, groups[place + delta].group_id@),
            ),
            None => true,
        },
{
    if state.focused is Some {
        groups_are_found_by_project_and_identity(groups, state.focused->0);
    }
}

/// Extending the selection moves the focus and selects all groups from the
/// anchor, or from the group that was focused, to the newly focused one.
pub proof fn extending_selects_from_the_anchor(
    state: SelectionState,
    groups: Seq<FailureGroupSummary>,
    delta: int,
    id: Seq<char>,
)
    requires
        groups.len() <= usize::MAX,
        state.focused is Some,
        place_of_group(groups, state.focused->0) is Some,
        0 <= place_of_group(groups, state.focused->0)->0 + delta < groups.len(),
    ensures
        ({
            let next = place_of_group(groups, state.focused->0)->0 + delta;
            let target = (groups[next].project_id@, groups[next].group_id@);
            let anchor = match state.anchor {
                Some(anchor) => anchor,
                None => state.focused->0,
            };
            let after = state.extend(groups, delta, true);
            &&& after.focused == Some(target)
            &&& after.anchor == Some(anchor)
            &&& match (place_of_group(groups, anchor), place_of_group(groups, target)) {
                (Some(from), Some(to)) => after.selected.contains(id) <==> exists|i: int|
                    between(i, from, to) && (#[trigger] groups[i]).group_id@ == id,
                _ => after.selected == state.selected,
            }
            &&& state.extend(groups, delta, false).selected == state.selected
        }),
{
    groups_are_found_by_project_and_identity(groups, state.focused->0);
    let next = place_of_group(groups, state.focused->0)->0 + delta;
    let target = (groups[next].project_id@, groups[next].group_id@);
    let anchored = SelectionState {
        anchor: match state.anchor {
            Some(anchor) => Some(anchor),
            None => state.focused,
        },
        ..state
    };
    clicks_select_as_their_keys_say(anchored, groups, target, false, false, id);
}

/// Toggling a group focuses it, anchors there and flips it and no other.
pub proof fn toggling_flips_one_group(
    state: SelectionState,
    key: (Seq<char>, Seq<char>),
    id: Seq<char>,
)
    ensures
        state.toggle(key).focused == Some(key),
        state.toggle(key).anchor == Some(key),
        state.toggle(key).selected.contains(id) <==> (state.selected.contains(id) != (id == key.1)),
{
}

/// What is focused stays so exactly where its project and identity are still
/// listed.
pub proof fn focus_stays_while_listed(
    available: Seq<(String, String)>,
    key: (String, String),
    place: int,
)
    ensures
        still_available(available, None) is None,
        0 <= place < available.len() && available[place].0@ == key.0@ && available[place].1@
            == key.1@ ==> still_available(available, Some(key)) == Some(key),
        (forall|i: int|
            0 <= i < available.len() ==> (#[trigger] available[i]).0@ != key.0@ || available[i].1@
                != key.1@) ==> still_available(available, Some(key)) is None,
        available_ids(available).len() == available.len(),
        0 <= place < available.len() ==> available_ids(available)[place] == available[place].1@,
{
    if 0 <= place < available.len() && available[place].0@ == key.0@ && available[place].1@
        == key.1@ {
        assert(key_text(available[place]) == key_text(key));
    }
}

} // verus!
