//! Filtering and ordering the list of groups.

use super::components::{self, humanize};
use super::groups::{self, GroupPageRequest};
use super::model::{
    optional_text, same_optional, FailureFiltersV1, FailureInboxPreferencesV1,
    FailureInboxSort, FindingSeverity, QueryScopeCriteriaV1, QueryScopeV1, RecoveryStatus,
};
use super::preferences::{self, apply_view};
use super::state::{
    self, following_request, FailureInbox, FailureInboxEvent, GroupPages, InboxFilterMenu,
    GROUP_PAGE_SIZE,
};
use crate::text::{self, concat2, same_text, trim};
use vstd::prelude::*;
use vstd::string::*;

verus! {

/// How long a search waits for another edit.
pub const SEARCH_MILLISECONDS: u64 = 220;

/// What follows from other filters: the groups are asked for again, and the
/// workbench is told of the view.
#[derive(Debug)]
pub struct FilterChange {
    pub request: GroupPageRequest,
    pub event: FailureInboxEvent,
}

/// An entry of a menu.
#[derive(Debug)]
pub struct MenuOption {
    pub label: String,
    pub active: bool,
}

/// The content of an entry of a menu.
pub struct OptionContent {
    pub label: Seq<char>,
    pub active: bool,
}

impl View for MenuOption {
    type V = OptionContent;

    open spec fn view(&self) -> OptionContent {
        OptionContent { label: self.label@, active: self.active }
    }
}

/// The content of a menu.
pub open spec fn menu(options: Seq<MenuOption>) -> Seq<OptionContent> {
    options.map_values(|option: MenuOption| option@)
}

/// Filters for another service.
pub open spec fn with_service(filters: FailureFiltersV1, service_name: Option<String>) -> FailureFiltersV1 {
    FailureFiltersV1 {
        scope: QueryScopeV1 {
            criteria: QueryScopeCriteriaV1 { service_name, ..filters.scope.criteria },
        },
        ..filters
    }
}

/// What reports the preferences of an inbox, with the scope that it shows.
pub open spec fn reports(event: FailureInboxEvent, inbox: FailureInbox) -> bool {
    match event {
        FailureInboxEvent::PreferencesChanged { scope, preferences } => {
            &&& scope == inbox.query_scope
            &&& preferences.holds_same(inbox.preferences)
        },
        _ => false,
    }
}

/// What follows when the filters are those of `before`: the groups are asked
/// for with these filters, and the current view is that of the filters.
pub open spec fn refiltered(
    before: FailureInbox,
    after: FailureInbox,
    top_index: nat,
    change: FilterChange,
) -> bool {
    let view = preferences::captured_view(before.filters, before.preferences.current.sort);
    &&& after == (FailureInbox {
        list: GroupPages {
            loading: true,
            generation: state::next_request(before.list.generation),
            ..before.list
        },
        preferences: after.preferences,
        ..before
    })
    &&& after.preferences.current@ == view
    &&& after.preferences.saved == before.preferences.saved
    &&& after.preferences.active_saved_view_id == preferences::saved_like(
        before.preferences.saved@,
        view,
    )
    &&& change.request == reload_request(before, top_index)
    &&& reports(change.event, after)
}

/// The request that asks for the groups anew.
pub open spec fn reload_request(inbox: FailureInbox, top_index: nat) -> GroupPageRequest {
    GroupPageRequest {
        generation: state::next_request(inbox.list.generation),
        filters: inbox.filters,
        offset: 0,
        limit: GROUP_PAGE_SIZE,
        previous_focus: inbox.selection.focused,
        scroll_anchor: groups::identity_at(inbox.list.groups@, top_index),
    }
}

/// The search that a text means: what is left of it without the white space
/// at its ends, if anything.
pub open spec fn search_of(entered: Seq<char>) -> Option<Seq<char>> {
    if text::trimmed(entered).len() == 0 {
        None
    } else {
        Some(text::trimmed(entered))
    }
}

fn count_if(active: bool) -> (count: usize)
    ensures
        count == (if active {
            1usize
        } else {
            0usize
        }),
{
    if active {
        1
    } else {
        0
    }
}

/// How many of the six filters are set.
pub open spec fn set_filters(filters: FailureFiltersV1) -> nat {
    (if filters.severity is Some {
        1nat
    } else {
        0nat
    }) + (if filters.recovery is Some {
        1nat
    } else {
        0nat
    }) + (if filters.detector_id is Some {
        1nat
    } else {
        0nat
    }) + (if filters.include_fully_dismissed {
        1nat
    } else {
        0nat
    }) + (if filters.scope.criteria.service_name is Some {
        1nat
    } else {
        0nat
    }) + (if filters.search is Some {
        1nat
    } else {
        0nat
    })
}

impl FailureInbox {
    /// What the workbench is told of the preferences.
    pub fn preferences_event(&self) -> (event: FailureInboxEvent)
        ensures
            reports(event, *self),
    {
        FailureInboxEvent::PreferencesChanged {
            scope: self.query_scope.copy(),
            preferences: self.preferences.copy(),
        }
    }

    fn filters_changed(&mut self, top_index: usize) -> (change: FilterChange)
        ensures
            refiltered(*old(self), *final(self), top_index as nat, change),
    {
        let request = self.reload_groups(top_index);
        self.preferences.commit_current_view(&self.filters);
        let event = self.preferences_event();
        FilterChange { request, event }
    }

    /// Opens a menu, or closes it where it is open.
    pub fn toggle_filter_menu(&mut self, menu: InboxFilterMenu)
        ensures
            *final(self) == (FailureInbox {
                open_filter_menu: if old(self).open_filter_menu == Some(menu) {
                    None
                } else {
                    Some(menu)
                },
                ..*old(self)
            }),
    {
        let open = match self.open_filter_menu {
            Some(open) => open == menu,
            None => false,
        };
        self.open_filter_menu = if open {
            None
        } else {
            Some(menu)
        };
    }

    /// Lists groups of a severity.
    pub fn select_severity(&mut self, value: Option<FindingSeverity>, top_index: usize) -> (change:
        FilterChange)
        ensures
            refiltered(
                FailureInbox {
                    filters: FailureFiltersV1 { severity: value, ..old(self).filters },
                    open_filter_menu: Some(InboxFilterMenu::Filters),
                    ..*old(self)
                },
                *final(self),
                top_index as nat,
                change,
            ),
    {
        self.filters.severity = value;
        self.open_filter_menu = Some(InboxFilterMenu::Filters);
        self.filters_changed(top_index)
    }

    /// Lists groups of a recovery status.
    pub fn select_recovery(&mut self, value: Option<RecoveryStatus>, top_index: usize) -> (change:
        FilterChange)
        ensures
            refiltered(
                FailureInbox {
                    filters: FailureFiltersV1 { recovery: value, ..old(self).filters },
                    open_filter_menu: Some(InboxFilterMenu::Filters),
                    ..*old(self)
                },
                *final(self),
                top_index as nat,
                change,
            ),
    {
        self.filters.recovery = value;
        self.open_filter_menu = Some(InboxFilterMenu::Filters);
        self.filters_changed(top_index)
    }

    /// Lists groups whose findings are all dismissed, or leaves them out.
    pub fn toggle_fully_dismissed(&mut self, top_index: usize) -> (change: FilterChange)
        ensures
            refiltered(
                FailureInbox {
                    filters: FailureFiltersV1 {
                        include_fully_dismissed: !old(self).filters.include_fully_dismissed,
                        ..old(self).filters
                    },
                    open_filter_menu: Some(InboxFilterMenu::Filters),
                    ..*old(self)
                },
                *final(self),
                top_index as nat,
                change,
            ),
    {
        self.filters.include_fully_dismissed = !self.filters.include_fully_dismissed;
        self.open_filter_menu = Some(InboxFilterMenu::Filters);
        self.filters_changed(top_index)
    }

    /// Lists groups of a detector.
    pub fn select_detector(&mut self, value: Option<String>, top_index: usize) -> (change:
        FilterChange)
        ensures
            refiltered(
                FailureInbox {
                    filters: FailureFiltersV1 { detector_id: value, ..old(self).filters },
                    open_filter_menu: Some(InboxFilterMenu::Filters),
                    ..*old(self)
                },
                *final(self),
                top_index as nat,
                change,
            ),
    {
        self.filters.detector_id = value;
        self.open_filter_menu = Some(InboxFilterMenu::Filters);
        self.filters_changed(top_index)
    }

    /// Lists groups of a service.
    pub fn select_service(&mut self, value: Option<String>, top_index: usize) -> (change:
        FilterChange)
        ensures
            refiltered(
                FailureInbox {
                    filters: with_service(old(self).filters, value),
                    open_filter_menu: Some(InboxFilterMenu::Filters),
                    ..*old(self)
                },
                *final(self),
                top_index as nat,
                change,
            ),
    {
        let mut criteria = self.filters.scope.criteria.copy();
        criteria.service_name = value;
        self.filters.scope = QueryScopeV1::new(criteria);
        self.open_filter_menu = Some(InboxFilterMenu::Filters);
        self.filters_changed(top_index)
    }

    /// Lists groups that match the entered search, unless they are listed
    /// already.
    pub fn apply_search(&mut self, top_index: usize) -> (change: Option<FilterChange>)
        ensures
            optional_text(old(self).filters.search) == search_of(old(self).search@.text) ==> {
                &&& change is None
                &&& *final(self) == *old(self)
            },
            optional_text(old(self).filters.search) != search_of(old(self).search@.text) ==> {
                &&& change is Some
                &&& optional_text(final(self).filters.search) == search_of(
                    old(self).search@.text,
                )
                &&& refiltered(
                    FailureInbox {
                        filters: FailureFiltersV1 {
                            search: final(self).filters.search,
                            ..old(self).filters
                        },
                        ..*old(self)
                    },
                    *final(self),
                    top_index as nat,
                    change->0,
                )
            },
    {
        let value = trim(self.search.text());
        let search = if value.as_str().is_empty() {
            None
        } else {
            Some(value)
        };
        if same_optional(&self.filters.search, &search) {
            return None;
        }
        self.filters.search = search;
        Some(self.filters_changed(top_index))
    }

    /// Counts an edit of the search; the search is applied when no other edit
    /// follows in time.
    pub fn schedule_search(&mut self) -> (generation: u64)
        ensures
            generation == state::next_request(old(self).search_generation),
            *final(self) == (FailureInbox { search_generation: generation, ..*old(self) }),
    {
        self.search_generation = following_request(self.search_generation);
        self.search_generation
    }

    /// Applies the search, unless another edit followed.
    pub fn finish_search(&mut self, generation: u64, top_index: usize) -> (change: Option<
        FilterChange,
    >)
        ensures
            generation != old(self).search_generation || optional_text(old(self).filters.search)
                == search_of(old(self).search@.text) ==> change is None && *final(self) == *old(self),
            generation == old(self).search_generation && optional_text(old(self).filters.search)
                != search_of(old(self).search@.text) ==> {
                &&& change is Some
                &&& optional_text(final(self).filters.search) == search_of(
                    old(self).search@.text,
                )
                &&& refiltered(
                    FailureInbox {
                        filters: FailureFiltersV1 {
                            search: final(self).filters.search,
                            ..old(self).filters
                        },
                        ..*old(self)
                    },
                    *final(self),
                    top_index as nat,
                    change->0,
                )
            },
    {
        if self.search_generation == generation {
            self.apply_search(top_index)
        } else {
            None
        }
    }

    /// Lists all groups again.
    pub fn clear_filters(&mut self, top_index: usize) -> (change: FilterChange)
        ensures
            final(self).search.retyped(old(self).search, Seq::empty()),
            refiltered(
                FailureInbox {
                    filters: with_service(
                        FailureFiltersV1 {
                            severity: None,
                            recovery: None,
                            detector_id: None,
                            search: None,
                            include_fully_dismissed: false,
                            ..old(self).filters
                        },
                        None,
                    ),
                    search: final(self).search,
                    open_filter_menu: None,
                    ..*old(self)
                },
                *final(self),
                top_index as nat,
                change,
            ),
    {
        self.filters.severity = None;
        self.filters.recovery = None;
        self.filters.detector_id = None;
        self.filters.include_fully_dismissed = false;
        let mut criteria = self.filters.scope.criteria.copy();
        criteria.service_name = None;
        self.filters.scope = QueryScopeV1::new(criteria);
        self.filters.search = None;
        self.search.set_text("");
        proof {
            reveal_strlit("");
            assert(""@ =~= Seq::<char>::empty());
        }
        self.open_filter_menu = None;
        self.filters_changed(top_index)
    }

    /// Whether any filter is set.
    pub fn has_active_group_filters(&self) -> (active: bool)
        ensures
            active == (set_filters(self.filters) > 0),
    {
        self.filters.severity.is_some() || self.filters.recovery.is_some()
            || self.filters.detector_id.is_some() || self.filters.include_fully_dismissed
            || self.filters.scope.criteria.service_name.is_some() || self.filters.search.is_some()
    }

    /// How many filters are set.
    pub fn active_group_filter_count(&self) -> (count: usize)
        ensures
            count == set_filters(self.filters),
    {
        count_if(self.filters.severity.is_some()) + count_if(self.filters.recovery.is_some())
            + count_if(self.filters.detector_id.is_some()) + count_if(
            self.filters.include_fully_dismissed,
        ) + count_if(self.filters.scope.criteria.service_name.is_some()) + count_if(
            self.filters.search.is_some(),
        )
    }

    /// Orders the list otherwise.
    pub fn select_sort(&mut self, sort: FailureInboxSort, top_index: usize) -> (change:
        FilterChange)
        ensures
            refiltered(
                FailureInbox {
                    preferences: FailureInboxPreferencesV1 {
                        current: super::model::FailureInboxViewV1 {
                            sort,
                            ..old(self).preferences.current
                        },
                        ..old(self).preferences
                    },
                    open_filter_menu: None,
                    ..*old(self)
                },
                *final(self),
                top_index as nat,
                change,
            ),
    {
        self.preferences.current.sort = sort;
        self.open_filter_menu = None;
        self.filters_changed(top_index)
    }

    /// Saves the current view.
    pub fn save_current_view(&mut self) -> (event: FailureInboxEvent)
        requires
            old(self).preferences.saved@.len() < u64::MAX,
        ensures
            *final(self) == (FailureInbox {
                preferences: final(self).preferences,
                open_filter_menu: None,
                ..*old(self)
            }),
            final(self).preferences.current@ == preferences::captured_view(
                old(self).filters,
                old(self).preferences.current.sort,
            ),
            preferences::saved_like(
                old(self).preferences.saved@,
                final(self).preferences.current@,
            ) is Some ==> final(self).preferences.saved == old(self).preferences.saved
                && final(self).preferences.active_saved_view_id == preferences::saved_like(
                old(self).preferences.saved@,
                final(self).preferences.current@,
            ),
            preferences::saved_like(
                old(self).preferences.saved@,
                final(self).preferences.current@,
            ) is None ==> {
                &&& final(self).preferences.saved@.len() == old(self).preferences.saved@.len() + 1
                &&& final(self).preferences.saved@.drop_last() == old(self).preferences.saved@
                &&& final(self).preferences.saved@.last().view == final(self).preferences.current
                &&& final(self).preferences.saved@.last().name@ == preferences::view_description(
                    final(self).preferences.current,
                )
                &&& exists|sequence: nat|
                    final(self).preferences.saved@.last().id@ == preferences::view_id(sequence)
                        && #[trigger] preferences::first_unused(
                        old(self).preferences.saved@,
                        sequence,
                    )
                &&& final(self).preferences.active_saved_view_id == Some(
                    final(self).preferences.saved@.last().id,
                )
            },
            reports(event, *final(self)),
    {
        self.preferences.save_current_view(&self.filters);
        self.open_filter_menu = None;
        self.preferences_event()
    }

    /// Makes the filters and the search those of the current view, and asks
    /// for the groups.
    fn apply_current_view(&mut self, top_index: usize) -> (request: GroupPageRequest)
        ensures
            applied(*old(self), *final(self), top_index as nat, request),
    {
        apply_view(&mut self.filters, &self.preferences.current);
        match &self.preferences.current.search {
            Some(search) => {
                self.search.set_text(search.as_str());
            },
            None => {
                proof {
                    reveal_strlit("");
                    assert(""@ =~= Seq::<char>::empty());
                }
                self.search.set_text("");
            },
        }
        self.reload_groups(top_index)
    }

    /// Takes other preferences over.
    pub fn set_preferences(&mut self, kept: FailureInboxPreferencesV1, top_index: usize) -> (request:
        Option<GroupPageRequest>)
        ensures
            old(self).preferences.shows_same(kept) ==> request is None && *final(self) == *old(self),
            !old(self).preferences.shows_same(kept) ==> request is Some && applied(
                FailureInbox { preferences: kept, ..*old(self) },
                *final(self),
                top_index as nat,
                request->0,
            ),
    {
        if self.preferences.same(&kept) {
            return None;
        }
        self.preferences = kept;
        Some(self.apply_current_view(top_index))
    }

    /// Shows a saved view, where there is one with the identity.
    pub fn activate_saved_view(&mut self, id: String, top_index: usize) -> (change: Option<
        FilterChange,
    >)
        ensures
            !preferences::saved_ids(old(self).preferences.saved@).contains(id@) ==> change is None
                && *final(self) == *old(self),
            preferences::saved_ids(old(self).preferences.saved@).contains(id@) ==> {
                &&& change is Some
                &&& final(self).preferences.active_saved_view_id == Some(id)
                &&& final(self).preferences.saved == old(self).preferences.saved
                &&& exists|i: int|
                    0 <= i < old(self).preferences.saved@.len() && (#[trigger] old(self).preferences.saved@[i]).id@ == id@ && final(self).preferences.current == old(self).preferences.saved@[i].view && (forall|j: int|
                        0 <= j < i ==> (#[trigger] old(self).preferences.saved@[j]).id@ != id@)
                &&& applied(
                    FailureInbox {
                        preferences: final(self).preferences,
                        open_filter_menu: None,
                        ..*old(self)
                    },
                    *final(self),
                    top_index as nat,
                    change->0.request,
                )
                &&& reports(change->0.event, *final(self))
            },
    {
        if !self.preferences.activate_saved_view(id) {
            return None;
        }
        self.open_filter_menu = None;
        let request = self.apply_current_view(top_index);
        let event = self.preferences_event();
        Some(FilterChange { request, event })
    }

    /// Removes a saved view.
    pub fn remove_saved_view(&mut self, id: &str) -> (event: FailureInboxEvent)
        ensures
            *final(self) == (FailureInbox { preferences: final(self).preferences, ..*old(self) }),
            final(self).preferences.saved@ == old(self).preferences.saved@.filter(
                |view: super::model::SavedFailureInboxViewV1| view.id@ != id@,
            ),
            final(self).preferences.current == old(self).preferences.current,
            optional_text(old(self).preferences.active_saved_view_id) == Some(id@) ==> final(self).preferences.active_saved_view_id is None,
            optional_text(old(self).preferences.active_saved_view_id) != Some(id@) ==> final(self).preferences.active_saved_view_id == old(self).preferences.active_saved_view_id,
            reports(event, *final(self)),
    {
        self.preferences.remove_saved_view(id);
        self.preferences_event()
    }

    /// The severities to choose from.
    pub fn severity_options(&self) -> (options: Vec<MenuOption>)
        ensures
            menu(options@) == severity_menu(self.filters.severity),
    {
        let chosen = self.filters.severity;
        let mut options: Vec<MenuOption> = Vec::new();
        options.push(MenuOption { label: "All".to_owned(), active: chosen.is_none() });
        options.push(severity_option(chosen, FindingSeverity::Critical));
        options.push(severity_option(chosen, FindingSeverity::High));
        options.push(severity_option(chosen, FindingSeverity::Medium));
        options.push(severity_option(chosen, FindingSeverity::Low));
        options.push(severity_option(chosen, FindingSeverity::Info));
        assert(menu(options@) =~= severity_menu(chosen));
        options
    }

    /// The recovery statuses to choose from.
    pub fn recovery_options(&self) -> (options: Vec<MenuOption>)
        ensures
            menu(options@) == recovery_menu(self.filters.recovery),
    {
        let chosen = self.filters.recovery;
        let mut options: Vec<MenuOption> = Vec::new();
        options.push(MenuOption { label: "All".to_owned(), active: chosen.is_none() });
        options.push(recovery_option(chosen, RecoveryStatus::Unrecovered));
        options.push(recovery_option(chosen, RecoveryStatus::Unknown));
        options.push(recovery_option(chosen, RecoveryStatus::Recovered));
        assert(menu(options@) =~= recovery_menu(chosen));
        options
    }

    /// The detectors to choose from, by their names in words.
    pub fn detector_menu_options(&self) -> (options: Vec<MenuOption>)
        ensures
            menu(options@) == detector_menu(*self),
    {
        let mut options: Vec<MenuOption> = Vec::new();
        options.push(
            MenuOption { label: "All".to_owned(), active: self.filters.detector_id.is_none() },
        );
        let ghost entry = |value: Seq<char>|
            OptionContent {
                label: components::humanized(value),
                active: optional_text(self.filters.detector_id) == Some(value),
            };
        let ghost values = text::texts(self.detector_options@);
        let ghost all = seq![OptionContent { label: "All"@, active: self.filters.detector_id is None }];
        assert(menu(options@) =~= all + values.take(0).map_values(entry));
        let mut index: usize = 0;
        while index < self.detector_options.len()
            invariant
                index <= self.detector_options@.len(),
                values == text::texts(self.detector_options@),
                entry == (|value: Seq<char>|
                    OptionContent {
                        label: components::humanized(value),
                        active: optional_text(self.filters.detector_id) == Some(value),
                    }),
                all.len() == 1,
                menu(options@) == all + values.take(index as int).map_values(entry),
            decreases self.detector_options@.len() - index,
        {
            let value = &self.detector_options[index];
            let active = match &self.filters.detector_id {
                Some(chosen) => *chosen == *value,
                None => false,
            };
            let ghost before = menu(options@);
            options.push(MenuOption { label: humanize(value.as_str()), active });
            index += 1;
            proof {
                assert(menu(options@) =~= before.push(entry(values[index - 1])));
                assert(values.take(index as int).map_values(entry) =~= values.take(
                    index - 1,
                ).map_values(entry).push(entry(values[index - 1])));
                assert(menu(options@) =~= all + values.take(index as int).map_values(entry));
            }
        }
        assert(values.take(index as int) =~= values);
        options
    }

    /// The services to choose from.
    pub fn service_menu_options(&self) -> (options: Vec<MenuOption>)
        ensures
            menu(options@) == service_menu(*self),
    {
        let chosen = &self.filters.scope.criteria.service_name;
        let mut options: Vec<MenuOption> = Vec::new();
        options.push(MenuOption { label: "All".to_owned(), active: chosen.is_none() });
        let ghost entry = |value: Seq<char>|
            OptionContent { label: value, active: optional_text(*chosen) == Some(value) };
        let ghost values = text::texts(self.service_options@);
        let ghost all = seq![OptionContent { label: "All"@, active: chosen is None }];
        assert(menu(options@) =~= all + values.take(0).map_values(entry));
        let mut index: usize = 0;
        while index < self.service_options.len()
            invariant
                index <= self.service_options@.len(),
                values == text::texts(self.service_options@),
                entry == (|value: Seq<char>|
                    OptionContent { label: value, active: optional_text(*chosen) == Some(value) }),
                all.len() == 1,
                menu(options@) == all + values.take(index as int).map_values(entry),
            decreases self.service_options@.len() - index,
        {
            let value = &self.service_options[index];
            let active = match chosen {
                Some(chosen) => *chosen == *value,
                None => false,
            };
            let ghost before = menu(options@);
            options.push(MenuOption { label: value.clone(), active });
            index += 1;
            proof {
                assert(menu(options@) =~= before.push(entry(values[index - 1])));
                assert(values.take(index as int).map_values(entry) =~= values.take(
                    index - 1,
                ).map_values(entry).push(entry(values[index - 1])));
                assert(menu(options@) =~= all + values.take(index as int).map_values(entry));
            }
        }
        assert(values.take(index as int) =~= values);
        options
    }

    /// The orders to choose from.
    pub fn sort_options(&self) -> (options: Vec<MenuOption>)
        ensures
            menu(options@) == sort_menu(self.preferences.current.sort),
    {
        let chosen = self.preferences.current.sort;
        let mut options: Vec<MenuOption> = Vec::new();
        options.push(sort_option(chosen, FailureInboxSort::Priority));
        options.push(sort_option(chosen, FailureInboxSort::MostRecent));
        options.push(sort_option(chosen, FailureInboxSort::MostFrequent));
        options.push(sort_option(chosen, FailureInboxSort::MostUnresolved));
        assert(menu(options@) =~= sort_menu(chosen));
        options
    }

    /// Whether a saved view is the active one.
    pub fn is_active_view(&self, id: &str) -> (active: bool)
        ensures
            active == (optional_text(self.preferences.active_saved_view_id) == Some(id@)),
    {
        match &self.preferences.active_saved_view_id {
            Some(active) => same_text(active.as_str(), id),
            None => false,
        }
    }
}

/// A saved view in the menu.
#[derive(Debug)]
pub struct SavedViewRow {
    pub name: String,
    pub active: bool,
    pub remove_label: String,
}

/// What the open menu offers.
#[derive(Debug)]
pub enum MenuView {
    Filters {
        severities: Vec<MenuOption>,
        recoveries: Vec<MenuOption>,
        include_dismissed: bool,
        detectors: Vec<MenuOption>,
        services: Vec<MenuOption>,
    },
    Organize { sorts: Vec<MenuOption>, saved: Vec<SavedViewRow> },
}

/// The detectors to choose from.
pub open spec fn detector_menu(inbox: FailureInbox) -> Seq<OptionContent> {
    seq![OptionContent { label: "All"@, active: inbox.filters.detector_id is None }]
        + text::texts(inbox.detector_options@).map_values(
        |value: Seq<char>|
            OptionContent {
                label: components::humanized(value),
                active: optional_text(inbox.filters.detector_id) == Some(value),
            },
    )
}

/// The services to choose from.
pub open spec fn service_menu(inbox: FailureInbox) -> Seq<OptionContent> {
    seq![
        OptionContent {
            label: "All"@,
            active: inbox.filters.scope.criteria.service_name is None,
        },
    ] + text::texts(inbox.service_options@).map_values(
        |value: Seq<char>|
            OptionContent {
                label: value,
                active: optional_text(inbox.filters.scope.criteria.service_name) == Some(value),
            },
    )
}

/// A saved view in the menu.
pub open spec fn shows_saved(row: SavedViewRow, inbox: FailureInbox, place: int) -> bool {
    let saved = inbox.preferences.saved@[place];
    &&& row.name@ == saved.name@
    &&& row.active == (optional_text(inbox.preferences.active_saved_view_id) == Some(saved.id@))
    &&& row.remove_label@ == "Remove saved view "@ + saved.name@
}

/// What the open menu offers.
pub open spec fn shows_menu(view: MenuView, inbox: FailureInbox, menu_kind: InboxFilterMenu) -> bool {
    match view {
        MenuView::Filters { severities, recoveries, include_dismissed, detectors, services } => {
            &&& menu_kind != InboxFilterMenu::Organize
            &&& menu(severities@) == severity_menu(inbox.filters.severity)
            &&& menu(recoveries@) == recovery_menu(inbox.filters.recovery)
            &&& include_dismissed == inbox.filters.include_fully_dismissed
            &&& menu(detectors@) == detector_menu(inbox)
            &&& menu(services@) == service_menu(inbox)
        },
        MenuView::Organize { sorts, saved } => {
            &&& menu_kind == InboxFilterMenu::Organize
            &&& menu(sorts@) == sort_menu(inbox.preferences.current.sort)
            &&& saved@.len() == inbox.preferences.saved@.len()
            &&& forall|i: int| 0 <= i < saved@.len() ==> shows_saved(#[trigger] saved@[i], inbox, i)
        },
    }
}

impl FailureInbox {
    /// The orders and the saved views to choose from.
    pub fn render_preferences_menu(&self) -> (view: MenuView)
        ensures
            shows_menu(view, *self, InboxFilterMenu::Organize),
    {
        let mut saved: Vec<SavedViewRow> = Vec::new();
        let mut index: usize = 0;
        while index < self.preferences.saved.len()
            invariant
                index <= self.preferences.saved@.len(),
                saved@.len() == index,
                forall|i: int|
                    0 <= i < saved@.len() ==> shows_saved(#[trigger] saved@[i], *self, i),
            decreases self.preferences.saved@.len() - index,
        {
            let entry = &self.preferences.saved[index];
            saved.push(
                SavedViewRow {
                    name: entry.name.clone(),
                    active: self.is_active_view(entry.id.as_str()),
                    remove_label: concat2("Remove saved view ", entry.name.as_str()),
                },
            );
            index += 1;
        }
        MenuView::Organize { sorts: self.sort_options(), saved }
    }

    /// What the open menu offers, if one is open.
    pub fn render_open_filter_menu(&self) -> (view: Option<MenuView>)
        ensures
            match (self.open_filter_menu, view) {
                (Some(menu_kind), Some(view)) => shows_menu(view, *self, menu_kind),
                (None, None) => true,
                _ => false,
            },
    {
        match self.open_filter_menu {
            Some(menu_kind) => if menu_kind == InboxFilterMenu::Organize {
                Some(self.render_preferences_menu())
            } else {
                Some(
                    MenuView::Filters {
                        severities: self.severity_options(),
                        recoveries: self.recovery_options(),
                        include_dismissed: self.filters.include_fully_dismissed,
                        detectors: self.detector_menu_options(),
                        services: self.service_menu_options(),
                    },
                )
            },
            None => None,
        }
    }
}

/// What follows when the preferences are those of `before`: filters and
/// search are those of the current view, and the groups are asked for.
pub open spec fn applied(
    before: FailureInbox,
    after: FailureInbox,
    top_index: nat,
    request: GroupPageRequest,
) -> bool {
    let view = before.preferences.current;
    let filters = with_service(
        FailureFiltersV1 {
            severity: view.severity,
            recovery: view.recovery,
            detector_id: view.detector_id,
            search: view.search,
            ..before.filters
        },
        view.service_name,
    );
    &&& after == (FailureInbox {
        list: GroupPages {
            loading: true,
            generation: state::next_request(before.list.generation),
            ..before.list
        },
        filters,
        search: after.search,
        ..before
    })
    &&& after.search.retyped(
        before.search,
        match view.search {
            Some(search) => search@,
            None => Seq::empty(),
        },
    )
    &&& request == reload_request(FailureInbox { filters, ..before }, top_index)
}

/// The menu of severities.
pub open spec fn severity_menu(chosen: Option<FindingSeverity>) -> Seq<OptionContent> {
    let entry = |value: FindingSeverity|
        OptionContent { label: value.name(), active: chosen == Some(value) };
    seq![
        OptionContent { label: "All"@, active: chosen is None },
        entry(FindingSeverity::Critical),
        entry(FindingSeverity::High),
        entry(FindingSeverity::Medium),
        entry(FindingSeverity::Low),
        entry(FindingSeverity::Info),
    ]
}

fn severity_option(chosen: Option<FindingSeverity>, value: FindingSeverity) -> (option: MenuOption)
    ensures
        option@ == (OptionContent { label: value.name(), active: chosen == Some(value) }),
{
    let active = match chosen {
        Some(chosen) => chosen == value,
        None => false,
    };
    MenuOption { label: value.label().to_owned(), active }
}

/// The menu of recovery statuses.
pub open spec fn recovery_menu(chosen: Option<RecoveryStatus>) -> Seq<OptionContent> {
    let entry = |value: RecoveryStatus|
        OptionContent { label: value.name(), active: chosen == Some(value) };
    seq![
        OptionContent { label: "All"@, active: chosen is None },
        entry(RecoveryStatus::Unrecovered),
        entry(RecoveryStatus::Unknown),
        entry(RecoveryStatus::Recovered),
    ]
}

fn recovery_option(chosen: Option<RecoveryStatus>, value: RecoveryStatus) -> (option: MenuOption)
    ensures
        option@ == (OptionContent { label: value.name(), active: chosen == Some(value) }),
{
    let active = match chosen {
        Some(chosen) => chosen == value,
        None => false,
    };
    MenuOption { label: value.label().to_owned(), active }
}

/// The menu of orders.
pub open spec fn sort_menu(chosen: FailureInboxSort) -> Seq<OptionContent> {
    let entry = |value: FailureInboxSort|
        OptionContent { label: value.name(), active: chosen == value };
    seq![
        entry(FailureInboxSort::Priority),
        entry(FailureInboxSort::MostRecent),
        entry(FailureInboxSort::MostFrequent),
        entry(FailureInboxSort::MostUnresolved),
    ]
}

fn sort_option(chosen: FailureInboxSort, value: FailureInboxSort) -> (option: MenuOption)
    ensures
        option@ == (OptionContent { label: value.name(), active: chosen == value }),
{
    MenuOption { label: value.label().to_owned(), active: chosen == value }
}

/// Clearing the filters leaves none set.
pub proof fn cleared_filters_are_unset(filters: FailureFiltersV1)
    ensures
        set_filters(
            with_service(
                FailureFiltersV1 {
                    severity: None,
                    recovery: None,
                    detector_id: None,
                    search: None,
                    include_fully_dismissed: false,
                    ..filters
                },
                None,
            ),
        ) == 0,
        set_filters(filters) <= 6,
{
}

/// What is searched for is what was entered without the white space around it;
/// white space alone searches for nothing.
pub proof fn searches_are_trimmed(entered: Seq<char>)
    ensures
        text::blank(entered) ==> search_of(entered) is None,
        !text::blank(entered) ==> search_of(entered) == Some(text::trimmed(entered)),
{
    text::trimming_takes_the_white_space_around(entered);
}

/// Choosing a service changes the scope's service and nothing else.
pub proof fn services_are_part_of_the_scope(filters: FailureFiltersV1, service: Option<String>)
    ensures
        ({
            let after = with_service(filters, service);
            &&& after.scope.criteria.service_name == service
            &&& after.scope.criteria.project_id == filters.scope.criteria.project_id
            &&& after.scope.criteria.environment == filters.scope.criteria.environment
            &&& after.scope.criteria.build_id == filters.scope.criteria.build_id
            &&& after.scope.criteria.session_id == filters.scope.criteria.session_id
            &&& after.scope.criteria.started_after_unix_nano
                == filters.scope.criteria.started_after_unix_nano
            &&& after.scope.criteria.started_before_unix_nano
                == filters.scope.criteria.started_before_unix_nano
            &&& after.severity == filters.severity
            &&& after.recovery == filters.recovery
            &&& after.detector_id == filters.detector_id
            &&& after.search == filters.search
            &&& after.include_fully_dismissed == filters.include_fully_dismissed
        }),
{
}

/// Each filter that is set counts once.
pub proof fn each_set_filter_counts_once(
    filters: FailureFiltersV1,
    severity: FindingSeverity,
    recovery: RecoveryStatus,
    text: String,
)
    ensures
        set_filters(filters) == set_filters(FailureFiltersV1 { severity: None, ..filters }) + (
        if filters.severity is Some {
            1int
        } else {
            0
        }),
        set_filters(FailureFiltersV1 { severity: Some(severity), ..filters }) == set_filters(
            FailureFiltersV1 { severity: None, ..filters },
        ) + 1,
        set_filters(FailureFiltersV1 { recovery: Some(recovery), ..filters }) == set_filters(
            FailureFiltersV1 { recovery: None, ..filters },
        ) + 1,
        set_filters(FailureFiltersV1 { detector_id: Some(text), ..filters }) == set_filters(
            FailureFiltersV1 { detector_id: None, ..filters },
        ) + 1,
        set_filters(FailureFiltersV1 { search: Some(text), ..filters }) == set_filters(
            FailureFiltersV1 { search: None, ..filters },
        ) + 1,
        set_filters(FailureFiltersV1 { include_fully_dismissed: true, ..filters }) == set_filters(
            FailureFiltersV1 { include_fully_dismissed: false, ..filters },
        ) + 1,
        set_filters(with_service(filters, Some(text))) == set_filters(with_service(filters, None))
            + 1,
{
}

/// The list is asked for anew from its beginning, under the filters that hold,
/// and the focus and the topmost group are remembered.
pub proof fn reloads_begin_at_the_top(inbox: FailureInbox, top_index: nat)
    ensures
        ({
            let request = reload_request(inbox, top_index);
            &&& request.offset == 0
            &&& request.limit == 200
            &&& request.filters == inbox.filters
            &&& request.previous_focus == inbox.selection.focused
            &&& request.generation != inbox.list.generation
            &&& request.scroll_anchor is Some <==> top_index < inbox.list.groups@.len()
            &&& request.scroll_anchor is Some ==> request.scroll_anchor == Some(
                (
                    inbox.list.groups@[top_index as int].project_id,
                    inbox.list.groups@[top_index as int].group_id,
                ),
            )
        }),
{
}

/// A change of the filters is captured as the current view, asks for the list
/// anew and is reported; the saved views stay, and one is active where it holds
/// the same.
pub proof fn changed_filters_are_captured(
    before: FailureInbox,
    after: FailureInbox,
    top_index: nat,
    change: FilterChange,
)
    requires
        refiltered(before, after, top_index, change),
    ensures
        after.filters == before.filters,
        after.list.loading,
        after.list.groups == before.list.groups,
        after.list.generation == change.request.generation,
        change.request.filters == before.filters,
        after.preferences.saved == before.preferences.saved,
        after.preferences.current@.severity == before.filters.severity,
        after.preferences.current@.recovery == before.filters.recovery,
        after.preferences.current@.sort == before.preferences.current.sort,
        after.preferences.current@.search == optional_text(before.filters.search),
        after.preferences.current@.detector_id == optional_text(before.filters.detector_id),
        after.preferences.current@.service_name == optional_text(
            before.filters.scope.criteria.service_name,
        ),
        after.preferences.active_saved_view_id is Some <==> exists|i: int|
            0 <= i < before.preferences.saved@.len() && (
            #[trigger] before.preferences.saved@[i]).view@ == after.preferences.current@,
{
    preferences::active_views_hold_the_same(before.preferences.saved@, after.preferences.current@);
}

/// An applied view sets every filter that it holds, types its search and asks
/// for the list under them; other filters stay.
pub proof fn applied_views_set_every_filter(
    before: FailureInbox,
    after: FailureInbox,
    top_index: nat,
    request: GroupPageRequest,
)
    requires
        applied(before, after, top_index, request),
    ensures
        after.filters.severity == before.preferences.current.severity,
        after.filters.recovery == before.preferences.current.recovery,
        after.filters.detector_id == before.preferences.current.detector_id,
        after.filters.search == before.preferences.current.search,
        after.filters.scope.criteria.service_name == before.preferences.current.service_name,
        after.filters.scope.criteria.project_id == before.filters.scope.criteria.project_id,
        after.filters.include_fully_dismissed == before.filters.include_fully_dismissed,
        after.preferences == before.preferences,
        after.list.loading,
        request.filters == after.filters,
        request.generation == after.list.generation,
        request.offset == 0,
{
}

/// Each menu offers all values in a fixed order and marks the one that is
/// chosen.
pub proof fn menus_mark_what_is_chosen(
    severity: Option<FindingSeverity>,
    recovery: Option<RecoveryStatus>,
    sort: FailureInboxSort,
    inbox: FailureInbox,
    place: int,
)
    ensures
        severity_menu(severity).len() == 6,
        severity_menu(severity)[0] == (OptionContent { label: "All"@, active: severity is None }),
        severity_menu(severity)[1] == (OptionContent {
            label: "Critical"@,
            active: severity == Some(FindingSeverity::Critical),
        }),
        severity_menu(severity)[2] == (OptionContent {
            label: "High"@,
            active: severity == Some(FindingSeverity::High),
        }),
        severity_menu(severity)[3] == (OptionContent {
            label: "Medium"@,
            active: severity == Some(FindingSeverity::Medium),
        }),
        severity_menu(severity)[4] == (OptionContent {
            label: "Low"@,
            active: severity == Some(FindingSeverity::Low),
        }),
        severity_menu(severity)[5] == (OptionContent {
            label: "Info"@,
            active: severity == Some(FindingSeverity::Info),
        }),
        recovery_menu(recovery).len() == 4,
        recovery_menu(recovery)[0] == (OptionContent { label: "All"@, active: recovery is None }),
        recovery_menu(recovery)[1] == (OptionContent {
            label: "Unrecovered"@,
            active: recovery == Some(RecoveryStatus::Unrecovered),
        }),
        recovery_menu(recovery)[2] == (OptionContent {
            label: "Unknown"@,
            active: recovery == Some(RecoveryStatus::Unknown),
        }),
        recovery_menu(recovery)[3] == (OptionContent {
            label: "Recovered"@,
            active: recovery == Some(RecoveryStatus::Recovered),
        }),
        sort_menu(sort).len() == 4,
        sort_menu(sort)[0] == (OptionContent {
            label: "Priority"@,
            active: sort == FailureInboxSort::Priority,
        }),
        sort_menu(sort)[1] == (OptionContent {
            label: "Most recent"@,
            active: sort == FailureInboxSort::MostRecent,
        }),
        sort_menu(sort)[2] == (OptionContent {
            label: "Most frequent"@,
            active: sort == FailureInboxSort::MostFrequent,
        }),
        sort_menu(sort)[3] == (OptionContent {
            label: "Most unresolved"@,
            active: sort == FailureInboxSort::MostUnresolved,
        }),
        detector_menu(inbox).len() == inbox.detector_options@.len() + 1,
        service_menu(inbox).len() == inbox.service_options@.len() + 1,
        detector_menu(inbox)[0] == (OptionContent {
            label: "All"@,
            active: inbox.filters.detector_id is None,
        }),
        service_menu(inbox)[0] == (OptionContent {
            label: "All"@,
            active: inbox.filters.scope.criteria.service_name is None,
        }),
        0 <= place < inbox.detector_options@.len() ==> detector_menu(inbox)[place + 1] == (
        OptionContent {
            label: components::humanized(inbox.detector_options@[place]@),
            active: inbox.filters.detector_id is Some && inbox.filters.detector_id->0@
                == inbox.detector_options@[place]@,
        }),
        0 <= place < inbox.service_options@.len() ==> service_menu(inbox)[place + 1] == (
        OptionContent {
            label: inbox.service_options@[place]@,
            active: inbox.filters.scope.criteria.service_name is Some
                && inbox.filters.scope.criteria.service_name->0@
                == inbox.service_options@[place]@,
        }),
{
}

/// A saved view is shown by its name, and as active where it is the active one.
pub proof fn saved_views_show_which_is_active(row: SavedViewRow, inbox: FailureInbox, place: int)
    requires
        shows_saved(row, inbox, place),
    ensures
        row.name@ == inbox.preferences.saved@[place].name@,
        row.remove_label@ == "Remove saved view "@ + inbox.preferences.saved@[place].name@,
        row.active <==> inbox.preferences.active_saved_view_id is Some
            && inbox.preferences.active_saved_view_id->0@ == inbox.preferences.saved@[place].id@,
{
}

/// The menu for filters offers filters, and that for the organisation orders
/// and saved views.
pub proof fn menus_offer_what_they_are_for(
    view: MenuView,
    inbox: FailureInbox,
    menu_kind: InboxFilterMenu,
)
    requires
        shows_menu(view, inbox, menu_kind),
    ensures
        view is Organize <==> menu_kind == InboxFilterMenu::Organize,
        view is Filters ==> view->include_dismissed == inbox.filters.include_fully_dismissed
            && menu(view->severities@) == severity_menu(inbox.filters.severity) && menu(
            view->recoveries@,
        ) == recovery_menu(inbox.filters.recovery) && menu(view->detectors@) == detector_menu(
            inbox,
        ) && menu(view->services@) == service_menu(inbox),
        view is Organize ==> menu(view->sorts@) == sort_menu(inbox.preferences.current.sort)
            && view->saved@.len() == inbox.preferences.saved@.len(),
        SEARCH_MILLISECONDS == 220,
{
}

} // verus!
