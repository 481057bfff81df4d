//! What is shown of the list of groups and of the details of a group.

use super::components::{
    self, humanize, kv, recurrence_sparkline, severity_color, trend_sparkline, LabelledText,
    TrendSparkline,
};
use super::inspector;
use super::model::{
    copy_optional, optional_text, FailureGroupDetail, FailureGroupSummary, FailureInboxSort,
    FailureOccurrence, FailurePresentation, RecoveryStatus, SimilarityCohort,
};
use super::preferences::{self, unresolved};
use super::selection;
use super::state::{FailureInbox, FailureInboxEvent, Investigation};
use crate::design::tokens::Theme;
use crate::offsets::{self, leading_bytes_of, Encoding};
use crate::text::{
    self, append_decimal, append_wide_decimal, concat2, concat3, concat4, decimal_text, join,
    length_text, strip_prefix,
};
use crate::timestamps::{self, display_timestamp};
use vstd::prelude::*;
use vstd::string::*;

verus! {

/// A hash without the name of its algorithm.
pub open spec fn bare_hash(value: Seq<char>) -> Seq<char> {
    if "sha256:"@.is_prefix_of(value) {
        value.skip("sha256:"@.len() as int)
    } else {
        value
    }
}

/// The first twelve bytes of a hash, or all of it where it is shorter or does
/// not divide there.
pub open spec fn shortened_hash(value: Seq<char>) -> Seq<char> {
    offsets::leading_bytes(bare_hash(value), 12)
}

/// The start of a hash.
pub fn short_hash(value: &str) -> (short: &str)
    ensures
        short@ == shortened_hash(value@),
{
    match strip_prefix(value, "sha256:") {
        Some(rest) => leading_bytes_of(rest, 12),
        None => leading_bytes_of(value, 12),
    }
}

/// A short hash is the start of the hash and has at most twelve bytes,
/// where the hash divides there.
pub proof fn short_hashes_are_prefixes(value: Seq<char>)
    ensures
        shortened_hash(value).is_prefix_of(bare_hash(value)),
        offsets::is_position(Encoding::Utf8, bare_hash(value), 12) ==> offsets::byte_len(
            shortened_hash(value),
        ) <= 12,
{
    offsets::leading_bytes_fit(bare_hash(value), 12);
}

/// The identifier that a group is named by where nothing better is known.
pub open spec fn first_detector(detector_ids: Seq<String>) -> Seq<char> {
    if detector_ids.len() > 0 {
        detector_ids[0]@
    } else {
        "failure"@
    }
}

/// The name of the detector of a group, in words.
pub open spec fn detector_title(group: FailureGroupSummary) -> Seq<char> {
    components::humanized(first_detector(group.detector_ids@))
}

/// The name of a group.
pub open spec fn group_title(group: FailureGroupSummary) -> Seq<char> {
    match group.presentation {
        Some(presentation) => presentation.title@,
        None => detector_title(group),
    }
}

/// What a group is about.
pub open spec fn group_subject(group: FailureGroupSummary) -> Option<Seq<char>> {
    match group.operation {
        Some(operation) => Some(operation@),
        None => optional_text(group.subject),
    }
}

/// The name of the detector of a group, in words.
pub fn detector_title_of(group: &FailureGroupSummary) -> (title: String)
    ensures
        title@ == detector_title(*group),
{
    if group.detector_ids.len() > 0 {
        humanize(group.detector_ids[0].as_str())
    } else {
        humanize("failure")
    }
}

/// The name of a group.
pub fn group_title_of(group: &FailureGroupSummary) -> (title: String)
    ensures
        title@ == group_title(*group),
{
    match &group.presentation {
        Some(presentation) => presentation.title.clone(),
        None => detector_title_of(group),
    }
}

fn group_subject_of(group: &FailureGroupSummary) -> (subject: Option<String>)
    ensures
        optional_text(subject) == group_subject(*group),
{
    match &group.operation {
        Some(operation) => Some(operation.clone()),
        None => copy_optional(&group.subject),
    }
}

/// A row of the list of groups.
#[derive(Debug)]
pub struct GroupRowView {
    pub title: String,
    pub subject: Option<String>,
    pub severity: &'static str,
    pub severity_tint: u32,
    pub examples: String,
    pub unresolved: String,
    pub review: String,
    pub last_seen: String,
    pub label: String,
    pub select_label: String,
    pub investigate_label: String,
    pub focused: bool,
    pub selected: bool,
    pub selectable: bool,
    pub background: u32,
    pub box_border: u32,
    pub box_fill: u32,
    pub box_mark: &'static str,
    pub position: usize,
}

/// What a screen reader says of a group.
pub open spec fn group_label(group: FailureGroupSummary) -> Seq<char> {
    group_title(group) + "; "@ + group.severity.name() + "; "@ + text::decimal(
        group.occurrence_count as nat,
    ) + " examples; "@ + text::decimal(preferences::unresolved_count(group)) + " unresolved; "@
        + timestamps::shown_timestamp(group.last_seen_at@)
}

/// What happens when a row is clicked.
#[derive(Debug, Clone, Copy, PartialEq, Eq, Structural)]
pub enum RowClick {
    /// The group is opened.
    Open,
    /// Focus and selection change.
    Interact,
}

/// What happens when a row is clicked: a compact row opens at the second
/// click, a wide one at the first, unless a key asks for a selection.
pub fn row_click(compact: bool, clicks: usize, shift: bool, secondary: bool) -> (click: RowClick)
    ensures
        click == (if compact {
            if clicks > 1 {
                RowClick::Open
            } else {
                RowClick::Interact
            }
        } else if shift || secondary {
            RowClick::Interact
        } else {
            RowClick::Open
        }),
{
    if compact {
        if clicks > 1 {
            RowClick::Open
        } else {
            RowClick::Interact
        }
    } else if shift || secondary {
        RowClick::Interact
    } else {
        RowClick::Open
    }
}

/// What a row of the list shows.
pub open spec fn shows_group(
    view: GroupRowView,
    inbox: FailureInbox,
    group: FailureGroupSummary,
    index: nat,
    compact: bool,
    unassigned_project_id: Seq<char>,
) -> bool {
    let focused = inbox.selection@.focused == Some(selection::group_key(group));
    let selected = inbox.selection@.selected.contains(group.group_id@);
    &&& view.title@ == group_title(group)
    &&& optional_text(view.subject) == group_subject(group)
    &&& view.severity@ == group.severity.name()
    &&& view.severity_tint == components::severity_tint(group.severity)
    &&& view.examples@ == (if compact {
        text::decimal(group.occurrence_count as nat) + " examples"@
    } else {
        text::decimal(group.occurrence_count as nat)
    })
    &&& view.unresolved@ == text::decimal(preferences::unresolved_count(group)) + " unresolved"@
    &&& view.review@ == text::decimal(group.unreviewed_count as nat) + " unreviewed · "@
        + text::decimal(group.dismissed_count as nat) + " dismissed"@
    &&& view.last_seen@ == timestamps::shown_timestamp(group.last_seen_at@)
    &&& view.label@ == group_label(group)
    &&& view.select_label@ == "Select "@ + (if compact {
        group_title(group)
    } else {
        detector_title(group)
    }) + " for eval generation"@
    &&& view.investigate_label@ == "Investigate "@ + group_title(group)
    &&& view.focused == focused
    &&& view.selected == selected
    &&& view.selectable == inspector::can_generate(inbox.filters.scope, unassigned_project_id)
    &&& view.background == (if focused {
        Theme::PANEL_ALT
    } else {
        Theme::PANEL
    })
    &&& view.box_border == (if selected {
        Theme::CYAN
    } else {
        Theme::BORDER
    })
    &&& view.box_fill == (if selected {
        Theme::CYAN
    } else {
        Theme::BG
    })
    &&& view.box_mark@ == (if selected {
        "✓"@
    } else {
        ""@
    })
    &&& view.position == index + 1
}

/// The trend of a group: that of its recurrence where it is known, and that
/// of its plain counts otherwise.
pub fn group_trend(group: &FailureGroupSummary) -> (line: TrendSparkline)
    requires
        match group.recurrence {
            Some(series) => components::summable(series.buckets@),
            None => components::sum(group.occurrence_trend@) <= u64::MAX,
        },
    ensures
        match group.recurrence {
            Some(series) => components::shows_recurrence(line, series),
            None => components::shows_counts(line, group.occurrence_trend@),
        },
{
    match &group.recurrence {
        Some(series) => recurrence_sparkline(series),
        None => trend_sparkline(group.occurrence_trend.as_slice()),
    }
}

impl FailureInbox {
    /// What a row of the list shows.
    pub fn render_group_row(
        &self,
        group: &FailureGroupSummary,
        index: usize,
        compact: bool,
        unassigned_project_id: &str,
    ) -> (view: GroupRowView)
        requires
            index < usize::MAX,
        ensures
            shows_group(view, *self, *group, index as nat, compact, unassigned_project_id@),
    {
        let title = group_title_of(group);
        let focused = match &self.selection.focused {
            Some(key) => key.0 == group.project_id && key.1 == group.group_id,
            None => false,
        };
        let selected = self.selection.selected.contains(&group.group_id);
        let last_seen = display_timestamp(group.last_seen_at.as_str());
        let mut label = concat4(title.as_str(), "; ", group.severity.label(), "; ");
        append_decimal(&mut label, group.occurrence_count);
        label.append(" examples; ");
        append_wide_decimal(&mut label, unresolved(group));
        label.append(" unresolved; ");
        label.append(last_seen.as_str());
        let mut examples = decimal_text(group.occurrence_count);
        if compact {
            examples.append(" examples");
        }
        let mut open_findings = String::new();
        append_wide_decimal(&mut open_findings, unresolved(group));
        assert(open_findings@ =~= text::decimal(preferences::unresolved_count(*group)));
        open_findings.append(" unresolved");
        let mut review = decimal_text(group.unreviewed_count);
        review.append(" unreviewed · ");
        append_decimal(&mut review, group.dismissed_count);
        review.append(" dismissed");
        let select_label = if compact {
            concat3("Select ", title.as_str(), " for eval generation")
        } else {
            concat3("Select ", detector_title_of(group).as_str(), " for eval generation")
        };
        GroupRowView {
            subject: group_subject_of(group),
            severity: group.severity.label(),
            severity_tint: severity_color(group.severity),
            examples,
            unresolved: open_findings,
            review,
            last_seen,
            label,
            select_label,
            investigate_label: concat2("Investigate ", title.as_str()),
            title,
            focused,
            selected,
            selectable: self.can_generate_eval(unassigned_project_id),
            background: if focused {
                Theme::PANEL_ALT
            } else {
                Theme::PANEL
            },
            box_border: if selected {
                Theme::CYAN
            } else {
                Theme::BORDER
            },
            box_fill: if selected {
                Theme::CYAN
            } else {
                Theme::BG
            },
            box_mark: if selected {
                "✓"
            } else {
                ""
            },
            position: index + 1,
        }
    }
}

/// What a list without groups offers to do.
#[derive(Debug, Clone, Copy, PartialEq, Eq, Structural)]
pub enum EmptyListAction {
    ResetFilters,
    AddTraces,
    InspectRuns,
    Wait,
}

/// What a list without groups offers to do.
pub open spec fn empty_action(inbox: FailureInbox) -> EmptyListAction {
    let busy = inbox.live.health.analysis_pending > 0 || inbox.live.health.analysis_running > 0;
    if super::filter_menu::set_filters(inbox.filters) > 0 {
        EmptyListAction::ResetFilters
    } else if busy {
        EmptyListAction::Wait
    } else if inbox.live.run_count == 0 {
        EmptyListAction::AddTraces
    } else {
        EmptyListAction::InspectRuns
    }
}

/// What a list without groups says.
pub open spec fn empty_message(action: EmptyListAction) -> Seq<char> {
    match action {
        EmptyListAction::ResetFilters => "No failure groups match the current filters."@,
        EmptyListAction::Wait => "Finalized traces are being analyzed. Groups will appear here."@,
        EmptyListAction::AddTraces => "No traces have arrived in this scope yet."@,
        EmptyListAction::InspectRuns => {
            "No actionable groups. Error spans remain in Runs when requiredness or final-outcome evidence is missing; open a run to review its telemetry gaps."@
        },
    }
}

/// What can be done about an empty list, and what doing so means.
pub open spec fn empty_offer(action: EmptyListAction) -> Option<(Seq<char>, Seq<char>)> {
    match action {
        EmptyListAction::ResetFilters => Some(("Reset filters"@, "Reset failure filters"@)),
        EmptyListAction::AddTraces => Some(("Add traces"@, "Open Sources to add traces"@)),
        EmptyListAction::InspectRuns => Some(("Inspect runs"@, "Inspect analyzed runs"@)),
        EmptyListAction::Wait => None,
    }
}

impl EmptyListAction {
    /// What a list without groups says.
    pub fn message(self) -> (message: &'static str)
        ensures
            message@ == empty_message(self),
    {
        match self {
            EmptyListAction::ResetFilters => "No failure groups match the current filters.",
            EmptyListAction::Wait => {
                "Finalized traces are being analyzed. Groups will appear here."
            },
            EmptyListAction::AddTraces => "No traces have arrived in this scope yet.",
            EmptyListAction::InspectRuns => {
                "No actionable groups. Error spans remain in Runs when requiredness or final-outcome evidence is missing; open a run to review its telemetry gaps."
            },
        }
    }

    /// What can be done about an empty list, and what doing so means.
    pub fn offer(self) -> (offer: Option<(&'static str, &'static str)>)
        ensures
            match offer {
                Some((label, hint)) => empty_offer(self) == Some((label@, hint@)),
                None => empty_offer(self) is None,
            },
    {
        match self {
            EmptyListAction::ResetFilters => Some(("Reset filters", "Reset failure filters")),
            EmptyListAction::AddTraces => Some(("Add traces", "Open Sources to add traces")),
            EmptyListAction::InspectRuns => Some(("Inspect runs", "Inspect analyzed runs")),
            EmptyListAction::Wait => None,
        }
    }

    /// What the workbench is asked for, if anything.
    pub fn event(self) -> (event: Option<FailureInboxEvent>)
        ensures
            event == (match self {
                EmptyListAction::AddTraces => Some(FailureInboxEvent::OpenSources),
                EmptyListAction::InspectRuns => Some(FailureInboxEvent::OpenRuns),
                _ => None,
            }),
    {
        match self {
            EmptyListAction::AddTraces => Some(FailureInboxEvent::OpenSources),
            EmptyListAction::InspectRuns => Some(FailureInboxEvent::OpenRuns),
            _ => None,
        }
    }
}

/// The groups that are selected, in the order of the list.
pub open spec fn selected_groups(
    groups: Seq<FailureGroupSummary>,
    selected: Set<Seq<char>>,
) -> Seq<FailureGroupSummary>
    decreases groups.len(),
{
    if groups.len() == 0 {
        Seq::empty()
    } else {
        let before = selected_groups(groups.drop_last(), selected);
        if selected.contains(groups.last().group_id@) {
            before.push(groups.last())
        } else {
            before
        }
    }
}

/// All occurrences of some groups.
pub open spec fn occurrence_sum(groups: Seq<FailureGroupSummary>) -> nat
    decreases groups.len(),
{
    if groups.len() == 0 {
        0
    } else {
        occurrence_sum(groups.drop_last()) + groups.last().occurrence_count as nat
    }
}

/// The eligible runs of the first group that tells how often it recurs.
pub open spec fn first_eligible_runs(groups: Seq<FailureGroupSummary>) -> Option<nat>
    decreases groups.len(),
{
    if groups.len() == 0 {
        None
    } else {
        match first_eligible_runs(groups.drop_last()) {
            Some(runs) => Some(runs),
            None => match groups.last().recurrence {
                Some(series) => Some(
                    components::sum(
                        components::counts(
                            series.buckets@,
                            components::BucketCount::Eligible,
                        ),
                    ),
                ),
                None => None,
            },
        }
    }
}

/// What is said of the selected groups.
#[derive(Debug)]
pub struct SelectionSummary {
    pub summary: String,
    /// Whether the only selected group can be opened.
    pub can_open: bool,
    pub can_generate: bool,
    pub create_label: String,
}

/// What is said of the selected groups.
pub open spec fn selection_text(chosen: Seq<FailureGroupSummary>) -> Seq<char> {
    text::decimal(chosen.len()) + " groups selected · "@ + text::decimal(occurrence_sum(chosen))
        + " findings · "@ + text::decimal(chosen.len()) + " representatives"@ + (
    match first_eligible_runs(chosen) {
        Some(runs) => " · "@ + text::decimal(runs) + " eligible runs in scope"@,
        None => ""@,
    })
}

fn eligible_runs(series: &super::model::FailureRecurrenceSeriesV1) -> (runs: u128)
    ensures
        runs == components::sum(
            components::counts(series.buckets@, components::BucketCount::Eligible),
        ),
{
    let ghost all = components::counts(series.buckets@, components::BucketCount::Eligible);
    let mut runs: u128 = 0;
    let mut index: usize = 0;
    assert(all.take(0) =~= Seq::empty());
    while index < series.buckets.len()
        invariant
            index <= series.buckets@.len(),
            all == components::counts(series.buckets@, components::BucketCount::Eligible),
            runs == components::sum(all.take(index as int)),
            runs <= index * 0xffff_ffff_ffff_ffff,
        decreases series.buckets@.len() - index,
    {
        proof {
            assert(all.take(index + 1).drop_last() =~= all.take(index as int));
            assert(all.take(index + 1).last() == series.buckets@[index as int].eligible_run_count);
        }
        runs = runs + series.buckets[index].eligible_run_count as u128;
        index += 1;
    }
    assert(all.take(index as int) =~= all);
    runs
}

impl FailureInbox {
    /// What is said of the selected groups, where there are any.
    pub fn selection_summary(&self, unassigned_project_id: &str) -> (summary: Option<
        SelectionSummary,
    >)
        ensures
            ({
                let chosen = selected_groups(self.list.groups@, self.selection@.selected);
                &&& summary is Some <==> chosen.len() > 0
                &&& summary is Some ==> {
                    &&& summary->0.summary@ == selection_text(chosen)
                    &&& summary->0.can_open == (chosen.len() == 1)
                    &&& summary->0.can_generate == inspector::can_generate(
                        self.filters.scope,
                        unassigned_project_id@,
                    )
                    &&& summary->0.create_label@ == "Create eval candidates from "@
                        + text::decimal(chosen.len()) + " selected failure groups"@
                }
            }),
    {
        let groups = &self.list.groups;
        let ghost selected = self.selection@.selected;
        let mut count: usize = 0;
        let mut findings: u128 = 0;
        let mut runs: Option<u128> = None;
        let mut index: usize = 0;
        assert(groups@.take(0) =~= Seq::empty());
        while index < groups.len()
            invariant
                index <= groups@.len(),
                groups == &self.list.groups,
                selected == self.selection@.selected,
                count <= index,
                findings <= index * 0xffff_ffff_ffff_ffff,
                ({
                    let chosen = selected_groups(groups@.take(index as int), selected);
                    &&& count == chosen.len()
                    &&& findings == occurrence_sum(chosen)
                    &&& match runs {
                        Some(runs) => first_eligible_runs(chosen) == Some(runs as nat),
                        None => first_eligible_runs(chosen) is None,
                    }
                }),
            decreases groups@.len() - index,
        {
            let group = &groups[index];
            proof {
                assert(groups@.take(index + 1).drop_last() =~= groups@.take(index as int));
                assert(groups@.take(index + 1).last() == *group);
                let before = selected_groups(groups@.take(index as int), selected);
                assert(before.push(*group).drop_last() =~= before);
            }
            if self.selection.selected.contains(&group.group_id) {
                count += 1;
                findings = findings + group.occurrence_count as u128;
                if runs.is_none() {
                    if let Some(series) = &group.recurrence {
                        runs = Some(eligible_runs(series));
                    }
                }
            }
            index += 1;
        }
        assert(groups@.take(index as int) =~= groups@);
        if count == 0 {
            return None;
        }
        let mut summary = length_text(count);
        summary.append(" groups selected · ");
        append_wide_decimal(&mut summary, findings);
        summary.append(" findings · ");
        summary.append(length_text(count).as_str());
        summary.append(" representatives");
        let mut scope_runs = "".to_owned();
        if let Some(runs) = runs {
            scope_runs = " · ".to_owned();
            append_wide_decimal(&mut scope_runs, runs);
            scope_runs.append(" eligible runs in scope");
        }
        summary.append(scope_runs.as_str());
        Some(
            SelectionSummary {
                summary,
                can_open: count == 1,
                can_generate: self.can_generate_eval(unassigned_project_id),
                create_label: concat3(
                    "Create eval candidates from ",
                    length_text(count).as_str(),
                    " selected failure groups",
                ),
            },
        )
    }
}

/// What stands around the list of groups.
#[derive(Debug)]
pub struct GroupListView {
    /// What to do where the list is empty.
    pub empty: Option<EmptyListAction>,
    pub status: String,
    pub filters_label: String,
    pub filters_hint: String,
    pub filters_active: bool,
    pub organize_label: String,
    pub organize_active: bool,
    pub selection: Option<SelectionSummary>,
    /// How many groups are loaded, where more can be loaded.
    pub page_status: Option<String>,
    pub can_load_more: bool,
}

/// How many groups are loaded and selected.
pub open spec fn list_status(inbox: FailureInbox) -> Seq<char> {
    text::decimal(inbox.list.groups@.len()) + " of "@ + text::decimal(inbox.list.total as nat)
        + " groups loaded · "@ + text::decimal(inbox.selection@.selected.len()) + " selected"@ + (
    if inbox.list.loading {
        " · Updating…"@
    } else {
        ""@
    })
}

/// What the button that opens the filters says.
pub open spec fn filters_button(inbox: FailureInbox) -> Seq<char> {
    let count = super::filter_menu::set_filters(inbox.filters);
    if count == 0 {
        "Filters"@
    } else {
        "Filters · "@ + text::decimal(count)
    }
}

impl FailureInbox {
    /// What the button that opens the filters says.
    pub fn filters_label(&self) -> (label: String)
        ensures
            label@ == filters_button(*self),
    {
        let count = self.active_group_filter_count();
        if count == 0 {
            "Filters".to_owned()
        } else {
            concat2("Filters · ", length_text(count).as_str())
        }
    }

    /// What stands around the list of groups.
    pub fn render_group_list(&self, unassigned_project_id: &str) -> (view: GroupListView)
        requires
            self.wf(),
        ensures
            view.empty == (if self.list.groups@.len() == 0 {
                Some(empty_action(*self))
            } else {
                None
            }),
            view.status@ == list_status(*self),
            view.filters_label@ == filters_button(*self),
            view.filters_hint@ == "Open failure filters; "@ + text::decimal(
                super::filter_menu::set_filters(self.filters),
            ) + " active"@,
            view.filters_active == (super::filter_menu::set_filters(self.filters) > 0),
            view.organize_label@ == "Organize · "@ + self.preferences.current.sort.name(),
            view.organize_active == (self.preferences.current.sort != FailureInboxSort::Priority
                || self.preferences.active_saved_view_id is Some),
            ({
                let chosen = selected_groups(self.list.groups@, self.selection@.selected);
                &&& view.selection is Some <==> chosen.len() > 0
                &&& view.selection is Some ==> {
                    &&& view.selection->0.summary@ == selection_text(chosen)
                    &&& view.selection->0.can_open == (chosen.len() == 1)
                    &&& view.selection->0.can_generate == inspector::can_generate(
                        self.filters.scope,
                        unassigned_project_id@,
                    )
                    &&& view.selection->0.create_label@ == "Create eval candidates from "@
                        + text::decimal(chosen.len()) + " selected failure groups"@
                }
            }),
            view.page_status is Some <==> self.list.groups@.len() < self.list.total,
            view.page_status is Some ==> view.page_status->0@ == text::decimal(
                self.list.groups@.len(),
            ) + " of "@ + text::decimal(self.list.total as nat) + " failure groups loaded"@,
            view.can_load_more == !self.list.loading,
    {
        let count = self.active_group_filter_count();
        let busy = self.live.health.analysis_pending > 0 || self.live.health.analysis_running > 0;
        let empty = if self.list.groups.len() > 0 {
            None
        } else if self.has_active_group_filters() {
            Some(EmptyListAction::ResetFilters)
        } else if busy {
            Some(EmptyListAction::Wait)
        } else if self.live.run_count == 0 {
            Some(EmptyListAction::AddTraces)
        } else {
            Some(EmptyListAction::InspectRuns)
        };
        let loaded = concat2(length_text(self.list.groups.len()).as_str(), " of ");
        let mut status = loaded.clone();
        append_decimal(&mut status, self.list.total);
        status.append(" groups loaded · ");
        status.append(length_text(self.selection.selected.len()).as_str());
        status.append(" selected");
        status.append(
            if self.list.loading {
                " · Updating…"
            } else {
                ""
            },
        );
        let page_status = if (self.list.groups.len() as u64) < self.list.total {
            let mut page = loaded;
            append_decimal(&mut page, self.list.total);
            page.append(" failure groups loaded");
            Some(page)
        } else {
            None
        };
        GroupListView {
            empty,
            status,
            filters_label: self.filters_label(),
            filters_hint: concat3(
                "Open failure filters; ",
                length_text(count).as_str(),
                " active",
            ),
            filters_active: count > 0,
            organize_label: concat2("Organize · ", self.preferences.current.sort.label()),
            organize_active: self.preferences.current.sort != FailureInboxSort::Priority
                || self.preferences.active_saved_view_id.is_some(),
            selection: self.selection_summary(unassigned_project_id),
            page_status,
            can_load_more: !self.list.loading,
        }
    }
}

/// A line of a card, and its tint.
#[derive(Debug)]
pub struct TintedLine {
    pub line: String,
    pub tint: u32,
}

/// The content of a line of a card.
pub struct LineContent {
    pub line: Seq<char>,
    pub tint: u32,
}

impl View for TintedLine {
    type V = LineContent;

    open spec fn view(&self) -> LineContent {
        LineContent { line: self.line@, tint: self.tint }
    }
}

/// The contents of the lines of a card.
pub open spec fn lines(list: Seq<TintedLine>) -> Seq<LineContent> {
    list.map_values(|line: TintedLine| line@)
}

/// The lines below a diagnosis.
pub open spec fn presentation_lines(presentation: FailurePresentation) -> Seq<LineContent> {
    let caveat = match presentation.caveat {
        Some(caveat) => seq![LineContent { line: caveat@, tint: Theme::AMBER }],
        None => Seq::empty(),
    };
    seq![
        LineContent {
            line: "Expected · "@ + presentation.expected_behavior@,
            tint: Theme::MUTED,
        },
        LineContent {
            line: "Observed · "@ + presentation.observed_behavior@,
            tint: Theme::MUTED,
        },
        LineContent { line: presentation.recovery_summary@, tint: Theme::MUTED },
    ] + caveat + seq![
        LineContent { line: "Next · "@ + presentation.remediation_hint@, tint: Theme::CYAN },
    ]
}

/// The lines below a diagnosis.
pub fn presentation_lines_of(presentation: &FailurePresentation) -> (shown: Vec<TintedLine>)
    ensures
        lines(shown@) == presentation_lines(*presentation),
{
    let mut shown: Vec<TintedLine> = Vec::new();
    shown.push(
        TintedLine {
            line: concat2("Expected · ", presentation.expected_behavior.as_str()),
            tint: Theme::MUTED,
        },
    );
    shown.push(
        TintedLine {
            line: concat2("Observed · ", presentation.observed_behavior.as_str()),
            tint: Theme::MUTED,
        },
    );
    shown.push(
        TintedLine { line: presentation.recovery_summary.clone(), tint: Theme::MUTED },
    );
    if let Some(caveat) = &presentation.caveat {
        shown.push(TintedLine { line: caveat.clone(), tint: Theme::AMBER });
    }
    shown.push(
        TintedLine {
            line: concat2("Next · ", presentation.remediation_hint.as_str()),
            tint: Theme::CYAN,
        },
    );
    assert(lines(shown@) =~= presentation_lines(*presentation));
    shown
}

/// An optional text, or another one in its place.
pub open spec fn text_or(value: Option<String>, other: Seq<char>) -> Seq<char> {
    match value {
        Some(value) => value@,
        None => other,
    }
}

/// An optional text, or another one in its place.
pub fn or_text<'a>(value: &'a Option<String>, other: &'a str) -> (shown: &'a str)
    ensures
        shown@ == text_or(*value, other@),
{
    match value {
        Some(value) => value.as_str(),
        None => other,
    }
}

/// What is said of findings that resemble each other.
pub open spec fn cohort_text(cohort: SimilarityCohort) -> Seq<char> {
    cohort.cluster_id@ + " ("@ + text::decimal(cohort.member_count as nat) + " related, "@
        + text::decimal(cohort.novelty_count as nat) + " novel; "@ + cohort.method@ + "; "@
        + text_or(cohort.embedding_provider, "unknown"@) + " / "@ + text_or(
        cohort.embedding_model,
        "unknown"@,
    ) + ")"@
}

/// What is said of each cohort.
pub open spec fn cohort_texts(cohorts: Seq<SimilarityCohort>) -> Seq<Seq<char>> {
    cohorts.map_values(|cohort: SimilarityCohort| cohort_text(cohort))
}

fn cohort_texts_of(cohorts: &Vec<SimilarityCohort>) -> (shown: Vec<String>)
    ensures
        text::texts(shown@) == cohort_texts(cohorts@),
{
    let mut shown: Vec<String> = Vec::new();
    let ghost wanted = cohort_texts(cohorts@);
    let mut index: usize = 0;
    while index < cohorts.len()
        invariant
            index <= cohorts@.len(),
            wanted == cohort_texts(cohorts@),
            text::texts(shown@) == wanted.take(index as int),
        decreases cohorts@.len() - index,
    {
        let cohort = &cohorts[index];
        let ghost before = text::texts(shown@);
        let mut out = concat2(cohort.cluster_id.as_str(), " (");
        append_decimal(&mut out, cohort.member_count);
        out.append(" related, ");
        append_decimal(&mut out, cohort.novelty_count);
        out.append(" novel; ");
        out.append(cohort.method.as_str());
        out.append("; ");
        out.append(or_text(&cohort.embedding_provider, "unknown"));
        out.append(" / ");
        out.append(or_text(&cohort.embedding_model, "unknown"));
        out.append(")");
        shown.push(out);
        index += 1;
        proof {
            assert(text::texts(shown@) =~= before.push(wanted[index - 1]));
            assert(wanted.take(index as int) =~= wanted.take(index - 1).push(wanted[index - 1]));
        }
    }
    assert(wanted.take(index as int) =~= wanted);
    shown
}

/// The details of a group.
pub open spec fn group_details(detail: FailureGroupDetail) -> Seq<components::FactContent> {
    let entry = |label: Seq<char>, value: Seq<char>| components::fact(label, value, Theme::DIM);
    let cohorts = if detail.summary.feature_similarity_cohorts@.len() == 0 {
        Seq::empty()
    } else {
        seq![
            entry(
                "Feature similarity"@,
                text::joined(
                    cohort_texts(detail.summary.feature_similarity_cohorts@),
                    ", "@,
                ),
            ),
        ]
    };
    seq![
        entry("Failure signature"@, detail.summary.failure_signature@),
        entry("Detector"@, text::joined(text::texts(detail.detector_versions@), ", "@)),
        entry("Adapter"@, text::joined(text::texts(detail.adapter_versions@), ", "@)),
    ] + cohorts + seq![
        entry(
            "First / last"@,
            detail.summary.first_seen_at@ + "  →  "@ + detail.summary.last_seen_at@,
        ),
        entry(
            "Recovery"@,
            text::decimal(detail.summary.recovered_count as nat) + " recovered · "@
                + text::decimal(detail.summary.unrecovered_count as nat) + " unrecovered · "@
                + text::decimal(detail.summary.unknown_recovery_count as nat) + " unknown"@,
        ),
    ]
}

/// The details of a group.
pub fn group_details_of(detail: &FailureGroupDetail) -> (details: Vec<LabelledText>)
    ensures
        components::facts(details@) == group_details(*detail),
{
    let mut details: Vec<LabelledText> = Vec::new();
    details.push(kv("Failure signature", detail.summary.failure_signature.as_str()));
    let detectors = join(&detail.detector_versions, ", ");
    details.push(kv("Detector", detectors.as_str()));
    let adapters = join(&detail.adapter_versions, ", ");
    details.push(kv("Adapter", adapters.as_str()));
    if detail.summary.feature_similarity_cohorts.len() > 0 {
        let cohorts = join(&cohort_texts_of(&detail.summary.feature_similarity_cohorts), ", ");
        details.push(kv("Feature similarity", cohorts.as_str()));
    }
    let seen = concat3(
        detail.summary.first_seen_at.as_str(),
        "  →  ",
        detail.summary.last_seen_at.as_str(),
    );
    details.push(kv("First / last", seen.as_str()));
    let mut recovery = decimal_text(detail.summary.recovered_count);
    recovery.append(" recovered · ");
    append_decimal(&mut recovery, detail.summary.unrecovered_count);
    recovery.append(" unrecovered · ");
    append_decimal(&mut recovery, detail.summary.unknown_recovery_count);
    recovery.append(" unknown");
    details.push(kv("Recovery", recovery.as_str()));
    assert(components::facts(details@) =~= group_details(*detail));
    details
}

/// An example in the details of a group.
#[derive(Debug)]
pub struct OccurrenceView {
    pub finding_id: String,
    pub title: String,
    pub created_at: String,
    pub label: String,
    pub summary: String,
    pub selected: bool,
    pub background: u32,
    /// Whether the example is the base of a comparison.
    pub base: bool,
    /// Whether the example can be compared, where a comparison is being made.
    pub comparable: Option<bool>,
    pub compare_label: Option<&'static str>,
}

/// Why an example is worth a look.
pub open spec fn example_reason(recovery: RecoveryStatus) -> Seq<char> {
    match recovery {
        RecoveryStatus::Unrecovered => "Unrecovered example"@,
        RecoveryStatus::Recovered => "Recovered contrast"@,
        RecoveryStatus::Unknown => "Recovery needs review"@,
    }
}

/// Why an example is worth a look.
pub fn example_reason_of(recovery: RecoveryStatus) -> (reason: &'static str)
    ensures
        reason@ == example_reason(recovery),
{
    match recovery {
        RecoveryStatus::Unrecovered => "Unrecovered example",
        RecoveryStatus::Recovered => "Recovered contrast",
        RecoveryStatus::Unknown => "Recovery needs review",
    }
}

/// What is shown of an example in the details of its group.
pub open spec fn shows_occurrence(
    view: OccurrenceView,
    investigation: Investigation,
    occurrence: FailureOccurrence,
) -> bool {
    let finding_id = occurrence.finding.finding_id@;
    let build = text_or(occurrence.scope.criteria.build_id, "Unknown build"@);
    let session = text_or(occurrence.scope.criteria.session_id, "Unknown session"@);
    let reason = example_reason(occurrence.finding.recovery);
    let revision = text::decimal(occurrence.revision as nat);
    let selected = optional_text(investigation.finding_id) == Some(finding_id);
    &&& view.finding_id@ == finding_id
    &&& view.title@ == occurrence.run_title@
    &&& view.created_at@ == occurrence.finding.created_at@
    &&& view.label@ == occurrence.run_title@ + "; revision "@ + revision + "; build "@ + build
        + "; session "@ + session + "; "@ + reason + "; "@ + occurrence.analysis_status@
    &&& view.summary@ == "rev "@ + revision + " · "@ + build + " · "@ + session + " · "@ + reason
        + " · "@ + occurrence.analysis_status@
    &&& view.selected == selected
    &&& view.background == (if selected {
        Theme::SELECTED_SUBTLE
    } else {
        Theme::BG
    })
    &&& view.base == (optional_text(investigation.compare_base_finding_id) == Some(finding_id))
    &&& view.comparable == (if investigation.compare_base_finding_id is Some && !view.base {
        Some(
            match super::comparison::base_place(investigation) {
                Some(base) => super::comparison::comparable(
                    investigation.occurrences@[base],
                    occurrence,
                ),
                None => false,
            },
        )
    } else {
        None
    })
    &&& view.compare_label is Some <==> view.comparable is Some
    &&& view.compare_label is Some ==> view.compare_label->0@ == (if view.comparable->0 {
        "Compare this example with the current example"@
    } else {
        "This example belongs to the same trace revision and cannot be compared"@
    })
}

/// What is shown of the details of a group.
#[derive(Debug)]
pub struct GroupDetailView {
    pub title: String,
    pub subject: Option<String>,
    /// The diagnosis, or else the explanation of the group.
    pub diagnosis: String,
    /// What stands below the diagnosis, where there is one.
    pub lines: Vec<TintedLine>,
    pub details: Vec<LabelledText>,
    pub gap_warning: Option<&'static str>,
    pub occurrences: Vec<OccurrenceView>,
    pub range: String,
}

/// Which examples of a group are listed.
pub open spec fn range_text(investigation: Investigation, total: u64) -> Seq<char> {
    let first = if investigation.occurrences@.len() == 0 {
        0nat
    } else {
        (investigation.occurrence_offset + 1) as nat
    };
    "Showing examples "@ + text::decimal(first) + "–"@ + text::decimal(
        (investigation.occurrence_offset + investigation.occurrences@.len()) as nat,
    ) + " of "@ + text::decimal(total as nat)
        + ". Use the pinned controls in Evidence to move one example at a time."@
}

impl FailureInbox {
    fn occurrence_view(&self, occurrence: &FailureOccurrence) -> (view: OccurrenceView)
        ensures
            shows_occurrence(view, self.investigation, *occurrence),
    {
        let build = or_text(&occurrence.scope.criteria.build_id, "Unknown build");
        let session = or_text(&occurrence.scope.criteria.session_id, "Unknown session");
        let reason = example_reason_of(occurrence.finding.recovery);
        let revision = decimal_text(occurrence.revision);
        let selected = match &self.investigation.finding_id {
            Some(finding_id) => *finding_id == occurrence.finding.finding_id,
            None => false,
        };
        let base = self.is_comparison_base(occurrence.finding.finding_id.as_str());
        let mut label = concat2(occurrence.run_title.as_str(), "; revision ");
        label.append(revision.as_str());
        label.append("; build ");
        label.append(build);
        label.append("; session ");
        label.append(session);
        label.append("; ");
        label.append(reason);
        label.append("; ");
        label.append(occurrence.analysis_status.as_str());
        let mut summary = concat2("rev ", revision.as_str());
        summary.append(" · ");
        summary.append(build);
        summary.append(" · ");
        summary.append(session);
        summary.append(" · ");
        summary.append(reason);
        summary.append(" · ");
        summary.append(occurrence.analysis_status.as_str());
        let comparable = if self.investigation.compare_base_finding_id.is_some() && !base {
            Some(self.is_compatible_comparison_target(occurrence))
        } else {
            None
        };
        OccurrenceView {
            finding_id: occurrence.finding.finding_id.clone(),
            title: occurrence.run_title.clone(),
            created_at: occurrence.finding.created_at.clone(),
            label,
            summary,
            selected,
            background: if selected {
                Theme::SELECTED_SUBTLE
            } else {
                Theme::BG
            },
            base,
            comparable,
            compare_label: match comparable {
                Some(true) => Some("Compare this example with the current example"),
                Some(false) => Some(
                    "This example belongs to the same trace revision and cannot be compared",
                ),
                None => None,
            },
        }
    }

    fn occurrence_views(&self) -> (views: Vec<OccurrenceView>)
        ensures
            views@.len() == self.investigation.occurrences@.len(),
            forall|i: int|
                0 <= i < views@.len() ==> shows_occurrence(
                    #[trigger] views@[i],
                    self.investigation,
                    self.investigation.occurrences@[i],
                ),
    {
        let mut views: Vec<OccurrenceView> = Vec::new();
        let mut index: usize = 0;
        while index < self.investigation.occurrences.len()
            invariant
                index <= self.investigation.occurrences@.len(),
                views@.len() == index,
                forall|i: int|
                    0 <= i < views@.len() ==> shows_occurrence(
                        #[trigger] views@[i],
                        self.investigation,
                        self.investigation.occurrences@[i],
                    ),
            decreases self.investigation.occurrences@.len() - index,
        {
            views.push(self.occurrence_view(&self.investigation.occurrences[index]));
            index += 1;
        }
        views
    }

    /// The heading of the details of a group.
    pub fn group_detail_heading(&self) -> (heading: &'static str)
        ensures
            heading@ == (if self.investigation.compare_base_finding_id is Some {
                "CHOOSE AN EXAMPLE TO COMPARE"@
            } else {
                "FAILURE DETAILS & EXAMPLES"@
            }),
    {
        if self.investigation.compare_base_finding_id.is_some() {
            "CHOOSE AN EXAMPLE TO COMPARE"
        } else {
            "FAILURE DETAILS & EXAMPLES"
        }
    }

    /// What is shown of the details of the group, where one is chosen.
    pub fn render_group_detail(&self) -> (view: Option<GroupDetailView>)
        requires
            self.investigation.occurrence_offset + self.investigation.occurrences@.len()
                <= u64::MAX,
        ensures
            match (self.investigation.group, view) {
                (None, None) => true,
                (Some(detail), Some(view)) => {
                    &&& view.title@ == group_title(detail.summary)
                    &&& optional_text(view.subject) == group_subject(detail.summary)
                    &&& match detail.summary.presentation {
                        Some(presentation) => {
                            &&& view.diagnosis@ == presentation.diagnosis@
                            &&& lines(view.lines@) == presentation_lines(presentation)
                        },
                        None => view.diagnosis@ == detail.explanation@ && view.lines@.len() == 0,
                    }
                    &&& components::facts(view.details@) == group_details(detail)
                    &&& view.gap_warning is Some <==> detail.telemetry_gaps@.len() > 0
                    &&& view.gap_warning is Some ==> view.gap_warning->0@
                        == "⚠ Retry safety and state verification were not reported. This finding may require human review."@
                    &&& view.occurrences@.len() == self.investigation.occurrences@.len()
                    &&& forall|i: int|
                        0 <= i < view.occurrences@.len() ==> shows_occurrence(
                            #[trigger] view.occurrences@[i],
                            self.investigation,
                            self.investigation.occurrences@[i],
                        )
                    &&& view.range@ == range_text(
                        self.investigation,
                        detail.summary.occurrence_count,
                    )
                },
                _ => false,
            },
    {
        let detail = match &self.investigation.group {
            Some(detail) => detail,
            None => {
                return None;
            },
        };
        let (diagnosis, shown) = match &detail.summary.presentation {
            Some(presentation) => (
                presentation.diagnosis.clone(),
                presentation_lines_of(presentation),
            ),
            None => (detail.explanation.clone(), Vec::new()),
        };
        let loaded: u64 = self.investigation.occurrences.len() as u64;
        let first: u64 = if loaded == 0 {
            0
        } else {
            self.investigation.occurrence_offset + 1
        };
        let mut range = concat3("Showing examples ", decimal_text(first).as_str(), "–");
        append_decimal(&mut range, self.investigation.occurrence_offset + loaded);
        range.append(" of ");
        append_decimal(&mut range, detail.summary.occurrence_count);
        range.append(". Use the pinned controls in Evidence to move one example at a time.");
        Some(
            GroupDetailView {
                title: group_title_of(&detail.summary),
                subject: group_subject_of(&detail.summary),
                diagnosis,
                lines: shown,
                details: group_details_of(detail),
                gap_warning: if detail.telemetry_gaps.len() > 0 {
                    Some(
                        "⚠ Retry safety and state verification were not reported. This finding may require human review.",
                    )
                } else {
                    None
                },
                occurrences: self.occurrence_views(),
                range,
            },
        )
    }
}

/// A hash is shown by its first twelve digits, without the name of its kind.
pub proof fn hashes_are_shown_by_twelve_digits(digits: Seq<char>)
    requires
        forall|i: int| 0 <= i < digits.len() ==> (#[trigger] digits[i]) as u32 <= 0x7f,
    ensures
        digits.len() > 12 ==> shortened_hash("sha256:"@ + digits) == digits.take(12),
        digits.len() <= 12 ==> shortened_hash("sha256:"@ + digits) == digits,
        !"sha256:"@.is_prefix_of(digits) && digits.len() > 12 ==> shortened_hash(digits)
            == digits.take(12),
{
    let whole = "sha256:"@ + digits;
    assert("sha256:"@.is_prefix_of(whole)) by {
        assert(whole.take("sha256:"@.len() as int) =~= "sha256:"@);
    }
    assert(whole.skip("sha256:"@.len() as int) =~= digits);
    offsets::plain_texts_are_cut_to_the_limit(digits, 12);
}

/// A group is titled by its presentation, and else by its first detector; its
/// subject is the operation where one is known.
pub proof fn groups_are_titled_by_their_presentation(group: FailureGroupSummary)
    ensures
        group.presentation is Some ==> group_title(group) == group.presentation->0.title@,
        group.presentation is None && group.detector_ids@.len() > 0 ==> group_title(group)
            == components::humanized(group.detector_ids@[0]@),
        group.presentation is None && group.detector_ids@.len() == 0 ==> group_title(group)
            == components::humanized("failure"@),
        group.operation is Some ==> group_subject(group) == Some(group.operation->0@),
        group.operation is None && group.subject is Some ==> group_subject(group) == Some(
            group.subject->0@,
        ),
        group.operation is None && group.subject is None ==> group_subject(group) is None,
        group_label(group) == group_title(group) + "; "@ + group.severity.name() + "; "@
            + text::decimal(group.occurrence_count as nat) + " examples; "@ + text::decimal(
            (group.unrecovered_count + group.unknown_recovery_count) as nat,
        ) + " unresolved; "@ + timestamps::shown_timestamp(group.last_seen_at@),
{
}

/// A row shows its group's counts, and whether it is focused and selected.
pub proof fn rows_show_focus_and_selection(
    view: GroupRowView,
    inbox: FailureInbox,
    group: FailureGroupSummary,
    index: nat,
    compact: bool,
    unassigned_project_id: Seq<char>,
)
    requires
        shows_group(view, inbox, group, index, compact, unassigned_project_id),
    ensures
        view.title@ == group_title(group),
        view.severity@ == group.severity.name(),
        view.unresolved@ == text::decimal(
            (group.unrecovered_count + group.unknown_recovery_count) as nat,
        ) + " unresolved"@,
        view.review@ == text::decimal(group.unreviewed_count as nat) + " unreviewed · "@
            + text::decimal(group.dismissed_count as nat) + " dismissed"@,
        compact ==> view.examples@ == text::decimal(group.occurrence_count as nat) + " examples"@,
        !compact ==> view.examples@ == text::decimal(group.occurrence_count as nat),
        view.focused <==> inbox.selection@.focused == Some((group.project_id@, group.group_id@)),
        view.selected <==> inbox.selection@.selected.contains(group.group_id@),
        view.selectable <==> inbox.filters.scope.criteria.project_id is Some
            && inbox.filters.scope.criteria.project_id->0@ != unassigned_project_id,
        view.selected ==> view.box_mark@ == "✓"@ && view.box_fill == Theme::CYAN,
        !view.selected ==> view.box_mark@.len() == 0 && view.box_fill == Theme::BG,
        view.focused ==> view.background == Theme::PANEL_ALT,
        !view.focused ==> view.background == Theme::PANEL,
        view.position == index + 1,
        view.last_seen@ == timestamps::shown_timestamp(group.last_seen_at@),
        view.investigate_label@ == "Investigate "@ + group_title(group),
{
    reveal_strlit("");
}

/// An empty list says why it is empty and what can be done: filters can be
/// reset, analysis waited for, traces added or runs inspected.
pub proof fn empty_lists_say_what_can_be_done(inbox: FailureInbox)
    ensures
        super::filter_menu::set_filters(inbox.filters) > 0 ==> empty_action(inbox)
            == EmptyListAction::ResetFilters,
        super::filter_menu::set_filters(inbox.filters) == 0 && (inbox.live.health.analysis_pending
            > 0 || inbox.live.health.analysis_running > 0) ==> empty_action(inbox)
            == EmptyListAction::Wait,
        super::filter_menu::set_filters(inbox.filters) == 0 && inbox.live.health.analysis_pending
            == 0 && inbox.live.health.analysis_running == 0 ==> {
            &&& inbox.live.run_count == 0 ==> empty_action(inbox) == EmptyListAction::AddTraces
            &&& inbox.live.run_count > 0 ==> empty_action(inbox) == EmptyListAction::InspectRuns
        },
        empty_message(EmptyListAction::ResetFilters)
            == "No failure groups match the current filters."@,
        empty_message(EmptyListAction::Wait)
            == "Finalized traces are being analyzed. Groups will appear here."@,
        empty_message(EmptyListAction::AddTraces)
            == "No traces have arrived in this scope yet."@,
        empty_offer(EmptyListAction::ResetFilters) == Some(
            ("Reset filters"@, "Reset failure filters"@),
        ),
        empty_offer(EmptyListAction::AddTraces) == Some(
            ("Add traces"@, "Open Sources to add traces"@),
        ),
        empty_offer(EmptyListAction::InspectRuns) == Some(
            ("Inspect runs"@, "Inspect analyzed runs"@),
        ),
        empty_offer(EmptyListAction::Wait) is None,
{
}

/// The chosen groups are those of the list that are selected, in the order of
/// the list, and their findings are added up.
pub proof fn chosen_groups_keep_the_order_of_the_list(
    groups: Seq<FailureGroupSummary>,
    group: FailureGroupSummary,
    selected: Set<Seq<char>>,
)
    ensures
        selected_groups(Seq::empty(), selected).len() == 0,
        selected.contains(group.group_id@) ==> selected_groups(groups.push(group), selected)
            == selected_groups(groups, selected).push(group),
        !selected.contains(group.group_id@) ==> selected_groups(groups.push(group), selected)
            == selected_groups(groups, selected),
        occurrence_sum(Seq::empty()) == 0,
        occurrence_sum(groups.push(group)) == occurrence_sum(groups) + group.occurrence_count,
        first_eligible_runs(Seq::empty()) is None,
        first_eligible_runs(groups) is Some ==> first_eligible_runs(groups.push(group))
            == first_eligible_runs(groups),
        first_eligible_runs(groups) is None && group.recurrence is None ==> first_eligible_runs(
            groups.push(group),
        ) is None,
        first_eligible_runs(groups) is None && group.recurrence is Some ==> first_eligible_runs(
            groups.push(group),
        ) == Some(components::eligible_runs(group.recurrence->0.buckets@)),
{
    assert(groups.push(group).drop_last() =~= groups);
    if group.recurrence is Some {
        components::runs_are_added_up(group.recurrence->0.buckets@);
    }
}

/// The selection is told by its groups, findings and representatives, and by
/// the eligible runs where they are known; the list by what is loaded and
/// selected, and whether it is being updated.
pub proof fn selections_are_told_by_their_counts(
    chosen: Seq<FailureGroupSummary>,
    inbox: FailureInbox,
)
    ensures
        first_eligible_runs(chosen) is None ==> selection_text(chosen) == text::decimal(
            chosen.len(),
        ) + " groups selected · "@ + text::decimal(occurrence_sum(chosen)) + " findings · "@
            + text::decimal(chosen.len()) + " representatives"@,
        first_eligible_runs(chosen) is Some ==> selection_text(chosen) == text::decimal(
            chosen.len(),
        ) + " groups selected · "@ + text::decimal(occurrence_sum(chosen)) + " findings · "@
            + text::decimal(chosen.len()) + " representatives"@ + (" · "@ + text::decimal(
            first_eligible_runs(chosen)->0,
        ) + " eligible runs in scope"@),
        inbox.list.loading ==> list_status(inbox) == text::decimal(inbox.list.groups@.len())
            + " of "@ + text::decimal(inbox.list.total as nat) + " groups loaded · "@
            + text::decimal(inbox.selection@.selected.len()) + " selected"@ + " · Updating…"@,
        !inbox.list.loading ==> list_status(inbox) == text::decimal(inbox.list.groups@.len())
            + " of "@ + text::decimal(inbox.list.total as nat) + " groups loaded · "@
            + text::decimal(inbox.selection@.selected.len()) + " selected"@,
        super::filter_menu::set_filters(inbox.filters) == 0 ==> filters_button(inbox)
            == "Filters"@,
        super::filter_menu::set_filters(inbox.filters) > 0 ==> filters_button(inbox)
            == "Filters · "@ + text::decimal(super::filter_menu::set_filters(inbox.filters)),
{
    reveal_strlit("");
    let told = text::decimal(chosen.len()) + " groups selected · "@ + text::decimal(
        occurrence_sum(chosen),
    ) + " findings · "@ + text::decimal(chosen.len()) + " representatives"@;
    assert(told + ""@ =~= told);
    let status = text::decimal(inbox.list.groups@.len()) + " of "@ + text::decimal(
        inbox.list.total as nat,
    ) + " groups loaded · "@ + text::decimal(inbox.selection@.selected.len()) + " selected"@;
    assert(status + ""@ =~= status);
}

/// A presentation is told by what was expected and observed, the recovery, a
/// caveat where there is one, and what to do next.
pub proof fn presentations_end_with_the_remedy(presentation: FailurePresentation)
    ensures
        ({
            let list = presentation_lines(presentation);
            &&& list.len() == (if presentation.caveat is Some {
                5int
            } else {
                4
            })
            &&& list[0] == (LineContent {
                line: "Expected · "@ + presentation.expected_behavior@,
                tint: Theme::MUTED,
            })
            &&& list[1] == (LineContent {
                line: "Observed · "@ + presentation.observed_behavior@,
                tint: Theme::MUTED,
            })
            &&& list[2] == (LineContent {
                line: presentation.recovery_summary@,
                tint: Theme::MUTED,
            })
            &&& presentation.caveat is Some ==> list[3] == (LineContent {
                line: presentation.caveat->0@,
                tint: Theme::AMBER,
            })
            &&& list.last() == (LineContent {
                line: "Next · "@ + presentation.remediation_hint@,
                tint: Theme::CYAN,
            })
        }),
{
}

/// A group's details hold its signature, versions, cohorts where there are any,
/// its first and last time, and how many recovered.
pub proof fn details_count_recoveries(detail: FailureGroupDetail)
    ensures
        ({
            let list = group_details(detail);
            let cohorts = if detail.summary.feature_similarity_cohorts@.len() > 0 {
                1int
            } else {
                0
            };
            &&& list.len() == 5 + cohorts
            &&& list[0] == components::fact(
                "Failure signature"@,
                detail.summary.failure_signature@,
                Theme::DIM,
            )
            &&& list[1] == components::fact(
                "Detector"@,
                text::joined(text::texts(detail.detector_versions@), ", "@),
                Theme::DIM,
            )
            &&& list[2] == components::fact(
                "Adapter"@,
                text::joined(text::texts(detail.adapter_versions@), ", "@),
                Theme::DIM,
            )
            &&& list[3 + cohorts] == components::fact(
                "First / last"@,
                detail.summary.first_seen_at@ + "  →  "@ + detail.summary.last_seen_at@,
                Theme::DIM,
            )
            &&& list[4 + cohorts] == components::fact(
                "Recovery"@,
                text::decimal(detail.summary.recovered_count as nat) + " recovered · "@
                    + text::decimal(detail.summary.unrecovered_count as nat)
                    + " unrecovered · "@ + text::decimal(
                    detail.summary.unknown_recovery_count as nat,
                ) + " unknown"@,
                Theme::DIM,
            )
        }),
        example_reason(RecoveryStatus::Unrecovered) == "Unrecovered example"@,
        example_reason(RecoveryStatus::Recovered) == "Recovered contrast"@,
        example_reason(RecoveryStatus::Unknown) == "Recovery needs review"@,
{
}

/// A cohort is told by its cluster, how many are related and novel, and how it
/// was found.
pub proof fn cohorts_are_told_by_their_members(cohort: SimilarityCohort)
    ensures
        cohort.embedding_provider is Some && cohort.embedding_model is Some ==> cohort_text(cohort)
            == cohort.cluster_id@ + " ("@ + text::decimal(cohort.member_count as nat)
            + " related, "@ + text::decimal(cohort.novelty_count as nat) + " novel; "@
            + cohort.method@ + "; "@ + cohort.embedding_provider->0@ + " / "@
            + cohort.embedding_model->0@ + ")"@,
        cohort.embedding_provider is None && cohort.embedding_model is None ==> cohort_text(cohort)
            == cohort.cluster_id@ + " ("@ + text::decimal(cohort.member_count as nat)
            + " related, "@ + text::decimal(cohort.novelty_count as nat) + " novel; "@
            + cohort.method@ + "; "@ + "unknown"@ + " / "@ + "unknown"@ + ")"@,
{
}

/// An example can be compared with the marked one where both are of one scope
/// and different runs; the marked one itself is not offered.
pub proof fn examples_are_offered_for_comparison(
    view: OccurrenceView,
    investigation: Investigation,
    occurrence: FailureOccurrence,
)
    requires
        shows_occurrence(view, investigation, occurrence),
    ensures
        view.title@ == occurrence.run_title@,
        view.finding_id@ == occurrence.finding.finding_id@,
        view.selected <==> investigation.finding_id is Some && investigation.finding_id->0@
            == occurrence.finding.finding_id@,
        view.base <==> investigation.compare_base_finding_id is Some
            && investigation.compare_base_finding_id->0@ == occurrence.finding.finding_id@,
        view.comparable is Some <==> investigation.compare_base_finding_id is Some && !view.base,
        view.comparable is Some && super::comparison::base_place(investigation) is None
            ==> view.comparable == Some(false),
        view.comparable is Some && super::comparison::base_place(investigation) is Some
            ==> view.comparable == Some(
            super::comparison::comparable(
                investigation.occurrences@[super::comparison::base_place(investigation)->0],
                occurrence,
            ),
        ),
        view.comparable == Some(true) ==> view.compare_label->0@
            == "Compare this example with the current example"@,
        view.comparable == Some(false) ==> view.compare_label->0@
            == "This example belongs to the same trace revision and cannot be compared"@,
        view.selected ==> view.background == Theme::SELECTED_SUBTLE,
        !view.selected ==> view.background == Theme::BG,
        occurrence.scope.criteria.build_id is Some && occurrence.scope.criteria.session_id is Some
            ==> view.summary@ == "rev "@ + text::decimal(occurrence.revision as nat) + " · "@
            + occurrence.scope.criteria.build_id->0@ + " · "@
            + occurrence.scope.criteria.session_id->0@ + " · "@ + example_reason(
            occurrence.finding.recovery,
        ) + " · "@ + occurrence.analysis_status@,
        occurrence.scope.criteria.build_id is None && occurrence.scope.criteria.session_id is None
            ==> view.summary@ == "rev "@ + text::decimal(occurrence.revision as nat) + " · "@
            + "Unknown build"@ + " · "@ + "Unknown session"@ + " · "@ + example_reason(
            occurrence.finding.recovery,
        ) + " · "@ + occurrence.analysis_status@,
{
}

/// The range counts the examples from one on, and none are from nothing to
/// nothing.
pub proof fn ranges_count_from_one(investigation: Investigation, total: u64)
    ensures
        investigation.occurrences@.len() > 0 ==> range_text(investigation, total)
            == "Showing examples "@ + text::decimal((investigation.occurrence_offset + 1) as nat)
            + "–"@ + text::decimal(
            (investigation.occurrence_offset + investigation.occurrences@.len()) as nat,
        ) + " of "@ + text::decimal(total as nat)
            + ". Use the pinned controls in Evidence to move one example at a time."@,
        investigation.occurrences@.len() == 0 ==> range_text(investigation, total)
            == "Showing examples "@ + text::decimal(0) + "–"@ + text::decimal(
            investigation.occurrence_offset as nat,
        ) + " of "@ + text::decimal(total as nat)
            + ". Use the pinned controls in Evidence to move one example at a time."@,
{
}

/// What is spoken of a group names what it selects, a list without actionable
/// groups points to the runs, and an example names its run, build and session.
pub proof fn spoken_labels_name_their_subject(
    view: GroupRowView,
    inbox: FailureInbox,
    group: FailureGroupSummary,
    index: nat,
    compact: bool,
    unassigned_project_id: Seq<char>,
)
    requires
        shows_group(view, inbox, group, index, compact, unassigned_project_id),
    ensures
        compact ==> view.select_label@ == "Select "@ + group_title(group)
            + " for eval generation"@,
        !compact ==> view.select_label@ == "Select "@ + detector_title(group)
            + " for eval generation"@,
        group.detector_ids@.len() > 0 ==> detector_title(group) == components::humanized(
            group.detector_ids@[0]@,
        ),
        view.label@ == group_label(group),
        empty_message(EmptyListAction::InspectRuns)
            == "No actionable groups. Error spans remain in Runs when requiredness or final-outcome evidence is missing; open a run to review its telemetry gaps."@,
{
}

/// An example is told aloud by its run, revision, build, session, reason and
/// analysis.
pub proof fn examples_are_told_aloud(
    view: OccurrenceView,
    investigation: Investigation,
    occurrence: FailureOccurrence,
)
    requires
        shows_occurrence(view, investigation, occurrence),
        occurrence.scope.criteria.build_id is Some,
        occurrence.scope.criteria.session_id is Some,
    ensures
        view.label@ == occurrence.run_title@ + "; revision "@ + text::decimal(
            occurrence.revision as nat,
        ) + "; build "@ + occurrence.scope.criteria.build_id->0@ + "; session "@
            + occurrence.scope.criteria.session_id->0@ + "; "@ + example_reason(
            occurrence.finding.recovery,
        ) + "; "@ + occurrence.analysis_status@,
        view.created_at@ == occurrence.finding.created_at@,
{
}

/// The cohorts of a group are listed with all that is known of them.
pub proof fn cohorts_are_listed(detail: FailureGroupDetail)
    requires
        detail.summary.feature_similarity_cohorts@.len() > 0,
    ensures
        group_details(detail)[3] == components::fact(
            "Feature similarity"@,
            text::joined(cohort_texts(detail.summary.feature_similarity_cohorts@), ", "@),
            Theme::DIM,
        ),
        cohort_texts(detail.summary.feature_similarity_cohorts@).len()
            == detail.summary.feature_similarity_cohorts@.len(),
        cohort_texts(detail.summary.feature_similarity_cohorts@)[0] == cohort_text(
            detail.summary.feature_similarity_cohorts@[0],
        ),
{
}

} // verus!
