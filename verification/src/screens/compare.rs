//! Comparing two runs step by step.

use super::failure_inbox::components::{self, milliseconds_text};
use super::failure_inbox::model::{copy_optional, optional_text, QueryScopeCriteriaV1, QueryScopeV1};
use super::failure_inbox::state::{self, following_request, RunComparisonRequestV1};
use crate::design::tokens::Theme;
use crate::offsets::{self, leading_bytes_of};
use crate::text::{
    self, append_decimal, concat2, concat3, decimal_text, length_text, signed_text,
    uppercase_text,
};
use vstd::prelude::*;
use vstd::string::*;

verus! {

/// How two steps are related.
#[derive(Debug, Clone, Copy, PartialEq, Eq, Structural)]
pub enum AlignmentRelation {
    Exact,
    Equivalent,
    Changed,
    BaselineOnly,
    CandidateOnly,
}

impl AlignmentRelation {
    /// The name of the relation.
    pub open spec fn name(self) -> Seq<char> {
        match self {
            AlignmentRelation::Exact => "Exact"@,
            AlignmentRelation::Equivalent => "Equivalent"@,
            AlignmentRelation::Changed => "Changed"@,
            AlignmentRelation::BaselineOnly => "BaselineOnly"@,
            AlignmentRelation::CandidateOnly => "CandidateOnly"@,
        }
    }

    /// The name of the relation.
    pub fn label(self) -> (label: &'static str)
        ensures
            label@ == self.name(),
    {
        match self {
            AlignmentRelation::Exact => "Exact",
            AlignmentRelation::Equivalent => "Equivalent",
            AlignmentRelation::Changed => "Changed",
            AlignmentRelation::BaselineOnly => "BaselineOnly",
            AlignmentRelation::CandidateOnly => "CandidateOnly",
        }
    }

    /// What the relation is shown as, and its tint.
    pub open spec fn mark(self) -> (Seq<char>, u32) {
        match self {
            AlignmentRelation::Exact => ("EXACT"@, Theme::GREEN),
            AlignmentRelation::Equivalent => ("EQUIVALENT"@, Theme::GREEN),
            AlignmentRelation::Changed => ("CHANGED"@, Theme::AMBER),
            AlignmentRelation::BaselineOnly => ("REMOVED"@, Theme::RED),
            AlignmentRelation::CandidateOnly => ("ADDED"@, Theme::CYAN),
        }
    }
}

/// What a relation is shown as.
pub fn relation_label(relation: AlignmentRelation) -> (label: &'static str)
    ensures
        label@ == relation.mark().0,
        relation == AlignmentRelation::Exact ==> label@ == "EXACT"@,
        relation == AlignmentRelation::Equivalent ==> label@ == "EQUIVALENT"@,
        relation == AlignmentRelation::Changed ==> label@ == "CHANGED"@,
        relation == AlignmentRelation::BaselineOnly ==> label@ == "REMOVED"@,
        relation == AlignmentRelation::CandidateOnly ==> label@ == "ADDED"@,
{
    match relation {
        AlignmentRelation::Exact => "EXACT",
        AlignmentRelation::Equivalent => "EQUIVALENT",
        AlignmentRelation::Changed => "CHANGED",
        AlignmentRelation::BaselineOnly => "REMOVED",
        AlignmentRelation::CandidateOnly => "ADDED",
    }
}

/// The tint of a relation.
pub fn relation_tint(relation: AlignmentRelation) -> (tint: u32)
    ensures
        tint == relation.mark().1,
{
    match relation {
        AlignmentRelation::Exact | AlignmentRelation::Equivalent => Theme::GREEN,
        AlignmentRelation::Changed => Theme::AMBER,
        AlignmentRelation::BaselineOnly => Theme::RED,
        AlignmentRelation::CandidateOnly => Theme::CYAN,
    }
}

/// The start of an identity.
pub fn short_id(value: &str) -> (short: &str)
    ensures
        short@ == offsets::leading_bytes(value@, 14),
{
    leading_bytes_of(value, 14)
}

/// A step of a run.
#[derive(Debug)]
pub struct ExecutionStep {
    pub name: String,
    pub kind: String,
    pub status_code: i32,
    pub duration_nano: u64,
    pub agent_ref: Option<String>,
}

/// A pair of aligned steps.
#[derive(Debug)]
pub struct AlignmentRow {
    pub relation: AlignmentRelation,
    pub baseline: Option<ExecutionStep>,
    pub candidate: Option<ExecutionStep>,
    pub reason: Option<String>,
}

/// The comparison of two runs.
#[derive(Debug)]
pub struct TraceComparison {
    pub comparison_id: String,
    pub project_id: String,
    pub baseline_trace_id: String,
    pub baseline_revision: u64,
    pub candidate_trace_id: String,
    pub candidate_revision: u64,
    pub common_prefix_steps: u64,
    /// Why the runs diverge, where they do.
    pub divergence_reason: Option<String>,
    pub rows: Vec<AlignmentRow>,
    pub truncated: bool,
}

/// What the screen tells the workbench.
#[derive(Debug)]
pub enum CompareEvent {
    ComparisonReady { project_id: String, comparison_id: String },
    OpenRuns,
}

/// What the screen shows.
#[derive(Debug)]
pub enum CompareState {
    Setup,
    Loading(RunComparisonRequestV1),
    Result(TraceComparison),
    Error { request: Option<RunComparisonRequestV1>, message: String },
}

/// The screen that compares two runs.
#[derive(Debug)]
pub struct CompareScreen {
    pub state: CompareState,
    pub request_generation: u64,
    pub selected_row: Option<usize>,
    /// Whether a comparison is at work that can be cancelled.
    pub comparing: bool,
}

/// A comparison to look up.
#[derive(Debug)]
pub struct ComparisonLookup {
    pub generation: u64,
    pub comparison_id: String,
}

impl CompareScreen {
    /// A screen without a comparison.
    pub fn new() -> (screen: Self)
        ensures
            screen == (CompareScreen {
                state: CompareState::Setup,
                request_generation: 0,
                selected_row: None,
                comparing: false,
            }),
    {
        CompareScreen {
            state: CompareState::Setup,
            request_generation: 0,
            selected_row: None,
            comparing: false,
        }
    }

    /// Drops the comparison; the result says whether one at work is to be
    /// cancelled.
    pub fn show_setup(&mut self) -> (cancels: bool)
        ensures
            cancels == old(self).comparing,
            *final(self) == (CompareScreen {
                state: CompareState::Setup,
                request_generation: state::next_request(old(self).request_generation),
                selected_row: None,
                comparing: false,
            }),
    {
        let cancels = self.cancel_current_comparison();
        self.request_generation = following_request(self.request_generation);
        self.state = CompareState::Setup;
        self.selected_row = None;
        cancels
    }

    /// Stops the comparison at work; the result says whether there is one.
    pub fn cancel_current_comparison(&mut self) -> (cancels: bool)
        ensures
            cancels == old(self).comparing,
            *final(self) == (CompareScreen { comparing: false, ..*old(self) }),
    {
        let cancels = self.comparing;
        self.comparing = false;
        cancels
    }

    /// Starts to compare two runs; the result is the number of the request,
    /// and whether an earlier comparison is to be cancelled.
    pub fn compare(&mut self, request: RunComparisonRequestV1) -> (started: (u64, bool))
        ensures
            started.0 == state::next_request(old(self).request_generation),
            started.1 == old(self).comparing,
            *final(self) == (CompareScreen {
                state: CompareState::Loading(request),
                request_generation: started.0,
                selected_row: None,
                comparing: true,
            }),
    {
        let cancels = self.cancel_current_comparison();
        self.request_generation = following_request(self.request_generation);
        self.state = CompareState::Loading(request);
        self.selected_row = None;
        self.comparing = true;
        (self.request_generation, cancels)
    }

    /// Takes a comparison, or why there is none. An answer to an earlier
    /// request changes nothing.
    pub fn finish_compare(
        &mut self,
        generation: u64,
        request: RunComparisonRequestV1,
        answer: Result<TraceComparison, String>,
    ) -> (event: Option<CompareEvent>)
        ensures
            generation != old(self).request_generation ==> *final(self) == *old(self) && event
                is None,
            generation == old(self).request_generation ==> match answer {
                Ok(comparison) => {
                    &&& *final(self) == (CompareScreen {
                        state: CompareState::Result(comparison),
                        comparing: false,
                        ..*old(self)
                    })
                    &&& event == Some(
                        CompareEvent::ComparisonReady {
                            project_id: comparison.project_id,
                            comparison_id: comparison.comparison_id,
                        },
                    )
                },
                Err(message) => {
                    &&& *final(self) == (CompareScreen {
                        state: CompareState::Error { request: Some(request), message },
                        comparing: false,
                        ..*old(self)
                    })
                    &&& event is None
                },
            },
    {
        if generation != self.request_generation {
            return None;
        }
        self.comparing = false;
        match answer {
            Ok(comparison) => {
                let event = CompareEvent::ComparisonReady {
                    project_id: comparison.project_id.clone(),
                    comparison_id: comparison.comparison_id.clone(),
                };
                self.state = CompareState::Result(comparison);
                Some(event)
            },
            Err(message) => {
                self.state = CompareState::Error { request: Some(request), message };
                None
            },
        }
    }

    /// Whether a comparison is shown.
    pub open spec fn shows(self, comparison_id: Seq<char>) -> bool {
        match self.state {
            CompareState::Result(result) => result.comparison_id@ == comparison_id,
            _ => false,
        }
    }

    /// Looks an earlier comparison up, unless it is shown. The result also
    /// says whether a comparison at work is to be cancelled.
    pub fn show_comparison(&mut self, comparison_id: String) -> (lookup: Option<
        (ComparisonLookup, bool),
    >)
        ensures
            old(self).shows(comparison_id@) ==> *final(self) == *old(self) && lookup is None,
            !old(self).shows(comparison_id@) ==> {
                &&& lookup == Some(
                    (
                        ComparisonLookup {
                            generation: state::next_request(old(self).request_generation),
                            comparison_id,
                        },
                        old(self).comparing,
                    ),
                )
                &&& *final(self) == (CompareScreen {
                    state: final(self).state,
                    request_generation: state::next_request(old(self).request_generation),
                    comparing: false,
                    ..*old(self)
                })
                &&& match final(self).state {
                    CompareState::Loading(request) => {
                        &&& request.scope.criteria == QueryScopeCriteriaV1::unlimited()
                        &&& request.baseline_trace_id@.len() == 0
                        &&& request.baseline_revision == 0
                        &&& request.candidate_trace_id@.len() == 0
                        &&& request.candidate_revision == 0
                    },
                    _ => false,
                }
            },
    {
        let shown = match &self.state {
            CompareState::Result(result) => result.comparison_id == comparison_id,
            _ => false,
        };
        if shown {
            return None;
        }
        let cancels = self.cancel_current_comparison();
        self.request_generation = following_request(self.request_generation);
        self.state =
        CompareState::Loading(
            RunComparisonRequestV1 {
                scope: QueryScopeV1::new(QueryScopeCriteriaV1::default()),
                baseline_trace_id: String::new(),
                baseline_revision: 0,
                candidate_trace_id: String::new(),
                candidate_revision: 0,
            },
        );
        Some(
            (
                ComparisonLookup { generation: self.request_generation, comparison_id },
                cancels,
            ),
        )
    }

    /// Takes an earlier comparison, or that it is gone. An answer to an
    /// earlier request changes nothing.
    pub fn finish_lookup(&mut self, generation: u64, answer: Result<Option<TraceComparison>, String>)
        ensures
            generation != old(self).request_generation ==> *final(self) == *old(self),
            generation == old(self).request_generation ==> {
                &&& *final(self) == (CompareScreen { state: final(self).state, ..*old(self) })
                &&& match answer {
                    Ok(Some(comparison)) => final(self).state == CompareState::Result(comparison),
                    Ok(None) => match final(self).state {
                        CompareState::Error { request, message } => request is None && message@
                            == "This comparison is no longer available in the workspace. Select the two runs again."@,
                        _ => false,
                    },
                    Err(message) => final(self).state == (CompareState::Error {
                        request: None,
                        message,
                    }),
                }
            },
    {
        if generation != self.request_generation {
            return;
        }
        self.state =
        match answer {
            Ok(Some(comparison)) => CompareState::Result(comparison),
            Ok(None) => CompareState::Error {
                request: None,
                message:
                    "This comparison is no longer available in the workspace. Select the two runs again.".to_owned(),
            },
            Err(message) => CompareState::Error { request: None, message },
        };
    }

    /// Gives the comparison up; the result says whether one at work is to be
    /// cancelled.
    pub fn cancel(&mut self) -> (cancels: bool)
        ensures
            cancels == old(self).comparing,
            *final(self) == (CompareScreen {
                state: CompareState::Setup,
                request_generation: state::next_request(old(self).request_generation),
                comparing: false,
                ..*old(self)
            }),
    {
        let cancels = self.cancel_current_comparison();
        self.request_generation = following_request(self.request_generation);
        self.state = CompareState::Setup;
        cancels
    }

    /// The request to try again after an error.
    pub fn retry(&self) -> (request: Option<RunComparisonRequestV1>)
        ensures
            request == (match self.state {
                CompareState::Error { request, .. } => request,
                _ => None,
            }),
    {
        match &self.state {
            CompareState::Error { request: Some(request), .. } => Some(request.copy()),
            _ => None,
        }
    }

    /// Selects a row.
    pub fn select_row(&mut self, index: usize)
        ensures
            *final(self) == (CompareScreen { selected_row: Some(index), ..*old(self) }),
    {
        self.selected_row = Some(index);
    }
}

/// A step as it is shown.
#[derive(Debug)]
pub struct StepCell {
    pub heading: Option<String>,
    pub name: String,
    pub details: Option<String>,
    pub tint: u32,
}

/// What is said of a step.
pub open spec fn step_details(step: ExecutionStep) -> Seq<char> {
    step.kind@ + " · status "@ + text::signed_decimal(step.status_code as int) + " · "@
        + components::milliseconds(step.duration_nano) + " ms"@ + (match step.agent_ref {
        Some(agent) => " · agent "@ + agent@,
        None => ""@,
    })
}

/// A step as it is shown.
pub open spec fn shows_cell(
    cell: StepCell,
    label: Option<Seq<char>>,
    step: Option<ExecutionStep>,
    selected: bool,
) -> bool {
    &&& optional_text(cell.heading) == (match label {
        Some(label) => Some(text::uppercase_text_of(label)),
        None => None,
    })
    &&& cell.tint == (if selected {
        Theme::MUTED
    } else {
        Theme::DIM
    })
    &&& match step {
        Some(step) => {
            &&& cell.name@ == step.name@
            &&& optional_text(cell.details) == Some(step_details(step))
        },
        None => cell.name@ == "—"@ && cell.details is None,
    }
}

/// A step as it is shown; a missing one is a dash.
pub fn step_cell(label: Option<&str>, step: &Option<ExecutionStep>, selected: bool) -> (cell:
    StepCell)
    ensures
        shows_cell(
            cell,
            match label {
                Some(label) => Some(label@),
                None => None,
            },
            *step,
            selected,
        ),
{
    let heading = match label {
        Some(label) => Some(uppercase_text(label)),
        None => None,
    };
    let tint = if selected {
        Theme::MUTED
    } else {
        Theme::DIM
    };
    match step {
        Some(step) => {
            let mut details = concat2(step.kind.as_str(), " · status ");
            details.append(signed_text(step.status_code as i64).as_str());
            details.append(" · ");
            details.append(milliseconds_text(step.duration_nano).as_str());
            details.append(" ms");
            let agent = match &step.agent_ref {
                Some(agent) => concat2(" · agent ", agent.as_str()),
                None => "".to_owned(),
            };
            details.append(agent.as_str());
            StepCell { heading, name: step.name.clone(), details: Some(details), tint }
        },
        None => StepCell { heading, name: "—".to_owned(), details: None, tint },
    }
}

/// A pair of aligned steps as it is shown.
#[derive(Debug)]
pub struct AlignmentRowView {
    pub label: String,
    pub selected: bool,
    pub background: u32,
    pub baseline: StepCell,
    pub candidate: StepCell,
    pub relation: &'static str,
    pub relation_tint: u32,
    pub reason: Option<String>,
    pub reason_tint: u32,
}

impl CompareScreen {
    /// A pair of aligned steps as it is shown. In a narrow window the steps
    /// say which run they are of.
    pub fn render_row(&self, row: &AlignmentRow, index: usize, compact: bool) -> (view:
        AlignmentRowView)
        requires
            index < usize::MAX,
        ensures
            ({
                let selected = self.selected_row == Some(index);
                &&& view.label@ == "Aligned step "@ + text::decimal((index + 1) as nat) + "; "@
                    + row.relation.name() + (if selected {
                    "; selected"@
                } else {
                    ""@
                })
                &&& view.selected == selected
                &&& view.background == (if selected {
                    Theme::SELECTED
                } else {
                    Theme::BG
                })
                &&& shows_cell(
                    view.baseline,
                    if compact {
                        Some("Baseline"@)
                    } else {
                        None
                    },
                    row.baseline,
                    selected,
                )
                &&& shows_cell(
                    view.candidate,
                    if compact {
                        Some("Candidate"@)
                    } else {
                        None
                    },
                    row.candidate,
                    selected,
                )
                &&& (view.relation@, view.relation_tint) == row.relation.mark()
                &&& row.relation == AlignmentRelation::Exact ==> view.relation@ == "EXACT"@
                &&& row.relation == AlignmentRelation::Equivalent ==> view.relation@
                    == "EQUIVALENT"@
                &&& row.relation == AlignmentRelation::Changed ==> view.relation@ == "CHANGED"@
                &&& row.relation == AlignmentRelation::BaselineOnly ==> view.relation@
                    == "REMOVED"@
                &&& row.relation == AlignmentRelation::CandidateOnly ==> view.relation@
                    == "ADDED"@
                &&& view.reason == row.reason
                &&& view.reason_tint == (if selected {
                    Theme::MUTED
                } else {
                    Theme::DIM
                })
            }),
    {
        let selected = match self.selected_row {
            Some(place) => place == index,
            None => false,
        };
        let mut label = concat2("Aligned step ", length_text(index + 1).as_str());
        label.append("; ");
        label.append(row.relation.label());
        label.append(
            if selected {
                "; selected"
            } else {
                ""
            },
        );
        let (baseline_label, candidate_label) = if compact {
            (Some("Baseline"), Some("Candidate"))
        } else {
            (None, None)
        };
        AlignmentRowView {
            label,
            selected,
            background: if selected {
                Theme::SELECTED
            } else {
                Theme::BG
            },
            baseline: step_cell(baseline_label, &row.baseline, selected),
            candidate: step_cell(candidate_label, &row.candidate, selected),
            relation: relation_label(row.relation),
            relation_tint: relation_tint(row.relation),
            reason: copy_optional(&row.reason),
            reason_tint: if selected {
                Theme::MUTED
            } else {
                Theme::DIM
            },
        }
    }
}

/// What stands above the aligned steps.
#[derive(Debug)]
pub struct ComparisonHeader {
    pub runs: String,
    pub divergence: String,
    pub border: u32,
    pub surface: u32,
    pub truncated: Option<&'static str>,
}

/// Where two runs part.
pub open spec fn divergence_text(comparison: TraceComparison) -> Seq<char> {
    let steps = text::decimal(comparison.common_prefix_steps as nat);
    match comparison.divergence_reason {
        Some(reason) => "First meaningful divergence after "@ + steps + " equivalent steps · "@
            + reason@,
        None => "No meaningful divergence found across "@ + steps + " aligned steps."@,
    }
}

/// Which runs are compared.
pub open spec fn compared_runs(comparison: TraceComparison) -> Seq<char> {
    offsets::leading_bytes(comparison.baseline_trace_id@, 14) + " r"@ + text::decimal(
        comparison.baseline_revision as nat,
    ) + " → "@ + offsets::leading_bytes(comparison.candidate_trace_id@, 14) + " r"@
        + text::decimal(comparison.candidate_revision as nat)
}

/// What stands above the aligned steps.
pub fn render_result(comparison: &TraceComparison) -> (header: ComparisonHeader)
    ensures
        header.runs@ == compared_runs(*comparison),
        header.divergence@ == divergence_text(*comparison),
        header.border == (if comparison.divergence_reason is Some {
            Theme::AMBER
        } else {
            Theme::GREEN
        }),
        header.surface == (if comparison.divergence_reason is Some {
            Theme::WARNING_SURFACE
        } else {
            Theme::SUCCESS_SURFACE
        }),
        header.truncated is Some <==> comparison.truncated,
        header.truncated is Some ==> header.truncated->0@
            == "The comparison view is bounded around the first divergence."@,
{
    let steps = decimal_text(comparison.common_prefix_steps);
    let divergence = match &comparison.divergence_reason {
        Some(reason) => {
            let mut out = concat3(
                "First meaningful divergence after ",
                steps.as_str(),
                " equivalent steps · ",
            );
            out.append(reason.as_str());
            out
        },
        None => concat3(
            "No meaningful divergence found across ",
            steps.as_str(),
            " aligned steps.",
        ),
    };
    let diverges = comparison.divergence_reason.is_some();
    let mut runs = concat2(short_id(comparison.baseline_trace_id.as_str()), " r");
    append_decimal(&mut runs, comparison.baseline_revision);
    runs.append(" → ");
    runs.append(short_id(comparison.candidate_trace_id.as_str()));
    runs.append(" r");
    append_decimal(&mut runs, comparison.candidate_revision);
    ComparisonHeader {
        runs,
        divergence,
        border: if diverges {
            Theme::AMBER
        } else {
            Theme::GREEN
        },
        surface: if diverges {
            Theme::WARNING_SURFACE
        } else {
            Theme::SUCCESS_SURFACE
        },
        truncated: if comparison.truncated {
            Some("The comparison view is bounded around the first divergence.")
        } else {
            None
        },
    }
}

/// Which runs are being compared.
pub fn loading_runs(request: &RunComparisonRequestV1) -> (runs: String)
    ensures
        runs@ == offsets::leading_bytes(request.baseline_trace_id@, 14) + " → "@
            + offsets::leading_bytes(request.candidate_trace_id@, 14),
{
    concat3(
        short_id(request.baseline_trace_id.as_str()),
        " → ",
        short_id(request.candidate_trace_id.as_str()),
    )
}

/// A comparison that was given up or followed by another one is not shown:
/// its answer carries an earlier number.
pub proof fn superseded_comparisons_are_dropped(screen: CompareScreen)
    ensures
        state::next_request(screen.request_generation) != screen.request_generation,
{
}

/// A step of the candidate alone was added and one of the baseline alone was
/// removed; steps of both are exact, equivalent or changed. What was removed
/// stands out in red, what changed in amber, and what agrees is green.
pub proof fn marks_tell_what_became_of_a_step(relation: AlignmentRelation)
    ensures
        relation == AlignmentRelation::CandidateOnly ==> relation.mark() == (
            "ADDED"@,
            Theme::CYAN,
        ),
        relation == AlignmentRelation::BaselineOnly ==> relation.mark() == (
            "REMOVED"@,
            Theme::RED,
        ),
        relation == AlignmentRelation::Exact ==> relation.mark() == ("EXACT"@, Theme::GREEN),
        relation == AlignmentRelation::Equivalent ==> relation.mark() == (
            "EQUIVALENT"@,
            Theme::GREEN,
        ),
        relation == AlignmentRelation::Changed ==> relation.mark() == ("CHANGED"@, Theme::AMBER),
        relation == AlignmentRelation::Exact ==> relation.name() == "Exact"@,
        relation == AlignmentRelation::Equivalent ==> relation.name() == "Equivalent"@,
        relation == AlignmentRelation::Changed ==> relation.name() == "Changed"@,
        relation == AlignmentRelation::BaselineOnly ==> relation.name() == "BaselineOnly"@,
        relation == AlignmentRelation::CandidateOnly ==> relation.name() == "CandidateOnly"@,
{
}

/// Where the runs part is said with the reason and the number of steps before
/// it; without a reason the runs agree as far as they are aligned.
pub proof fn divergences_are_reported(comparison: TraceComparison)
    ensures
        comparison.divergence_reason is Some ==> divergence_text(comparison)
            == "First meaningful divergence after "@ + text::decimal(
            comparison.common_prefix_steps as nat,
        ) + " equivalent steps · "@ + comparison.divergence_reason->0@,
        comparison.divergence_reason is None ==> divergence_text(comparison)
            == "No meaningful divergence found across "@ + text::decimal(
            comparison.common_prefix_steps as nat,
        ) + " aligned steps."@,
{
}

/// The baseline stands before the candidate, each with its own revision.
pub proof fn the_baseline_is_named_first(comparison: TraceComparison)
    ensures
        exists|baseline: Seq<char>, candidate: Seq<char>|
            {
                &&& baseline.is_prefix_of(comparison.baseline_trace_id@)
                &&& candidate.is_prefix_of(comparison.candidate_trace_id@)
                &&& #[trigger] runs_line(
                    baseline,
                    comparison.baseline_revision as nat,
                    candidate,
                    comparison.candidate_revision as nat,
                ) == compared_runs(comparison)
            },
{
    let baseline = offsets::leading_bytes(comparison.baseline_trace_id@, 14);
    let candidate = offsets::leading_bytes(comparison.candidate_trace_id@, 14);
    offsets::leading_bytes_fit(comparison.baseline_trace_id@, 14);
    offsets::leading_bytes_fit(comparison.candidate_trace_id@, 14);
    assert(runs_line(
        baseline,
        comparison.baseline_revision as nat,
        candidate,
        comparison.candidate_revision as nat,
    ) == compared_runs(comparison));
}

/// Two runs with their revisions in one line.
pub open spec fn runs_line(
    baseline: Seq<char>,
    baseline_revision: nat,
    candidate: Seq<char>,
    candidate_revision: nat,
) -> Seq<char> {
    baseline + " r"@ + text::decimal(baseline_revision) + " → "@ + candidate + " r"@
        + text::decimal(candidate_revision)
}

/// Relations are named, and a comparison is shown once its own answer arrived.
pub proof fn relations_are_named(screen: CompareScreen, comparison_id: Seq<char>)
    ensures
        AlignmentRelation::Exact.name() == "Exact"@,
        AlignmentRelation::Equivalent.name() == "Equivalent"@,
        AlignmentRelation::Changed.name() == "Changed"@,
        AlignmentRelation::BaselineOnly.name() == "BaselineOnly"@,
        AlignmentRelation::CandidateOnly.name() == "CandidateOnly"@,
        screen.shows(comparison_id) <==> screen.state is Result && screen.state->Result_0.comparison_id@
            == comparison_id,
{
}

/// A step is told by kind, status and duration, and by its agent where one is
/// known.
pub proof fn steps_are_told_by_kind_and_status(step: ExecutionStep)
    ensures
        step.agent_ref is None ==> step_details(step) == step.kind@ + " · status "@
            + text::signed_decimal(step.status_code as int) + " · "@ + components::milliseconds(
            step.duration_nano,
        ) + " ms"@,
        step.agent_ref is Some ==> step_details(step) == step.kind@ + " · status "@
            + text::signed_decimal(step.status_code as int) + " · "@ + components::milliseconds(
            step.duration_nano,
        ) + " ms"@ + (" · agent "@ + step.agent_ref->0@),
{
    reveal_strlit("");
    let head = step.kind@ + " · status "@ + text::signed_decimal(step.status_code as int) + " · "@
        + components::milliseconds(step.duration_nano) + " ms"@;
    assert(head + ""@ =~= head);
}

/// A missing step is shown by a dash, any other by its name and details.
pub proof fn missing_steps_are_dashes(
    cell: StepCell,
    label: Option<Seq<char>>,
    step: Option<ExecutionStep>,
    selected: bool,
)
    requires
        shows_cell(cell, label, step, selected),
    ensures
        step is None ==> cell.name@ == "—"@ && cell.details is None,
        step is Some ==> cell.name@ == step->0.name@ && cell.details is Some && cell.details->0@
            == step_details(step->0),
        label is None <==> cell.heading is None,
        label is Some ==> cell.heading->0@ == text::uppercase_text_of(label->0),
        selected ==> cell.tint == Theme::MUTED,
        !selected ==> cell.tint == Theme::DIM,
{
}

/// The runs are told with the first fourteen bytes of their traces and their
/// revisions, the baseline before the candidate.
pub proof fn runs_are_told_from_baseline_to_candidate(comparison: TraceComparison)
    ensures
        compared_runs(comparison) == offsets::leading_bytes(comparison.baseline_trace_id@, 14)
            + " r"@ + text::decimal(comparison.baseline_revision as nat) + " → "@
            + offsets::leading_bytes(comparison.candidate_trace_id@, 14) + " r"@ + text::decimal(
            comparison.candidate_revision as nat,
        ),
{
}

} // verus!
