//! The evidence of a finding, and what the inspector says.

use super::actions::{self, review_menu, ActionEntry, ReviewEntry};
use super::components::{
    self, diagnosis_fact, execution_role_for_span, full_trace_role, humanize, kv,
    milliseconds_text, span_status, LabelledText,
};
use super::eval_generation::EvalCandidatePreview;
use super::inspector;
use super::model::{
    optional_text, FailureGroupDetail, FailureOccurrence, FailurePresentation,
    FindingDispositionStateV1, FindingEvidence, PresentedEvidence, SpanRow,
};
use super::state::{FailureInbox, InspectorTab, Investigation, RevealedPayload};
use crate::design::tokens::{ExecutionRole, Theme};
use crate::sorting::{self, rank_texts, sort_by_order, Rank, SortOrder};
use crate::text::{
    self, append_decimal, concat2, concat3, contains_text, decimal_text, join, length_text,
    same_text,
};
use vstd::prelude::*;
use vstd::string::*;

verus! {

/// A step of the evidence, and how it is shown.
#[derive(Debug)]
pub struct EvidenceGraphRow {
    pub index: usize,
    pub total: usize,
    pub role: String,
    pub explanation: String,
    pub highlighted: bool,
    pub selected: bool,
    pub compact: bool,
}

/// What is shown of a step.
#[derive(Debug)]
pub struct EvidenceRowView {
    pub number: String,
    /// Whether a line leads to the next step.
    pub continues: bool,
    pub name: String,
    pub execution_label: String,
    pub execution_role: ExecutionRole,
    pub role: String,
    /// Whether the step is context rather than evidence.
    pub context: bool,
    pub explanation: String,
    pub supporting_tint: u32,
    pub marker_tint: u32,
    pub marker_border: u32,
    pub background: u32,
    pub summary: String,
    pub summary_tint: u32,
    /// Whether the summary stands below the explanation.
    pub summary_below: bool,
}

/// The status, the category and the duration of a step.
pub open spec fn span_summary(span: SpanRow) -> Seq<char> {
    components::status_label(span.status_code).0 + " · "@ + span.category@ + " · "@
        + components::milliseconds(span.duration_nano) + " ms"@
}

/// The tint of what stands beside a step.
pub open spec fn supporting(row: EvidenceGraphRow) -> u32 {
    if row.selected || row.highlighted {
        Theme::MUTED
    } else {
        Theme::DIM
    }
}

/// What is shown of a step.
pub open spec fn shows_step(view: EvidenceRowView, span: SpanRow, row: EvidenceGraphRow) -> bool {
    &&& view.number@ == text::decimal((row.index + 1) as nat)
    &&& view.continues == (row.index + 1 < row.total)
    &&& view.name@ == span.name@
    &&& view.execution_label@ == components::span_role(span)
    &&& view.execution_role == components::span_role_kind(span)
    &&& view.role@ == row.role@
    &&& view.context == (row.role@ == "Context"@)
    &&& view.explanation@ == row.explanation@
    &&& view.supporting_tint == supporting(row)
    &&& view.marker_tint == (if row.highlighted {
        Theme::AMBER
    } else {
        Theme::DIM
    })
    &&& view.marker_border == (if row.highlighted {
        Theme::AMBER
    } else {
        Theme::BORDER
    })
    &&& view.background == (if row.selected {
        Theme::SELECTED
    } else if row.highlighted {
        Theme::WARNING_SURFACE
    } else {
        Theme::BG
    })
    &&& view.summary@ == span_summary(span)
    &&& view.summary_tint == (if span.status_code == 2 {
        Theme::RED
    } else {
        supporting(row)
    })
    &&& view.summary_below == row.compact
}

/// What is shown of a step.
pub fn evidence_graph_row(span: &SpanRow, row: EvidenceGraphRow) -> (view: EvidenceRowView)
    requires
        row.index < row.total,
    ensures
        shows_step(view, *span, row),
{
    let (status, _) = span_status(span);
    let supporting_tint = if row.selected || row.highlighted {
        Theme::MUTED
    } else {
        Theme::DIM
    };
    let mut summary = concat3(status, " · ", span.category.as_str());
    let duration = milliseconds_text(span.duration_nano);
    summary.append(" · ");
    summary.append(duration.as_str());
    summary.append(" ms");
    EvidenceRowView {
        number: length_text(row.index + 1),
        continues: row.index + 1 < row.total,
        name: span.name.clone(),
        execution_label: full_trace_role(span),
        execution_role: execution_role_for_span(span),
        context: same_text(row.role.as_str(), "Context"),
        role: row.role,
        explanation: row.explanation,
        supporting_tint,
        marker_tint: if row.highlighted {
            Theme::AMBER
        } else {
            Theme::DIM
        },
        marker_border: if row.highlighted {
            Theme::AMBER
        } else {
            Theme::BORDER
        },
        background: if row.selected {
            Theme::SELECTED
        } else if row.highlighted {
            Theme::WARNING_SURFACE
        } else {
            Theme::BG
        },
        summary,
        summary_tint: if span.status_code == 2 {
            Theme::RED
        } else {
            supporting_tint
        },
        summary_below: row.compact,
    }
}

/// Whether one step ran before another: it started earlier, or stands higher
/// in the trace, or has the smaller identity.
pub open spec fn execution_order() -> spec_fn(SpanRow, SpanRow) -> bool {
    |left: SpanRow, right: SpanRow|
        {
            ||| left.start_time_unix_nano < right.start_time_unix_nano
            ||| left.start_time_unix_nano == right.start_time_unix_nano && left.depth < right.depth
            ||| left.start_time_unix_nano == right.start_time_unix_nano && left.depth == right.depth
                && sorting::text_before(left.span_id@, right.span_id@)
        }
}

/// Steps in the order in which they ran.
pub struct ExecutionOrder;

impl SortOrder<SpanRow> for ExecutionOrder {
    open spec fn before(&self) -> spec_fn(SpanRow, SpanRow) -> bool {
        execution_order()
    }

    fn precedes(&self, left: &SpanRow, right: &SpanRow) -> (first: bool) {
        if left.start_time_unix_nano != right.start_time_unix_nano {
            return left.start_time_unix_nano < right.start_time_unix_nano;
        }
        if left.depth != right.depth {
            return left.depth < right.depth;
        }
        proof {
            sorting::text_order_is_total(left.span_id@, right.span_id@);
        }
        rank_texts(left.span_id.as_str(), right.span_id.as_str()) == Rank::Before
    }
}

/// The steps of the evidence in the order in which they ran.
pub open spec fn ordered_steps(spans: Seq<SpanRow>) -> Seq<SpanRow> {
    sorting::stably_sorted(execution_order(), spans)
}

/// The steps in the order in which they ran.
pub fn order_steps(spans: &Vec<SpanRow>) -> (ordered: Vec<SpanRow>)
    ensures
        ordered@ == ordered_steps(spans@),
{
    let mut copies: Vec<SpanRow> = Vec::new();
    let mut index: usize = 0;
    while index < spans.len()
        invariant
            index <= spans@.len(),
            copies@ == spans@.take(index as int),
        decreases spans@.len() - index,
    {
        copies.push(spans[index].copy());
        index += 1;
        assert(copies@ =~= spans@.take(index as int));
    }
    assert(spans@.take(index as int) =~= spans@);
    assert(sorting::views(copies@) =~= copies@);
    let ordered = sort_by_order(&ExecutionOrder, copies);
    assert(sorting::views(ordered@) =~= ordered@);
    ordered
}

/// The order in which steps ran is a strict weak order.
pub proof fn execution_order_is_strict_weak()
    ensures
        sorting::strict_weak(execution_order()),
{
    let before = execution_order();
    assert forall|a: SpanRow, b: SpanRow| #[trigger] before(a, b) implies !before(b, a) by {
        sorting::text_order_is_total(a.span_id@, b.span_id@);
    }
    assert forall|a: SpanRow, b: SpanRow, c: SpanRow|
        !#[trigger] before(a, b) && !#[trigger] before(b, c) implies !before(a, c) by {
        sorting::text_order_is_total(a.span_id@, b.span_id@);
        sorting::text_order_is_total(b.span_id@, c.span_id@);
        sorting::text_order_is_total(a.span_id@, c.span_id@);
        if sorting::text_before(c.span_id@, b.span_id@) && sorting::text_before(
            b.span_id@,
            a.span_id@,
        ) {
            sorting::text_order_is_transitive(c.span_id@, b.span_id@, a.span_id@);
        }
    }
}

/// The steps that are listed are those of the evidence, in the order in
/// which they ran.
pub proof fn steps_are_ordered(spans: Seq<SpanRow>)
    ensures
        ordered_steps(spans).to_multiset() == spans.to_multiset(),
        sorting::in_order(execution_order(), ordered_steps(spans)),
{
    execution_order_is_strict_weak();
    sorting::sorting_is_an_ordered_rearrangement(execution_order(), spans);
}

/// What a presentation says of a step.
pub open spec fn presented_step(
    evidence: Seq<PresentedEvidence>,
    span_id: Seq<char>,
) -> Option<PresentedEvidence>
    decreases evidence.len(),
{
    if evidence.len() == 0 {
        None
    } else if optional_text(evidence[0].span_id) == Some(span_id) {
        Some(evidence[0])
    } else {
        presented_step(evidence.drop_first(), span_id)
    }
}

fn find_presented(evidence: &Vec<PresentedEvidence>, span_id: &str) -> (found: Option<usize>)
    ensures
        match found {
            Some(place) => place < evidence@.len() && presented_step(evidence@, span_id@) == Some(
                evidence@[place as int],
            ),
            None => presented_step(evidence@, span_id@) is None,
        },
{
    let mut index: usize = 0;
    assert(evidence@.skip(0) =~= evidence@);
    while index < evidence.len()
        invariant
            index <= evidence@.len(),
            presented_step(evidence@, span_id@) == presented_step(
                evidence@.skip(index as int),
                span_id@,
            ),
        decreases evidence@.len() - index,
    {
        proof {
            assert(evidence@.skip(index as int)[0] == evidence@[index as int]);
            assert(evidence@.skip(index as int).drop_first() =~= evidence@.skip(index + 1));
        }
        let same = match &evidence[index].span_id {
            Some(candidate) => same_text(candidate.as_str(), span_id),
            None => false,
        };
        if same {
            return Some(index);
        }
        index += 1;
    }
    None
}

/// A step of the evidence as it is listed.
#[derive(Debug)]
pub struct EvidenceStep {
    pub row: EvidenceRowView,
    pub label: String,
    pub span_id: String,
    pub focused: bool,
}

/// What a presentation says of a step, where there is a presentation.
pub open spec fn presented_of(
    presentation: Option<FailurePresentation>,
    span_id: Seq<char>,
) -> Option<PresentedEvidence> {
    match presentation {
        Some(presentation) => presented_step(presentation.evidence@, span_id),
        None => None,
    }
}

/// The role and the explanation of a step.
pub open spec fn step_texts(
    presentation: Option<FailurePresentation>,
    span_id: Seq<char>,
    highlighted: bool,
) -> (Seq<char>, Seq<char>) {
    match presented_of(presentation, span_id) {
        Some(presented) => (components::humanized(presented.role@), presented.explanation@),
        None => if highlighted {
            ("Evidence"@, "This step is direct finding evidence."@)
        } else {
            ("Context"@, "Execution context around the finding."@)
        },
    }
}

/// What is listed of a step.
pub open spec fn lists_step(
    step: EvidenceStep,
    index: int,
    evidence: FindingEvidence,
    focused: Option<String>,
    compact: bool,
) -> bool {
    let spans = ordered_steps(evidence.spans@);
    let span = spans[index];
    let highlighted = text::texts(evidence.evidence_span_ids@).contains(span.span_id@);
    let texts = step_texts(evidence.presentation, span.span_id@, highlighted);
    &&& step.span_id@ == span.span_id@
    &&& step.focused == (optional_text(focused) == Some(span.span_id@))
    &&& exists|row: EvidenceGraphRow|
        row.index == index && row.total == spans.len() && row.role@ == texts.0
            && row.explanation@ == texts.1 && row.highlighted == highlighted && row.selected
            == step.focused && row.compact == compact && #[trigger] shows_step(step.row, span, row)
    &&& step.label@ == "Step "@ + text::decimal((index + 1) as nat) + "; "@ + span.name@ + "; "@
        + span.category@ + "; "@ + components::milliseconds(span.duration_nano)
        + " milliseconds; "@ + texts.1
}

fn list_step(
    span: &SpanRow,
    index: usize,
    total: usize,
    evidence: &FindingEvidence,
    focused: &Option<String>,
    compact: bool,
) -> (step: EvidenceStep)
    requires
        index < total,
        total == ordered_steps(evidence.spans@).len(),
        *span == ordered_steps(evidence.spans@)[index as int],
    ensures
        lists_step(step, index as int, *evidence, *focused, compact),
{
    let highlighted = contains_text(&evidence.evidence_span_ids, span.span_id.as_str());
    let selected = match focused {
        Some(focused) => *focused == span.span_id,
        None => false,
    };
    let presented = match &evidence.presentation {
        Some(presentation) => match find_presented(
            &presentation.evidence,
            span.span_id.as_str(),
        ) {
            Some(place) => Some(
                (
                    humanize(presentation.evidence[place].role.as_str()),
                    presentation.evidence[place].explanation.clone(),
                ),
            ),
            None => None,
        },
        None => None,
    };
    let (role, explanation) = match presented {
        Some(texts) => texts,
        None => if highlighted {
            ("Evidence".to_owned(), "This step is direct finding evidence.".to_owned())
        } else {
            ("Context".to_owned(), "Execution context around the finding.".to_owned())
        },
    };
    let mut label = concat2("Step ", length_text(index + 1).as_str());
    label.append("; ");
    label.append(span.name.as_str());
    label.append("; ");
    label.append(span.category.as_str());
    label.append("; ");
    label.append(milliseconds_text(span.duration_nano).as_str());
    label.append(" milliseconds; ");
    label.append(explanation.as_str());
    let shown = EvidenceGraphRow {
        index,
        total,
        role,
        explanation,
        highlighted,
        selected,
        compact,
    };
    let ghost ghost_row = shown;
    let row = evidence_graph_row(span, shown);
    assert(shows_step(row, *span, ghost_row));
    EvidenceStep { row, label, span_id: span.span_id.clone(), focused: selected }
}

/// The steps of the evidence as they are listed.
pub fn evidence_steps(evidence: &FindingEvidence, focused: &Option<String>, compact: bool) -> (steps:
    Vec<EvidenceStep>)
    ensures
        steps@.len() == ordered_steps(evidence.spans@).len(),
        forall|i: int|
            0 <= i < steps@.len() ==> lists_step(
                #[trigger] steps@[i],
                i,
                *evidence,
                *focused,
                compact,
            ),
{
    let ordered = order_steps(&evidence.spans);
    let mut steps: Vec<EvidenceStep> = Vec::new();
    let mut index: usize = 0;
    while index < ordered.len()
        invariant
            index <= ordered@.len(),
            ordered@ == ordered_steps(evidence.spans@),
            steps@.len() == index,
            forall|i: int|
                0 <= i < steps@.len() ==> lists_step(
                    #[trigger] steps@[i],
                    i,
                    *evidence,
                    *focused,
                    compact,
                ),
        decreases ordered@.len() - index,
    {
        let step = list_step(&ordered[index], index, ordered.len(), evidence, focused, compact);
        steps.push(step);
        index += 1;
    }
    steps
}

/// What stands above the evidence.
#[derive(Debug)]
pub struct EvidenceToolbar {
    pub title: String,
    pub review: Option<(&'static str, u32)>,
    pub source: String,
    pub position: String,
    pub previous_enabled: bool,
    pub previous_label: &'static str,
    pub next_enabled: bool,
    pub next_label: &'static str,
    pub hint: Option<&'static str>,
    pub can_generate: bool,
    pub generate_label: &'static str,
    pub actions_open: bool,
    pub actions_label: &'static str,
    /// The actions of the open menu.
    pub actions: Vec<ActionEntry>,
    pub review_prompt: &'static str,
    /// The review that holds, if any.
    pub disposition: Option<FindingDispositionStateV1>,
    /// The decisions of the open review.
    pub decisions: Vec<ReviewEntry>,
}

/// The name of the failure that is shown.
pub open spec fn failure_title(
    evidence: FindingEvidence,
    group: Option<FailureGroupDetail>,
) -> Seq<char> {
    match evidence.presentation {
        Some(presentation) => presentation.title@,
        None => match group {
            Some(group) => if group.summary.detector_ids@.len() > 0 {
                components::humanized(group.summary.detector_ids@[0]@)
            } else {
                "Failure investigation"@
            },
            None => "Failure investigation"@,
        },
    }
}

/// The review that holds of an occurrence.
pub open spec fn current_disposition(occurrence: FailureOccurrence) -> Option<
    FindingDispositionStateV1,
> {
    if occurrence.disposition_stale {
        None
    } else {
        occurrence.disposition
    }
}

/// The name of a review, and its tint.
pub open spec fn review_mark(occurrence: FailureOccurrence) -> Option<(Seq<char>, u32)> {
    if occurrence.disposition_stale {
        Some(("Review stale"@, Theme::AMBER))
    } else {
        match occurrence.disposition {
            Some(FindingDispositionStateV1::Confirmed) => Some(("Confirmed"@, Theme::GREEN)),
            Some(FindingDispositionStateV1::Dismissed) => Some(("Dismissed"@, Theme::MUTED)),
            Some(FindingDispositionStateV1::NeedsContext) => Some(
                ("Needs context"@, Theme::AMBER),
            ),
            None => None,
        }
    }
}

/// The name of a review, and its tint.
pub fn review_label(occurrence: &FailureOccurrence) -> (label: Option<(&'static str, u32)>)
    ensures
        match label {
            Some(label) => review_mark(*occurrence) == Some((label.0@, label.1)),
            None => review_mark(*occurrence) is None,
        },
{
    if occurrence.disposition_stale {
        Some(("Review stale", Theme::AMBER))
    } else {
        match occurrence.disposition {
            Some(FindingDispositionStateV1::Confirmed) => Some(("Confirmed", Theme::GREEN)),
            Some(FindingDispositionStateV1::Dismissed) => Some(("Dismissed", Theme::MUTED)),
            Some(FindingDispositionStateV1::NeedsContext) => Some(("Needs context", Theme::AMBER)),
            None => None,
        }
    }
}

/// Which example of the group is shown.
pub open spec fn position_label(investigation: Investigation) -> Seq<char> {
    if investigation.occurrence_total() == 1 {
        "Only example"@
    } else {
        "Example "@ + text::decimal(
            match investigation.selected_place() {
                Some(place) => (investigation.occurrence_offset + place + 1) as nat,
                None => 0,
            },
        ) + " of "@ + text::decimal(investigation.occurrence_total() as nat)
    }
}

/// Why there is no stepping one way or the other.
pub open spec fn navigation_hint(investigation: Investigation) -> Option<Seq<char>> {
    if investigation.occurrence_total() <= 1 {
        Some("No other examples in this group"@)
    } else if !investigation.neighbours().0 {
        Some("First example"@)
    } else if !investigation.neighbours().1 {
        Some("Last example"@)
    } else {
        None
    }
}

/// The severity of the shown group, in words.
pub open spec fn group_severity(group: Option<FailureGroupDetail>) -> Seq<char> {
    match group {
        Some(group) => group.summary.severity.name(),
        None => ""@,
    }
}

fn failure_title_of(evidence: &FindingEvidence, group: &Option<FailureGroupDetail>) -> (title:
    String)
    ensures
        title@ == failure_title(*evidence, *group),
{
    match &evidence.presentation {
        Some(presentation) => presentation.title.clone(),
        None => match group {
            Some(group) => if group.summary.detector_ids.len() > 0 {
                humanize(group.summary.detector_ids[0].as_str())
            } else {
                "Failure investigation".to_owned()
            },
            None => "Failure investigation".to_owned(),
        },
    }
}

/// What stands above the evidence of an example.
pub open spec fn shows_toolbar(
    toolbar: EvidenceToolbar,
    inbox: FailureInbox,
    evidence: FindingEvidence,
    unassigned_project_id: Seq<char>,
) -> bool {
    &&& toolbar.title@ == failure_title(evidence, inbox.investigation.group)
        + " · "@ + group_severity(inbox.investigation.group)
    &&& match toolbar.review {
        Some(review) => review_mark(evidence.occurrence) == Some(
            (review.0@, review.1),
        ),
        None => review_mark(evidence.occurrence) is None,
    }
    &&& toolbar.source@ == evidence.occurrence.run_title@ + " · revision "@
        + text::decimal(evidence.occurrence.revision as nat)
    &&& toolbar.position@ == position_label(inbox.investigation)
    &&& toolbar.previous_enabled == inbox.investigation.neighbours().0
    &&& toolbar.previous_label@ == (if toolbar.previous_enabled {
        "Previous example"@
    } else {
        "Previous example, unavailable"@
    })
    &&& toolbar.next_enabled == inbox.investigation.neighbours().1
    &&& toolbar.next_label@ == (if toolbar.next_enabled {
        "Next example"@
    } else {
        "Next example, unavailable"@
    })
    &&& match toolbar.hint {
        Some(hint) => navigation_hint(inbox.investigation) == Some(hint@),
        None => navigation_hint(inbox.investigation) is None,
    }
    &&& toolbar.review_prompt@ == (if evidence.occurrence.disposition_stale {
        "Prior review is stale"@
    } else {
        "Review this finding"@
    })
    &&& toolbar.disposition == current_disposition(evidence.occurrence)
    &&& toolbar.can_generate == inspector::can_generate(
        inbox.filters.scope,
        unassigned_project_id,
    )
    &&& toolbar.generate_label@ == (if toolbar.can_generate {
        "Generate eval candidates for this failure group"@
    } else {
        "Generate eval candidates unavailable in this scope"@
    })
    &&& toolbar.actions_open == inbox.investigation.actions_open
    &&& toolbar.actions_label@ == (if toolbar.actions_open {
        "Close investigation actions"@
    } else {
        "Open investigation actions"@
    })
    &&& actions::entries(toolbar.actions@) == inbox.offered_actions()
    &&& actions::decisions(toolbar.decisions@) == actions::offered_decisions(
        inbox.investigation.review_open,
        current_disposition(evidence.occurrence),
    )
}

impl FailureInbox {
    /// What stands above the evidence, where there is any.
    pub fn evidence_toolbar(&self, unassigned_project_id: &str) -> (toolbar: Option<
        EvidenceToolbar,
    >)
        requires
            self.investigation.occurrence_offset + self.investigation.occurrences@.len()
                <= u64::MAX,
        ensures
            match (self.investigation.evidence, toolbar) {
                (None, None) => true,
                (Some(evidence), Some(toolbar)) => shows_toolbar(
                    toolbar,
                    *self,
                    evidence,
                    unassigned_project_id@,
                ),
                _ => false,
            },
    {
        let evidence = match &self.investigation.evidence {
            Some(evidence) => evidence,
            None => {
                return None;
            },
        };
        let previous_enabled = self.investigation.can_navigate_occurrence(false);
        let next_enabled = self.investigation.can_navigate_occurrence(true);
        let total = self.investigation.total();
        let position = if total == 1 {
            "Only example".to_owned()
        } else {
            let place = match self.investigation.occurrence_position() {
                Some(place) => place,
                None => 0,
            };
            let mut label = concat2("Example ", decimal_text(place).as_str());
            label.append(" of ");
            append_decimal(&mut label, total);
            label
        };
        let hint = if total <= 1 {
            Some("No other examples in this group")
        } else if !previous_enabled {
            Some("First example")
        } else if !next_enabled {
            Some("Last example")
        } else {
            None
        };
        let severity = match &self.investigation.group {
            Some(group) => group.summary.severity.label(),
            None => "",
        };
        let name = failure_title_of(evidence, &self.investigation.group);
        let title = concat3(name.as_str(), " · ", severity);
        let mut source = concat2(evidence.occurrence.run_title.as_str(), " · revision ");
        append_decimal(&mut source, evidence.occurrence.revision);
        let disposition = if evidence.occurrence.disposition_stale {
            None
        } else {
            evidence.occurrence.disposition
        };
        let can_generate = self.can_generate_eval(unassigned_project_id);
        let actions_open = self.investigation.actions_open;
        Some(
            EvidenceToolbar {
                title,
                review: review_label(&evidence.occurrence),
                source,
                position,
                previous_enabled,
                previous_label: if previous_enabled {
                    "Previous example"
                } else {
                    "Previous example, unavailable"
                },
                next_enabled,
                next_label: if next_enabled {
                    "Next example"
                } else {
                    "Next example, unavailable"
                },
                hint,
                can_generate,
                generate_label: if can_generate {
                    "Generate eval candidates for this failure group"
                } else {
                    "Generate eval candidates unavailable in this scope"
                },
                actions_open,
                actions_label: if actions_open {
                    "Close investigation actions"
                } else {
                    "Open investigation actions"
                },
                actions: self.action_menu(),
                review_prompt: if evidence.occurrence.disposition_stale {
                    "Prior review is stale"
                } else {
                    "Review this finding"
                },
                disposition,
                decisions: review_menu(self.investigation.review_open, disposition),
            },
        )
    }
}

/// A diagnosis and the facts about it.
#[derive(Debug)]
pub struct DiagnosisView {
    pub label: String,
    pub diagnosis: String,
    pub facts: Vec<LabelledText>,
}

/// How far a failure reaches.
pub open spec fn impact(group: FailureGroupDetail) -> Seq<char> {
    group.summary.severity.name() + " severity · "@ + text::decimal(
        group.summary.occurrence_count as nat,
    ) + " occurrences across "@ + text::decimal(group.summary.affected_run_count as nat) + " runs"@
}

/// The facts about a diagnosis, in the order in which they are listed.
pub open spec fn diagnosis_facts(
    presentation: FailurePresentation,
    group: Option<FailureGroupDetail>,
) -> Seq<components::FactContent> {
    let behavior = seq![
        components::fact("Expected"@, presentation.expected_behavior@, Theme::GREEN),
        components::fact("Observed"@, presentation.observed_behavior@, Theme::AMBER),
    ];
    let reach = match group {
        Some(group) => seq![components::fact("Impact"@, impact(group), Theme::RED)],
        None => Seq::empty(),
    };
    let recovery = seq![
        components::fact("Recovery"@, presentation.recovery_summary@, Theme::MUTED),
    ];
    let caveat = match presentation.caveat {
        Some(caveat) => seq![components::fact("Caveat"@, caveat@, Theme::AMBER)],
        None => Seq::empty(),
    };
    let next = seq![components::fact("Next"@, presentation.remediation_hint@, Theme::CYAN)];
    behavior + reach + recovery + caveat + next
}

/// What is shown of a diagnosis.
pub open spec fn shows_diagnosis(
    view: DiagnosisView,
    presentation: FailurePresentation,
    group: Option<FailureGroupDetail>,
) -> bool {
    &&& view.diagnosis@ == presentation.diagnosis@
    &&& view.label@ == "Diagnosis: "@ + presentation.diagnosis@ + " Expected: "@
        + presentation.expected_behavior@ + " Observed: "@ + presentation.observed_behavior@
        + " Recovery: "@ + presentation.recovery_summary@
    &&& components::facts(view.facts@) == diagnosis_facts(presentation, group)
}

/// A diagnosis and the facts about it.
pub fn diagnosis_view(presentation: &FailurePresentation, group: &Option<FailureGroupDetail>) -> (view:
    DiagnosisView)
    ensures
        shows_diagnosis(view, *presentation, *group),
{
    let mut label = concat2("Diagnosis: ", presentation.diagnosis.as_str());
    label.append(" Expected: ");
    label.append(presentation.expected_behavior.as_str());
    label.append(" Observed: ");
    label.append(presentation.observed_behavior.as_str());
    label.append(" Recovery: ");
    label.append(presentation.recovery_summary.as_str());
    let mut facts: Vec<LabelledText> = Vec::new();
    facts.push(
        diagnosis_fact("Expected", presentation.expected_behavior.as_str(), Theme::GREEN),
    );
    facts.push(
        diagnosis_fact("Observed", presentation.observed_behavior.as_str(), Theme::AMBER),
    );
    if let Some(group) = group {
        let mut reach = concat2(group.summary.severity.label(), " severity · ");
        append_decimal(&mut reach, group.summary.occurrence_count);
        reach.append(" occurrences across ");
        append_decimal(&mut reach, group.summary.affected_run_count);
        reach.append(" runs");
        facts.push(diagnosis_fact("Impact", reach.as_str(), Theme::RED));
    }
    facts.push(
        diagnosis_fact("Recovery", presentation.recovery_summary.as_str(), Theme::MUTED),
    );
    if let Some(caveat) = &presentation.caveat {
        facts.push(diagnosis_fact("Caveat", caveat.as_str(), Theme::AMBER));
    }
    facts.push(diagnosis_fact("Next", presentation.remediation_hint.as_str(), Theme::CYAN));
    assert(components::facts(facts@) =~= diagnosis_facts(*presentation, *group));
    DiagnosisView { label, diagnosis: presentation.diagnosis.clone(), facts }
}

/// The details of a draft eval that is previewed.
pub open spec fn candidate_details(
    preview: EvalCandidatePreview,
    evidence: FindingEvidence,
) -> Seq<components::FactContent> {
    let detail = |label: Seq<char>, value: Seq<char>| components::fact(label, value, Theme::DIM);
    let gaps = if preview.telemetry_gaps@.len() == 0 {
        Seq::empty()
    } else {
        seq![
            detail("Telemetry gaps"@, text::joined(text::texts(preview.telemetry_gaps@), "\n"@)),
        ]
    };
    seq![
        detail("Evidence packet"@, preview.packet_id@ + "\n"@ + preview.content_hash@),
        detail(
            "Source"@,
            evidence.occurrence.run_title@ + " · rev "@ + text::decimal(
                evidence.occurrence.revision as nat,
            ) + " · "@ + evidence.occurrence.finding.finding_id@,
        ),
        detail(
            "Proposed expectations"@,
            text::joined(text::texts(preview.proposed_expected_behavior@), "\n✓ "@),
        ),
        detail("Rubric"@, preview.proposed_rubric@),
        detail("Grader"@, preview.proposed_grader@),
        detail("Generator"@, preview.generator_name@ + "@"@ + preview.generator_version@),
    ] + gaps
}

/// The details of a draft eval that is previewed.
pub fn candidate_view(preview: &EvalCandidatePreview, evidence: &FindingEvidence) -> (details: Vec<
    LabelledText,
>)
    ensures
        components::facts(details@) == candidate_details(*preview, *evidence),
{
    let mut source = concat2(evidence.occurrence.run_title.as_str(), " · rev ");
    append_decimal(&mut source, evidence.occurrence.revision);
    source.append(" · ");
    source.append(evidence.occurrence.finding.finding_id.as_str());
    let packet = concat3(preview.packet_id.as_str(), "\n", preview.content_hash.as_str());
    let expectations = join(&preview.proposed_expected_behavior, "\n✓ ");
    let generator = concat3(
        preview.generator_name.as_str(),
        "@",
        preview.generator_version.as_str(),
    );
    let mut details: Vec<LabelledText> = Vec::new();
    details.push(kv("Evidence packet", packet.as_str()));
    details.push(kv("Source", source.as_str()));
    details.push(kv("Proposed expectations", expectations.as_str()));
    details.push(kv("Rubric", preview.proposed_rubric.as_str()));
    details.push(kv("Grader", preview.proposed_grader.as_str()));
    details.push(kv("Generator", generator.as_str()));
    if preview.telemetry_gaps.len() > 0 {
        let gaps = join(&preview.telemetry_gaps, "\n");
        details.push(kv("Telemetry gaps", gaps.as_str()));
    }
    assert(components::facts(details@) =~= candidate_details(*preview, *evidence));
    details
}

/// What the evidence panel shows.
#[derive(Debug)]
pub enum EvidencePanel {
    /// The group or the evidence is being loaded.
    Loading { title: &'static str, note: &'static str },
    /// No example is chosen.
    Empty { note: &'static str },
    /// The evidence of an example.
    Shown(EvidenceBody),
}

/// The evidence of an example.
#[derive(Debug)]
pub struct EvidenceBody {
    pub toolbar: EvidenceToolbar,
    pub diagnosis: Option<DiagnosisView>,
    pub counts: String,
    /// What is said where steps or exact evidence are missing.
    pub caveat: Option<&'static str>,
    pub caveat_surface: u32,
    pub caveat_tint: u32,
    pub steps: Vec<EvidenceStep>,
    pub candidate: Option<Vec<LabelledText>>,
}

/// What is said where steps or exact evidence are missing.
pub open spec fn evidence_caveat(evidence: FindingEvidence) -> Option<Seq<char>> {
    if evidence.spans@.len() == 0 {
        Some(
            "This finding has no committed span evidence. The failure metadata is available in Failure details, but Perseval will not invent execution context."@,
        )
    } else if evidence.evidence_span_ids@.len() == 0 {
        Some(
            "Context spans are available, but the detector did not report an exact evidence span. Nothing is highlighted as causal."@,
        )
    } else {
        None
    }
}

impl FailureInbox {
    /// What the evidence panel shows.
    pub fn render_evidence(&self, compact: bool, unassigned_project_id: &str) -> (panel:
        EvidencePanel)
        requires
            self.investigation.occurrence_offset + self.investigation.occurrences@.len()
                <= u64::MAX,
        ensures
            match panel {
                EvidencePanel::Loading { title, note } => {
                    &&& self.investigation.loading || self.investigation.evidence_loading
                    &&& title@ == (if self.investigation.loading {
                        "Loading failure group…"@
                    } else {
                        "Loading execution evidence…"@
                    })
                    &&& note@
                        == "The workbench remains responsive while Perseval reads the trace index."@
                },
                EvidencePanel::Empty { note } => {
                    &&& !self.investigation.loading && !self.investigation.evidence_loading
                    &&& self.investigation.evidence is None
                    &&& note@ == "Select an occurrence to inspect exact evidence."@
                },
                EvidencePanel::Shown(body) => {
                    &&& !self.investigation.loading && !self.investigation.evidence_loading
                    &&& match self.investigation.evidence {
                        Some(evidence) => {
                            &&& body.diagnosis is Some <==> evidence.presentation is Some
                            &&& body.diagnosis is Some ==> shows_diagnosis(
                                body.diagnosis->0,
                                evidence.presentation->0,
                                self.investigation.group,
                            )
                            &&& body.counts@ == text::decimal(
                                evidence.evidence_span_ids@.len(),
                            ) + " evidence · "@ + text::decimal(evidence.spans@.len())
                                + " with context"@
                            &&& match body.caveat {
                                Some(caveat) => evidence_caveat(evidence) == Some(caveat@),
                                None => evidence_caveat(evidence) is None,
                            }
                            &&& body.caveat_surface == (if evidence.spans@.len() == 0 {
                                Theme::PANEL_ALT
                            } else {
                                Theme::WARNING_SURFACE
                            })
                            &&& body.caveat_tint == (if evidence.spans@.len() == 0 {
                                Theme::MUTED
                            } else {
                                Theme::AMBER
                            })
                            &&& body.steps@.len() == ordered_steps(evidence.spans@).len()
                            &&& forall|i: int|
                                0 <= i < body.steps@.len() ==> lists_step(
                                    #[trigger] body.steps@[i],
                                    i,
                                    evidence,
                                    self.inspector.span_id,
                                    compact,
                                )
                            &&& body.candidate is Some <==> self.eval.candidate is Some
                            &&& body.candidate is Some ==> components::facts(
                                body.candidate->0@,
                            ) == candidate_details(self.eval.candidate->0, evidence)
                            &&& shows_toolbar(
                                body.toolbar,
                                *self,
                                evidence,
                                unassigned_project_id@,
                            )
                        },
                        None => false,
                    }
                },
            },
    {
        if self.investigation.loading || self.investigation.evidence_loading {
            return EvidencePanel::Loading {
                title: if self.investigation.loading {
                    "Loading failure group…"
                } else {
                    "Loading execution evidence…"
                },
                note: "The workbench remains responsive while Perseval reads the trace index.",
            };
        }
        let toolbar = self.evidence_toolbar(unassigned_project_id);
        match (&self.investigation.evidence, toolbar) {
            (Some(evidence), Some(toolbar)) => {
                let diagnosis = match &evidence.presentation {
                    Some(presentation) => Some(
                        diagnosis_view(presentation, &self.investigation.group),
                    ),
                    None => None,
                };
                let mut counts = length_text(evidence.evidence_span_ids.len());
                counts.append(" evidence · ");
                counts.append(length_text(evidence.spans.len()).as_str());
                counts.append(" with context");
                let caveat = if evidence.spans.len() == 0 {
                    Some(
                        "This finding has no committed span evidence. The failure metadata is available in Failure details, but Perseval will not invent execution context.",
                    )
                } else if evidence.evidence_span_ids.len() == 0 {
                    Some(
                        "Context spans are available, but the detector did not report an exact evidence span. Nothing is highlighted as causal.",
                    )
                } else {
                    None
                };
                let (caveat_surface, caveat_tint) = if evidence.spans.len() == 0 {
                    (Theme::PANEL_ALT, Theme::MUTED)
                } else {
                    (Theme::WARNING_SURFACE, Theme::AMBER)
                };
                let candidate = match &self.eval.candidate {
                    Some(preview) => Some(candidate_view(preview, evidence)),
                    None => None,
                };
                let steps = evidence_steps(evidence, &self.inspector.span_id, compact);
                EvidencePanel::Shown(
                    EvidenceBody {
                        toolbar,
                        diagnosis,
                        counts,
                        caveat,
                        caveat_surface,
                        caveat_tint,
                        steps,
                        candidate,
                    },
                )
            },
            _ => EvidencePanel::Empty { note: "Select an occurrence to inspect exact evidence." },
        }
    }
}

/// What the finding tab says.
pub open spec fn finding_text(evidence: FindingEvidence) -> Seq<char> {
    let finding = evidence.occurrence.finding;
    let missing = if finding.missing_facts@.len() == 0 {
        "none"@
    } else {
        text::joined(text::texts(finding.missing_facts@), ", "@)
    };
    let risk = match finding.calibrated_failure_risk {
        Some(percent) => "\nCalibrated failure risk: "@ + percent@ + "%"@,
        None => ""@,
    };
    "Detector: "@ + finding.detector_id@ + "@"@ + finding.detector_version@ + "\nSeverity: "@
        + finding.severity.name() + "\nRecovery: "@ + finding.recovery.name() + "\nRule match: "@
        + finding.rule_match@ + "\nMissing facts: "@ + missing + risk + "\n\n"@ + (
    if evidence.has_candidate {
        "UNREVIEWED EVAL CANDIDATE CREATED"@
    } else {
        "No candidate created."@
    })
}

/// What the span tab says.
pub open spec fn span_text(span: SpanRow) -> Seq<char> {
    span.name@ + "\n"@ + span.category@ + "\nstatus "@ + text::signed_decimal(
        span.status_code as int,
    ) + " · "@ + text::decimal(span.duration_nano as nat) + " ns\nparent "@ + (match optional_text(
        span.parent_span_id,
    ) {
        Some(parent) => parent,
        None => "root"@,
    }) + "\n\nevents ("@ + text::decimal(span.events.count as nat) + ")\n"@ + span.events.rendered@
        + "\n\nlinks ("@ + text::decimal(span.links.count as nat) + ")\n"@ + span.links.rendered@
}

/// What a tab of the inspector says.
pub open spec fn tab_text(inbox: FailureInbox) -> Seq<char> {
    match inbox.inspector.tab {
        InspectorTab::Finding => match inbox.investigation.evidence {
            Some(evidence) => finding_text(evidence),
            None => "This trace was opened without failure context."@,
        },
        InspectorTab::Span => match inbox.inspector.span {
            Some(span) => span_text(span),
            None => "Choose a span."@,
        },
        InspectorTab::Attributes => match inbox.inspector.span {
            Some(span) => span.attributes_rendered@,
            None => "No focused span."@,
        },
        InspectorTab::Payload => "Payloads remain hidden until an explicit bounded reveal below."@,
    }
}

fn finding_text_of(evidence: &FindingEvidence) -> (out: String)
    ensures
        out@ == finding_text(*evidence),
{
    let finding = &evidence.occurrence.finding;
    let missing = if finding.missing_facts.len() == 0 {
        "none".to_owned()
    } else {
        join(&finding.missing_facts, ", ")
    };
    let risk = match &finding.calibrated_failure_risk {
        Some(percent) => concat3("\nCalibrated failure risk: ", percent.as_str(), "%"),
        None => "".to_owned(),
    };
    let mut out = concat3("Detector: ", finding.detector_id.as_str(), "@");
    out.append(finding.detector_version.as_str());
    out.append("\nSeverity: ");
    out.append(finding.severity.label());
    out.append("\nRecovery: ");
    out.append(finding.recovery.label());
    out.append("\nRule match: ");
    out.append(finding.rule_match.as_str());
    out.append("\nMissing facts: ");
    out.append(missing.as_str());
    out.append(risk.as_str());
    out.append("\n\n");
    out.append(
        if evidence.has_candidate {
            "UNREVIEWED EVAL CANDIDATE CREATED"
        } else {
            "No candidate created."
        },
    );
    out
}

fn span_text_of(span: &SpanRow) -> (out: String)
    ensures
        out@ == span_text(*span),
{
    let mut out = concat3(span.name.as_str(), "\n", span.category.as_str());
    out.append("\nstatus ");
    out.append(text::signed_text(span.status_code as i64).as_str());
    out.append(" · ");
    append_decimal(&mut out, span.duration_nano);
    out.append(" ns\nparent ");
    match &span.parent_span_id {
        Some(parent) => {
            out.append(parent.as_str());
        },
        None => {
            out.append("root");
        },
    }
    out.append("\n\nevents (");
    out.append(length_text(span.events.count).as_str());
    out.append(")\n");
    out.append(span.events.rendered.as_str());
    out.append("\n\nlinks (");
    out.append(length_text(span.links.count).as_str());
    out.append(")\n");
    out.append(span.links.rendered.as_str());
    out
}

/// What is shown of a revealed payload.
#[derive(Debug)]
pub struct PayloadView {
    pub shown: String,
    pub can_reveal_more: bool,
    pub blocked: Option<&'static str>,
}

/// The text of a revealed payload, with what is known of the rest.
pub open spec fn revealed_text(payload: RevealedPayload) -> Seq<char> {
    payload.key@ + " · "@ + text::decimal(payload.revealed_bytes as nat) + " of "@
        + text::decimal(payload.original_bytes as nat) + " bytes"@ + (if payload.truncated {
        " · truncated"@
    } else {
        ""@
    }) + "\n\n"@ + payload.value@
}

impl FailureInbox {
    /// What the shown tab of the inspector says.
    pub fn render_inspector_tab(&self) -> (content: String)
        ensures
            content@ == tab_text(*self),
    {
        match self.inspector.tab {
            InspectorTab::Finding => match &self.investigation.evidence {
                Some(evidence) => finding_text_of(evidence),
                None => "This trace was opened without failure context.".to_owned(),
            },
            InspectorTab::Span => match &self.inspector.span {
                Some(span) => span_text_of(span),
                None => "Choose a span.".to_owned(),
            },
            InspectorTab::Attributes => match &self.inspector.span {
                Some(span) => span.attributes_rendered.clone(),
                None => "No focused span.".to_owned(),
            },
            InspectorTab::Payload => {
                "Payloads remain hidden until an explicit bounded reveal below.".to_owned()
            },
        }
    }

    /// What is shown of the revealed payload, in the tab of a span.
    pub fn payload_view(&self) -> (view: Option<PayloadView>)
        ensures
            shows_payload(view, *self),
    {
        if self.inspector.tab != InspectorTab::Payload || self.inspector.span.is_none() {
            return None;
        }
        match &self.inspector.payload {
            Some(payload) => {
                let mut shown = concat2(payload.key.as_str(), " · ");
                append_decimal(&mut shown, payload.revealed_bytes);
                shown.append(" of ");
                append_decimal(&mut shown, payload.original_bytes);
                shown.append(" bytes");
                shown.append(
                    if payload.truncated {
                        " · truncated"
                    } else {
                        ""
                    },
                );
                shown.append("\n\n");
                shown.append(payload.value.as_str());
                let blocked = if payload.truncated && !payload.larger_local_reveal_allowed {
                    Some("Larger reveal is blocked by this workspace's payload policy.")
                } else {
                    None
                };
                Some(
                    PayloadView {
                        shown,
                        can_reveal_more: payload.truncated && payload.larger_local_reveal_allowed,
                        blocked,
                    },
                )
            },
            None => None,
        }
    }

    /// The labels of the buttons that reveal the payloads of the shown span,
    /// in the tab of payloads.
    pub fn payload_buttons(&self) -> (labels: Vec<String>)
        ensures
            text::texts(labels@) == payload_labels(*self),
    {
        let mut labels: Vec<String> = Vec::new();
        if self.inspector.tab == InspectorTab::Payload {
            if let Some(span) = &self.inspector.span {
                return reveal_labels(&span.payload_refs);
            }
        }
        assert(text::texts(labels@) =~= Seq::empty());
        labels
    }
}

/// A tab of the inspector.
#[derive(Debug)]
pub struct TabView {
    pub label: &'static str,
    pub tab: InspectorTab,
    pub selected: bool,
}

/// The tabs of the inspector with their names.
pub open spec fn inspector_tabs() -> Seq<(Seq<char>, InspectorTab)> {
    seq![
        ("Finding"@, InspectorTab::Finding),
        ("Span"@, InspectorTab::Span),
        ("Attributes"@, InspectorTab::Attributes),
        ("Payload"@, InspectorTab::Payload),
    ]
}

/// What the inspector shows.
#[derive(Debug)]
pub struct InspectorView {
    pub tabs: Vec<TabView>,
    pub content: String,
    /// That the shown span has no payloads.
    pub note: Option<&'static str>,
    pub reveal_labels: Vec<String>,
    pub payload: Option<PayloadView>,
}

/// The labels of the buttons that reveal payloads.
pub open spec fn payload_labels(inbox: FailureInbox) -> Seq<Seq<char>> {
    if inbox.inspector.tab == InspectorTab::Payload {
        match inbox.inspector.span {
            Some(span) => span.payload_refs@.map_values(
                |entry: (String, super::model::BlobRefV1)| "Reveal "@ + entry.0@ + " (bounded)"@,
            ),
            None => Seq::empty(),
        }
    } else {
        Seq::empty()
    }
}

/// What is shown of the revealed payload, in the tab of a span.
pub open spec fn shows_payload(view: Option<PayloadView>, inbox: FailureInbox) -> bool {
    let shown = inbox.inspector.tab == InspectorTab::Payload && inbox.inspector.span is Some
        && inbox.inspector.payload is Some;
    match view {
        Some(view) => {
            let payload = inbox.inspector.payload->0;
            &&& shown
            &&& view.shown@ == revealed_text(payload)
            &&& view.can_reveal_more == (payload.truncated && payload.larger_local_reveal_allowed)
            &&& match view.blocked {
                Some(note) => {
                    &&& payload.truncated && !payload.larger_local_reveal_allowed
                    &&& note@ == "Larger reveal is blocked by this workspace's payload policy."@
                },
                None => !payload.truncated || payload.larger_local_reveal_allowed,
            }
        },
        None => !shown,
    }
}

/// What the inspector shows.
pub open spec fn shows_inspector(view: InspectorView, inbox: FailureInbox) -> bool {
    let without_payloads = inbox.inspector.tab == InspectorTab::Payload
        && match inbox.inspector.span {
        Some(span) => span.payload_refs@.len() == 0,
        None => false,
    };
    &&& view.tabs@.len() == inspector_tabs().len()
    &&& forall|i: int|
        0 <= i < view.tabs@.len() ==> {
            let tab = #[trigger] view.tabs@[i];
            &&& (tab.label@, tab.tab) == inspector_tabs()[i]
            &&& tab.selected == (inbox.inspector.tab == tab.tab)
        }
    &&& view.content@ == tab_text(inbox)
    &&& match view.note {
        Some(note) => without_payloads && note@ == "This span has no externalized payloads."@,
        None => !without_payloads,
    }
    &&& text::texts(view.reveal_labels@) == payload_labels(inbox)
    &&& shows_payload(view.payload, inbox)
}

impl FailureInbox {
    fn tab_button(&self, label: &'static str, tab: InspectorTab) -> (view: TabView)
        ensures
            view.label@ == label@,
            view.tab == tab,
            view.selected == (self.inspector.tab == tab),
    {
        TabView { label, tab, selected: self.inspector.tab == tab }
    }

    /// What the inspector shows.
    pub fn render_shared_inspector(&self) -> (view: InspectorView)
        ensures
            shows_inspector(view, *self),
    {
        let mut tabs: Vec<TabView> = Vec::new();
        tabs.push(self.tab_button("Finding", InspectorTab::Finding));
        tabs.push(self.tab_button("Span", InspectorTab::Span));
        tabs.push(self.tab_button("Attributes", InspectorTab::Attributes));
        tabs.push(self.tab_button("Payload", InspectorTab::Payload));
        let empty = match &self.inspector.span {
            Some(span) => span.payload_refs.len() == 0,
            None => false,
        };
        InspectorView {
            tabs,
            content: self.render_inspector_tab(),
            note: if self.inspector.tab == InspectorTab::Payload && empty {
                Some("This span has no externalized payloads.")
            } else {
                None
            },
            reveal_labels: self.payload_buttons(),
            payload: self.payload_view(),
        }
    }
}

fn reveal_labels(refs: &Vec<(String, super::model::BlobRefV1)>) -> (labels: Vec<String>)
    ensures
        text::texts(labels@) == refs@.map_values(
            |entry: (String, super::model::BlobRefV1)| "Reveal "@ + entry.0@ + " (bounded)"@,
        ),
{
    let mut labels: Vec<String> = Vec::new();
    let ghost wanted = refs@.map_values(
        |entry: (String, super::model::BlobRefV1)| "Reveal "@ + entry.0@ + " (bounded)"@,
    );
    let mut index: usize = 0;
    while index < refs.len()
        invariant
            index <= refs@.len(),
            wanted == refs@.map_values(
                |entry: (String, super::model::BlobRefV1)| "Reveal "@ + entry.0@ + " (bounded)"@,
            ),
            text::texts(labels@) == wanted.take(index as int),
        decreases refs@.len() - index,
    {
        let ghost before = text::texts(labels@);
        labels.push(concat3("Reveal ", refs[index].0.as_str(), " (bounded)"));
        index += 1;
        proof {
            assert(text::texts(labels@) =~= before.push(wanted[index - 1]));
            assert(wanted.take(index as int) =~= wanted.take(index - 1).push(wanted[index - 1]));
        }
    }
    assert(wanted.take(index as int) =~= wanted);
    labels
}

/// A step shows its number, role and summary, is marked where it is evidence,
/// and an error is red; the last step leads no further.
pub proof fn steps_show_role_and_state(view: EvidenceRowView, span: SpanRow, row: EvidenceGraphRow)
    requires
        shows_step(view, span, row),
    ensures
        view.number@ == text::decimal((row.index + 1) as nat),
        row.index + 1 == row.total ==> !view.continues,
        row.index + 1 < row.total ==> view.continues,
        view.name@ == span.name@,
        view.role@ == row.role@,
        view.context <==> row.role@ == "Context"@,
        view.explanation@ == row.explanation@,
        row.highlighted ==> view.marker_tint == Theme::AMBER && view.marker_border == Theme::AMBER,
        !row.highlighted ==> view.marker_tint == Theme::DIM && view.marker_border == Theme::BORDER,
        row.selected ==> view.background == Theme::SELECTED,
        !row.selected && row.highlighted ==> view.background == Theme::WARNING_SURFACE,
        !row.selected && !row.highlighted ==> view.background == Theme::BG,
        row.selected || row.highlighted ==> view.supporting_tint == Theme::MUTED,
        !row.selected && !row.highlighted ==> view.supporting_tint == Theme::DIM,
        span.status_code == 2 ==> view.summary_tint == Theme::RED && view.summary@ == "Error"@
            + " · "@ + span.category@ + " · "@ + components::milliseconds(span.duration_nano)
            + " ms"@,
        span.status_code == 1 ==> view.summary@ == "OK"@ + " · "@ + span.category@ + " · "@
            + components::milliseconds(span.duration_nano) + " ms"@,
        span.status_code != 2 ==> view.summary_tint == view.supporting_tint,
        view.summary_below == row.compact,
{
}

/// Steps run by their start, then from the outside inwards, then by identity.
pub proof fn steps_run_by_their_start(left: SpanRow, right: SpanRow)
    ensures
        left.start_time_unix_nano < right.start_time_unix_nano ==> execution_order()(left, right)
            && !execution_order()(right, left),
        left.start_time_unix_nano == right.start_time_unix_nano && left.depth < right.depth
            ==> execution_order()(left, right) && !execution_order()(right, left),
        left.start_time_unix_nano == right.start_time_unix_nano && left.depth == right.depth && (
        exists|place: int| #[trigger] sorting::parts_lower(left.span_id@, right.span_id@, place))
            ==> execution_order()(left, right) && !execution_order()(right, left),
        !execution_order()(left, left),
{
    sorting::text_order_is_total(left.span_id@, left.span_id@);
    sorting::text_order_is_total(left.span_id@, right.span_id@);
    sorting::text_order_is_lexicographic(left.span_id@, right.span_id@);
}

/// A step is explained by the first evidence that names its span, and by none
/// where none does.
pub proof fn steps_are_explained_by_their_evidence(
    evidence: Seq<PresentedEvidence>,
    span_id: Seq<char>,
)
    ensures
        match presented_step(evidence, span_id) {
            Some(step) => exists|i: int|
                {
                    &&& 0 <= i < evidence.len()
                    &&& #[trigger] evidence[i] == step
                    &&& step.span_id is Some && step.span_id->0@ == span_id
                    &&& forall|j: int|
                        0 <= j < i ==> optional_text((#[trigger] evidence[j]).span_id) != Some(
                            span_id,
                        )
                },
            None => forall|i: int|
                0 <= i < evidence.len() ==> optional_text((#[trigger] evidence[i]).span_id) != Some(
                    span_id,
                ),
        },
    decreases evidence.len(),
{
    if evidence.len() > 0 && optional_text(evidence[0].span_id) != Some(span_id) {
        let rest = evidence.drop_first();
        steps_are_explained_by_their_evidence(rest, span_id);
        match presented_step(rest, span_id) {
            Some(step) => {
                let i = choose|i: int|
                    {
                        &&& 0 <= i < rest.len()
                        &&& #[trigger] rest[i] == step
                        &&& step.span_id is Some && step.span_id->0@ == span_id
                        &&& forall|j: int|
                            0 <= j < i ==> optional_text((#[trigger] rest[j]).span_id) != Some(
                                span_id,
                            )
                    };
                assert(evidence[i + 1] == rest[i]);
                assert forall|j: int| 0 <= j < i + 1 implies optional_text(
                    (#[trigger] evidence[j]).span_id,
                ) != Some(span_id) by {
                    if j > 0 {
                        assert(rest[j - 1] == evidence[j]);
                    }
                }
            },
            None => {
                assert forall|i: int| 0 <= i < evidence.len() implies optional_text(
                    (#[trigger] evidence[i]).span_id,
                ) != Some(span_id) by {
                    if i > 0 {
                        assert(rest[i - 1] == evidence[i]);
                    }
                }
            },
        }
    } else if evidence.len() > 0 {
        assert(evidence[0] == presented_step(evidence, span_id)->0);
    }
}

/// Without an explanation of its own a step is direct evidence or context.
pub proof fn unexplained_steps_are_evidence_or_context(
    presentation: Option<FailurePresentation>,
    span_id: Seq<char>,
)
    ensures
        presented_of(None, span_id) is None,
        presentation is Some ==> presented_of(presentation, span_id) == presented_step(
            presentation->0.evidence@,
            span_id,
        ),
        presented_of(presentation, span_id) is None ==> {
            &&& step_texts(presentation, span_id, true) == (
                "Evidence"@,
                "This step is direct finding evidence."@,
            )
            &&& step_texts(presentation, span_id, false) == (
                "Context"@,
                "Execution context around the finding."@,
            )
        },
        presented_of(presentation, span_id) is Some ==> {
            let presented = presented_of(presentation, span_id)->0;
            &&& step_texts(presentation, span_id, true) == (
                components::humanized(presented.role@),
                presented.explanation@,
            )
            &&& step_texts(presentation, span_id, false) == step_texts(presentation, span_id, true)
        },
{
}

/// A listed step is the one at its place in the order of execution; it is
/// marked where the finding cites it and focused where it is looked at.
pub proof fn listed_steps_are_those_of_their_place(
    step: EvidenceStep,
    index: int,
    evidence: FindingEvidence,
    focused: Option<String>,
    compact: bool,
)
    requires
        lists_step(step, index, evidence, focused, compact),
        0 <= index < evidence.spans@.len(),
    ensures
        ({
            let span = ordered_steps(evidence.spans@)[index];
            let cited = text::texts(evidence.evidence_span_ids@).contains(span.span_id@);
            &&& step.span_id@ == span.span_id@
            &&& step.row.name@ == span.name@
            &&& step.row.number@ == text::decimal((index + 1) as nat)
            &&& step.focused <==> focused is Some && focused->0@ == span.span_id@
            &&& cited ==> step.row.marker_tint == Theme::AMBER
            &&& !cited ==> step.row.marker_tint == Theme::DIM
            &&& step.row.summary_below == compact
        }),
{
}

/// The title is that of the presentation, then of the group's first detector.
pub proof fn failures_are_titled_by_their_presentation(
    evidence: FindingEvidence,
    group: Option<FailureGroupDetail>,
)
    ensures
        evidence.presentation is Some ==> failure_title(evidence, group)
            == evidence.presentation->0.title@,
        evidence.presentation is None && group is Some && group->0.summary.detector_ids@.len() > 0
            ==> failure_title(evidence, group) == components::humanized(
            group->0.summary.detector_ids@[0]@,
        ),
        evidence.presentation is None && (group is None || group->0.summary.detector_ids@.len()
            == 0) ==> failure_title(evidence, group) == "Failure investigation"@,
{
}

/// A stale review holds no longer, and is shown as stale; any other is shown
/// by its decision.
pub proof fn stale_reviews_hold_no_longer(occurrence: FailureOccurrence)
    ensures
        occurrence.disposition_stale ==> current_disposition(occurrence) is None && review_mark(
            occurrence,
        ) == Some(("Review stale"@, Theme::AMBER)),
        !occurrence.disposition_stale ==> current_disposition(occurrence) == occurrence.disposition,
        !occurrence.disposition_stale && occurrence.disposition is None ==> review_mark(occurrence)
            is None,
        !occurrence.disposition_stale && occurrence.disposition == Some(
            FindingDispositionStateV1::Confirmed,
        ) ==> review_mark(occurrence) == Some(("Confirmed"@, Theme::GREEN)),
        !occurrence.disposition_stale && occurrence.disposition == Some(
            FindingDispositionStateV1::Dismissed,
        ) ==> review_mark(occurrence) == Some(("Dismissed"@, Theme::MUTED)),
        !occurrence.disposition_stale && occurrence.disposition == Some(
            FindingDispositionStateV1::NeedsContext,
        ) ==> review_mark(occurrence) == Some(("Needs context"@, Theme::AMBER)),
{
}

/// The position counts the example among all of its group, from one on, and the
/// hint says where the list of examples ends.
pub proof fn positions_count_from_one(investigation: Investigation)
    ensures
        investigation.group is Some && investigation.group->0.summary.occurrence_count == 1 ==> {
            &&& position_label(investigation) == "Only example"@
            &&& navigation_hint(investigation) == Some("No other examples in this group"@)
        },
        investigation.group is Some && investigation.group->0.summary.occurrence_count > 1
            && investigation.selected_place() is Some ==> position_label(investigation)
            == "Example "@ + text::decimal(
            (investigation.occurrence_offset + investigation.selected_place()->0 + 1) as nat,
        ) + " of "@ + text::decimal(investigation.group->0.summary.occurrence_count as nat),
        investigation.group is None ==> navigation_hint(investigation) == Some(
            "No other examples in this group"@,
        ),
        investigation.group is Some && investigation.group->0.summary.occurrence_count > 1 ==> {
            &&& !investigation.neighbours().0 ==> navigation_hint(investigation) == Some(
                "First example"@,
            )
            &&& investigation.neighbours().0 && !investigation.neighbours().1 ==> navigation_hint(
                investigation,
            ) == Some("Last example"@)
            &&& investigation.neighbours().0 && investigation.neighbours().1 ==> navigation_hint(
                investigation,
            ) is None
        },
{
}

/// The toolbar names failure, run and revision, and offers what can be done.
pub proof fn toolbars_offer_what_can_be_done(
    toolbar: EvidenceToolbar,
    inbox: FailureInbox,
    evidence: FindingEvidence,
    unassigned_project_id: Seq<char>,
)
    requires
        shows_toolbar(toolbar, inbox, evidence, unassigned_project_id),
    ensures
        toolbar.source@ == evidence.occurrence.run_title@ + " · revision "@ + text::decimal(
            evidence.occurrence.revision as nat,
        ),
        inbox.investigation.group is Some ==> toolbar.title@ == failure_title(
            evidence,
            inbox.investigation.group,
        ) + " · "@ + inbox.investigation.group->0.summary.severity.name(),
        toolbar.previous_enabled == inbox.investigation.neighbours().0,
        toolbar.next_enabled == inbox.investigation.neighbours().1,
        toolbar.previous_enabled ==> toolbar.previous_label@ == "Previous example"@,
        !toolbar.previous_enabled ==> toolbar.previous_label@ == "Previous example, unavailable"@,
        toolbar.next_enabled ==> toolbar.next_label@ == "Next example"@,
        !toolbar.next_enabled ==> toolbar.next_label@ == "Next example, unavailable"@,
        evidence.occurrence.disposition_stale ==> toolbar.review_prompt@ == "Prior review is stale"@
            && toolbar.disposition is None,
        !evidence.occurrence.disposition_stale ==> toolbar.review_prompt@ == "Review this finding"@
            && toolbar.disposition == evidence.occurrence.disposition,
        toolbar.can_generate <==> inbox.filters.scope.criteria.project_id is Some
            && inbox.filters.scope.criteria.project_id->0@ != unassigned_project_id,
        toolbar.can_generate ==> toolbar.generate_label@
            == "Generate eval candidates for this failure group"@,
        !toolbar.can_generate ==> toolbar.generate_label@
            == "Generate eval candidates unavailable in this scope"@,
        toolbar.actions_open ==> toolbar.actions_label@ == "Close investigation actions"@,
        !toolbar.actions_open ==> toolbar.actions_label@ == "Open investigation actions"@,
        toolbar.actions_open == inbox.investigation.actions_open,
{
}

/// A diagnosis gives what was expected, what was observed, the impact where it
/// is known, the recovery, a caveat where there is one, and what to do next.
pub proof fn diagnoses_go_from_expectation_to_remedy(
    presentation: FailurePresentation,
    group: Option<FailureGroupDetail>,
)
    ensures
        ({
            let list = diagnosis_facts(presentation, group);
            let reach = if group is Some {
                1int
            } else {
                0
            };
            let caveat = if presentation.caveat is Some {
                1int
            } else {
                0
            };
            &&& list.len() == 4 + reach + caveat
            &&& list[0] == components::fact(
                "Expected"@,
                presentation.expected_behavior@,
                Theme::GREEN,
            )
            &&& list[1] == components::fact(
                "Observed"@,
                presentation.observed_behavior@,
                Theme::AMBER,
            )
            &&& group is Some ==> list[2] == components::fact(
                "Impact"@,
                group->0.summary.severity.name() + " severity · "@ + text::decimal(
                    group->0.summary.occurrence_count as nat,
                ) + " occurrences across "@ + text::decimal(
                    group->0.summary.affected_run_count as nat,
                ) + " runs"@,
                Theme::RED,
            )
            &&& list[2 + reach] == components::fact(
                "Recovery"@,
                presentation.recovery_summary@,
                Theme::MUTED,
            )
            &&& presentation.caveat is Some ==> list[3 + reach] == components::fact(
                "Caveat"@,
                presentation.caveat->0@,
                Theme::AMBER,
            )
            &&& list.last() == components::fact(
                "Next"@,
                presentation.remediation_hint@,
                Theme::CYAN,
            )
        }),
{
}

/// Evidence without spans, or without a cited one, is shown with a caveat.
pub proof fn missing_evidence_is_said_so(evidence: FindingEvidence)
    ensures
        evidence.spans@.len() == 0 ==> evidence_caveat(evidence) == Some(
            "This finding has no committed span evidence. The failure metadata is available in Failure details, but Perseval will not invent execution context."@,
        ),
        evidence.spans@.len() > 0 && evidence.evidence_span_ids@.len() == 0 ==> evidence_caveat(
            evidence,
        ) == Some(
            "Context spans are available, but the detector did not report an exact evidence span. Nothing is highlighted as causal."@,
        ),
        evidence.spans@.len() > 0 && evidence.evidence_span_ids@.len() > 0 ==> evidence_caveat(
            evidence,
        ) is None,
{
}

/// The inspector's tabs show finding, span, attributes and payload, and say
/// where there is nothing to show.
pub proof fn tabs_show_their_own_content(inbox: FailureInbox)
    ensures
        inspector_tabs().len() == 4,
        inspector_tabs()[0] == ("Finding"@, InspectorTab::Finding),
        inspector_tabs()[1] == ("Span"@, InspectorTab::Span),
        inspector_tabs()[2] == ("Attributes"@, InspectorTab::Attributes),
        inspector_tabs()[3] == ("Payload"@, InspectorTab::Payload),
        inbox.inspector.tab == InspectorTab::Finding && inbox.investigation.evidence is Some
            ==> tab_text(inbox) == finding_text(inbox.investigation.evidence->0),
        inbox.inspector.tab == InspectorTab::Finding && inbox.investigation.evidence is None
            ==> tab_text(inbox) == "This trace was opened without failure context."@,
        inbox.inspector.tab == InspectorTab::Span && inbox.inspector.span is Some ==> tab_text(
            inbox,
        ) == span_text(inbox.inspector.span->0),
        inbox.inspector.tab == InspectorTab::Span && inbox.inspector.span is None ==> tab_text(
            inbox,
        ) == "Choose a span."@,
        inbox.inspector.tab == InspectorTab::Attributes && inbox.inspector.span is Some
            ==> tab_text(inbox) == inbox.inspector.span->0.attributes_rendered@,
        inbox.inspector.tab == InspectorTab::Attributes && inbox.inspector.span is None
            ==> tab_text(inbox) == "No focused span."@,
        inbox.inspector.tab == InspectorTab::Payload ==> tab_text(inbox)
            == "Payloads remain hidden until an explicit bounded reveal below."@,
        inbox.inspector.tab != InspectorTab::Payload || inbox.inspector.span is None
            ==> payload_labels(inbox).len() == 0,
        inbox.inspector.tab == InspectorTab::Payload && inbox.inspector.span is Some ==> {
            let refs = inbox.inspector.span->0.payload_refs@;
            &&& payload_labels(inbox).len() == refs.len()
            &&& forall|i: int|
                0 <= i < refs.len() ==> #[trigger] payload_labels(inbox)[i] == "Reveal "@
                    + refs[i].0@ + " (bounded)"@
        },
{
}

/// More of a payload can be revealed exactly where it was truncated and the
/// policy allows it; where the policy does not, that is said.
pub proof fn truncated_payloads_say_what_is_allowed(view: PayloadView, inbox: FailureInbox)
    requires
        shows_payload(Some(view), inbox),
    ensures
        inbox.inspector.tab == InspectorTab::Payload,
        inbox.inspector.payload is Some,
        view.can_reveal_more <==> inbox.inspector.payload->0.truncated
            && inbox.inspector.payload->0.larger_local_reveal_allowed,
        view.blocked is Some <==> inbox.inspector.payload->0.truncated
            && !inbox.inspector.payload->0.larger_local_reveal_allowed,
        view.shown@ == revealed_text(inbox.inspector.payload->0),
{
}

/// What was revealed is shown with its name, its size out of the whole, and
/// whether it was truncated.
pub proof fn revealed_payloads_show_their_size(payload: RevealedPayload)
    ensures
        payload.truncated ==> revealed_text(payload) == payload.key@ + " · "@ + text::decimal(
            payload.revealed_bytes as nat,
        ) + " of "@ + text::decimal(payload.original_bytes as nat) + " bytes"@ + " · truncated"@
            + "\n\n"@ + payload.value@,
        !payload.truncated ==> revealed_text(payload) == payload.key@ + " · "@ + text::decimal(
            payload.revealed_bytes as nat,
        ) + " of "@ + text::decimal(payload.original_bytes as nat) + " bytes"@ + "\n\n"@
            + payload.value@,
{
    reveal_strlit("");
    let head = payload.key@ + " · "@ + text::decimal(payload.revealed_bytes as nat) + " of "@
        + text::decimal(payload.original_bytes as nat) + " bytes"@;
    assert(head + ""@ =~= head);
}

/// A finding is told by detector, severity, recovery, match and missing facts,
/// and whether a candidate was made of it.
pub proof fn findings_tell_what_is_missing(evidence: FindingEvidence)
    ensures
        ({
            let finding = evidence.occurrence.finding;
            let head = "Detector: "@ + finding.detector_id@ + "@"@ + finding.detector_version@
                + "\nSeverity: "@ + finding.severity.name() + "\nRecovery: "@
                + finding.recovery.name() + "\nRule match: "@ + finding.rule_match@
                + "\nMissing facts: "@;
            &&& finding.missing_facts@.len() == 0 && finding.calibrated_failure_risk is None
                && evidence.has_candidate ==> finding_text(evidence) == head + "none"@ + "\n\n"@
                + "UNREVIEWED EVAL CANDIDATE CREATED"@
            &&& finding.missing_facts@.len() == 0 && finding.calibrated_failure_risk is Some
                && !evidence.has_candidate ==> finding_text(evidence) == head + "none"@ + (
            "\nCalibrated failure risk: "@ + finding.calibrated_failure_risk->0@ + "%"@) + "\n\n"@
                + "No candidate created."@
            &&& finding.missing_facts@.len() > 0 && finding.calibrated_failure_risk is None
                && !evidence.has_candidate ==> finding_text(evidence) == head + text::joined(
                text::texts(finding.missing_facts@),
                ", "@,
            ) + "\n\n"@ + "No candidate created."@
        }),
{
    reveal_strlit("");
    let finding = evidence.occurrence.finding;
    let head = "Detector: "@ + finding.detector_id@ + "@"@ + finding.detector_version@
        + "\nSeverity: "@ + finding.severity.name() + "\nRecovery: "@ + finding.recovery.name()
        + "\nRule match: "@ + finding.rule_match@ + "\nMissing facts: "@;
    let facts = text::joined(text::texts(finding.missing_facts@), ", "@);
    assert(head + "none"@ + ""@ =~= head + "none"@);
    assert(head + facts + ""@ =~= head + facts);
}

/// A span is told by name, category, status, duration and parent, and by its
/// events and links with their number.
pub proof fn spans_tell_their_parent(span: SpanRow)
    ensures
        span_text(span) == span.name@ + "\n"@ + span.category@ + "\nstatus "@
            + text::signed_decimal(span.status_code as int) + " · "@ + text::decimal(
            span.duration_nano as nat,
        ) + " ns\nparent "@ + (if span.parent_span_id is Some {
            span.parent_span_id->0@
        } else {
            "root"@
        }) + "\n\nevents ("@ + text::decimal(span.events.count as nat) + ")\n"@
            + span.events.rendered@ + "\n\nlinks ("@ + text::decimal(span.links.count as nat)
            + ")\n"@ + span.links.rendered@,
{
}

/// A candidate's details name its packet, source, expectations, rubric, grader
/// and generator, and what telemetry is missing where any is.
pub proof fn candidates_name_their_source(preview: EvalCandidatePreview, evidence: FindingEvidence)
    ensures
        ({
            let list = candidate_details(preview, evidence);
            let gaps = preview.telemetry_gaps@.len();
            &&& list.len() == (if gaps > 0 {
                7int
            } else {
                6
            })
            &&& list[0] == components::fact(
                "Evidence packet"@,
                preview.packet_id@ + "\n"@ + preview.content_hash@,
                Theme::DIM,
            )
            &&& list[1] == components::fact(
                "Source"@,
                evidence.occurrence.run_title@ + " · rev "@ + text::decimal(
                    evidence.occurrence.revision as nat,
                ) + " · "@ + evidence.occurrence.finding.finding_id@,
                Theme::DIM,
            )
            &&& list[2] == components::fact(
                "Proposed expectations"@,
                text::joined(text::texts(preview.proposed_expected_behavior@), "\n✓ "@),
                Theme::DIM,
            )
            &&& list[3] == components::fact("Rubric"@, preview.proposed_rubric@, Theme::DIM)
            &&& list[4] == components::fact("Grader"@, preview.proposed_grader@, Theme::DIM)
            &&& list[5] == components::fact(
                "Generator"@,
                preview.generator_name@ + "@"@ + preview.generator_version@,
                Theme::DIM,
            )
            &&& gaps > 0 ==> list[6] == components::fact(
                "Telemetry gaps"@,
                text::joined(text::texts(preview.telemetry_gaps@), "\n"@),
                Theme::DIM,
            )
        }),
{
}

/// A step is told aloud by number, name, category, duration and explanation.
pub proof fn steps_are_told_aloud(
    step: EvidenceStep,
    index: int,
    evidence: FindingEvidence,
    focused: Option<String>,
    compact: bool,
)
    requires
        lists_step(step, index, evidence, focused, compact),
    ensures
        ({
            let span = ordered_steps(evidence.spans@)[index];
            step.label@ == "Step "@ + text::decimal((index + 1) as nat) + "; "@ + span.name@
                + "; "@ + span.category@ + "; "@ + components::milliseconds(span.duration_nano)
                + " milliseconds; "@ + step.row.explanation@
        }),
{
}

/// A diagnosis is told aloud from the diagnosis to the recovery.
pub proof fn diagnoses_are_told_aloud(
    view: DiagnosisView,
    presentation: FailurePresentation,
    group: Option<FailureGroupDetail>,
)
    requires
        shows_diagnosis(view, presentation, group),
    ensures
        view.diagnosis@ == presentation.diagnosis@,
        view.label@ == "Diagnosis: "@ + presentation.diagnosis@ + " Expected: "@
            + presentation.expected_behavior@ + " Observed: "@ + presentation.observed_behavior@
            + " Recovery: "@ + presentation.recovery_summary@,
        components::facts(view.facts@) == diagnosis_facts(presentation, group),
{
}

/// The inspector shows the content of its tab, marks the tab, and says where a
/// span has no payloads or the policy hides them.
pub proof fn inspectors_show_the_chosen_tab(view: InspectorView, inbox: FailureInbox, place: int)
    requires
        shows_inspector(view, inbox),
    ensures
        view.tabs@.len() == 4,
        0 <= place < 4 ==> (view.tabs@[place].selected <==> inbox.inspector.tab
            == inspector_tabs()[place].1),
        0 <= place < 4 ==> view.tabs@[place].label@ == inspector_tabs()[place].0,
        view.content@ == tab_text(inbox),
        view.note is Some <==> inbox.inspector.tab == InspectorTab::Payload && inbox.inspector.span
            is Some && inbox.inspector.span->0.payload_refs@.len() == 0,
        view.note is Some ==> view.note->0@ == "This span has no externalized payloads."@,
        view.payload is Some <==> inbox.inspector.tab == InspectorTab::Payload
            && inbox.inspector.span is Some && inbox.inspector.payload is Some,
        view.payload is Some && view.payload->0.blocked is Some ==> view.payload->0.blocked->0@
            == "Larger reveal is blocked by this workspace's payload policy."@,
        text::texts(view.reveal_labels@) == payload_labels(inbox),
{
    if 0 <= place < 4 {
        let tab = view.tabs@[place];
        assert((tab.label@, tab.tab) == inspector_tabs()[place]);
    }
}

} // verus!
