//! What is shown of the full trace.

use super::components::{self, humanize, FullTraceRowState};
use super::full_trace_timeline;
use super::full_trace_tree::FullTraceListRow;
use super::model::{copy_optional, optional_text, FailureGroupDetail, FindingEvidence, SpanRow};
use super::state::{FailureInbox, FailureInboxEvent, FullTrace, FullTraceMode, FullTraceOrigin};
use crate::keyed;
use crate::text::{
    self, concat3, concat5, contains_part, contains_text, decimal_text,
    length_text, lowercase_text, trim,
};
use vstd::prelude::*;
use vstd::string::*;

verus! {

/// Whether a span has a text in its name, its identity, its category or its
/// status message, whatever the case of their letters.
pub open spec fn matches_search(span: SpanRow, search: Seq<char>) -> bool {
    ||| text::occurs_in(text::lowercase_of(span.name@), search)
    ||| text::occurs_in(text::lowercase_of(span.span_id@), search)
    ||| text::occurs_in(text::lowercase_of(span.category@), search)
    ||| text::occurs_in(text::lowercase_of(span.status_message@), search)
}

/// Whether a span has a text in its name, its identity, its category or its
/// status message.
pub fn span_matches_search(span: &SpanRow, search: &str) -> (matches: bool)
    ensures
        matches == matches_search(*span, search@),
{
    contains_part(lowercase_text(span.name.as_str()).as_str(), search) || contains_part(
        lowercase_text(span.span_id.as_str()).as_str(),
        search,
    ) || contains_part(lowercase_text(span.category.as_str()).as_str(), search) || contains_part(
        lowercase_text(span.status_message.as_str()).as_str(),
        search,
    )
}

/// Whether a span passes the filters: it is an error where only errors are
/// shown, and it matches the search where there is one.
pub open spec fn passes(span: SpanRow, search: Seq<char>, errors_only: bool) -> bool {
    (!errors_only || span.status_code == 2) && (search.len() == 0 || matches_search(span, search))
}

/// Whether a span passes the filters.
pub fn passes_filters(span: &SpanRow, search: &str, errors_only: bool) -> (pass: bool)
    ensures
        pass == passes(*span, search@, errors_only),
{
    (!errors_only || span.status_code == 2) && (search.is_empty() || span_matches_search(
        span,
        search,
    ))
}

/// Whether a row of the tree stays under the filters: only spans are filtered.
pub open spec fn row_passes(search: Seq<char>, errors_only: bool) -> spec_fn(
    FullTraceListRow,
) -> bool {
    |row: FullTraceListRow|
        match row {
            FullTraceListRow::Span(span) => passes(*span, search, errors_only),
            _ => true,
        }
}

/// Whether a span of the timeline stays under the filters.
pub open spec fn span_passes(search: Seq<char>, errors_only: bool) -> spec_fn(SpanRow) -> bool {
    |span: SpanRow| passes(span, search, errors_only)
}

/// Whether a row shows a span.
pub open spec fn shows_span() -> spec_fn(FullTraceListRow) -> bool {
    |row: FullTraceListRow| row is Span
}

impl FullTraceListRow {
    /// The same row again.
    pub fn copy(&self) -> (copy: Self)
        ensures
            copy == *self,
    {
        match self {
            FullTraceListRow::Span(span) => FullTraceListRow::Span(Box::new(span.copy())),
            FullTraceListRow::LoadMore { parent_span_id, offset, depth } => {
                FullTraceListRow::LoadMore {
                    parent_span_id: copy_optional(parent_span_id),
                    offset: *offset,
                    depth: *depth,
                }
            },
            FullTraceListRow::Loading { depth } => FullTraceListRow::Loading { depth: *depth },
        }
    }
}

/// The rows of the tree that stay under the filters.
pub fn filter_tree_rows(rows: &Vec<FullTraceListRow>, search: &str, errors_only: bool) -> (kept:
    Vec<FullTraceListRow>)
    ensures
        kept@ == rows@.filter(row_passes(search@, errors_only)),
{
    let mut kept: Vec<FullTraceListRow> = Vec::new();
    let ghost keep = row_passes(search@, errors_only);
    let mut index: usize = 0;
    proof {
        reveal(Seq::filter);
        assert(rows@.take(0) =~= Seq::empty());
    }
    while index < rows.len()
        invariant
            index <= rows@.len(),
            keep == row_passes(search@, errors_only),
            kept@ == rows@.take(index as int).filter(keep),
        decreases rows@.len() - index,
    {
        proof {
            keyed::lemma_filter_take(rows@, index as int, keep);
        }
        let stays = match &rows[index] {
            FullTraceListRow::Span(span) => passes_filters(span, search, errors_only),
            _ => true,
        };
        if stays {
            kept.push(rows[index].copy());
        }
        index += 1;
    }
    assert(rows@.take(index as int) =~= rows@);
    kept
}

/// The spans of the timeline that stay under the filters.
pub fn filter_spans(spans: &Vec<SpanRow>, search: &str, errors_only: bool) -> (kept: Vec<SpanRow>)
    ensures
        kept@ == spans@.filter(span_passes(search@, errors_only)),
{
    let mut kept: Vec<SpanRow> = Vec::new();
    let ghost keep = span_passes(search@, errors_only);
    let mut index: usize = 0;
    proof {
        reveal(Seq::filter);
        assert(spans@.take(0) =~= Seq::empty());
    }
    while index < spans.len()
        invariant
            index <= spans@.len(),
            keep == span_passes(search@, errors_only),
            kept@ == spans@.take(index as int).filter(keep),
        decreases spans@.len() - index,
    {
        proof {
            keyed::lemma_filter_take(spans@, index as int, keep);
        }
        if passes_filters(&spans[index], search, errors_only) {
            kept.push(spans[index].copy());
        }
        index += 1;
    }
    assert(spans@.take(index as int) =~= spans@);
    kept
}

fn count_spans(rows: &Vec<FullTraceListRow>) -> (count: usize)
    ensures
        count == rows@.filter(shows_span()).len(),
{
    let mut count: usize = 0;
    let mut index: usize = 0;
    proof {
        reveal(Seq::filter);
        assert(rows@.take(0) =~= Seq::empty());
    }
    while index < rows.len()
        invariant
            index <= rows@.len(),
            count <= index,
            count == rows@.take(index as int).filter(shows_span()).len(),
        decreases rows@.len() - index,
    {
        proof {
            keyed::lemma_filter_take(rows@, index as int, shows_span());
        }
        match &rows[index] {
            FullTraceListRow::Span(_) => {
                count += 1;
            },
            _ => {},
        }
        index += 1;
    }
    assert(rows@.take(index as int) =~= rows@);
    count
}

/// The name of the shown group, in the path to the trace.
pub open spec fn group_name(group: Option<FailureGroupDetail>) -> Seq<char> {
    match group {
        Some(group) => match group.summary.presentation {
            Some(presentation) => presentation.title@,
            None => if group.summary.detector_ids@.len() > 0 {
                components::humanized(group.summary.detector_ids@[0]@)
            } else {
                "Failure"@
            },
        },
        None => "Failure"@,
    }
}

/// The path to the trace.
pub open spec fn breadcrumb(
    evidence: Option<FindingEvidence>,
    group: Option<FailureGroupDetail>,
) -> Seq<char> {
    match evidence {
        Some(evidence) => "Failures / "@ + group_name(group) + " / "@
            + evidence.occurrence.run_title@ + " / Full trace"@,
        None => "Failures / Full trace"@,
    }
}

fn breadcrumb_of(evidence: &Option<FindingEvidence>, group: &Option<FailureGroupDetail>) -> (path:
    String)
    ensures
        path@ == breadcrumb(*evidence, *group),
{
    let evidence = match evidence {
        Some(evidence) => evidence,
        None => {
            return "Failures / Full trace".to_owned();
        },
    };
    let name = match group {
        Some(group) => match &group.summary.presentation {
            Some(presentation) => presentation.title.clone(),
            None => if group.summary.detector_ids.len() > 0 {
                humanize(group.summary.detector_ids[0].as_str())
            } else {
                "Failure".to_owned()
            },
        },
        None => "Failure".to_owned(),
    };
    concat5(
        "Failures / ",
        name.as_str(),
        " / ",
        evidence.occurrence.run_title.as_str(),
        " / Full trace",
    )
}

/// How much of a trace is loaded and shown.
pub open spec fn trace_status(
    trace: FullTrace,
    filtered: bool,
    matching: nat,
    loaded: nat,
    evidence: nat,
) -> Seq<char> {
    if trace.loading {
        "Loading trace…"@
    } else {
        text::decimal(trace.span_count as nat) + " total spans"@ + (if filtered {
            " · "@ + text::decimal(matching) + " of "@ + text::decimal(loaded)
                + " loaded rows match"@
        } else {
            " · "@ + text::decimal(loaded) + " rows loaded"@
        }) + " · "@ + text::decimal(evidence) + " evidence spans highlighted"@
    }
}

/// What stands in place of the rows, if anything.
#[derive(Debug, Clone, Copy, PartialEq, Eq, Structural)]
pub enum TraceContent {
    Loading,
    NoSpans,
    Rows,
}

/// What is shown of the full trace.
#[derive(Debug)]
pub struct FullTraceView {
    pub back: &'static str,
    pub back_label: &'static str,
    pub breadcrumb: String,
    pub status: String,
    pub content: TraceContent,
    /// The search in small letters.
    pub search: String,
    pub filtered: bool,
    pub tree_rows: Vec<FullTraceListRow>,
    /// The rows of the timeline, where it is filtered.
    pub timeline_rows: Option<Vec<SpanRow>>,
    /// How many rows the timeline has.
    pub timeline_total: usize,
    pub start_unix_nano: u64,
    pub duration_nano: u64,
}

/// The search of a trace, given what was entered: without the white space at
/// its ends, in small letters.
pub open spec fn trace_search(trace: FullTrace) -> Seq<char> {
    text::lowercase_of(text::trimmed(trace.search@.text))
}

/// How long a trace takes, at least one nanosecond.
pub open spec fn trace_duration(trace: FullTrace) -> u64 {
    if trace.end_unix_nano > trace.start_unix_nano {
        (trace.end_unix_nano - trace.start_unix_nano) as u64
    } else {
        1
    }
}

fn evidence_ids_count(evidence: &Option<FindingEvidence>) -> (count: usize)
    ensures
        count == (match *evidence {
            Some(evidence) => evidence.evidence_span_ids@.len(),
            None => 0,
        }),
{
    match evidence {
        Some(evidence) => evidence.evidence_span_ids.len(),
        None => 0,
    }
}

impl FailureInbox {
    /// What is shown of the full trace.
    pub fn render_full_trace(&self) -> (view: FullTraceView)
        requires
            self.wf(),
            self.trace.tree@.spans().len() <= u32::MAX,
            full_trace_timeline::timeline_spans(self.trace.timeline@.pages).len() <= usize::MAX,
        ensures
            view.search@ == trace_search(self.trace),
            self.shows_trace(view, view.search@),
    {
        let search = lowercase_text(trim(self.trace.search.text()).as_str());
        self.trace_view(search)
    }

    /// What is shown of the full trace under a search in small letters.
    pub open spec fn shows_trace(self, view: FullTraceView, search: Seq<char>) -> bool {
        let trace = self.trace;
        let filtered = search.len() > 0 || trace.errors_only;
        let tree = trace.tree@.visible();
        let shown = if filtered {
            tree.filter(row_passes(search, trace.errors_only))
        } else {
            tree
        };
        let timeline = trace.timeline@.loaded().filter(span_passes(search, trace.errors_only));
        let loaded = match trace.mode {
            FullTraceMode::Tree => tree.filter(shows_span()).len(),
            FullTraceMode::Timeline => full_trace_timeline::timeline_spans(
                trace.timeline@.pages,
            ).len(),
        };
        let matching = match trace.mode {
            FullTraceMode::Tree => shown.filter(shows_span()).len(),
            FullTraceMode::Timeline => if filtered {
                timeline.len()
            } else {
                loaded
            },
        };
        &&& view.back@ == (match trace.origin {
            FullTraceOrigin::Runs => "← Back to runs"@,
            _ => "← Back to investigation"@,
        })
        &&& view.back_label@ == (match trace.origin {
            FullTraceOrigin::Runs => "Back to runs"@,
            _ => "Back to originating investigation"@,
        })
        &&& view.breadcrumb@ == breadcrumb(self.investigation.evidence, self.investigation.group)
        &&& view.search@ == search
        &&& view.filtered == filtered
        &&& view.tree_rows@ == shown
        &&& (view.timeline_rows is Some) == filtered
        &&& view.timeline_rows is Some ==> view.timeline_rows->0@ == timeline
        &&& view.timeline_total == (if filtered {
            timeline.len() as int
        } else if trace.timeline@.total > usize::MAX {
            usize::MAX as int
        } else {
            trace.timeline@.total as int
        })
        &&& view.status@ == trace_status(
            trace,
            filtered,
            matching,
            loaded,
            match self.investigation.evidence {
                Some(evidence) => evidence.evidence_span_ids@.len(),
                None => 0,
            },
        )
        &&& view.content == (if trace.loading {
            TraceContent::Loading
        } else if trace.span_count == 0 {
            TraceContent::NoSpans
        } else {
            TraceContent::Rows
        })
        &&& view.start_unix_nano == trace.start_unix_nano
        &&& view.duration_nano == trace_duration(trace)
    }

    /// What is shown of the full trace under a search in small letters.
    pub fn trace_view(&self, search: String) -> (view: FullTraceView)
        requires
            self.wf(),
            self.trace.tree@.spans().len() <= u32::MAX,
            full_trace_timeline::timeline_spans(self.trace.timeline@.pages).len() <= usize::MAX,
        ensures
            self.shows_trace(view, search@),
    {
        let errors_only = self.trace.errors_only;
        let filtered = !search.as_str().is_empty() || errors_only;
        let all_rows = self.trace.tree.visible_rows();
        let tree_loaded = count_spans(&all_rows);
        let tree_rows = if filtered {
            filter_tree_rows(&all_rows, search.as_str(), errors_only)
        } else {
            all_rows
        };
        let tree_matching = count_spans(&tree_rows);
        let timeline_rows = if filtered {
            Some(filter_spans(&self.trace.timeline.loaded_rows(), search.as_str(), errors_only))
        } else {
            None
        };
        let loaded = match self.trace.mode {
            FullTraceMode::Tree => tree_loaded,
            FullTraceMode::Timeline => self.trace.timeline.loaded_count(),
        };
        let matching = match self.trace.mode {
            FullTraceMode::Tree => tree_matching,
            FullTraceMode::Timeline => match &timeline_rows {
                Some(rows) => rows.len(),
                None => loaded,
            },
        };
        let timeline_total = match &timeline_rows {
            Some(rows) => rows.len(),
            None => self.trace.timeline.total(),
        };
        let status = if self.trace.loading {
            "Loading trace…".to_owned()
        } else {
            let rows = if filtered {
                concat5(
                    " · ",
                    length_text(matching).as_str(),
                    " of ",
                    length_text(loaded).as_str(),
                    " loaded rows match",
                )
            } else {
                concat3(" · ", length_text(loaded).as_str(), " rows loaded")
            };
            let mut status = decimal_text(self.trace.span_count);
            status.append(" total spans");
            status.append(rows.as_str());
            status.append(" · ");
            status.append(
                length_text(evidence_ids_count(&self.investigation.evidence)).as_str(),
            );
            status.append(" evidence spans highlighted");
            status
        };
        let (back, back_label) = match &self.trace.origin {
            FullTraceOrigin::Runs => ("← Back to runs", "Back to runs"),
            _ => ("← Back to investigation", "Back to originating investigation"),
        };
        FullTraceView {
            back,
            back_label,
            breadcrumb: breadcrumb_of(&self.investigation.evidence, &self.investigation.group),
            status,
            content: if self.trace.loading {
                TraceContent::Loading
            } else if self.trace.span_count == 0 {
                TraceContent::NoSpans
            } else {
                TraceContent::Rows
            },
            search,
            filtered,
            tree_rows,
            timeline_rows,
            timeline_total,
            start_unix_nano: self.trace.start_unix_nano,
            duration_nano: if self.trace.end_unix_nano > self.trace.start_unix_nano {
                self.trace.end_unix_nano - self.trace.start_unix_nano
            } else {
                1
            },
        }
    }

    /// How a span of the trace is shown under a search.
    pub fn trace_row_state(&self, span: &SpanRow, search: &str, compact: bool) -> (row_state:
        FullTraceRowState)
        ensures
            row_state == (FullTraceRowState {
                evidence: match self.investigation.evidence {
                    Some(evidence) => text::texts(evidence.evidence_span_ids@).contains(
                        span.span_id@,
                    ),
                    None => false,
                },
                search_match: search@.len() > 0 && matches_search(*span, search@),
                selected: optional_text(self.inspector.span_id) == Some(span.span_id@),
                compact,
            }),
    {
        let evidence = match &self.investigation.evidence {
            Some(evidence) => contains_text(&evidence.evidence_span_ids, span.span_id.as_str()),
            None => false,
        };
        let search_match = !search.is_empty() && span_matches_search(span, search);
        let selected = match &self.inspector.span_id {
            Some(span_id) => *span_id == span.span_id,
            None => false,
        };
        FullTraceRowState::new(evidence, search_match, selected, compact)
    }

    /// What the workbench is told when the trace is left.
    pub fn return_from_full_trace(&self) -> (event: FailureInboxEvent)
        ensures
            event == (FailureInboxEvent::ReturnFromFullTrace { origin: self.trace.origin }),
    {
        FailureInboxEvent::ReturnFromFullTrace { origin: self.trace.origin.copy() }
    }
}

/// Without filters everything is shown, and what a filter hides does not
/// come back under a narrower one.
pub proof fn filters_only_hide(span: SpanRow, search: Seq<char>)
    ensures
        passes(span, Seq::empty(), false),
        passes(span, search, true) ==> passes(span, search, false),
        passes(span, search, true) ==> span.status_code == 2,
{
}

/// A span matches what is searched for where its name, identity, category or
/// status message contains it, in lower case.
pub proof fn searches_look_into_four_texts(span: SpanRow, search: Seq<char>)
    ensures
        matches_search(span, search) <==> {
            ||| text::occurs_in(text::lowercase_of(span.name@), search)
            ||| text::occurs_in(text::lowercase_of(span.span_id@), search)
            ||| text::occurs_in(text::lowercase_of(span.category@), search)
            ||| text::occurs_in(text::lowercase_of(span.status_message@), search)
        },
        passes(span, search, false) <==> search.len() == 0 || matches_search(span, search),
        passes(span, search, true) <==> span.status_code == 2 && passes(span, search, false),
        matches_search(span, text::lowercase_of(span.name@)),
        matches_search(span, text::lowercase_of(span.span_id@)),
        matches_search(span, text::lowercase_of(span.category@)),
        matches_search(span, text::lowercase_of(span.status_message@)),
{
    let nothing = Seq::<char>::empty();
    let (a, b, c, d) = (
        text::lowercase_of(span.name@),
        text::lowercase_of(span.span_id@),
        text::lowercase_of(span.category@),
        text::lowercase_of(span.status_message@),
    );
    text::contained_texts_have_surroundings(nothing, a, nothing);
    text::contained_texts_have_surroundings(nothing, b, nothing);
    text::contained_texts_have_surroundings(nothing, c, nothing);
    text::contained_texts_have_surroundings(nothing, d, nothing);
    assert(nothing + a + nothing =~= a);
    assert(nothing + b + nothing =~= b);
    assert(nothing + c + nothing =~= c);
    assert(nothing + d + nothing =~= d);
}

/// Only spans are hidden by a filter; placeholders always stay.
pub proof fn placeholders_are_never_hidden(
    row: FullTraceListRow,
    search: Seq<char>,
    errors_only: bool,
)
    ensures
        !(row is Span) ==> row_passes(search, errors_only)(row),
        row is Span ==> (row_passes(search, errors_only)(row) <==> passes(
            *row->Span_0,
            search,
            errors_only,
        )),
        shows_span()(row) <==> row is Span,
        row is Span ==> (span_passes(search, errors_only)(*row->Span_0) <==> passes(
            *row->Span_0,
            search,
            errors_only,
        )),
{
}

/// The path names the failure and the run that the trace was opened from.
pub proof fn breadcrumbs_name_failure_and_run(
    evidence: Option<FindingEvidence>,
    group: Option<FailureGroupDetail>,
)
    ensures
        evidence is None ==> breadcrumb(evidence, group) == "Failures / Full trace"@,
        evidence is Some ==> breadcrumb(evidence, group) == "Failures / "@ + group_name(group)
            + " / "@ + evidence->0.occurrence.run_title@ + " / Full trace"@,
        group is None ==> group_name(group) == "Failure"@,
        group is Some && group->0.summary.presentation is Some ==> group_name(group)
            == group->0.summary.presentation->0.title@,
        group is Some && group->0.summary.presentation is None
            && group->0.summary.detector_ids@.len() > 0 ==> group_name(group)
            == components::humanized(group->0.summary.detector_ids@[0]@),
        group is Some && group->0.summary.presentation is None
            && group->0.summary.detector_ids@.len() == 0 ==> group_name(group) == "Failure"@,
{
}

/// A trace lasts from its start to its end, and at least one nanosecond.
pub proof fn traces_last_from_start_to_end(trace: FullTrace)
    ensures
        trace_duration(trace) >= 1,
        trace.end_unix_nano > trace.start_unix_nano ==> trace.start_unix_nano + trace_duration(
            trace,
        ) == trace.end_unix_nano,
        trace.end_unix_nano <= trace.start_unix_nano ==> trace_duration(trace) == 1,
        trace_search(trace) == text::lowercase_of(text::trimmed(trace.search@.text)),
{
}

/// The status counts all spans, the loaded ones or those that match, and the
/// evidence that is highlighted.
pub proof fn trace_status_counts_rows(
    trace: FullTrace,
    matching: nat,
    loaded: nat,
    evidence: nat,
)
    ensures
        trace.loading ==> trace_status(trace, true, matching, loaded, evidence)
            == "Loading trace…"@ && trace_status(trace, false, matching, loaded, evidence)
            == "Loading trace…"@,
        !trace.loading ==> trace_status(trace, false, matching, loaded, evidence) == text::decimal(
            trace.span_count as nat,
        ) + " total spans"@ + (" · "@ + text::decimal(loaded) + " rows loaded"@) + " · "@
            + text::decimal(evidence) + " evidence spans highlighted"@,
        !trace.loading ==> trace_status(trace, true, matching, loaded, evidence) == text::decimal(
            trace.span_count as nat,
        ) + " total spans"@ + (" · "@ + text::decimal(matching) + " of "@ + text::decimal(loaded)
            + " loaded rows match"@) + " · "@ + text::decimal(evidence)
            + " evidence spans highlighted"@,
{
}

/// A trace shows the rows that pass its filters, all of them without any, and
/// says that it loads or has no spans.
pub proof fn traces_show_the_rows_that_pass(
    inbox: FailureInbox,
    view: FullTraceView,
    search: Seq<char>,
)
    requires
        inbox.shows_trace(view, search),
    ensures
        view.filtered <==> search.len() > 0 || inbox.trace.errors_only,
        !view.filtered ==> view.tree_rows@ == inbox.trace.tree@.visible(),
        view.filtered ==> view.tree_rows@ == inbox.trace.tree@.visible().filter(
            row_passes(search, inbox.trace.errors_only),
        ),
        view.timeline_rows is Some <==> view.filtered,
        view.timeline_rows is Some ==> view.timeline_rows->0@
            == inbox.trace.timeline@.loaded().filter(
            span_passes(search, inbox.trace.errors_only),
        ) && view.timeline_total == view.timeline_rows->0@.len(),
        !view.filtered && inbox.trace.timeline@.total <= usize::MAX ==> view.timeline_total
            == inbox.trace.timeline@.total,
        view.content == TraceContent::Loading <==> inbox.trace.loading,
        view.content == TraceContent::NoSpans <==> !inbox.trace.loading && inbox.trace.span_count
            == 0,
        view.content == TraceContent::Rows <==> !inbox.trace.loading && inbox.trace.span_count > 0,
        inbox.trace.origin is Runs ==> view.back@ == "← Back to runs"@ && view.back_label@
            == "Back to runs"@,
        !(inbox.trace.origin is Runs) ==> view.back@ == "← Back to investigation"@
            && view.back_label@ == "Back to originating investigation"@,
        view.start_unix_nano == inbox.trace.start_unix_nano,
        view.search@ == search,
{
}

} // verus!
