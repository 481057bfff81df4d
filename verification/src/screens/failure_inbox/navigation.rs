//! Moving the focus with the keyboard, and opening what it is on.

use super::full_trace_tree::FullTraceListRow;
use super::investigation_state::{self, GroupRequest};
use super::model::SpanRow;
use super::selection::{self, adjacent_group_index};
use super::state::{FailureInbox, FailureInboxEvent};
use crate::text::same_text;
use vstd::prelude::*;
use vstd::string::*;

verus! {

/// What followed a move of the focus.
#[derive(Debug)]
pub enum FocusMove {
    /// There is nothing to move along.
    Stayed,
    /// A group has the focus; the place is where to scroll to.
    Group(usize),
    /// A span of the trace is in the inspector.
    TraceSpan(FailureInboxEvent, Option<FailureInboxEvent>),
    /// A step of the evidence is in the inspector.
    EvidenceStep(Option<FailureInboxEvent>),
}

/// The spans among the rows of a tree.
pub open spec fn spans_of(rows: Seq<FullTraceListRow>) -> Seq<SpanRow>
    decreases rows.len(),
{
    if rows.len() == 0 {
        Seq::empty()
    } else {
        match rows.last() {
            FullTraceListRow::Span(span) => spans_of(rows.drop_last()).push(*span),
            _ => spans_of(rows.drop_last()),
        }
    }
}

fn collect_spans(rows: &Vec<FullTraceListRow>) -> (spans: Vec<SpanRow>)
    ensures
        spans@ == spans_of(rows@),
{
    let mut spans: Vec<SpanRow> = Vec::new();
    let mut index: usize = 0;
    assert(spans@ =~= spans_of(rows@.take(0)));
    while index < rows.len()
        invariant
            index <= rows@.len(),
            spans@ == spans_of(rows@.take(index as int)),
        decreases rows@.len() - index,
    {
        proof {
            assert(rows@.take(index + 1).drop_last() =~= rows@.take(index as int));
            assert(rows@.take(index + 1).last() == rows@[index as int]);
        }
        match &rows[index] {
            FullTraceListRow::Span(span) => {
                spans.push(span.copy());
            },
            _ => {},
        }
        index += 1;
    }
    assert(rows@.take(index as int) =~= rows@);
    spans
}

/// The first place of a span.
pub open spec fn place_of_span(spans: Seq<SpanRow>, span_id: Option<String>) -> Option<usize>
    decreases spans.len(),
{
    match span_id {
        Some(id) => if spans.len() == 0 {
            None
        } else if spans[0].span_id@ == id@ {
            Some(0)
        } else {
            match place_of_span(spans.drop_first(), span_id) {
                Some(place) => Some((place + 1) as usize),
                None => None,
            }
        },
        None => None,
    }
}

fn find_place(spans: &Vec<SpanRow>, span_id: &Option<String>) -> (found: Option<usize>)
    ensures
        found == place_of_span(spans@, *span_id),
        found is Some ==> found->0 < spans@.len(),
{
    let focused = match span_id {
        Some(focused) => focused,
        None => {
            return None;
        },
    };
    let mut index: usize = spans.len();
    let mut found: Option<usize> = None;
    assert(spans@.skip(index as int) =~= Seq::empty());
    while index > 0
        invariant
            index <= spans@.len(),
            *span_id == Some(*focused),
            place_of_span(spans@.skip(index as int), *span_id) == (match found {
                Some(place) => Some((place - index) as usize),
                None => None,
            }),
            found is Some ==> index <= found->0 < spans@.len(),
        decreases index,
    {
        index -= 1;
        proof {
            assert(spans@.skip(index as int)[0] == spans@[index as int]);
            assert(spans@.skip(index as int).drop_first() =~= spans@.skip(index + 1));
        }
        if same_text(spans[index].span_id.as_str(), focused.as_str()) {
            found = Some(index);
        }
    }
    assert(spans@.skip(0) =~= spans@);
    found
}

impl FailureInbox {
    /// Moves the focus: along the groups while they are listed, else along
    /// the visible spans of the trace that is open, else along the steps of
    /// the evidence.
    pub fn move_primary_focus(&mut self, delta: isize) -> (moved: FocusMove)
        requires
            old(self).wf(),
            old(self).trace.tree@.spans().len() <= u32::MAX,
        ensures
            final(self).wf(),
            old(self).showing_inbox ==> {
                &&& *final(self) == (FailureInbox {
                    selection: final(self).selection,
                    ..*old(self)
                })
                &&& final(self).selection@ == old(self).selection@.move_focus(
                    old(self).list.groups@,
                    delta as int,
                )
                &&& match moved {
                    FocusMove::Group(place) => {
                        &&& place < old(self).list.groups@.len()
                        &&& Some(place as int) == old(self).selection@.next_place(
                            old(self).list.groups@,
                            delta as int,
                        )
                        &&& final(self).selection@.focused == Some(
                            selection::group_key(old(self).list.groups@[place as int]),
                        )
                    },
                    FocusMove::Stayed => old(self).list.groups@.len() == 0,
                    _ => false,
                }
            },
            !old(self).showing_inbox && old(self).trace.open ==> {
                let spans = spans_of(old(self).trace.tree@.visible());
                match selection::adjacent(
                    place_of_span(spans, old(self).inspector.span_id),
                    spans.len(),
                    delta as int,
                ) {
                    Some(next) => {
                        &&& *final(self) == old(self).with_span(
                            spans[next].span_id,
                            Some(spans[next]),
                        ).with_inspector_shown()
                        &&& moved == FocusMove::TraceSpan(
                            FailureInboxEvent::FullTraceSelectionChanged {
                                span_id: spans[next].span_id,
                            },
                            old(self).shown_event(),
                        )
                    },
                    None => *final(self) == *old(self) && moved == FocusMove::Stayed,
                }
            },
            !old(self).showing_inbox && !old(self).trace.open ==> match old(self).investigation.evidence {
                Some(evidence) => match selection::adjacent(
                    place_of_span(evidence.spans@, old(self).inspector.span_id),
                    evidence.spans@.len(),
                    delta as int,
                ) {
                    Some(next) => {
                        let span_id = evidence.spans@[next].span_id;
                        &&& *final(self) == old(self).with_span(
                            span_id,
                            investigation_state::evidence_span(
                                old(self).investigation.evidence,
                                Some(span_id),
                            ),
                        ).with_inspector_shown()
                        &&& moved == FocusMove::EvidenceStep(old(self).shown_event())
                    },
                    None => *final(self) == *old(self) && moved == FocusMove::Stayed,
                },
                None => *final(self) == *old(self) && moved == FocusMove::Stayed,
            },
    {
        if self.showing_inbox {
            return match self.selection.move_group_focus(&self.list.groups, delta) {
                Some(place) => FocusMove::Group(place),
                None => FocusMove::Stayed,
            };
        }
        if self.trace.open {
            let spans = collect_spans(&self.trace.tree.visible_rows());
            let current = find_place(&spans, &self.inspector.span_id);
            return match adjacent_group_index(current, spans.len(), delta) {
                Some(next) => {
                    let (selected, shown) = self.focus_full_trace_span(spans[next].copy());
                    FocusMove::TraceSpan(selected, shown)
                },
                None => FocusMove::Stayed,
            };
        }
        let next_span_id = match &self.investigation.evidence {
            Some(evidence) => {
                let current = find_place(&evidence.spans, &self.inspector.span_id);
                match adjacent_group_index(current, evidence.spans.len(), delta) {
                    Some(next) => Some(evidence.spans[next].span_id.clone()),
                    None => None,
                }
            },
            None => None,
        };
        match next_span_id {
            Some(span_id) => FocusMove::EvidenceStep(self.focus_evidence_span(span_id)),
            None => FocusMove::Stayed,
        }
    }

    /// Opens the only selected group, if it is listed: the first listed one
    /// with its identity.
    pub fn open_only_selected_group(&mut self) -> (opened: Option<
        (Option<GroupRequest>, FailureInboxEvent),
    >)
        requires
            old(self).wf(),
        ensures
            match opened {
                Some((request, event)) => {
                    &&& old(self).selection@.selected.len() == 1
                    &&& event is OpenInvestigation
                    &&& old(self).selection@.selected.contains(event->OpenInvestigation_group_id@)
                    &&& exists|i: int|
                        0 <= i < old(self).list.groups@.len() && selection::group_key(
                            #[trigger] old(self).list.groups@[i],
                        ) == (
                            event->OpenInvestigation_project_id@,
                            event->OpenInvestigation_group_id@,
                        ) && (forall|j: int|
                            0 <= j < i ==> !old(self).selection@.selected.contains(
                                (#[trigger] old(self).list.groups@[j]).group_id@,
                            ))
                    &&& investigation_state::opens(
                        *old(self),
                        *final(self),
                        (event->OpenInvestigation_project_id, event->OpenInvestigation_group_id),
                        request,
                    )
                },
                None => {
                    &&& *final(self) == *old(self)
                    &&& old(self).selection@.selected.len() != 1 || forall|i: int|
                        0 <= i < old(self).list.groups@.len() ==> !old(self).selection@.selected.contains(
                            (#[trigger] old(self).list.groups@[i]).group_id@,
                        )
                },
            },
    {
        let place = match self.selection.only_selected_group(&self.list.groups) {
            Some(place) => place,
            None => {
                return None;
            },
        };
        let project_id = self.list.groups[place].project_id.clone();
        let group_id = self.list.groups[place].group_id.clone();
        Some(self.open_group(project_id, group_id))
    }
}

/// The spans of a list are its rows that are spans, in their order.
pub proof fn spans_keep_the_order_of_rows(rows: Seq<FullTraceListRow>, row: FullTraceListRow)
    ensures
        spans_of(Seq::empty()).len() == 0,
        row is Span ==> spans_of(rows.push(row)) == spans_of(rows).push(*row->Span_0),
        !(row is Span) ==> spans_of(rows.push(row)) == spans_of(rows),
{
    assert(rows.push(row).drop_last() =~= rows);
}

/// A span is found at the first place that has its identity, and nowhere where
/// none has it.
pub proof fn spans_are_found_at_their_first_place(spans: Seq<SpanRow>, id: String)
    requires
        spans.len() <= usize::MAX,
    ensures
        place_of_span(spans, None) is None,
        match place_of_span(spans, Some(id)) {
            Some(place) => {
                &&& place < spans.len()
                &&& spans[place as int].span_id@ == id@
                &&& forall|i: int| 0 <= i < place ==> (#[trigger] spans[i]).span_id@ != id@
            },
            None => forall|i: int| 0 <= i < spans.len() ==> (#[trigger] spans[i]).span_id@ != id@,
        },
    decreases spans.len(),
{
    if spans.len() > 0 && spans[0].span_id@ != id@ {
        let rest = spans.drop_first();
        spans_are_found_at_their_first_place(rest, id);
        let end = match place_of_span(rest, Some(id)) {
            Some(place) => place as int,
            None => rest.len() as int,
        };
        assert forall|i: int| 0 <= i < end + 1 implies (#[trigger] spans[i]).span_id@ != id@ by {
            if i > 0 {
                assert(rest[i - 1] == spans[i]);
            }
        }
    }
}

} // verus!
