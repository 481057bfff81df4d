//! The inspector, the menus of the investigation, and reviews of findings.

use super::groups::GroupPageRequest;
use super::investigation_state::{self, find_evidence_span, GroupRequest};
use super::model::{
    copy_optional, optional_text, BlobRefV1, QueryScopeV1, SpanRow,
};
use super::state::{
    FailureInbox, FailureInboxEvent, Inspector, InspectorTab, Investigation, RevealedPayload,
};
use crate::text::{self, lossy_text, same_text};
use vstd::prelude::*;
use vstd::string::*;

verus! {

/// The bytes of a payload that were read, and what is known of the rest.
#[derive(Debug)]
pub struct BlobPreviewV1 {
    pub bytes: Vec<u8>,
    pub revealed_bytes: u64,
    pub original_bytes: u64,
    pub truncated: bool,
    pub larger_local_reveal_allowed: bool,
}

/// The text that bytes of JSON have in compact form, where they are JSON.
pub uninterp spec fn compact_json_of(bytes: Seq<u8>) -> Option<Seq<char>>;

/// `serde_json::from_slice` to a `serde_json::Value`, and the value's
/// `to_string`: bytes that hold one JSON value give its compact text, and
/// all others give nothing. The text is named and not described.
#[verifier::external_body]
fn compact_json(bytes: &Vec<u8>) -> (text: Option<String>)
    ensures
        text is Some <==> compact_json_of(bytes@) is Some,
        text is Some ==> text->0@ == compact_json_of(bytes@)->0,
{
    serde_json::from_slice::<serde_json::Value>(bytes.as_slice()).map(|value| value.to_string()).ok()
}

/// The text of a payload, given what its bytes are as JSON: that text, or
/// else the bytes as UTF-8 with the faulty parts replaced.
pub open spec fn payload_text_from(json: Option<Seq<char>>, bytes: Seq<u8>) -> Seq<char> {
    match json {
        Some(json) => json,
        None => text::lossy_text_of(bytes),
    }
}

/// The text of a payload, given what its bytes are as JSON.
pub fn payload_text_of(json: Option<String>, bytes: &Vec<u8>) -> (shown: String)
    ensures
        shown@ == payload_text_from(optional_text(json), bytes@),
{
    match json {
        Some(json) => json,
        None => lossy_text(bytes),
    }
}

/// The text of a payload: its JSON in compact form, or else its bytes as
/// UTF-8.
pub fn payload_text(bytes: &Vec<u8>) -> (shown: String)
    ensures
        shown@ == payload_text_from(compact_json_of(bytes@), bytes@),
{
    let json = compact_json(bytes);
    assert(optional_text(json) == compact_json_of(bytes@));
    payload_text_of(json, bytes)
}

/// What is addressed when a finding is reviewed.
#[derive(Debug)]
pub struct ReviewTarget {
    pub scope: QueryScopeV1,
    pub group_id: String,
    pub finding_id: String,
}

/// What to load again after a review.
#[derive(Debug)]
pub struct ReviewRefresh {
    pub group: GroupRequest,
    pub groups: GroupPageRequest,
}

impl FailureInbox {
    /// Shows a tab of the inspector.
    pub fn set_tab(&mut self, tab: InspectorTab)
        ensures
            *final(self) == (FailureInbox {
                inspector: Inspector { tab, ..old(self).inspector },
                ..*old(self)
            }),
    {
        self.inspector.tab = tab;
    }

    /// What the workbench is told of the inspector.
    pub fn inspector_preference(&self) -> (event: FailureInboxEvent)
        ensures
            event == (FailureInboxEvent::InspectorVisibilityChanged {
                visible: self.inspector.open,
                auto_open_suppressed: self.inspector.auto_open_suppressed,
            }),
    {
        FailureInboxEvent::InspectorVisibilityChanged {
            visible: self.inspector.open,
            auto_open_suppressed: self.inspector.auto_open_suppressed,
        }
    }

    /// The state with the inspector open or closed by hand. Once closed by
    /// hand it does not open by itself; while open it covers the details.
    pub open spec fn with_inspector(self, open: bool, auto_open_suppressed: bool) -> FailureInbox {
        FailureInbox {
            inspector: Inspector { open, auto_open_suppressed, ..self.inspector },
            investigation: Investigation {
                group_details_open: self.investigation.group_details_open && !open,
                ..self.investigation
            },
            ..self
        }
    }

    /// Opens or closes the inspector.
    pub fn toggle_inspector(&mut self) -> (event: FailureInboxEvent)
        ensures
            *final(self) == old(self).with_inspector(
                !old(self).inspector.open,
                old(self).inspector.open,
            ),
            event == (FailureInboxEvent::InspectorVisibilityChanged {
                visible: !old(self).inspector.open,
                auto_open_suppressed: old(self).inspector.open,
            }),
    {
        self.inspector.open = !self.inspector.open;
        self.inspector.auto_open_suppressed = !self.inspector.open;
        if self.inspector.open {
            self.investigation.group_details_open = false;
        }
        self.inspector_preference()
    }

    /// Opens or closes the inspector on behalf of the workbench.
    pub fn set_inspector_open(&mut self, open: bool)
        ensures
            *final(self) == old(self).with_inspector(open, !open),
    {
        self.inspector.open = open;
        self.inspector.auto_open_suppressed = !open;
        if open {
            self.investigation.group_details_open = false;
        }
    }

    /// Makes the inspector what it was before.
    pub fn restore_inspector_state(&mut self, open: bool, auto_open_suppressed: bool)
        ensures
            *final(self) == old(self).with_inspector(open, auto_open_suppressed),
    {
        self.inspector.open = open;
        self.inspector.auto_open_suppressed = auto_open_suppressed;
        if open {
            self.investigation.group_details_open = false;
        }
    }

    /// Opens or closes the details of the group. Open details close the
    /// inspector, which is reported.
    pub fn toggle_group_details(&mut self) -> (event: Option<FailureInboxEvent>)
        ensures
            *final(self) == (FailureInbox {
                investigation: Investigation {
                    group_details_open: !old(self).investigation.group_details_open,
                    ..old(self).investigation
                },
                inspector: Inspector {
                    open: old(self).inspector.open && old(self).investigation.group_details_open,
                    ..old(self).inspector
                },
                ..*old(self)
            }),
            event == (if !old(self).investigation.group_details_open && old(self).inspector.open {
                Some(
                    FailureInboxEvent::InspectorVisibilityChanged {
                        visible: false,
                        auto_open_suppressed: old(self).inspector.auto_open_suppressed,
                    },
                )
            } else {
                None
            }),
    {
        self.investigation.group_details_open = !self.investigation.group_details_open;
        if self.investigation.group_details_open && self.inspector.open {
            self.inspector.open = false;
            Some(self.inspector_preference())
        } else {
            None
        }
    }

    /// Opens or closes the menu of actions.
    pub fn toggle_investigation_actions(&mut self)
        ensures
            *final(self) == (FailureInbox {
                investigation: Investigation {
                    actions_open: !old(self).investigation.actions_open,
                    ..old(self).investigation
                },
                ..*old(self)
            }),
    {
        self.investigation.actions_open = !self.investigation.actions_open;
    }

    /// Opens or closes the review of the finding.
    pub fn toggle_finding_review(&mut self)
        ensures
            *final(self) == (FailureInbox {
                investigation: Investigation {
                    review_open: !old(self).investigation.review_open,
                    ..old(self).investigation
                },
                ..*old(self)
            }),
    {
        self.investigation.review_open = !self.investigation.review_open;
    }

    /// The state with the inspector opened by itself, unless it is open or was
    /// closed by hand.
    pub open spec fn with_inspector_shown(self) -> FailureInbox {
        if self.inspector.open || self.inspector.auto_open_suppressed {
            self
        } else {
            self.with_inspector(true, false)
        }
    }

    /// What the workbench is told when the inspector opens by itself.
    pub open spec fn shown_event(self) -> Option<FailureInboxEvent> {
        if self.inspector.open || self.inspector.auto_open_suppressed {
            None
        } else {
            Some(
                FailureInboxEvent::InspectorVisibilityChanged {
                    visible: true,
                    auto_open_suppressed: false,
                },
            )
        }
    }

    /// Opens the inspector, unless it is open or was closed by hand.
    pub fn auto_open_inspector(&mut self) -> (event: Option<FailureInboxEvent>)
        ensures
            *final(self) == old(self).with_inspector_shown(),
            event == old(self).shown_event(),
    {
        if self.inspector.open || self.inspector.auto_open_suppressed {
            return None;
        }
        self.inspector.open = true;
        self.investigation.group_details_open = false;
        Some(self.inspector_preference())
    }

    /// The state with a span in the inspector.
    pub open spec fn with_span(self, span_id: String, span: Option<SpanRow>) -> FailureInbox {
        FailureInbox {
            inspector: Inspector {
                span_id: Some(span_id),
                span,
                payload: None,
                ..self.inspector
            },
            ..self
        }
    }

    /// Shows a step of the evidence in the inspector.
    pub fn focus_evidence_span(&mut self, span_id: String) -> (event: Option<FailureInboxEvent>)
        ensures
            *final(self) == old(self).with_span(
                span_id,
                investigation_state::evidence_span(
                    old(self).investigation.evidence,
                    Some(span_id),
                ),
            ).with_inspector_shown(),
            event == old(self).shown_event(),
    {
        let focus = Some(span_id);
        self.inspector.span = find_evidence_span(&self.investigation.evidence, &focus);
        self.inspector.span_id = focus;
        self.inspector.payload = None;
        self.auto_open_inspector()
    }

    /// Shows a span of the full trace in the inspector, which the workbench
    /// is told.
    pub fn focus_full_trace_span(&mut self, span: SpanRow) -> (events: (
        FailureInboxEvent,
        Option<FailureInboxEvent>,
    ))
        ensures
            *final(self) == old(self).with_span(
                span.span_id,
                Some(span),
            ).with_inspector_shown(),
            events.0 == (FailureInboxEvent::FullTraceSelectionChanged { span_id: span.span_id }),
            events.1 == old(self).shown_event(),
    {
        let span_id = span.span_id.clone();
        self.inspector.span_id = Some(span.span_id.clone());
        self.inspector.span = Some(span);
        self.inspector.payload = None;
        let shown = self.auto_open_inspector();
        (FailureInboxEvent::FullTraceSelectionChanged { span_id }, shown)
    }

    /// Shows a payload that was read, or why it could not be read.
    pub fn reveal_payload(&mut self, key: String, answer: Result<BlobPreviewV1, String>)
        ensures
            match answer {
                Ok(preview) => {
                    &&& *final(self) == (FailureInbox {
                        inspector: Inspector {
                            payload: final(self).inspector.payload,
                            ..old(self).inspector
                        },
                        ..*old(self)
                    })
                    &&& match final(self).inspector.payload {
                        Some(payload) => {
                            &&& payload == (RevealedPayload {
                                key,
                                value: payload.value,
                                revealed_bytes: preview.revealed_bytes,
                                original_bytes: preview.original_bytes,
                                truncated: preview.truncated,
                                larger_local_reveal_allowed: preview.larger_local_reveal_allowed,
                            })
                            &&& payload.value@ == payload_text_from(
                                compact_json_of(preview.bytes@),
                                preview.bytes@,
                            )
                        },
                        None => false,
                    }
                },
                Err(error) => *final(self) == (FailureInbox {
                    load_error: Some(error),
                    ..*old(self)
                }),
            },
    {
        match answer {
            Ok(preview) => {
                let value = payload_text(&preview.bytes);
                self.inspector.payload =
                Some(
                    RevealedPayload {
                        key,
                        value,
                        revealed_bytes: preview.revealed_bytes,
                        original_bytes: preview.original_bytes,
                        truncated: preview.truncated,
                        larger_local_reveal_allowed: preview.larger_local_reveal_allowed,
                    },
                );
            },
            Err(error) => {
                self.load_error = Some(error);
            },
        }
    }

    /// The payload to read more of: the revealed one, where the shown span
    /// still has it.
    pub fn larger_payload(&self) -> (found: Option<(String, BlobRefV1)>)
        ensures
            match (self.inspector.payload, self.inspector.span) {
                (Some(payload), Some(span)) => match payload_named(
                    span.payload_refs@,
                    payload.key@,
                ) {
                    Some(blob) => found == Some((payload.key, blob)),
                    None => found is None,
                },
                _ => found is None,
            },
    {
        match (&self.inspector.payload, &self.inspector.span) {
            (Some(payload), Some(span)) => match find_payload(&span.payload_refs, &payload.key) {
                Some(blob) => Some((payload.key.clone(), blob)),
                None => None,
            },
            _ => None,
        }
    }

    /// The finding that a review is about.
    pub fn review_target(&self) -> (target: Option<ReviewTarget>)
        ensures
            target == (match self.investigation.evidence {
                Some(evidence) => Some(
                    ReviewTarget {
                        scope: evidence.occurrence.scope,
                        group_id: evidence.occurrence.group_id,
                        finding_id: evidence.occurrence.finding.finding_id,
                    },
                ),
                None => None,
            }),
    {
        match &self.investigation.evidence {
            Some(evidence) => Some(
                ReviewTarget {
                    scope: evidence.occurrence.scope.copy(),
                    group_id: evidence.occurrence.group_id.clone(),
                    finding_id: evidence.occurrence.finding.finding_id.clone(),
                },
            ),
            None => None,
        }
    }

    /// Closes a review that was made or undone: the group and the list are
    /// asked for again, with the reviewed finding and the focus as they are.
    pub fn finish_review(
        &mut self,
        finding_id: String,
        answer: Result<(), String>,
        top_index: usize,
    ) -> (refresh: Option<ReviewRefresh>)
        ensures
            match (answer, old(self).investigation.group) {
                (Err(error), _) => {
                    &&& *final(self) == (FailureInbox {
                        investigation: Investigation {
                            review_open: false,
                            ..old(self).investigation
                        },
                        load_error: Some(error),
                        ..*old(self)
                    })
                    &&& refresh is None
                },
                (Ok(_), None) => {
                    &&& *final(self) == (FailureInbox {
                        investigation: Investigation {
                            review_open: false,
                            ..old(self).investigation
                        },
                        ..*old(self)
                    })
                    &&& refresh is None
                },
                (Ok(_), Some(group)) => {
                    let requested = old(self).group_requested(
                        old(self).investigation.occurrence_offset,
                        old(self).inspector.span_id,
                    );
                    &&& *final(self) == (FailureInbox {
                        list: super::state::GroupPages {
                            loading: true,
                            generation: super::state::next_request(old(self).list.generation),
                            ..old(self).list
                        },
                        ..requested
                    })
                    &&& match refresh {
                        Some(refresh) => {
                            &&& refresh.group == (GroupRequest {
                                generation: super::state::next_request(
                                    old(self).investigation.generation,
                                ),
                                scope: old(self).group_scope(
                                    group.summary.project_id,
                                    group.summary.group_id@,
                                ),
                                group_id: group.summary.group_id,
                                occurrence_offset: old(self).investigation.occurrence_offset,
                                limit: super::state::OCCURRENCE_PAGE_SIZE,
                                preferred_finding_id: Some(finding_id),
                            })
                            &&& refresh.groups == (GroupPageRequest {
                                generation: super::state::next_request(
                                    old(self).list.generation,
                                ),
                                filters: old(self).filters,
                                offset: 0,
                                limit: super::state::GROUP_PAGE_SIZE,
                                previous_focus: old(self).selection.focused,
                                scroll_anchor: super::groups::identity_at(
                                    old(self).list.groups@,
                                    top_index as nat,
                                ),
                            })
                        },
                        None => false,
                    }
                },
            },
    {
        let refresh = match answer {
            Ok(_) => {
                let key = match &self.investigation.group {
                    Some(group) => Some(
                        (group.summary.project_id.clone(), group.summary.group_id.clone()),
                    ),
                    None => None,
                };
                match key {
                    Some(key) => {
                        let span_id = copy_optional(&self.inspector.span_id);
                        let group = self.request_group(
                            key.0,
                            key.1,
                            self.investigation.occurrence_offset,
                            Some(finding_id),
                            span_id,
                        );
                        let groups = self.reload_groups(top_index);
                        Some(ReviewRefresh { group, groups })
                    },
                    None => None,
                }
            },
            Err(error) => {
                self.load_error = Some(error);
                None
            },
        };
        self.investigation.review_open = false;
        refresh
    }

    /// Whether draft evals can be made: one project is shown, and it is a
    /// persisted one.
    pub fn can_generate_eval(&self, unassigned_project_id: &str) -> (can: bool)
        ensures
            can == can_generate(self.filters.scope, unassigned_project_id@),
    {
        match &self.filters.scope.criteria.project_id {
            Some(project_id) => !same_text(project_id.as_str(), unassigned_project_id),
            None => false,
        }
    }
}

/// Whether draft evals can be made in a scope.
pub open spec fn can_generate(scope: QueryScopeV1, unassigned_project_id: Seq<char>) -> bool {
    match scope.criteria.project_id {
        Some(project_id) => project_id@ != unassigned_project_id,
        None => false,
    }
}

/// The first payload with a name.
pub open spec fn payload_named(refs: Seq<(String, BlobRefV1)>, key: Seq<char>) -> Option<BlobRefV1>
    decreases refs.len(),
{
    if refs.len() == 0 {
        None
    } else if refs[0].0@ == key {
        Some(refs[0].1)
    } else {
        payload_named(refs.drop_first(), key)
    }
}

fn find_payload(refs: &Vec<(String, BlobRefV1)>, key: &String) -> (found: Option<BlobRefV1>)
    ensures
        found == payload_named(refs@, key@),
{
    let mut index: usize = 0;
    assert(refs@.skip(0) =~= refs@);
    while index < refs.len()
        invariant
            index <= refs@.len(),
            payload_named(refs@, key@) == payload_named(refs@.skip(index as int), key@),
        decreases refs@.len() - index,
    {
        proof {
            assert(refs@.skip(index as int)[0] == refs@[index as int]);
            assert(refs@.skip(index as int).drop_first() =~= refs@.skip(index + 1));
        }
        if refs[index].0 == *key {
            return Some(refs[index].1.copy());
        }
        index += 1;
    }
    None
}

/// The inspector and the details of the group are never both open after the
/// inspector was opened or the details were toggled, and an inspector that
/// was closed by hand does not open by itself.
pub proof fn inspector_and_details_exclude_each_other(inbox: FailureInbox)
    ensures
        ({
            let opened = inbox.with_inspector(true, false);
            opened.inspector.open && !opened.investigation.group_details_open
        }),
        inbox.with_inspector(false, true).with_inspector_shown() == inbox.with_inspector(
            false,
            true,
        ),
{
}

/// Candidates can be generated in one project that is assigned.
pub proof fn candidates_need_an_assigned_project(scope: QueryScopeV1, unassigned: Seq<char>)
    ensures
        can_generate(scope, unassigned) <==> scope.criteria.project_id is Some
            && scope.criteria.project_id->0@ != unassigned,
{
}

/// Opening the inspector closes the group's details and leaves the rest;
/// closing it leaves them.
pub proof fn open_inspectors_close_the_details(inbox: FailureInbox, suppressed: bool)
    ensures
        ({
            let opened = inbox.with_inspector(true, suppressed);
            let shut = inbox.with_inspector(false, suppressed);
            &&& opened.inspector.open && !shut.inspector.open
            &&& opened.inspector.auto_open_suppressed == suppressed
            &&& shut.inspector.auto_open_suppressed == suppressed
            &&& !opened.investigation.group_details_open
            &&& shut.investigation.group_details_open == inbox.investigation.group_details_open
            &&& opened.inspector.span_id == inbox.inspector.span_id
            &&& opened.inspector.payload == inbox.inspector.payload
        }),
{
}

/// The inspector opens by itself exactly where it is closed and was not closed
/// by hand, and reports it.
pub proof fn inspectors_open_by_themselves_once(inbox: FailureInbox)
    ensures
        ({
            let opens = !inbox.inspector.open && !inbox.inspector.auto_open_suppressed;
            &&& !opens ==> inbox.with_inspector_shown() == inbox && inbox.shown_event() is None
            &&& opens ==> inbox.with_inspector_shown().inspector.open
                && !inbox.with_inspector_shown().inspector.auto_open_suppressed
                && inbox.shown_event() == Some(
                FailureInboxEvent::InspectorVisibilityChanged {
                    visible: true,
                    auto_open_suppressed: false,
                },
            )
        }),
{
}

/// Another span drops the payload that was revealed.
pub proof fn other_spans_hide_payloads(inbox: FailureInbox, span_id: String, span: Option<SpanRow>)
    ensures
        inbox.with_span(span_id, span).inspector.span_id == Some(span_id),
        inbox.with_span(span_id, span).inspector.span == span,
        inbox.with_span(span_id, span).inspector.payload is None,
        inbox.with_span(span_id, span).inspector.open == inbox.inspector.open,
        inbox.with_span(span_id, span).inspector.tab == inbox.inspector.tab,
{
}

/// A payload is the first one of its name.
pub proof fn payloads_are_found_by_name(
    refs: Seq<(String, BlobRefV1)>,
    key: Seq<char>,
    place: int,
)
    requires
        0 <= place < refs.len(),
        refs[place].0@ == key,
        forall|i: int| 0 <= i < place ==> (#[trigger] refs[i]).0@ != key,
    ensures
        payload_named(refs, key) == Some(refs[place].1),
    decreases refs.len(),
{
    if place > 0 {
        assert(refs[0].0@ != key);
        let rest = refs.drop_first();
        assert forall|i: int| 0 <= i < place - 1 implies (#[trigger] rest[i]).0@ != key by {
            assert(rest[i] == refs[i + 1]);
        }
        assert(rest[place - 1] == refs[place]);
        payloads_are_found_by_name(rest, key, place - 1);
    }
}

/// A payload that is no JSON is shown as text, and JSON as it is laid out.
pub proof fn payloads_are_laid_out_where_they_are_json(json: Seq<char>, bytes: Seq<u8>)
    ensures
        payload_text_from(Some(json), bytes) == json,
        payload_text_from(None, bytes) == text::lossy_text_of(bytes),
{
}

} // verus!
