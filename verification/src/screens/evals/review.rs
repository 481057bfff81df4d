//! Reviewing draft evals.

use crate::components::telemetry_gaps::{self, telemetry_gap_summary};
use crate::design::tokens::Theme;
use crate::offsets::{self, leading_bytes_of};
use crate::screens::failure_inbox::components::{self, diagnosis_fact, LabelledText};
use crate::screens::failure_inbox::model::{copy_optional, optional_text, same_optional};
use crate::screens::failure_inbox::state::{self, following_request};
use crate::text::{self, append_decimal, concat2, concat3, concat4, join, length_text};
use std::sync::Arc;
use vstd::prelude::*;
use vstd::string::*;

verus! {

/// How many candidates are asked for at a time.
pub const CANDIDATE_PAGE_SIZE: u32 = 200;

/// What was decided of a candidate.
#[derive(Debug, Clone, Copy, PartialEq, Eq, Structural)]
pub enum EvalReviewQueueStateV1 {
    Pending,
    Deferred,
    Accepted,
    Rejected,
    Superseded,
}

/// A decision about a candidate.
#[derive(Debug, Clone, Copy, PartialEq, Eq, Structural)]
pub enum EvalReviewDecisionV1 {
    Accept,
    Reject,
    Defer,
}

impl EvalReviewQueueStateV1 {
    /// What the state is shown as, and its tint.
    pub open spec fn mark(self) -> (Seq<char>, u32) {
        match self {
            EvalReviewQueueStateV1::Pending => ("PENDING"@, Theme::AMBER),
            EvalReviewQueueStateV1::Deferred => ("DEFERRED"@, Theme::PURPLE),
            EvalReviewQueueStateV1::Accepted => ("ACCEPTED"@, Theme::GREEN),
            EvalReviewQueueStateV1::Rejected => ("REJECTED"@, Theme::RED),
            EvalReviewQueueStateV1::Superseded => ("SUPERSEDED"@, Theme::DIM),
        }
    }

    /// Whether a decision is still to be made.
    pub open spec fn awaits_decision(self) -> bool {
        self == EvalReviewQueueStateV1::Pending || self == EvalReviewQueueStateV1::Deferred
    }

    /// Whether a decision is still to be made.
    pub fn is_actionable(self) -> (actionable: bool)
        ensures
            actionable == self.awaits_decision(),
    {
        match self {
            EvalReviewQueueStateV1::Pending | EvalReviewQueueStateV1::Deferred => true,
            _ => false,
        }
    }

    /// What is said once a review was saved.
    pub open spec fn saved_notice(self) -> Seq<char> {
        match self {
            EvalReviewQueueStateV1::Accepted => {
                "Accepted. This candidate is now an approved definition."@
            },
            EvalReviewQueueStateV1::Rejected => {
                "Rejected. The review record and evidence remain available."@
            },
            EvalReviewQueueStateV1::Deferred => "Deferred. It remains in the review queue."@,
            _ => "Review saved."@,
        }
    }

    /// What is said once a review was saved.
    pub fn notice(self) -> (notice: &'static str)
        ensures
            notice@ == self.saved_notice(),
    {
        match self {
            EvalReviewQueueStateV1::Accepted => {
                "Accepted. This candidate is now an approved definition."
            },
            EvalReviewQueueStateV1::Rejected => {
                "Rejected. The review record and evidence remain available."
            },
            EvalReviewQueueStateV1::Deferred => "Deferred. It remains in the review queue.",
            _ => "Review saved.",
        }
    }
}

/// What a state is shown as.
pub fn queue_state_label(queue_state: EvalReviewQueueStateV1) -> (label: &'static str)
    ensures
        label@ == queue_state.mark().0,
{
    match queue_state {
        EvalReviewQueueStateV1::Pending => "PENDING",
        EvalReviewQueueStateV1::Deferred => "DEFERRED",
        EvalReviewQueueStateV1::Accepted => "ACCEPTED",
        EvalReviewQueueStateV1::Rejected => "REJECTED",
        EvalReviewQueueStateV1::Superseded => "SUPERSEDED",
    }
}

/// The tint of a state.
pub fn queue_state_tint(queue_state: EvalReviewQueueStateV1) -> (tint: u32)
    ensures
        tint == queue_state.mark().1,
{
    match queue_state {
        EvalReviewQueueStateV1::Pending => Theme::AMBER,
        EvalReviewQueueStateV1::Deferred => Theme::PURPLE,
        EvalReviewQueueStateV1::Accepted => Theme::GREEN,
        EvalReviewQueueStateV1::Rejected => Theme::RED,
        EvalReviewQueueStateV1::Superseded => Theme::DIM,
    }
}

/// What a review action is called, or why it cannot be taken.
pub open spec fn action_label(
    enabled_label: Seq<char>,
    mutating: bool,
    has_project_scope: bool,
) -> Seq<char> {
    if mutating {
        "Review action unavailable while the decision is being saved"@
    } else if !has_project_scope {
        "Review action unavailable in all-projects scope"@
    } else {
        enabled_label
    }
}

/// What a review action is called, or why it cannot be taken.
pub fn review_action_label(
    enabled_label: &'static str,
    mutating: bool,
    has_project_scope: bool,
) -> (label: &'static str)
    ensures
        label@ == action_label(enabled_label@, mutating, has_project_scope),
{
    if mutating {
        "Review action unavailable while the decision is being saved"
    } else if !has_project_scope {
        "Review action unavailable in all-projects scope"
    } else {
        enabled_label
    }
}

/// The start of an identity.
pub open spec fn short(value: Seq<char>) -> Seq<char> {
    offsets::leading_bytes(value, 16)
}

/// The start of an identity.
pub fn short_id(value: &str) -> (head: &str)
    ensures
        head@ == short(value@),
{
    leading_bytes_of(value, 16)
}

/// A decision that was made.
#[derive(Debug)]
pub struct ReviewRecord {
    pub decision: String,
    pub reviewer_ref: String,
    pub reviewed_at: String,
    pub reason: Option<String>,
}

/// A candidate for an eval.
#[derive(Debug)]
pub struct EvalCandidateRecordV1 {
    pub project_id: String,
    pub group_id: String,
    pub logical_trace_id: String,
    pub revision: u64,
    pub finding_id: String,
    pub queue_state: EvalReviewQueueStateV1,
    pub candidate_id: String,
    pub proposed_rubric: String,
    /// What the input is in short, where there is one.
    pub proposed_input: Option<String>,
    pub proposed_expected_behavior: Vec<String>,
    pub proposed_grader: String,
    pub generator_name: String,
    pub generator_version: String,
    pub definition_hash: String,
    pub review: Option<ReviewRecord>,
    pub packet_id: String,
    pub content_hash: String,
    /// The steps that the evidence refers to, where it refers to any.
    pub evidence_span_ids: Vec<Option<String>>,
    pub telemetry_gaps: Vec<String>,
}

/// What the screen tells the workbench.
#[derive(Debug)]
pub enum EvalReviewEvent {
    Candidate { project_id: String, candidate_id: String },
    Queue,
    SourceTrace {
        project_id: String,
        logical_trace_id: String,
        revision: u64,
        selected_span_id: Option<String>,
    },
}

/// A request for the candidates of a project, or of all of them.
#[derive(Debug)]
pub struct CandidateListRequest {
    pub generation: u64,
    pub project_id: Option<String>,
    pub limit: u32,
}

/// A request for one candidate.
#[derive(Debug)]
pub struct CandidateRequest {
    pub generation: u64,
    pub project_id: String,
    pub candidate_id: String,
}

/// A decision to save.
#[derive(Debug)]
pub struct ReviewRequest {
    pub project_id: String,
    pub candidate_id: String,
    pub decision: EvalReviewDecisionV1,
}

/// The screen on which draft evals are reviewed.
#[derive(Debug)]
pub struct EvalReviewScreen {
    pub project_id: Option<String>,
    pub candidates: Vec<Arc<EvalCandidateRecordV1>>,
    pub selected: Option<Arc<EvalCandidateRecordV1>>,
    pub loading: bool,
    pub mutating: bool,
    pub error: Option<String>,
    pub notice: Option<String>,
    pub request_generation: u64,
}

/// The first place of a candidate.
pub open spec fn place_of_candidate(
    candidates: Seq<Arc<EvalCandidateRecordV1>>,
    candidate_id: Seq<char>,
) -> Option<int>
    decreases candidates.len(),
{
    if candidates.len() == 0 {
        None
    } else if candidates[0].candidate_id@ == candidate_id {
        Some(0)
    } else {
        match place_of_candidate(candidates.drop_first(), candidate_id) {
            Some(place) => Some(place + 1),
            None => None,
        }
    }
}

fn find_candidate(candidates: &Vec<Arc<EvalCandidateRecordV1>>, candidate_id: &String) -> (found:
    Option<usize>)
    ensures
        match found {
            Some(place) => place < candidates@.len() && place_of_candidate(
                candidates@,
                candidate_id@,
            ) == Some(place as int),
            None => place_of_candidate(candidates@, candidate_id@) is None,
        },
{
    let mut index: usize = 0;
    assert(candidates@.skip(0) =~= candidates@);
    while index < candidates.len()
        invariant
            index <= candidates@.len(),
            place_of_candidate(candidates@, candidate_id@) == (match place_of_candidate(
                candidates@.skip(index as int),
                candidate_id@,
            ) {
                Some(place) => Some(place + index),
                None => None,
            }),
        decreases candidates@.len() - index,
    {
        proof {
            assert(candidates@.skip(index as int)[0] == candidates@[index as int]);
            assert(candidates@.skip(index as int).drop_first() =~= candidates@.skip(index + 1));
        }
        if candidates[index].candidate_id == *candidate_id {
            return Some(index);
        }
        index += 1;
    }
    None
}

/// The first step that evidence refers to.
pub open spec fn first_span(span_ids: Seq<Option<String>>) -> Option<String>
    decreases span_ids.len(),
{
    if span_ids.len() == 0 {
        None
    } else if span_ids[0] is Some {
        span_ids[0]
    } else {
        first_span(span_ids.drop_first())
    }
}

fn first_span_of(span_ids: &Vec<Option<String>>) -> (found: Option<String>)
    ensures
        found == first_span(span_ids@),
{
    let mut index: usize = 0;
    assert(span_ids@.skip(0) =~= span_ids@);
    while index < span_ids.len()
        invariant
            index <= span_ids@.len(),
            first_span(span_ids@) == first_span(span_ids@.skip(index as int)),
        decreases span_ids@.len() - index,
    {
        proof {
            assert(span_ids@.skip(index as int)[0] == span_ids@[index as int]);
            assert(span_ids@.skip(index as int).drop_first() =~= span_ids@.skip(index + 1));
        }
        if span_ids[index].is_some() {
            return copy_optional(&span_ids[index]);
        }
        index += 1;
    }
    None
}

impl EvalReviewScreen {
    /// A screen that has not loaded anything yet.
    pub fn new(project_id: Option<String>) -> (screen: Self)
        ensures
            screen.project_id == project_id,
            screen.candidates@.len() == 0,
            screen.selected is None,
            !screen.loading,
            !screen.mutating,
            screen.error is None,
            screen.notice is None,
            screen.request_generation == 0,
    {
        EvalReviewScreen {
            project_id,
            candidates: Vec::new(),
            selected: None,
            loading: false,
            mutating: false,
            error: None,
            notice: None,
            request_generation: 0,
        }
    }

    /// The state after asking for the candidates.
    pub open spec fn list_requested(self) -> EvalReviewScreen {
        EvalReviewScreen {
            loading: true,
            error: None,
            request_generation: state::next_request(self.request_generation),
            ..self
        }
    }

    /// The request for the candidates.
    pub open spec fn list_request(self) -> CandidateListRequest {
        CandidateListRequest {
            generation: state::next_request(self.request_generation),
            project_id: self.project_id,
            limit: CANDIDATE_PAGE_SIZE,
        }
    }

    /// Asks for the candidates.
    pub fn reload(&mut self) -> (request: CandidateListRequest)
        ensures
            *final(self) == old(self).list_requested(),
            request == old(self).list_request(),
    {
        self.loading = true;
        self.error = None;
        self.request_generation = following_request(self.request_generation);
        CandidateListRequest {
            generation: self.request_generation,
            project_id: copy_optional(&self.project_id),
            limit: CANDIDATE_PAGE_SIZE,
        }
    }

    /// Takes the candidates. An answer to an earlier request changes nothing.
    pub fn finish_reload(
        &mut self,
        generation: u64,
        answer: Result<Vec<Arc<EvalCandidateRecordV1>>, String>,
    )
        ensures
            *final(self) == (if generation != old(self).request_generation {
                *old(self)
            } else {
                match answer {
                    Ok(candidates) => EvalReviewScreen { loading: false, candidates, ..*old(self) },
                    Err(error) => EvalReviewScreen {
                        loading: false,
                        error: Some(error),
                        ..*old(self)
                    },
                }
            }),
    {
        if generation != self.request_generation {
            return;
        }
        self.loading = false;
        match answer {
            Ok(candidates) => {
                self.candidates = candidates;
            },
            Err(error) => {
                self.error = Some(error);
            },
        }
    }

    /// Shows another project, or all of them.
    pub fn set_project_scope(&mut self, project_id: Option<String>) -> (request: Option<
        CandidateListRequest,
    >)
        ensures
            optional_text(old(self).project_id) == optional_text(project_id) ==> *final(self)
                == *old(self) && request is None,
            optional_text(old(self).project_id) != optional_text(project_id) ==> {
                let moved = EvalReviewScreen {
                    project_id,
                    selected: None,
                    notice: None,
                    ..*old(self)
                };
                &&& *final(self) == moved.list_requested()
                &&& request == Some(moved.list_request())
            },
    {
        if same_optional(&self.project_id, &project_id) {
            return None;
        }
        self.project_id = project_id;
        self.selected = None;
        self.notice = None;
        Some(self.reload())
    }

    /// Shows the queue.
    pub fn show_queue(&mut self) -> (request: CandidateListRequest)
        ensures
            *final(self) == (EvalReviewScreen { selected: None, ..*old(self) }).list_requested(),
            request == old(self).list_request(),
    {
        self.selected = None;
        self.reload()
    }

    /// Asks for a candidate of a project.
    pub fn show_candidate(&mut self, project_id: String, candidate_id: String) -> (request:
        CandidateRequest)
        ensures
            *final(self) == (EvalReviewScreen {
                project_id: Some(project_id),
                loading: true,
                error: None,
                notice: None,
                request_generation: state::next_request(old(self).request_generation),
                ..*old(self)
            }),
            request == (CandidateRequest {
                generation: state::next_request(old(self).request_generation),
                project_id,
                candidate_id,
            }),
    {
        self.project_id = Some(project_id.clone());
        self.loading = true;
        self.error = None;
        self.notice = None;
        self.request_generation = following_request(self.request_generation);
        CandidateRequest { generation: self.request_generation, project_id, candidate_id }
    }

    /// Takes a candidate. An answer to an earlier request changes nothing.
    pub fn finish_candidate(
        &mut self,
        generation: u64,
        answer: Result<Option<Arc<EvalCandidateRecordV1>>, String>,
    )
        ensures
            generation != old(self).request_generation ==> *final(self) == *old(self),
            generation == old(self).request_generation ==> match answer {
                Ok(Some(candidate)) => *final(self) == (EvalReviewScreen {
                    loading: false,
                    selected: Some(candidate),
                    ..*old(self)
                }),
                Ok(None) => {
                    &&& *final(self) == (EvalReviewScreen {
                        loading: false,
                        selected: None,
                        error: final(self).error,
                        ..*old(self)
                    })
                    &&& optional_text(final(self).error) == Some(
                        "This eval candidate no longer exists."@,
                    )
                },
                Err(error) => *final(self) == (EvalReviewScreen {
                    loading: false,
                    error: Some(error),
                    ..*old(self)
                }),
            },
    {
        if generation != self.request_generation {
            return;
        }
        self.loading = false;
        match answer {
            Ok(Some(candidate)) => {
                self.selected = Some(candidate);
            },
            Ok(None) => {
                self.selected = None;
                self.error = Some("This eval candidate no longer exists.".to_owned());
            },
            Err(error) => {
                self.error = Some(error);
            },
        }
    }

    /// The event that opens a candidate of the list.
    pub open spec fn opens(self, index: int) -> Option<EvalReviewEvent> {
        if 0 <= index < self.candidates@.len() {
            Some(
                EvalReviewEvent::Candidate {
                    project_id: self.candidates@[index].project_id,
                    candidate_id: self.candidates@[index].candidate_id,
                },
            )
        } else {
            None
        }
    }

    /// Opens a candidate of the list.
    pub fn open_candidate(&self, index: usize) -> (event: Option<EvalReviewEvent>)
        ensures
            event == self.opens(index as int),
    {
        if index < self.candidates.len() {
            let candidate = &self.candidates[index];
            Some(
                EvalReviewEvent::Candidate {
                    project_id: candidate.project_id.clone(),
                    candidate_id: candidate.candidate_id.clone(),
                },
            )
        } else {
            None
        }
    }

    /// Goes back to the queue.
    pub fn open_queue(&self) -> (event: EvalReviewEvent)
        ensures
            event == EvalReviewEvent::Queue,
    {
        EvalReviewEvent::Queue
    }

    /// The place of the shown candidate in the list.
    pub open spec fn selected_place(self) -> Option<int> {
        match self.selected {
            Some(candidate) => place_of_candidate(self.candidates@, candidate.candidate_id@),
            None => None,
        }
    }

    /// The place of the shown candidate in the list.
    pub fn selected_candidate_index(&self) -> (index: Option<usize>)
        ensures
            match index {
                Some(index) => index < self.candidates@.len() && self.selected_place() == Some(
                    index as int,
                ),
                None => self.selected_place() is None,
            },
    {
        match &self.selected {
            Some(candidate) => find_candidate(&self.candidates, &candidate.candidate_id),
            None => None,
        }
    }

    /// Opens the next or the previous candidate of the list, where there is one.
    pub fn navigate_candidate(&self, forward: bool) -> (event: Option<EvalReviewEvent>)
        ensures
            event == (match self.selected_place() {
                Some(place) => if forward {
                    self.opens(place + 1)
                } else {
                    self.opens(place - 1)
                },
                None => None,
            }),
    {
        let index = match self.selected_candidate_index() {
            Some(index) => index,
            None => {
                return None;
            },
        };
        if forward {
            if self.candidates.len() - index > 1 {
                self.open_candidate(index + 1)
            } else {
                None
            }
        } else if index > 0 {
            self.open_candidate(index - 1)
        } else {
            None
        }
    }

    /// Opens the trace that the shown candidate was made of.
    pub fn open_source_trace(&self) -> (event: Option<EvalReviewEvent>)
        ensures
            event == (match self.selected {
                Some(candidate) => Some(
                    EvalReviewEvent::SourceTrace {
                        project_id: candidate.project_id,
                        logical_trace_id: candidate.logical_trace_id,
                        revision: candidate.revision,
                        selected_span_id: first_span(candidate.evidence_span_ids@),
                    },
                ),
                None => None,
            }),
    {
        match &self.selected {
            Some(candidate) => Some(
                EvalReviewEvent::SourceTrace {
                    project_id: candidate.project_id.clone(),
                    logical_trace_id: candidate.logical_trace_id.clone(),
                    revision: candidate.revision,
                    selected_span_id: first_span_of(&candidate.evidence_span_ids),
                },
            ),
            None => None,
        }
    }

    /// Saves a decision about the shown candidate, one at a time, and only
    /// while its project is the one that is shown.
    pub fn review(&mut self, decision: EvalReviewDecisionV1) -> (request: Option<ReviewRequest>)
        ensures
            match old(self).selected {
                Some(candidate) => if old(self).mutating {
                    *final(self) == *old(self) && request is None
                } else if optional_text(old(self).project_id) != Some(candidate.project_id@) {
                    &&& *final(self) == (EvalReviewScreen {
                        error: final(self).error,
                        ..*old(self)
                    })
                    &&& optional_text(final(self).error) == Some(
                        "Choose the candidate's project before reviewing it."@,
                    )
                    &&& request is None
                } else {
                    &&& *final(self) == (EvalReviewScreen {
                        mutating: true,
                        error: None,
                        notice: None,
                        ..*old(self)
                    })
                    &&& request == Some(
                        ReviewRequest {
                            project_id: candidate.project_id,
                            candidate_id: candidate.candidate_id,
                            decision,
                        },
                    )
                },
                None => *final(self) == *old(self) && request is None,
            },
    {
        if self.mutating {
            return None;
        }
        let request = match &self.selected {
            Some(candidate) => ReviewRequest {
                project_id: candidate.project_id.clone(),
                candidate_id: candidate.candidate_id.clone(),
                decision,
            },
            None => {
                return None;
            },
        };
        let in_project = match &self.project_id {
            Some(project_id) => *project_id == request.project_id,
            None => false,
        };
        if !in_project {
            self.error = Some("Choose the candidate's project before reviewing it.".to_owned());
            return None;
        }
        self.mutating = true;
        self.error = None;
        self.notice = None;
        Some(request)
    }

    /// Takes a candidate as it is after the decision was saved.
    pub fn finish_review(&mut self, answer: Result<Arc<EvalCandidateRecordV1>, String>)
        ensures
            match answer {
                Ok(candidate) => {
                    &&& *final(self) == (EvalReviewScreen {
                        mutating: false,
                        candidates: final(self).candidates,
                        selected: Some(candidate),
                        notice: final(self).notice,
                        ..*old(self)
                    })
                    &&& optional_text(final(self).notice) == Some(
                        candidate.queue_state.saved_notice(),
                    )
                    &&& final(self).candidates@ == (match place_of_candidate(
                        old(self).candidates@,
                        candidate.candidate_id@,
                    ) {
                        Some(place) => old(self).candidates@.update(place, candidate),
                        None => old(self).candidates@,
                    })
                },
                Err(error) => *final(self) == (EvalReviewScreen {
                    mutating: false,
                    error: Some(error),
                    ..*old(self)
                }),
            },
    {
        self.mutating = false;
        match answer {
            Ok(candidate) => {
                self.notice = Some(candidate.queue_state.notice().to_owned());
                match find_candidate(&self.candidates, &candidate.candidate_id) {
                    Some(place) => {
                        self.candidates.set(place, candidate.clone());
                    },
                    None => {},
                }
                self.selected = Some(candidate);
            },
            Err(error) => {
                self.error = Some(error);
            },
        }
    }
}

/// A candidate as it is listed.
#[derive(Debug)]
pub struct CandidateRowView {
    pub title: String,
    pub label: String,
    pub source: String,
    pub queue_state: &'static str,
    pub tint: u32,
    pub telemetry: Option<String>,
}

/// A candidate as it is listed.
pub open spec fn shows_row(view: CandidateRowView, candidate: EvalCandidateRecordV1) -> bool {
    let revision = text::decimal(candidate.revision as nat);
    &&& view.title@ == candidate.proposed_rubric@
    &&& view.label@ == candidate.proposed_rubric@ + "; "@ + candidate.queue_state.mark().0
        + "; project "@ + candidate.project_id@ + "; trace "@ + short(candidate.logical_trace_id@)
        + "; revision "@ + revision
    &&& view.source@ == "Project "@ + candidate.project_id@ + " · group "@ + short(
        candidate.group_id@,
    ) + " · trace "@ + short(candidate.logical_trace_id@) + " · revision "@ + revision
    &&& (view.queue_state@, view.tint) == candidate.queue_state.mark()
    &&& view.telemetry is Some <==> candidate.telemetry_gaps@.len() > 0
    &&& view.telemetry is Some ==> view.telemetry->0@ == "Telemetry gaps: "@
        + telemetry_gaps::gap_summary(candidate.telemetry_gaps@)
}

/// A candidate as it is listed.
pub fn candidate_row(candidate: &EvalCandidateRecordV1) -> (view: CandidateRowView)
    ensures
        shows_row(view, *candidate),
{
    let queue_state = queue_state_label(candidate.queue_state);
    let trace = short_id(candidate.logical_trace_id.as_str());
    let mut label = concat3(candidate.proposed_rubric.as_str(), "; ", queue_state);
    label.append("; project ");
    label.append(candidate.project_id.as_str());
    label.append("; trace ");
    label.append(trace);
    label.append("; revision ");
    append_decimal(&mut label, candidate.revision);
    let mut source = concat3("Project ", candidate.project_id.as_str(), " · group ");
    source.append(short_id(candidate.group_id.as_str()));
    source.append(" · trace ");
    source.append(trace);
    source.append(" · revision ");
    append_decimal(&mut source, candidate.revision);
    CandidateRowView {
        title: candidate.proposed_rubric.clone(),
        label,
        source,
        queue_state,
        tint: queue_state_tint(candidate.queue_state),
        telemetry: if candidate.telemetry_gaps.len() > 0 {
            Some(
                concat2(
                    "Telemetry gaps: ",
                    telemetry_gap_summary(candidate.telemetry_gaps.as_slice()).as_str(),
                ),
            )
        } else {
            None
        },
    }
}

/// What stands in place of the candidates.
#[derive(Debug, Clone, Copy, PartialEq, Eq, Structural)]
pub enum QueuePlaceholder {
    Loading,
    NoCandidates,
}

/// What is shown of the queue.
#[derive(Debug)]
pub struct QueueView {
    pub summary: String,
    pub scope: &'static str,
    pub scope_tint: u32,
    pub placeholder: Option<QueuePlaceholder>,
    pub rows: Vec<CandidateRowView>,
}

/// The candidates that await a decision.
pub open spec fn awaiting(candidates: Seq<Arc<EvalCandidateRecordV1>>) -> nat
    decreases candidates.len(),
{
    if candidates.len() == 0 {
        0
    } else {
        awaiting(candidates.drop_last()) + (if candidates.last().queue_state.awaits_decision() {
            1nat
        } else {
            0nat
        })
    }
}

impl EvalReviewScreen {
    /// What is shown of the queue.
    pub fn render_queue(&self) -> (view: QueueView)
        ensures
            view.summary@ == text::decimal(awaiting(self.candidates@)) + " awaiting a decision · "@
                + text::decimal(self.candidates@.len()) + " total"@,
            (view.scope@, view.scope_tint) == (if self.project_id is Some {
                ("PROJECT SCOPE"@, Theme::CYAN)
            } else {
                ("ALL PROJECTS · READ ONLY"@, Theme::AMBER)
            }),
            view.placeholder == (if self.candidates@.len() > 0 {
                None
            } else if self.loading {
                Some(QueuePlaceholder::Loading)
            } else {
                Some(QueuePlaceholder::NoCandidates)
            }),
            view.rows@.len() == self.candidates@.len(),
            forall|i: int|
                0 <= i < view.rows@.len() ==> shows_row(
                    #[trigger] view.rows@[i],
                    *self.candidates@[i],
                ),
    {
        let mut pending: usize = 0;
        let mut rows: Vec<CandidateRowView> = Vec::new();
        let mut index: usize = 0;
        assert(self.candidates@.take(0) =~= Seq::empty());
        while index < self.candidates.len()
            invariant
                index <= self.candidates@.len(),
                pending <= index,
                pending == awaiting(self.candidates@.take(index as int)),
                rows@.len() == index,
                forall|i: int|
                    0 <= i < rows@.len() ==> shows_row(
                        #[trigger] rows@[i],
                        *self.candidates@[i],
                    ),
            decreases self.candidates@.len() - index,
        {
            proof {
                assert(self.candidates@.take(index + 1).drop_last() =~= self.candidates@.take(
                    index as int,
                ));
                assert(self.candidates@.take(index + 1).last() == self.candidates@[index as int]);
            }
            if self.candidates[index].queue_state.is_actionable() {
                pending += 1;
            }
            rows.push(candidate_row(&self.candidates[index]));
            index += 1;
        }
        assert(self.candidates@.take(index as int) =~= self.candidates@);
        let mut summary = length_text(pending);
        summary.append(" awaiting a decision · ");
        summary.append(length_text(self.candidates.len()).as_str());
        summary.append(" total");
        let (scope, scope_tint) = if self.project_id.is_some() {
            ("PROJECT SCOPE", Theme::CYAN)
        } else {
            ("ALL PROJECTS · READ ONLY", Theme::AMBER)
        };
        QueueView {
            summary,
            scope,
            scope_tint,
            placeholder: if self.candidates.len() > 0 {
                None
            } else if self.loading {
                Some(QueuePlaceholder::Loading)
            } else {
                Some(QueuePlaceholder::NoCandidates)
            },
            rows,
        }
    }
}

/// What is shown of a candidate.
#[derive(Debug)]
pub struct CandidateView {
    pub title: String,
    pub source: String,
    pub position: String,
    pub previous_enabled: bool,
    pub previous_label: &'static str,
    pub next_enabled: bool,
    pub next_label: &'static str,
    pub queue_state: &'static str,
    pub tint: u32,
    /// What is proposed.
    pub proposal: Vec<LabelledText>,
    pub input_missing: bool,
    /// Where the candidate comes from.
    pub provenance: Vec<LabelledText>,
    pub telemetry: Option<LabelledText>,
    pub record: Option<LabelledText>,
    pub label: String,
    /// What is said once no decision is to be made any more.
    pub complete: Option<String>,
    /// Whether decisions can be made now.
    pub enabled: bool,
    pub defer_label: &'static str,
    pub reject_label: &'static str,
    pub accept_label: &'static str,
}

/// What is proposed as the input.
pub open spec fn input_text(candidate: EvalCandidateRecordV1) -> Seq<char> {
    match candidate.proposed_input {
        Some(input) => input@,
        None => "No runnable input fixture has been materialized."@,
    }
}

/// What is expected.
pub open spec fn expected_text(candidate: EvalCandidateRecordV1) -> Seq<char> {
    if candidate.proposed_expected_behavior@.len() == 0 {
        "No expected behavior proposed."@
    } else {
        text::joined(text::texts(candidate.proposed_expected_behavior@), "\n• "@)
    }
}

/// What is proposed.
pub open spec fn proposal_cards(candidate: EvalCandidateRecordV1) -> Seq<components::FactContent> {
    seq![
        components::fact("Proposed behavior"@, candidate.proposed_rubric@, Theme::MUTED),
        components::fact("Redacted input"@, input_text(candidate), Theme::MUTED),
        components::fact("Expected behavior"@, "• "@ + expected_text(candidate), Theme::MUTED),
        components::fact("Grader"@, candidate.proposed_grader@, Theme::MUTED),
    ]
}

/// Where a candidate comes from.
pub open spec fn provenance_cards(candidate: EvalCandidateRecordV1) -> Seq<
    components::FactContent,
> {
    seq![
        components::fact(
            "Evidence provenance"@,
            "Packet "@ + short(candidate.packet_id@) + "\nContent "@ + short(
                candidate.content_hash@,
            ) + "\nFinding "@ + short(candidate.finding_id@) + "\nTrace "@ + short(
                candidate.logical_trace_id@,
            ) + " · revision "@ + text::decimal(candidate.revision as nat) + "\n"@
                + text::decimal(candidate.evidence_span_ids@.len()) + " evidence references"@,
            Theme::MUTED,
        ),
        components::fact(
            "Generator"@,
            candidate.generator_name@ + " "@ + candidate.generator_version@ + "\nDefinition "@
                + short(candidate.definition_hash@),
            Theme::MUTED,
        ),
    ]
}

/// What was decided.
pub open spec fn record_text(record: ReviewRecord) -> Seq<char> {
    record.decision@ + " by "@ + record.reviewer_ref@ + " at "@ + record.reviewed_at@ + (
    match record.reason {
        Some(reason) => "\nReason: "@ + reason@,
        None => ""@,
    })
}

/// What a screen reader says of a candidate.
pub open spec fn candidate_label(candidate: EvalCandidateRecordV1) -> Seq<char> {
    "Eval candidate review. Proposed behavior: "@ + candidate.proposed_rubric@
        + ". Redacted input: "@ + input_text(candidate) + ". Expected behavior: "@
        + expected_text(candidate) + ". Grader: "@ + candidate.proposed_grader@
        + ". Evidence packet "@ + short(candidate.packet_id@) + ". Finding "@ + short(
        candidate.finding_id@,
    ) + ". Trace "@ + short(candidate.logical_trace_id@) + ", revision "@ + text::decimal(
        candidate.revision as nat,
    ) + "."@
}

fn input_text_of(candidate: &EvalCandidateRecordV1) -> (shown: String)
    ensures
        shown@ == input_text(*candidate),
{
    match &candidate.proposed_input {
        Some(input) => input.clone(),
        None => "No runnable input fixture has been materialized.".to_owned(),
    }
}

fn expected_text_of(candidate: &EvalCandidateRecordV1) -> (shown: String)
    ensures
        shown@ == expected_text(*candidate),
{
    if candidate.proposed_expected_behavior.len() == 0 {
        "No expected behavior proposed.".to_owned()
    } else {
        join(&candidate.proposed_expected_behavior, "\n• ")
    }
}

fn proposal_of(candidate: &EvalCandidateRecordV1) -> (cards: Vec<LabelledText>)
    ensures
        components::facts(cards@) == proposal_cards(*candidate),
{
    let input = input_text_of(candidate);
    let expected = concat2("• ", expected_text_of(candidate).as_str());
    let mut cards: Vec<LabelledText> = Vec::new();
    cards.push(
        diagnosis_fact("Proposed behavior", candidate.proposed_rubric.as_str(), Theme::MUTED),
    );
    cards.push(diagnosis_fact("Redacted input", input.as_str(), Theme::MUTED));
    cards.push(diagnosis_fact("Expected behavior", expected.as_str(), Theme::MUTED));
    cards.push(diagnosis_fact("Grader", candidate.proposed_grader.as_str(), Theme::MUTED));
    assert(components::facts(cards@) =~= proposal_cards(*candidate));
    cards
}

fn provenance_of(candidate: &EvalCandidateRecordV1) -> (cards: Vec<LabelledText>)
    ensures
        components::facts(cards@) == provenance_cards(*candidate),
{
    let mut evidence = concat2("Packet ", short_id(candidate.packet_id.as_str()));
    evidence.append("\nContent ");
    evidence.append(short_id(candidate.content_hash.as_str()));
    evidence.append("\nFinding ");
    evidence.append(short_id(candidate.finding_id.as_str()));
    evidence.append("\nTrace ");
    evidence.append(short_id(candidate.logical_trace_id.as_str()));
    evidence.append(" · revision ");
    append_decimal(&mut evidence, candidate.revision);
    evidence.append("\n");
    evidence.append(length_text(candidate.evidence_span_ids.len()).as_str());
    evidence.append(" evidence references");
    let mut generator = concat4(
        candidate.generator_name.as_str(),
        " ",
        candidate.generator_version.as_str(),
        "\nDefinition ",
    );
    generator.append(short_id(candidate.definition_hash.as_str()));
    let mut cards: Vec<LabelledText> = Vec::new();
    cards.push(diagnosis_fact("Evidence provenance", evidence.as_str(), Theme::MUTED));
    cards.push(diagnosis_fact("Generator", generator.as_str(), Theme::MUTED));
    assert(components::facts(cards@) =~= provenance_cards(*candidate));
    cards
}

fn record_of(candidate: &EvalCandidateRecordV1) -> (card: Option<LabelledText>)
    ensures
        match (candidate.review, card) {
            (Some(record), Some(card)) => card@ == components::fact(
                "Review record"@,
                record_text(record),
                Theme::MUTED,
            ),
            (None, None) => true,
            _ => false,
        },
{
    match &candidate.review {
        Some(record) => {
            let mut shown = concat4(
                record.decision.as_str(),
                " by ",
                record.reviewer_ref.as_str(),
                " at ",
            );
            shown.append(record.reviewed_at.as_str());
            let reason = match &record.reason {
                Some(reason) => concat2("\nReason: ", reason.as_str()),
                None => "".to_owned(),
            };
            shown.append(reason.as_str());
            Some(diagnosis_fact("Review record", shown.as_str(), Theme::MUTED))
        },
        None => None,
    }
}

fn candidate_label_of(candidate: &EvalCandidateRecordV1) -> (label: String)
    ensures
        label@ == candidate_label(*candidate),
{
    let mut label = concat2(
        "Eval candidate review. Proposed behavior: ",
        candidate.proposed_rubric.as_str(),
    );
    label.append(". Redacted input: ");
    label.append(input_text_of(candidate).as_str());
    label.append(". Expected behavior: ");
    label.append(expected_text_of(candidate).as_str());
    label.append(". Grader: ");
    label.append(candidate.proposed_grader.as_str());
    label.append(". Evidence packet ");
    label.append(short_id(candidate.packet_id.as_str()));
    label.append(". Finding ");
    label.append(short_id(candidate.finding_id.as_str()));
    label.append(". Trace ");
    label.append(short_id(candidate.logical_trace_id.as_str()));
    label.append(", revision ");
    append_decimal(&mut label, candidate.revision);
    label.append(".");
    label
}

/// What is shown of a candidate.
pub open spec fn shows_candidate(
    view: CandidateView,
    screen: EvalReviewScreen,
    candidate: EvalCandidateRecordV1,
) -> bool {
    let actionable = candidate.queue_state.awaits_decision();
    let scoped = screen.project_id is Some;
    let count = screen.candidates@.len();
    &&& view.title@ == candidate.proposed_rubric@
    &&& view.source@ == "Project "@ + candidate.project_id@ + " · concrete finding "@ + short(
        candidate.finding_id@,
    )
    &&& match screen.selected_place() {
        Some(place) => {
            &&& view.position@ == "Candidate "@ + text::decimal((place + 1) as nat) + " of "@
                + text::decimal(count)
            &&& view.previous_enabled == (place > 0)
            &&& view.next_enabled == (place + 1 < count)
        },
        None => {
            &&& view.position@ == "Candidate opened directly"@
            &&& !view.previous_enabled
            &&& !view.next_enabled
        },
    }
    &&& view.previous_label@ == (if view.previous_enabled {
        "Previous eval candidate"@
    } else {
        "Previous eval candidate, unavailable"@
    })
    &&& view.next_label@ == (if view.next_enabled {
        "Next eval candidate"@
    } else {
        "Next eval candidate, unavailable"@
    })
    &&& (view.queue_state@, view.tint) == candidate.queue_state.mark()
    &&& components::facts(view.proposal@) == proposal_cards(candidate)
    &&& view.input_missing == (candidate.proposed_input is None)
    &&& components::facts(view.provenance@) == provenance_cards(candidate)
    &&& view.telemetry is Some <==> candidate.telemetry_gaps@.len() > 0
    &&& view.telemetry is Some ==> view.telemetry->0@ == components::fact(
        "Telemetry gaps"@,
        telemetry_gaps::gap_summary(candidate.telemetry_gaps@),
        Theme::MUTED,
    )
    &&& view.record is Some <==> candidate.review is Some
    &&& view.record is Some ==> view.record->0@ == components::fact(
        "Review record"@,
        record_text(candidate.review->0),
        Theme::MUTED,
    )
    &&& view.label@ == candidate_label(candidate)
    &&& view.complete is Some <==> !actionable
    &&& view.complete is Some ==> view.complete->0@ == "Review complete · "@
        + candidate.queue_state.mark().0
    &&& view.enabled == (actionable && !screen.mutating && scoped)
    &&& view.defer_label@ == action_label("Defer eval candidate"@, screen.mutating, scoped)
    &&& view.reject_label@ == action_label("Reject eval candidate"@, screen.mutating, scoped)
    &&& view.accept_label@ == action_label("Accept eval candidate"@, screen.mutating, scoped)
}

impl EvalReviewScreen {
    /// What is shown of a candidate.
    pub fn render_candidate(&self, candidate: &EvalCandidateRecordV1) -> (view: CandidateView)
        ensures
            shows_candidate(view, *self, *candidate),
    {
        let actionable = candidate.queue_state.is_actionable();
        let scoped = self.project_id.is_some();
        let count = self.candidates.len();
        let (position, previous_enabled, next_enabled) = match self.selected_candidate_index() {
            Some(index) => {
                let mut position = concat2("Candidate ", length_text(index + 1).as_str());
                position.append(" of ");
                position.append(length_text(count).as_str());
                (position, index > 0, index + 1 < count)
            },
            None => ("Candidate opened directly".to_owned(), false, false),
        };
        let source = concat4(
            "Project ",
            candidate.project_id.as_str(),
            " · concrete finding ",
            short_id(candidate.finding_id.as_str()),
        );
        let telemetry = if candidate.telemetry_gaps.len() > 0 {
            let gaps = telemetry_gap_summary(candidate.telemetry_gaps.as_slice());
            Some(diagnosis_fact("Telemetry gaps", gaps.as_str(), Theme::MUTED))
        } else {
            None
        };
        CandidateView {
            title: candidate.proposed_rubric.clone(),
            source,
            position,
            previous_enabled,
            previous_label: if previous_enabled {
                "Previous eval candidate"
            } else {
                "Previous eval candidate, unavailable"
            },
            next_enabled,
            next_label: if next_enabled {
                "Next eval candidate"
            } else {
                "Next eval candidate, unavailable"
            },
            queue_state: queue_state_label(candidate.queue_state),
            tint: queue_state_tint(candidate.queue_state),
            proposal: proposal_of(candidate),
            input_missing: candidate.proposed_input.is_none(),
            provenance: provenance_of(candidate),
            telemetry,
            record: record_of(candidate),
            label: candidate_label_of(candidate),
            complete: if actionable {
                None
            } else {
                Some(concat2("Review complete · ", queue_state_label(candidate.queue_state)))
            },
            enabled: actionable && !self.mutating && scoped,
            defer_label: review_action_label("Defer eval candidate", self.mutating, scoped),
            reject_label: review_action_label("Reject eval candidate", self.mutating, scoped),
            accept_label: review_action_label("Accept eval candidate", self.mutating, scoped),
        }
    }
}

/// No decision can be made in the scope of all projects, while another one is
/// being saved, or once one was made.
pub proof fn decisions_need_a_project(
    view: CandidateView,
    screen: EvalReviewScreen,
    candidate: EvalCandidateRecordV1,
)
    requires
        shows_candidate(view, screen, candidate),
    ensures
        screen.project_id is None ==> !view.enabled,
        screen.mutating ==> !view.enabled,
        !candidate.queue_state.awaits_decision() ==> !view.enabled && view.complete is Some,
{
}

/// A candidate is found at the first place that has its identity, and nowhere
/// where none has it.
pub proof fn candidates_are_found_by_identity(candidates: Seq<Arc<EvalCandidateRecordV1>>, candidate_id: Seq<char>)
    ensures
        match place_of_candidate(candidates, candidate_id) {
            Some(place) => {
                &&& 0 <= place < candidates.len()
                &&& candidates[place].candidate_id@ == candidate_id
                &&& forall|i: int| 0 <= i < place ==> (#[trigger] candidates[i]).candidate_id@ != candidate_id
            },
            None => forall|i: int|
                0 <= i < candidates.len() ==> (#[trigger] candidates[i]).candidate_id@ != candidate_id,
        },
    decreases candidates.len(),
{
    if candidates.len() > 0 && candidates[0].candidate_id@ != candidate_id {
        let rest = candidates.drop_first();
        candidates_are_found_by_identity(rest, candidate_id);
        let end = match place_of_candidate(rest, candidate_id) {
            Some(place) => place,
            None => rest.len() as int,
        };
        assert forall|i: int| 0 <= i < end + 1 implies (#[trigger] candidates[i]).candidate_id@
            != candidate_id by {
            if i > 0 {
                assert(rest[i - 1] == candidates[i]);
            }
        }
    }
}

/// Marks and notices say what became of a candidate, and only one that is
/// pending or deferred awaits a decision.
pub proof fn marks_tell_what_was_decided()
    ensures
        EvalReviewQueueStateV1::Pending.mark() == ("PENDING"@, Theme::AMBER),
        EvalReviewQueueStateV1::Deferred.mark() == ("DEFERRED"@, Theme::PURPLE),
        EvalReviewQueueStateV1::Accepted.mark() == ("ACCEPTED"@, Theme::GREEN),
        EvalReviewQueueStateV1::Rejected.mark() == ("REJECTED"@, Theme::RED),
        EvalReviewQueueStateV1::Superseded.mark() == ("SUPERSEDED"@, Theme::DIM),
        EvalReviewQueueStateV1::Accepted.saved_notice()
            == "Accepted. This candidate is now an approved definition."@,
        EvalReviewQueueStateV1::Rejected.saved_notice()
            == "Rejected. The review record and evidence remain available."@,
        EvalReviewQueueStateV1::Deferred.saved_notice()
            == "Deferred. It remains in the review queue."@,
        EvalReviewQueueStateV1::Pending.saved_notice() == "Review saved."@,
        EvalReviewQueueStateV1::Superseded.saved_notice() == "Review saved."@,
        EvalReviewQueueStateV1::Pending.awaits_decision(),
        EvalReviewQueueStateV1::Deferred.awaits_decision(),
        !EvalReviewQueueStateV1::Accepted.awaits_decision(),
        !EvalReviewQueueStateV1::Rejected.awaits_decision(),
        !EvalReviewQueueStateV1::Superseded.awaits_decision(),
{
}

/// Where a decision can be made, its own label is shown, and otherwise why it
/// cannot: a decision is being saved, or no project is chosen.
pub proof fn unavailable_decisions_say_why(enabled_label: Seq<char>)
    ensures
        action_label(enabled_label, false, true) == enabled_label,
        action_label(enabled_label, true, true)
            == "Review action unavailable while the decision is being saved"@,
        action_label(enabled_label, true, false)
            == "Review action unavailable while the decision is being saved"@,
        action_label(enabled_label, false, false)
            == "Review action unavailable in all-projects scope"@,
{
}

/// Identities are shown by their first sixteen bytes.
pub proof fn identities_are_shown_by_sixteen_bytes(value: Seq<char>)
    requires
        forall|i: int| 0 <= i < value.len() ==> (#[trigger] value[i]) as u32 <= 0x7f,
    ensures
        value.len() <= 16 ==> short(value) == value,
        value.len() > 16 ==> short(value) == value.take(16),
{
    offsets::plain_texts_are_cut_to_the_limit(value, 16);
}

/// The trace opens at the first evidence that names a span, if any does.
pub proof fn traces_open_at_the_first_named_span(span_ids: Seq<Option<String>>)
    ensures
        match first_span(span_ids) {
            Some(span_id) => exists|i: int|
                {
                    &&& 0 <= i < span_ids.len()
                    &&& #[trigger] span_ids[i] == Some(span_id)
                    &&& forall|j: int| 0 <= j < i ==> (#[trigger] span_ids[j]) is None
                },
            None => forall|i: int| 0 <= i < span_ids.len() ==> (#[trigger] span_ids[i]) is None,
        },
    decreases span_ids.len(),
{
    if span_ids.len() > 0 && span_ids[0] is None {
        let rest = span_ids.drop_first();
        traces_open_at_the_first_named_span(rest);
        match first_span(rest) {
            Some(span_id) => {
                let i = choose|i: int|
                    {
                        &&& 0 <= i < rest.len()
                        &&& #[trigger] rest[i] == Some(span_id)
                        &&& forall|j: int| 0 <= j < i ==> (#[trigger] rest[j]) is None
                    };
                assert(span_ids[i + 1] == Some(span_id));
                assert forall|j: int| 0 <= j < i + 1 implies (#[trigger] span_ids[j]) is None by {
                    if j > 0 {
                        assert(rest[j - 1] == span_ids[j]);
                    }
                }
            },
            None => {
                assert forall|i: int| 0 <= i < span_ids.len() implies (#[trigger] span_ids[i])
                    is None by {
                    if i > 0 {
                        assert(rest[i - 1] == span_ids[i]);
                    }
                }
            },
        }
    }
}

/// One candidate more to come awaits a decision exactly where it is pending or
/// deferred.
pub proof fn undecided_candidates_are_counted(
    candidates: Seq<Arc<EvalCandidateRecordV1>>,
    candidate: Arc<EvalCandidateRecordV1>,
)
    ensures
        awaiting(Seq::empty()) == 0,
        candidate.queue_state == EvalReviewQueueStateV1::Pending || candidate.queue_state
            == EvalReviewQueueStateV1::Deferred ==> awaiting(candidates.push(candidate))
            == awaiting(candidates) + 1,
        candidate.queue_state != EvalReviewQueueStateV1::Pending && candidate.queue_state
            != EvalReviewQueueStateV1::Deferred ==> awaiting(candidates.push(candidate))
            == awaiting(candidates),
{
    assert(candidates.push(candidate).drop_last() =~= candidates);
}

/// Each request for the candidates supersedes the one before, is for the chosen
/// project and asks for two hundred of them.
pub proof fn queues_are_those_of_the_project(screen: EvalReviewScreen)
    ensures
        screen.list_request().project_id == screen.project_id,
        screen.list_request().limit == 200,
        screen.list_request().generation == screen.list_requested().request_generation,
        screen.list_requested().request_generation != screen.request_generation,
        screen.list_requested().loading,
        screen.list_requested().error is None,
        screen.list_requested().candidates == screen.candidates,
        screen.list_requested().selected == screen.selected,
        screen.list_requested().project_id == screen.project_id,
        screen.list_requested().mutating == screen.mutating,
        screen.list_requested().notice == screen.notice,
{
}

/// A row opens the candidate that it shows, in the candidate's project.
pub proof fn rows_open_their_candidates(screen: EvalReviewScreen, index: int)
    ensures
        screen.opens(index) is Some <==> 0 <= index < screen.candidates@.len(),
        screen.opens(index) is Some ==> screen.opens(index) == Some(
            EvalReviewEvent::Candidate {
                project_id: screen.candidates@[index].project_id,
                candidate_id: screen.candidates@[index].candidate_id,
            },
        ),
{
}

/// A row tells apart what is proposed, what state it is in and where it comes
/// from, and mentions telemetry only where some is missing.
pub proof fn rows_describe_their_candidates(view: CandidateRowView, candidate: EvalCandidateRecordV1)
    requires
        shows_row(view, candidate),
    ensures
        view.title@ == candidate.proposed_rubric@,
        view.source@ == "Project "@ + candidate.project_id@ + " · group "@ + short(
            candidate.group_id@,
        ) + " · trace "@ + short(candidate.logical_trace_id@) + " · revision "@ + text::decimal(
            candidate.revision as nat,
        ),
        view.label@ == candidate.proposed_rubric@ + "; "@ + view.queue_state@ + "; project "@
            + candidate.project_id@ + "; trace "@ + short(candidate.logical_trace_id@)
            + "; revision "@ + text::decimal(candidate.revision as nat),
        candidate.queue_state == EvalReviewQueueStateV1::Accepted ==> view.queue_state@
            == "ACCEPTED"@ && view.tint == Theme::GREEN,
        candidate.queue_state == EvalReviewQueueStateV1::Rejected ==> view.queue_state@
            == "REJECTED"@ && view.tint == Theme::RED,
        candidate.queue_state == EvalReviewQueueStateV1::Pending ==> view.queue_state@
            == "PENDING"@ && view.tint == Theme::AMBER,
        candidate.telemetry_gaps@.len() == 0 ==> view.telemetry is None,
        candidate.telemetry_gaps@.len() > 0 ==> view.telemetry is Some && view.telemetry->0@
            == "Telemetry gaps: "@ + telemetry_gaps::gap_summary(candidate.telemetry_gaps@),
{
}

/// A candidate that awaits a decision can be decided in its project while no
/// decision is being saved; a decided one is complete. Its neighbours in the
/// queue can be reached, and there is none before the first or after the last.
pub proof fn candidates_are_decided_once(
    view: CandidateView,
    screen: EvalReviewScreen,
    candidate: EvalCandidateRecordV1,
)
    requires
        shows_candidate(view, screen, candidate),
    ensures
        view.enabled <==> (candidate.queue_state == EvalReviewQueueStateV1::Pending
            || candidate.queue_state == EvalReviewQueueStateV1::Deferred) && !screen.mutating
            && screen.project_id is Some,
        view.complete is Some <==> candidate.queue_state == EvalReviewQueueStateV1::Accepted
            || candidate.queue_state == EvalReviewQueueStateV1::Rejected || candidate.queue_state
            == EvalReviewQueueStateV1::Superseded,
        candidate.queue_state == EvalReviewQueueStateV1::Accepted ==> view.complete->0@
            == "Review complete · "@ + "ACCEPTED"@,
        candidate.queue_state == EvalReviewQueueStateV1::Rejected ==> view.complete->0@
            == "Review complete · "@ + "REJECTED"@,
        !screen.mutating && screen.project_id is Some ==> view.defer_label@
            == "Defer eval candidate"@ && view.reject_label@ == "Reject eval candidate"@
            && view.accept_label@ == "Accept eval candidate"@,
        screen.selected_place() is None ==> !view.previous_enabled && !view.next_enabled
            && view.position@ == "Candidate opened directly"@,
        screen.selected_place() is Some ==> {
            let place = screen.selected_place()->0;
            &&& view.previous_enabled <==> screen.opens(place - 1) is Some
            &&& view.next_enabled <==> screen.opens(place + 1) is Some
            &&& view.position@ == "Candidate "@ + text::decimal((place + 1) as nat) + " of "@
                + text::decimal(screen.candidates@.len())
        },
        view.previous_enabled ==> view.previous_label@ == "Previous eval candidate"@,
        !view.previous_enabled ==> view.previous_label@
            == "Previous eval candidate, unavailable"@,
        view.next_enabled ==> view.next_label@ == "Next eval candidate"@,
        !view.next_enabled ==> view.next_label@ == "Next eval candidate, unavailable"@,
        view.input_missing <==> candidate.proposed_input is None,
        view.title@ == candidate.proposed_rubric@,
        view.record is Some <==> candidate.review is Some,
        view.telemetry is Some <==> candidate.telemetry_gaps@.len() > 0,
{
    match screen.selected {
        Some(selected) => candidates_are_found_by_identity(
            screen.candidates@,
            selected.candidate_id@,
        ),
        None => {},
    }
}

/// A candidate's cards hold the behaviour, input, expectation and grader that
/// it proposes, and say where something is missing.
pub proof fn proposals_are_shown_in_full(candidate: EvalCandidateRecordV1)
    ensures
        proposal_cards(candidate).len() == 4,
        proposal_cards(candidate)[0] == components::fact(
            "Proposed behavior"@,
            candidate.proposed_rubric@,
            Theme::MUTED,
        ),
        candidate.proposed_input is Some ==> proposal_cards(candidate)[1] == components::fact(
            "Redacted input"@,
            candidate.proposed_input->0@,
            Theme::MUTED,
        ),
        candidate.proposed_input is None ==> proposal_cards(candidate)[1] == components::fact(
            "Redacted input"@,
            "No runnable input fixture has been materialized."@,
            Theme::MUTED,
        ),
        candidate.proposed_expected_behavior@.len() == 0 ==> proposal_cards(candidate)[2]
            == components::fact(
            "Expected behavior"@,
            "• "@ + "No expected behavior proposed."@,
            Theme::MUTED,
        ),
        candidate.proposed_expected_behavior@.len() > 0 ==> proposal_cards(candidate)[2]
            == components::fact(
            "Expected behavior"@,
            "• "@ + text::joined(text::texts(candidate.proposed_expected_behavior@), "\n• "@),
            Theme::MUTED,
        ),
        proposal_cards(candidate)[3] == components::fact(
            "Grader"@,
            candidate.proposed_grader@,
            Theme::MUTED,
        ),
        provenance_cards(candidate).len() == 2,
        provenance_cards(candidate)[1] == components::fact(
            "Generator"@,
            candidate.generator_name@ + " "@ + candidate.generator_version@ + "\nDefinition "@
                + short(candidate.definition_hash@),
            Theme::MUTED,
        ),
        provenance_cards(candidate)[0] == components::fact(
            "Evidence provenance"@,
            "Packet "@ + short(candidate.packet_id@) + "\nContent "@ + short(
                candidate.content_hash@,
            ) + "\nFinding "@ + short(candidate.finding_id@) + "\nTrace "@ + short(
                candidate.logical_trace_id@,
            ) + " · revision "@ + text::decimal(candidate.revision as nat) + "\n"@
                + text::decimal(candidate.evidence_span_ids@.len()) + " evidence references"@,
            Theme::MUTED,
        ),
{
}

/// A review record names the decision, who made it and when, and the reason
/// where one was given.
pub proof fn records_name_decision_and_reason(record: ReviewRecord)
    ensures
        record.reason is None ==> record_text(record) == record.decision@ + " by "@
            + record.reviewer_ref@ + " at "@ + record.reviewed_at@,
        record.reason is Some ==> record_text(record) == record.decision@ + " by "@
            + record.reviewer_ref@ + " at "@ + record.reviewed_at@ + ("\nReason: "@
            + record.reason->0@),
{
    reveal_strlit("");
    let head = record.decision@ + " by "@ + record.reviewer_ref@ + " at "@ + record.reviewed_at@;
    assert(head + ""@ =~= head);
}

/// A candidate is told aloud with all that it proposes and where it comes from.
pub proof fn candidates_are_told_aloud(
    view: CandidateView,
    screen: EvalReviewScreen,
    candidate: EvalCandidateRecordV1,
)
    requires
        shows_candidate(view, screen, candidate),
    ensures
        view.label@ == "Eval candidate review. Proposed behavior: "@ + candidate.proposed_rubric@
            + ". Redacted input: "@ + input_text(candidate) + ". Expected behavior: "@
            + expected_text(candidate) + ". Grader: "@ + candidate.proposed_grader@
            + ". Evidence packet "@ + short(candidate.packet_id@) + ". Finding "@ + short(
            candidate.finding_id@,
        ) + ". Trace "@ + short(candidate.logical_trace_id@) + ", revision "@ + text::decimal(
            candidate.revision as nat,
        ) + "."@,
        view.source@ == "Project "@ + candidate.project_id@ + " · concrete finding "@ + short(
            candidate.finding_id@,
        ),
        view.record is Some ==> view.record->0@ == components::fact(
            "Review record"@,
            record_text(candidate.review->0),
            Theme::MUTED,
        ),
        view.telemetry is Some ==> view.telemetry->0@ == components::fact(
            "Telemetry gaps"@,
            telemetry_gaps::gap_summary(candidate.telemetry_gaps@),
            Theme::MUTED,
        ),
        (view.queue_state@, view.tint) == candidate.queue_state.mark(),
{
}

} // verus!
