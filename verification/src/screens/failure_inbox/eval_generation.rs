//! Draft evals from failure groups: previews, and the job that creates them.

use super::inspector;
use super::investigation_state::EvidenceRequest;
use super::model::{copy_optional, optional_text, QueryScopeV1, RecoveryStatus};
use super::state::{self, FailureInbox, FailureInboxEvent};
use crate::keyed::{self, KeySet};
use crate::sorting::{self, distinct_sorted_texts};
use crate::text::{self, concat2, same_text};
use vstd::prelude::*;
use vstd::string::*;

verus! {

/// Why an example was chosen.
#[derive(Debug, Clone, Copy, PartialEq, Eq, Structural)]
pub enum EvalSelectionReasonV1 {
    CanonicalMember,
    NewestUnrecovered,
    RecoveredExample,
    DistinctAgentBuild,
    DistinctExecutionShape,
}

/// An example that a draft eval would be made of.
#[derive(Debug)]
pub struct EvalBatchItem {
    pub group_id: String,
    pub already_exists: bool,
    pub evidence_count: usize,
    pub telemetry_gaps: Vec<String>,
    pub build_id: Option<String>,
    pub session_id: Option<String>,
    pub selection_reason: EvalSelectionReasonV1,
    pub run_title: Option<String>,
    pub revision: u64,
    pub recovery: RecoveryStatus,
    pub proposed_rubric: String,
}

/// An example that was left out.
#[derive(Debug)]
pub struct EvalBatchExclusion {
    pub group_id: String,
    pub reason: String,
}

/// What a batch of draft evals would hold.
#[derive(Debug)]
pub struct EvalBatchPreviewV1 {
    pub preview_id: String,
    pub project_id: String,
    pub selection_hash: String,
    pub group_ids: Vec<String>,
    pub maximum_candidate_count: u64,
    pub items: Vec<EvalBatchItem>,
    pub exclusions: Vec<EvalBatchExclusion>,
}

/// What a single draft eval would hold.
#[derive(Debug)]
pub struct EvalCandidatePreview {
    pub packet_id: String,
    pub content_hash: String,
    pub telemetry_gaps: Vec<String>,
    pub proposed_expected_behavior: Vec<String>,
    pub proposed_rubric: String,
    pub proposed_grader: String,
    pub generator_name: String,
    pub generator_version: String,
}

/// How long to wait before the next look at a generation job.
pub const POLL_MILLISECONDS: u64 = 100;

/// How far a generation job is.
#[derive(Debug, Clone, Copy, PartialEq, Eq, Structural)]
pub enum CandidateGenerationJobStatusV1 {
    Queued,
    Running,
    Completed,
    PartialSuccess,
    Failed,
    Cancelled,
}

impl CandidateGenerationJobStatusV1 {
    /// The name of the status.
    pub open spec fn name(self) -> Seq<char> {
        match self {
            CandidateGenerationJobStatusV1::Queued => "Queued"@,
            CandidateGenerationJobStatusV1::Running => "Running"@,
            CandidateGenerationJobStatusV1::Completed => "Completed"@,
            CandidateGenerationJobStatusV1::PartialSuccess => "PartialSuccess"@,
            CandidateGenerationJobStatusV1::Failed => "Failed"@,
            CandidateGenerationJobStatusV1::Cancelled => "Cancelled"@,
        }
    }

    /// The name of the status.
    pub fn label(self) -> (label: &'static str)
        ensures
            label@ == self.name(),
    {
        match self {
            CandidateGenerationJobStatusV1::Queued => "Queued",
            CandidateGenerationJobStatusV1::Running => "Running",
            CandidateGenerationJobStatusV1::Completed => "Completed",
            CandidateGenerationJobStatusV1::PartialSuccess => "PartialSuccess",
            CandidateGenerationJobStatusV1::Failed => "Failed",
            CandidateGenerationJobStatusV1::Cancelled => "Cancelled",
        }
    }

    /// Whether the job is still at work.
    pub open spec fn running(self) -> bool {
        self == CandidateGenerationJobStatusV1::Queued || self
            == CandidateGenerationJobStatusV1::Running
    }

    /// Whether the job is still at work.
    pub fn is_running(self) -> (running: bool)
        ensures
            running == self.running(),
    {
        match self {
            CandidateGenerationJobStatusV1::Queued => true,
            CandidateGenerationJobStatusV1::Running => true,
            _ => false,
        }
    }

    /// Whether the job left something to do.
    pub open spec fn retryable(self) -> bool {
        self == CandidateGenerationJobStatusV1::Failed || self
            == CandidateGenerationJobStatusV1::PartialSuccess || self
            == CandidateGenerationJobStatusV1::Cancelled
    }

    /// Whether the job left something to do.
    pub fn is_retryable(self) -> (retryable: bool)
        ensures
            retryable == self.retryable(),
    {
        match self {
            CandidateGenerationJobStatusV1::Failed => true,
            CandidateGenerationJobStatusV1::PartialSuccess => true,
            CandidateGenerationJobStatusV1::Cancelled => true,
            _ => false,
        }
    }
}

/// A job that generates draft evals.
#[derive(Debug)]
pub struct CandidateGenerationJobV1 {
    pub job_id: String,
    pub status: CandidateGenerationJobStatusV1,
    pub outcome_count: usize,
}

/// What the inbox knows of draft evals.
#[derive(Debug)]
pub struct EvalBatch {
    pub candidate: Option<EvalCandidatePreview>,
    pub preview: Option<EvalBatchPreviewV1>,
    pub expanded_group_ids: KeySet<String>,
    pub job: Option<CandidateGenerationJobV1>,
    pub loading: bool,
}

impl EvalBatch {
    /// Whether nothing is previewed and nothing generated.
    pub open spec fn is_new(self) -> bool {
        &&& self.candidate is None
        &&& self.preview is None
        &&& self.expanded_group_ids@ == Set::<Seq<char>>::empty()
        &&& self.job is None
        &&& !self.loading
    }

    /// Nothing previewed and nothing generated.
    pub fn new() -> (batch: Self)
        ensures
            batch.is_new(),
            batch.expanded_group_ids.wf(),
    {
        EvalBatch {
            candidate: None,
            preview: None,
            expanded_group_ids: KeySet::new(),
            job: None,
            loading: false,
        }
    }
}

/// A request to preview draft evals of some groups.
#[derive(Debug)]
pub struct BatchPreviewRequest {
    pub project_id: String,
    pub scope: QueryScopeV1,
    pub group_ids: Vec<String>,
}

/// A request to create the previewed draft evals.
#[derive(Debug)]
pub struct BatchRequest {
    pub project_id: String,
    pub preview_id: String,
    pub selection_hash: String,
    pub idempotency_key: String,
}

/// What a message says without a project.
pub open spec fn choose_a_project() -> Seq<char> {
    "Choose one project before generating eval candidates; All Projects is read-only."@
}

/// What a message says without groups.
pub open spec fn choose_groups() -> Seq<char> {
    "Choose one or more groups in a persisted project before generating eval candidates."@
}

impl FailureInbox {
    /// The finding to preview a draft eval of.
    pub fn create_candidate(&self) -> (finding_id: Option<String>)
        ensures
            finding_id == self.investigation.finding_id,
    {
        copy_optional(&self.investigation.finding_id)
    }

    /// Shows the preview of a draft eval.
    pub fn finish_create_candidate(&mut self, answer: Result<Option<EvalCandidatePreview>, String>)
        ensures
            *final(self) == (match answer {
                Ok(candidate) => FailureInbox {
                    eval: EvalBatch { candidate, ..old(self).eval },
                    ..*old(self)
                },
                Err(error) => FailureInbox { load_error: Some(error), ..*old(self) },
            }),
    {
        match answer {
            Ok(candidate) => {
                self.eval.candidate = candidate;
            },
            Err(error) => {
                self.load_error = Some(error);
            },
        }
    }

    /// The group and the finding to create a draft eval of.
    pub fn confirm_candidate(&self) -> (target: Option<(String, String)>)
        ensures
            target == (match (self.investigation.group, self.investigation.finding_id) {
                (Some(group), Some(finding_id)) => Some((group.summary.group_id, finding_id)),
                _ => None,
            }),
    {
        match (&self.investigation.group, &self.investigation.finding_id) {
            (Some(group), Some(finding_id)) => Some(
                (group.summary.group_id.clone(), finding_id.clone()),
            ),
            _ => None,
        }
    }

    /// Takes that a draft eval was created, and asks for the finding again.
    pub fn finish_confirm_candidate(
        &mut self,
        finding_id: String,
        answer: Result<(), String>,
    ) -> (request: Option<EvidenceRequest>)
        ensures
            match (answer, old(self).investigation.group) {
                (Err(error), _) => {
                    &&& *final(self) == (FailureInbox { load_error: Some(error), ..*old(self) })
                    &&& request is None
                },
                (Ok(_), None) => {
                    &&& *final(self) == (FailureInbox {
                        eval: EvalBatch { candidate: None, ..old(self).eval },
                        ..*old(self)
                    })
                    &&& request is None
                },
                (Ok(_), Some(group)) => {
                    &&& *final(self) == old(self).evidence_requested()
                    &&& request == Some(
                        EvidenceRequest {
                            generation: state::next_request(
                                old(self).investigation.evidence_generation,
                            ),
                            scope: group.summary.scope,
                            group_id: group.summary.group_id,
                            finding_id,
                        },
                    )
                },
            },
    {
        match answer {
            Ok(_) => {
                self.eval.candidate = None;
                self.load_occurrence(finding_id)
            },
            Err(error) => {
                self.load_error = Some(error);
                None
            },
        }
    }

    /// Drops the preview of a draft eval.
    pub fn cancel_candidate(&mut self)
        ensures
            *final(self) == (FailureInbox {
                eval: EvalBatch { candidate: None, ..old(self).eval },
                ..*old(self)
            }),
    {
        self.eval.candidate = None;
    }

    /// Asks for a preview of draft evals of the selected groups, in the order
    /// of their identities.
    pub fn preview_selected_groups(&mut self, unassigned_project_id: &str) -> (request: Option<
        BatchPreviewRequest,
    >)
        requires
            old(self).wf(),
        ensures
            final(self).wf(),
            previewed(
                *old(self),
                *final(self),
                unassigned_project_id@,
                old(self).selection@.selected.len() == 0,
                request,
            ),
            request is Some ==> {
                let ids = text::texts(request->0.group_ids@);
                &&& ids.to_set() == old(self).selection@.selected
                &&& forall|i: int, j: int|
                    0 <= i < j < ids.len() ==> sorting::text_before(
                        #[trigger] ids[i],
                        #[trigger] ids[j],
                    )
            },
    {
        let mut ids: Vec<String> = Vec::new();
        let keys = self.selection.selected.keys();
        let mut index: usize = 0;
        while index < keys.len()
            invariant
                index <= keys@.len(),
                ids@ == keys@.take(index as int),
            decreases keys@.len() - index,
        {
            ids.push(keys[index].clone());
            index += 1;
            assert(ids@ =~= keys@.take(index as int));
        }
        assert(keys@.take(index as int) =~= keys@);
        let ghost given = text::texts(ids@);
        assert(given =~= keyed::identities(keys@));
        let sorted = distinct_sorted_texts(ids);
        proof {
            sorting::distinct_texts_ascend(given);
            assert(given.to_set() == self.selection@.selected);
            assert(text::texts(sorted@).len() == 0 <==> given.len() == 0) by {
                if given.len() > 0 {
                    assert(given.to_set().contains(given[0]));
                    assert(text::texts(sorted@).contains(given[0]));
                }
                if text::texts(sorted@).len() > 0 {
                    assert(text::texts(sorted@).to_set().contains(text::texts(sorted@)[0]));
                    assert(given.contains(text::texts(sorted@)[0]));
                }
            }
            given.unique_seq_to_set();
        }
        self.preview_eval_groups(sorted, unassigned_project_id)
    }

    /// Asks for a preview of draft evals of the shown group.
    pub fn preview_current_group(&mut self, unassigned_project_id: &str) -> (request: Option<
        BatchPreviewRequest,
    >)
        requires
            old(self).wf(),
        ensures
            final(self).wf(),
            previewed(
                *old(self),
                *final(self),
                unassigned_project_id@,
                old(self).investigation.group is None,
                request,
            ),
            request is Some ==> request->0.group_ids@ == seq![old(self).shown_group_id()],
    {
        let mut groups: Vec<String> = Vec::new();
        if let Some(group) = &self.investigation.group {
            groups.push(group.summary.group_id.clone());
            assert(groups@ =~= seq![group.summary.group_id]);
        }
        self.preview_eval_groups(groups, unassigned_project_id)
    }

    /// Asks for a preview of draft evals of some groups of a persisted
    /// project.
    pub fn preview_eval_groups(
        &mut self,
        group_ids: Vec<String>,
        unassigned_project_id: &str,
    ) -> (request: Option<BatchPreviewRequest>)
        requires
            old(self).wf(),
        ensures
            final(self).wf(),
            previewed(
                *old(self),
                *final(self),
                unassigned_project_id@,
                group_ids@.len() == 0,
                request,
            ),
            request is Some ==> request->0.group_ids == group_ids,
    {
        let project_id = match &self.filters.scope.criteria.project_id {
            Some(project_id) => project_id.clone(),
            None => {
                self.load_error =
                Some(
                    "Choose one project before generating eval candidates; All Projects is read-only.".to_owned(),
                );
                return None;
            },
        };
        if same_text(project_id.as_str(), unassigned_project_id) || group_ids.len() == 0 {
            self.load_error =
            Some(
                "Choose one or more groups in a persisted project before generating eval candidates.".to_owned(),
            );
            return None;
        }
        self.eval.loading = true;
        self.eval.preview = None;
        self.eval.expanded_group_ids.clear();
        self.eval.job = None;
        self.load_error = None;
        Some(BatchPreviewRequest { project_id, scope: self.filters.scope.copy(), group_ids })
    }

    /// Shows the preview of draft evals.
    pub fn finish_preview(&mut self, answer: Result<EvalBatchPreviewV1, String>)
        ensures
            *final(self) == (match answer {
                Ok(preview) => FailureInbox {
                    eval: EvalBatch { loading: false, preview: Some(preview), ..old(self).eval },
                    ..*old(self)
                },
                Err(error) => FailureInbox {
                    eval: EvalBatch { loading: false, ..old(self).eval },
                    load_error: Some(error),
                    ..*old(self)
                },
            }),
    {
        self.eval.loading = false;
        match answer {
            Ok(preview) => {
                self.eval.preview = Some(preview);
            },
            Err(error) => {
                self.load_error = Some(error);
            },
        }
    }

    /// Asks for the previewed draft evals. The same preview is created once.
    pub fn create_eval_batch(&mut self) -> (request: Option<BatchRequest>)
        ensures
            match (old(self).eval.preview, request) {
                (None, None) => *final(self) == *old(self),
                (Some(preview), Some(request)) => {
                    &&& *final(self) == (FailureInbox {
                        eval: EvalBatch { loading: true, ..old(self).eval },
                        load_error: None,
                        ..*old(self)
                    })
                    &&& request == (BatchRequest {
                        project_id: preview.project_id,
                        preview_id: preview.preview_id,
                        selection_hash: preview.selection_hash,
                        idempotency_key: request.idempotency_key,
                    })
                    &&& request.idempotency_key@ == "desktop:"@ + preview.preview_id@
                },
                _ => false,
            },
    {
        let request = match &self.eval.preview {
            Some(preview) => BatchRequest {
                project_id: preview.project_id.clone(),
                preview_id: preview.preview_id.clone(),
                selection_hash: preview.selection_hash.clone(),
                idempotency_key: concat2("desktop:", preview.preview_id.as_str()),
            },
            None => {
                return None;
            },
        };
        self.eval.loading = true;
        self.load_error = None;
        Some(request)
    }

    /// Takes the job that creates the draft evals; the result is the job to
    /// watch. The groups are no longer selected.
    pub fn finish_create_batch(&mut self, answer: Result<CandidateGenerationJobV1, String>) -> (watch:
        Option<String>)
        requires
            old(self).wf(),
        ensures
            final(self).wf(),
            match answer {
                Ok(job) => {
                    &&& *final(self) == (FailureInbox {
                        eval: EvalBatch { loading: false, job: Some(job), ..old(self).eval },
                        selection: final(self).selection,
                        ..*old(self)
                    })
                    &&& final(self).selection@ == (super::selection::SelectionState {
                        selected: Set::empty(),
                        ..old(self).selection@
                    })
                    &&& watch == Some(job.job_id)
                },
                Err(error) => {
                    &&& *final(self) == (FailureInbox {
                        eval: EvalBatch { loading: false, ..old(self).eval },
                        load_error: Some(error),
                        ..*old(self)
                    })
                    &&& watch is None
                },
            },
    {
        self.eval.loading = false;
        match answer {
            Ok(job) => {
                let job_id = job.job_id.clone();
                self.eval.job = Some(job);
                self.selection.selected.clear();
                Some(job_id)
            },
            Err(error) => {
                self.load_error = Some(error);
                None
            },
        }
    }

    /// Takes how far a job is; the result is the job to watch on.
    pub fn finish_poll(
        &mut self,
        job_id: String,
        answer: Result<Option<CandidateGenerationJobV1>, String>,
    ) -> (watch: Option<String>)
        ensures
            match answer {
                Ok(Some(job)) => {
                    &&& *final(self) == (FailureInbox {
                        eval: EvalBatch { job: Some(job), ..old(self).eval },
                        ..*old(self)
                    })
                    &&& watch == (if job.status.running() {
                        Some(job_id)
                    } else {
                        None
                    })
                },
                Ok(None) => {
                    &&& *final(self) == (FailureInbox {
                        load_error: final(self).load_error,
                        ..*old(self)
                    })
                    &&& optional_text(final(self).load_error) == Some(
                        "Candidate generation job disappeared."@,
                    )
                    &&& watch is None
                },
                Err(error) => {
                    &&& *final(self) == (FailureInbox { load_error: Some(error), ..*old(self) })
                    &&& watch is None
                },
            },
    {
        match answer {
            Ok(Some(job)) => {
                let running = job.status.is_running();
                self.eval.job = Some(job);
                if running {
                    Some(job_id)
                } else {
                    None
                }
            },
            Ok(None) => {
                self.load_error = Some("Candidate generation job disappeared.".to_owned());
                None
            },
            Err(error) => {
                self.load_error = Some(error);
                None
            },
        }
    }

    /// Cancels the job while it is at work, or else closes the preview; the
    /// result is the job to cancel.
    pub fn cancel_generation_job(&mut self) -> (cancel: Option<String>)
        requires
            old(self).wf(),
        ensures
            final(self).wf(),
            match old(self).eval.job {
                Some(job) => if job.status.running() {
                    *final(self) == *old(self) && cancel == Some(job.job_id)
                } else {
                    closed(*old(self), *final(self)) && cancel is None
                },
                None => closed(*old(self), *final(self)) && cancel is None,
            },
    {
        let running = match &self.eval.job {
            Some(job) => if job.status.is_running() {
                Some(job.job_id.clone())
            } else {
                None
            },
            None => None,
        };
        if running.is_none() {
            self.close_eval_batch_preview();
        }
        running
    }

    /// Takes a job that was cancelled.
    pub fn finish_cancel(&mut self, answer: Result<CandidateGenerationJobV1, String>)
        ensures
            *final(self) == (match answer {
                Ok(job) => FailureInbox {
                    eval: EvalBatch { job: Some(job), ..old(self).eval },
                    ..*old(self)
                },
                Err(error) => FailureInbox { load_error: Some(error), ..*old(self) },
            }),
    {
        match answer {
            Ok(job) => {
                self.eval.job = Some(job);
            },
            Err(error) => {
                self.load_error = Some(error);
            },
        }
    }

    /// The job to try again.
    pub fn retry_generation_job(&self) -> (job_id: Option<String>)
        ensures
            job_id == (match self.eval.job {
                Some(job) => Some(job.job_id),
                None => None,
            }),
    {
        match &self.eval.job {
            Some(job) => Some(job.job_id.clone()),
            None => None,
        }
    }

    /// Takes a job that is tried again; the result is the job to watch.
    pub fn finish_retry(&mut self, answer: Result<CandidateGenerationJobV1, String>) -> (watch:
        Option<String>)
        ensures
            match answer {
                Ok(job) => {
                    &&& *final(self) == (FailureInbox {
                        eval: EvalBatch { job: Some(job), ..old(self).eval },
                        ..*old(self)
                    })
                    &&& watch == Some(job.job_id)
                },
                Err(error) => {
                    &&& *final(self) == (FailureInbox { load_error: Some(error), ..*old(self) })
                    &&& watch is None
                },
            },
    {
        match answer {
            Ok(job) => {
                let job_id = job.job_id.clone();
                self.eval.job = Some(job);
                Some(job_id)
            },
            Err(error) => {
                self.load_error = Some(error);
                None
            },
        }
    }

    /// Closes the preview of draft evals.
    pub fn close_eval_batch_preview(&mut self)
        requires
            old(self).wf(),
        ensures
            final(self).wf(),
            closed(*old(self), *final(self)),
    {
        self.eval.preview = None;
        self.eval.expanded_group_ids.clear();
        self.eval.job = None;
    }

    /// Opens the queue of draft evals.
    pub fn open_eval_queue(&self) -> (event: FailureInboxEvent)
        ensures
            event == FailureInboxEvent::OpenEvalQueue,
    {
        FailureInboxEvent::OpenEvalQueue
    }

    /// Opens or closes a group of the preview.
    pub fn toggle_eval_preview_group(&mut self, group_id: String)
        requires
            old(self).wf(),
        ensures
            final(self).wf(),
            *final(self) == (FailureInbox {
                eval: EvalBatch {
                    expanded_group_ids: final(self).eval.expanded_group_ids,
                    ..old(self).eval
                },
                ..*old(self)
            }),
            final(self).eval.expanded_group_ids@ == (if old(self).eval.expanded_group_ids@.contains(
                group_id@,
            ) {
                old(self).eval.expanded_group_ids@.remove(group_id@)
            } else {
                old(self).eval.expanded_group_ids@.insert(group_id@)
            }),
    {
        if !self.eval.expanded_group_ids.remove(&group_id) {
            self.eval.expanded_group_ids.insert(group_id);
        }
    }
}

/// What asking for a preview does: without a project, or without groups in a
/// persisted one, it says so, and else the preview starts empty.
pub open spec fn previewed(
    before: FailureInbox,
    after: FailureInbox,
    unassigned_project_id: Seq<char>,
    no_groups: bool,
    request: Option<BatchPreviewRequest>,
) -> bool {
    if !inspector::can_generate(before.filters.scope, unassigned_project_id) || no_groups {
        &&& after == (FailureInbox { load_error: after.load_error, ..before })
        &&& optional_text(after.load_error) == Some(
            if before.filters.scope.criteria.project_id is None {
                choose_a_project()
            } else {
                choose_groups()
            },
        )
        &&& request is None
    } else {
        &&& after == (FailureInbox { eval: after.eval, load_error: None, ..before })
        &&& after.eval == (EvalBatch {
            candidate: before.eval.candidate,
            preview: None,
            expanded_group_ids: after.eval.expanded_group_ids,
            job: None,
            loading: true,
        })
        &&& after.eval.expanded_group_ids@ == Set::<Seq<char>>::empty()
        &&& match request {
            Some(request) => {
                &&& Some(request.project_id) == before.filters.scope.criteria.project_id
                &&& request.scope == before.filters.scope
            },
            None => false,
        }
    }
}

/// What closing the preview does.
pub open spec fn closed(before: FailureInbox, after: FailureInbox) -> bool {
    &&& after == (FailureInbox { eval: after.eval, ..before })
    &&& after.eval == (EvalBatch {
        preview: None,
        expanded_group_ids: after.eval.expanded_group_ids,
        job: None,
        ..before.eval
    })
    &&& after.eval.expanded_group_ids@ == Set::<Seq<char>>::empty()
}

/// A job is at work, left something to do, or is complete.
pub proof fn job_states_are_exclusive(status: CandidateGenerationJobStatusV1)
    ensures
        !(status.running() && status.retryable()),
        !status.running() && !status.retryable() ==> status
            == CandidateGenerationJobStatusV1::Completed,
{
}

/// The states of a job are named, and tell whether it runs and whether it can
/// be tried again.
pub proof fn job_states_tell_what_follows()
    ensures
        CandidateGenerationJobStatusV1::Queued.name() == "Queued"@,
        CandidateGenerationJobStatusV1::Running.name() == "Running"@,
        CandidateGenerationJobStatusV1::Completed.name() == "Completed"@,
        CandidateGenerationJobStatusV1::PartialSuccess.name() == "PartialSuccess"@,
        CandidateGenerationJobStatusV1::Failed.name() == "Failed"@,
        CandidateGenerationJobStatusV1::Cancelled.name() == "Cancelled"@,
        CandidateGenerationJobStatusV1::Queued.running(),
        CandidateGenerationJobStatusV1::Running.running(),
        !CandidateGenerationJobStatusV1::Completed.running(),
        !CandidateGenerationJobStatusV1::PartialSuccess.running(),
        !CandidateGenerationJobStatusV1::Failed.running(),
        !CandidateGenerationJobStatusV1::Cancelled.running(),
        !CandidateGenerationJobStatusV1::Completed.retryable(),
        CandidateGenerationJobStatusV1::PartialSuccess.retryable(),
        CandidateGenerationJobStatusV1::Failed.retryable(),
        CandidateGenerationJobStatusV1::Cancelled.retryable(),
        POLL_MILLISECONDS == 100,
{
}

/// A batch is previewed for groups of one assigned project; otherwise nothing
/// is asked for, and the reason is said.
pub proof fn batches_are_of_one_project(
    before: FailureInbox,
    after: FailureInbox,
    unassigned_project_id: Seq<char>,
    no_groups: bool,
    request: Option<BatchPreviewRequest>,
)
    requires
        previewed(before, after, unassigned_project_id, no_groups, request),
    ensures
        request is Some <==> !no_groups && before.filters.scope.criteria.project_id is Some
            && before.filters.scope.criteria.project_id->0@ != unassigned_project_id,
        request is Some ==> {
            &&& request->0.project_id == before.filters.scope.criteria.project_id->0
            &&& request->0.scope == before.filters.scope
            &&& after.eval.loading && after.eval.preview is None && after.eval.job is None
            &&& after.eval.expanded_group_ids@ == Set::<Seq<char>>::empty()
            &&& after.load_error is None
        },
        request is None ==> after.eval == before.eval && after.load_error is Some,
        before.filters.scope.criteria.project_id is None ==> after.load_error->0@
            == "Choose one project before generating eval candidates; All Projects is read-only."@,
        request is None && before.filters.scope.criteria.project_id is Some
            ==> after.load_error->0@
            == "Choose one or more groups in a persisted project before generating eval candidates."@,
        after.selection == before.selection,
        after.list == before.list,
{
}

/// Closing a batch drops its preview and job and nothing else.
pub proof fn closed_batches_leave_the_inbox(before: FailureInbox, after: FailureInbox)
    requires
        closed(before, after),
    ensures
        after.eval.preview is None,
        after.eval.job is None,
        after.eval.expanded_group_ids@ == Set::<Seq<char>>::empty(),
        after.eval.candidate == before.eval.candidate,
        after.eval.loading == before.eval.loading,
        after.selection == before.selection,
        after.list == before.list,
        after.load_error == before.load_error,
{
}

} // verus!
