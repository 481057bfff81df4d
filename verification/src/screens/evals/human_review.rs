//! Human answers about traces: blind for calibration, or in plain sight.

use crate::components::text_input::{TextInput, TextState};
use crate::design::tokens::Theme;
use crate::offsets::{self, leading_bytes_of};
use crate::screens::failure_inbox::model::{copy_optional, optional_text, same_optional};
use crate::screens::failure_inbox::state::{self, following_request};
use crate::text::{
    self, append_decimal, append_wide_decimal, concat2, concat3, concat4, contains_part,
    contains_text, copy_texts, decimal_text, find_text, length_text, parse_number, replace_char,
    same_text, strip_prefix, trim,
};
use vstd::prelude::*;
use vstd::string::*;

verus! {

/// How many places of the evidence are offered.
pub const EVIDENCE_LIMIT: usize = 40;

/// How many bytes an explanation may have.
pub const EXPLANATION_BYTES: usize = 4_096;

/// Whether the automated answer is sealed until a human one is given.
#[derive(Debug, Clone, Copy, PartialEq, Eq, Structural)]
pub enum ReviewModeV1 {
    BlindCalibration,
    VisibleTriage,
}

/// How far a case is.
#[derive(Debug, Clone, Copy, PartialEq, Eq, Structural)]
pub enum ReviewTaskStatusV1 {
    Pending,
    InReview,
    AwaitingAdjudication,
    Completed,
    Cancelled,
}

/// Why a case was chosen.
#[derive(Debug, Clone, Copy, PartialEq, Eq, Structural)]
pub enum ReviewSelectionReasonV1 {
    RandomAudit,
    ActiveLearning,
    Manual,
}

/// What a case is used for.
#[derive(Debug, Clone, Copy, PartialEq, Eq, Structural)]
pub enum CalibrationDataSplitV1 {
    Train,
    Calibration,
    Test,
}

/// A human answer.
#[derive(Debug, Clone, Copy, PartialEq, Eq, Structural)]
pub enum AnnotationLabelV1 {
    Completed,
    Partial,
    Failed,
    Abstain,
}

impl AnnotationLabelV1 {
    /// The name of the answer.
    pub open spec fn name(self) -> Seq<char> {
        match self {
            AnnotationLabelV1::Completed => "Completed"@,
            AnnotationLabelV1::Partial => "Partial"@,
            AnnotationLabelV1::Failed => "Failed"@,
            AnnotationLabelV1::Abstain => "Abstain"@,
        }
    }
}

/// The name of an answer.
pub fn label_name(label: AnnotationLabelV1) -> (name: &'static str)
    ensures
        name@ == label.name(),
{
    match label {
        AnnotationLabelV1::Completed => "Completed",
        AnnotationLabelV1::Partial => "Partial",
        AnnotationLabelV1::Failed => "Failed",
        AnnotationLabelV1::Abstain => "Abstain",
    }
}

/// The place of an answer among the answers.
pub fn label_ordinal(label: AnnotationLabelV1) -> (ordinal: u32)
    ensures
        all_labels()[ordinal as int] == label,
        ordinal < all_labels().len(),
{
    match label {
        AnnotationLabelV1::Completed => 0,
        AnnotationLabelV1::Partial => 1,
        AnnotationLabelV1::Failed => 2,
        AnnotationLabelV1::Abstain => 3,
    }
}

/// The answers to choose from.
pub open spec fn all_labels() -> Seq<AnnotationLabelV1> {
    seq![
        AnnotationLabelV1::Completed,
        AnnotationLabelV1::Partial,
        AnnotationLabelV1::Failed,
        AnnotationLabelV1::Abstain,
    ]
}

impl ReviewTaskStatusV1 {
    /// What the status is shown as, and its tint.
    pub open spec fn mark(self) -> (Seq<char>, u32) {
        match self {
            ReviewTaskStatusV1::Pending => ("PENDING"@, Theme::DIM),
            ReviewTaskStatusV1::InReview => ("IN REVIEW"@, Theme::AMBER),
            ReviewTaskStatusV1::AwaitingAdjudication => ("ADJUDICATE"@, Theme::RED),
            ReviewTaskStatusV1::Completed => ("COMPLETE"@, Theme::GREEN),
            ReviewTaskStatusV1::Cancelled => ("CANCELLED"@, Theme::MUTED),
        }
    }
}

/// What a status is shown as.
pub fn status_label(status: ReviewTaskStatusV1) -> (label: &'static str)
    ensures
        label@ == status.mark().0,
{
    match status {
        ReviewTaskStatusV1::Pending => "PENDING",
        ReviewTaskStatusV1::InReview => "IN REVIEW",
        ReviewTaskStatusV1::AwaitingAdjudication => "ADJUDICATE",
        ReviewTaskStatusV1::Completed => "COMPLETE",
        ReviewTaskStatusV1::Cancelled => "CANCELLED",
    }
}

/// The tint of a status.
pub fn status_tint(status: ReviewTaskStatusV1) -> (tint: u32)
    ensures
        tint == status.mark().1,
{
    match status {
        ReviewTaskStatusV1::Pending => Theme::DIM,
        ReviewTaskStatusV1::InReview => Theme::AMBER,
        ReviewTaskStatusV1::AwaitingAdjudication => Theme::RED,
        ReviewTaskStatusV1::Completed => Theme::GREEN,
        ReviewTaskStatusV1::Cancelled => Theme::MUTED,
    }
}

/// A case to review.
#[derive(Debug)]
pub struct ReviewTaskV1 {
    pub task_id: String,
    pub project_id: String,
    pub logical_trace_id: String,
    pub revision: u64,
    pub status: ReviewTaskStatusV1,
    pub selection_reason: ReviewSelectionReasonV1,
    pub split: CalibrationDataSplitV1,
    pub required_reviewers: u64,
}

/// Why a case was chosen, in words.
pub open spec fn selection_text(reason: ReviewSelectionReasonV1) -> Seq<char> {
    match reason {
        ReviewSelectionReasonV1::RandomAudit => "random audit"@,
        ReviewSelectionReasonV1::ActiveLearning => "active selection"@,
        ReviewSelectionReasonV1::Manual => "manual"@,
    }
}

/// Why a case was chosen, in words.
pub fn selection_label(task: &ReviewTaskV1) -> (label: &'static str)
    ensures
        label@ == selection_text(task.selection_reason),
{
    match task.selection_reason {
        ReviewSelectionReasonV1::RandomAudit => "random audit",
        ReviewSelectionReasonV1::ActiveLearning => "active selection",
        ReviewSelectionReasonV1::Manual => "manual",
    }
}

/// What a case is used for, in words.
pub open spec fn split_text(split: CalibrationDataSplitV1) -> Seq<char> {
    match split {
        CalibrationDataSplitV1::Train => "fit"@,
        CalibrationDataSplitV1::Calibration => "calibration"@,
        CalibrationDataSplitV1::Test => "held-out test"@,
    }
}

/// What a case is used for, in words.
pub fn split_label(task: &ReviewTaskV1) -> (label: &'static str)
    ensures
        label@ == split_text(task.split),
{
    match task.split {
        CalibrationDataSplitV1::Train => "fit",
        CalibrationDataSplitV1::Calibration => "calibration",
        CalibrationDataSplitV1::Test => "held-out test",
    }
}

/// The start of an identity.
pub open spec fn short(value: Seq<char>) -> Seq<char> {
    offsets::leading_bytes(value, 12)
}

/// The start of an identity.
pub fn short_id(value: &str) -> (head: &str)
    ensures
        head@ == short(value@),
{
    leading_bytes_of(value, 12)
}

/// How answers are to be given.
#[derive(Debug)]
pub struct AnnotationSchemaReleaseV1 {
    pub instructions: String,
    pub positive_class: String,
    pub schema_version: String,
}

/// A human answer as it was given.
#[derive(Debug)]
pub struct AnnotationRevisionV1 {
    pub revision_id: String,
    pub annotation_revision: u64,
    pub reviewer_id: String,
    pub label: AnnotationLabelV1,
    pub explanation: String,
    pub evidence_keys: Vec<String>,
}

/// What the learned evaluator said.
#[derive(Debug)]
pub struct EvaluationOutput {
    pub label: Option<String>,
    /// The raw score with three decimal places, where there is one.
    pub score: Option<String>,
}

/// What the automated assessment came to.
#[derive(Debug)]
pub struct AssessmentOutput {
    pub status: String,
    pub evaluation: Option<EvaluationOutput>,
}

/// What a rater sees of a case.
#[derive(Debug)]
pub struct ReviewTaskPresentationV1 {
    pub evidence_keys: Vec<String>,
    pub annotation_schema: AnnotationSchemaReleaseV1,
    pub latest_annotation: Option<AnnotationRevisionV1>,
    /// The automated assessment, once it is revealed.
    pub revealed: Option<AssessmentOutput>,
}

/// A disagreement that was resolved.
#[derive(Debug)]
pub struct AdjudicationRevision {
    pub revision_id: String,
    pub adjudication_revision: u64,
}

/// A disagreement to resolve.
#[derive(Debug)]
pub struct ReviewAdjudicationPacketV1 {
    pub evidence_keys: Vec<String>,
    pub annotation_schema: AnnotationSchemaReleaseV1,
    pub annotation_revisions: Vec<AnnotationRevisionV1>,
    pub latest_adjudication: Option<AdjudicationRevision>,
}

/// What the screen tells the workbench.
#[derive(Debug)]
pub enum HumanReviewEvent {
    SourceTrace {
        project_id: String,
        logical_trace_id: String,
        revision: u64,
        selected_span_id: Option<String>,
    },
}

/// A request for the cases of a project.
#[derive(Debug)]
pub struct TaskListRequest {
    pub generation: u64,
    pub project_id: String,
    pub mode: ReviewModeV1,
}

/// What to load of a case.
#[derive(Debug)]
pub enum TaskLoad {
    Adjudication { task_id: String },
    Presentation { task_id: String, report_unassigned: bool },
}

/// An answer to submit, or a disagreement to resolve.
#[derive(Debug)]
pub struct Submission {
    pub task_id: String,
    pub expected_head: Option<String>,
    pub label: AnnotationLabelV1,
    pub explanation: String,
    pub evidence: Vec<String>,
    /// The answers that are adjudicated, where a disagreement is resolved.
    pub adjudicates: Option<Vec<String>>,
}

/// The screen on which humans answer.
pub struct HumanReviewScreen {
    pub project_id: Option<String>,
    pub mode: ReviewModeV1,
    pub tasks: Vec<ReviewTaskV1>,
    pub selected_task_id: Option<String>,
    pub blind_selected_task_id: Option<String>,
    pub visible_selected_task_id: Option<String>,
    pub presentation: Option<ReviewTaskPresentationV1>,
    pub adjudication: Option<ReviewAdjudicationPacketV1>,
    pub label: Option<AnnotationLabelV1>,
    pub evidence_keys: Vec<String>,
    pub explanation: TextInput,
    pub busy: bool,
    pub error: Option<String>,
    pub notice: Option<String>,
    pub request_generation: u64,
}

/// The first place of a case.
pub open spec fn place_of_task(tasks: Seq<ReviewTaskV1>, task_id: Seq<char>) -> Option<int>
    decreases tasks.len(),
{
    if tasks.len() == 0 {
        None
    } else if tasks[0].task_id@ == task_id {
        Some(0)
    } else {
        match place_of_task(tasks.drop_first(), task_id) {
            Some(place) => Some(place + 1),
            None => None,
        }
    }
}

fn find_task(tasks: &Vec<ReviewTaskV1>, task_id: &String) -> (found: Option<usize>)
    ensures
        match found {
            Some(place) => place < tasks@.len() && place_of_task(tasks@, task_id@) == Some(
                place as int,
            ),
            None => place_of_task(tasks@, task_id@) is None,
        },
{
    let mut index: usize = 0;
    assert(tasks@.skip(0) =~= tasks@);
    while index < tasks.len()
        invariant
            index <= tasks@.len(),
            place_of_task(tasks@, task_id@) == (match place_of_task(
                tasks@.skip(index as int),
                task_id@,
            ) {
                Some(place) => Some(place + index),
                None => None,
            }),
        decreases tasks@.len() - index,
    {
        proof {
            assert(tasks@.skip(index as int)[0] == tasks@[index as int]);
            assert(tasks@.skip(index as int).drop_first() =~= tasks@.skip(index + 1));
        }
        if tasks[index].task_id == *task_id {
            return Some(index);
        }
        index += 1;
    }
    None
}

/// What selecting a case does: nothing of an earlier case stays, and the
/// case is loaded.
pub open spec fn selects(
    before: HumanReviewScreen,
    after: HumanReviewScreen,
    index: int,
    load: Option<TaskLoad>,
) -> bool {
    if 0 <= index < before.tasks@.len() {
        let task = before.tasks@[index];
        let blind = before.mode == ReviewModeV1::BlindCalibration;
        &&& after == (HumanReviewScreen {
            selected_task_id: Some(task.task_id),
            blind_selected_task_id: if blind {
                Some(task.task_id)
            } else {
                before.blind_selected_task_id
            },
            visible_selected_task_id: if blind {
                before.visible_selected_task_id
            } else {
                Some(task.task_id)
            },
            presentation: None,
            adjudication: None,
            label: None,
            evidence_keys: after.evidence_keys,
            explanation: after.explanation,
            notice: None,
            error: None,
            busy: true,
            ..before
        })
        &&& after.evidence_keys@.len() == 0
        &&& after.explanation.retyped(before.explanation, Seq::empty())
        &&& load == Some(
            if task.status == ReviewTaskStatusV1::AwaitingAdjudication {
                TaskLoad::Adjudication { task_id: task.task_id }
            } else {
                TaskLoad::Presentation { task_id: task.task_id, report_unassigned: false }
            },
        )
    } else {
        after == before && load is None
    }
}

/// What asking for the cases does: without a project there are none.
pub open spec fn reloads(
    before: HumanReviewScreen,
    after: HumanReviewScreen,
    request: Option<TaskListRequest>,
) -> bool {
    match before.project_id {
        Some(project_id) => {
            &&& after == (HumanReviewScreen {
                request_generation: state::next_request(before.request_generation),
                error: None,
                busy: true,
                ..before
            })
            &&& request == Some(
                TaskListRequest {
                    generation: state::next_request(before.request_generation),
                    project_id,
                    mode: before.mode,
                },
            )
        },
        None => {
            &&& after == (HumanReviewScreen {
                request_generation: state::next_request(before.request_generation),
                error: None,
                tasks: after.tasks,
                ..before
            })
            &&& after.tasks@.len() == 0
            &&& request is None
        },
    }
}

/// The latest answer that a rater gave.
pub open spec fn latest_answer(presentation: Option<ReviewTaskPresentationV1>) -> Option<
    AnnotationRevisionV1,
> {
    match presentation {
        Some(presentation) => presentation.latest_annotation,
        None => None,
    }
}

/// The revision that a submission follows.
pub open spec fn expected_head(screen: HumanReviewScreen) -> Option<String> {
    let adjudicated = match screen.adjudication {
        Some(packet) => match packet.latest_adjudication {
            Some(adjudication) => Some(adjudication.revision_id),
            None => None,
        },
        None => None,
    };
    match adjudicated {
        Some(revision_id) => Some(revision_id),
        None => match latest_answer(screen.presentation) {
            Some(annotation) => Some(annotation.revision_id),
            None => None,
        },
    }
}

fn expected_head_of(screen: &HumanReviewScreen) -> (head: Option<String>)
    ensures
        head == expected_head(*screen),
{
    if let Some(packet) = &screen.adjudication {
        if let Some(adjudication) = &packet.latest_adjudication {
            return Some(adjudication.revision_id.clone());
        }
    }
    match &screen.presentation {
        Some(presentation) => match &presentation.latest_annotation {
            Some(annotation) => Some(annotation.revision_id.clone()),
            None => None,
        },
        None => None,
    }
}

/// The revisions of some answers.
pub open spec fn revision_ids(annotations: Seq<AnnotationRevisionV1>) -> Seq<String> {
    annotations.map_values(|annotation: AnnotationRevisionV1| annotation.revision_id)
}

fn revision_ids_of(annotations: &Vec<AnnotationRevisionV1>) -> (ids: Vec<String>)
    ensures
        ids@ == revision_ids(annotations@),
{
    let mut ids: Vec<String> = Vec::new();
    let mut index: usize = 0;
    while index < annotations.len()
        invariant
            index <= annotations@.len(),
            ids@ == revision_ids(annotations@.take(index as int)),
        decreases annotations@.len() - index,
    {
        ids.push(annotations[index].revision_id.clone());
        index += 1;
        assert(ids@ =~= revision_ids(annotations@.take(index as int)));
    }
    assert(annotations@.take(index as int) =~= annotations@);
    ids
}

impl HumanReviewScreen {
    /// A screen that has not loaded anything yet.
    pub fn new(project_id: Option<String>) -> (screen: Self)
        ensures
            screen.project_id == project_id,
            screen.mode == ReviewModeV1::BlindCalibration,
            screen.tasks@.len() == 0,
            screen.selected_task_id is None,
            screen.blind_selected_task_id is None,
            screen.visible_selected_task_id is None,
            screen.presentation is None,
            screen.adjudication is None,
            screen.label is None,
            screen.evidence_keys@.len() == 0,
            screen.explanation@ == TextState::blank(EXPLANATION_BYTES as nat),
            screen.explanation.placeholder_text() == "Why is this the correct answer?"@,
            !screen.busy,
            screen.error is None,
            screen.notice is None,
            screen.request_generation == 0,
    {
        HumanReviewScreen {
            project_id,
            mode: ReviewModeV1::BlindCalibration,
            tasks: Vec::new(),
            selected_task_id: None,
            blind_selected_task_id: None,
            visible_selected_task_id: None,
            presentation: None,
            adjudication: None,
            label: None,
            evidence_keys: Vec::new(),
            explanation: TextInput::new(
                "Why is this the correct answer?".to_owned(),
                EXPLANATION_BYTES,
            ),
            busy: false,
            error: None,
            notice: None,
            request_generation: 0,
        }
    }

    /// Asks for the cases.
    pub fn reload(&mut self) -> (request: Option<TaskListRequest>)
        ensures
            reloads(*old(self), *final(self), request),
    {
        self.request_generation = following_request(self.request_generation);
        self.error = None;
        let project_id = match &self.project_id {
            Some(project_id) => project_id.clone(),
            None => {
                self.tasks = Vec::new();
                return None;
            },
        };
        self.busy = true;
        Some(
            TaskListRequest { generation: self.request_generation, project_id, mode: self.mode },
        )
    }

    /// Shows the cases of another project.
    pub fn set_project_scope(&mut self, project_id: Option<String>) -> (request: Option<
        TaskListRequest,
    >)
        ensures
            optional_text(old(self).project_id) == optional_text(project_id) ==> *final(self)
                == *old(self) && request is None,
            optional_text(old(self).project_id) != optional_text(project_id) ==> reloads(
                HumanReviewScreen {
                    project_id,
                    selected_task_id: None,
                    blind_selected_task_id: None,
                    visible_selected_task_id: None,
                    presentation: None,
                    adjudication: None,
                    ..*old(self)
                },
                *final(self),
                request,
            ),
    {
        if same_optional(&self.project_id, &project_id) {
            return None;
        }
        self.project_id = project_id;
        self.selected_task_id = None;
        self.blind_selected_task_id = None;
        self.visible_selected_task_id = None;
        self.presentation = None;
        self.adjudication = None;
        self.reload()
    }

    /// The state in another mode: each mode remembers its own case.
    pub open spec fn in_mode(self, mode: ReviewModeV1) -> HumanReviewScreen {
        let blind = if self.mode == ReviewModeV1::BlindCalibration {
            self.selected_task_id
        } else {
            self.blind_selected_task_id
        };
        let visible = if self.mode == ReviewModeV1::BlindCalibration {
            self.visible_selected_task_id
        } else {
            self.selected_task_id
        };
        HumanReviewScreen {
            mode,
            blind_selected_task_id: blind,
            visible_selected_task_id: visible,
            selected_task_id: match mode {
                ReviewModeV1::BlindCalibration => blind,
                ReviewModeV1::VisibleTriage => visible,
            },
            presentation: None,
            adjudication: None,
            ..self
        }
    }

    /// Shows the cases of another mode.
    pub fn set_mode(&mut self, mode: ReviewModeV1) -> (request: Option<TaskListRequest>)
        ensures
            old(self).mode == mode ==> *final(self) == *old(self) && request is None,
            old(self).mode != mode ==> reloads(old(self).in_mode(mode), *final(self), request),
    {
        if self.mode == mode {
            return None;
        }
        match self.mode {
            ReviewModeV1::BlindCalibration => {
                self.blind_selected_task_id = copy_optional(&self.selected_task_id);
            },
            ReviewModeV1::VisibleTriage => {
                self.visible_selected_task_id = copy_optional(&self.selected_task_id);
            },
        }
        self.mode = mode;
        self.selected_task_id =
        match mode {
            ReviewModeV1::BlindCalibration => copy_optional(&self.blind_selected_task_id),
            ReviewModeV1::VisibleTriage => copy_optional(&self.visible_selected_task_id),
        };
        self.presentation = None;
        self.adjudication = None;
        self.reload()
    }

    /// Takes the cases, and goes on with the selected one where it is still
    /// there. An answer to an earlier request changes nothing.
    pub fn finish_reload(&mut self, generation: u64, answer: Result<Vec<ReviewTaskV1>, String>) -> (load:
        Option<TaskLoad>)
        ensures
            generation != old(self).request_generation ==> *final(self) == *old(self) && load
                is None,
            generation == old(self).request_generation ==> match answer {
                Ok(tasks) => {
                    let loaded = HumanReviewScreen { busy: false, tasks, ..*old(self) };
                    let place = match old(self).selected_task_id {
                        Some(task_id) => place_of_task(tasks@, task_id@),
                        None => None,
                    };
                    match place {
                        Some(place) => selects(loaded, *final(self), place, load),
                        None => {
                            &&& *final(self) == (HumanReviewScreen {
                                selected_task_id: None,
                                ..loaded
                            })
                            &&& load is None
                        },
                    }
                },
                Err(error) => {
                    &&& *final(self) == (HumanReviewScreen {
                        busy: false,
                        error: Some(error),
                        ..*old(self)
                    })
                    &&& load is None
                },
            },
    {
        if generation != self.request_generation {
            return None;
        }
        self.busy = false;
        match answer {
            Ok(tasks) => {
                self.tasks = tasks;
                let place = match &self.selected_task_id {
                    Some(task_id) => find_task(&self.tasks, task_id),
                    None => None,
                };
                match place {
                    Some(place) => self.select_task(place),
                    None => {
                        self.selected_task_id = None;
                        None
                    },
                }
            },
            Err(error) => {
                self.error = Some(error);
                None
            },
        }
    }

    /// Selects a case.
    pub fn select_task(&mut self, index: usize) -> (load: Option<TaskLoad>)
        ensures
            selects(*old(self), *final(self), index as int, load),
    {
        if index >= self.tasks.len() {
            return None;
        }
        let task_id = self.tasks[index].task_id.clone();
        let adjudicating = self.tasks[index].status == ReviewTaskStatusV1::AwaitingAdjudication;
        self.selected_task_id = Some(task_id.clone());
        match self.mode {
            ReviewModeV1::BlindCalibration => {
                self.blind_selected_task_id = Some(task_id.clone());
            },
            ReviewModeV1::VisibleTriage => {
                self.visible_selected_task_id = Some(task_id.clone());
            },
        }
        self.presentation = None;
        self.adjudication = None;
        self.label = None;
        self.evidence_keys = Vec::new();
        self.notice = None;
        self.error = None;
        proof {
            reveal_strlit("");
            assert(""@ =~= Seq::<char>::empty());
        }
        self.explanation.set_text("");
        if adjudicating {
            self.load_adjudication()
        } else {
            self.load_presentation(false)
        }
    }

    /// Asks for the disagreement about the selected case.
    pub fn load_adjudication(&mut self) -> (load: Option<TaskLoad>)
        ensures
            match old(self).selected_task_id {
                Some(task_id) => {
                    &&& *final(self) == (HumanReviewScreen { busy: true, ..*old(self) })
                    &&& load == Some(TaskLoad::Adjudication { task_id })
                },
                None => *final(self) == *old(self) && load is None,
            },
    {
        let task_id = match &self.selected_task_id {
            Some(task_id) => task_id.clone(),
            None => {
                return None;
            },
        };
        self.busy = true;
        Some(TaskLoad::Adjudication { task_id })
    }

    /// Asks for what the rater sees of the selected case.
    pub fn load_presentation(&mut self, report_unassigned: bool) -> (load: Option<TaskLoad>)
        ensures
            match old(self).selected_task_id {
                Some(task_id) => {
                    &&& *final(self) == (HumanReviewScreen { busy: true, ..*old(self) })
                    &&& load == Some(TaskLoad::Presentation { task_id, report_unassigned })
                },
                None => *final(self) == *old(self) && load is None,
            },
    {
        let task_id = match &self.selected_task_id {
            Some(task_id) => task_id.clone(),
            None => {
                return None;
            },
        };
        self.busy = true;
        Some(TaskLoad::Presentation { task_id, report_unassigned })
    }

    /// Whether a case is the selected one.
    pub fn is_selected(&self, task_id: &str) -> (selected: bool)
        ensures
            selected == (optional_text(self.selected_task_id) == Some(task_id@)),
    {
        match &self.selected_task_id {
            Some(selected) => same_text(selected.as_str(), task_id),
            None => false,
        }
    }

    /// Takes a disagreement. An answer about another case changes nothing.
    pub fn finish_adjudication(
        &mut self,
        task_id: &str,
        answer: Result<ReviewAdjudicationPacketV1, String>,
    )
        ensures
            *final(self) == (if optional_text(old(self).selected_task_id) != Some(task_id@) {
                *old(self)
            } else {
                match answer {
                    Ok(packet) => HumanReviewScreen {
                        busy: false,
                        adjudication: Some(packet),
                        ..*old(self)
                    },
                    Err(error) => HumanReviewScreen {
                        busy: false,
                        error: Some(error),
                        ..*old(self)
                    },
                }
            }),
    {
        if !self.is_selected(task_id) {
            return;
        }
        self.busy = false;
        match answer {
            Ok(packet) => {
                self.adjudication = Some(packet);
            },
            Err(error) => {
                self.error = Some(error);
            },
        }
    }

    /// Takes what the rater sees of a case, with the answer that was given
    /// before. That the case is not claimed yet is reported only where it
    /// should be. An answer about another case changes nothing.
    pub fn finish_presentation(
        &mut self,
        task_id: &str,
        report_unassigned: bool,
        answer: Result<ReviewTaskPresentationV1, String>,
    )
        ensures
            optional_text(old(self).selected_task_id) != Some(task_id@) ==> *final(self) == *old(self),
            optional_text(old(self).selected_task_id) == Some(task_id@) ==> match answer {
                Ok(presentation) => match presentation.latest_annotation {
                    Some(annotation) => {
                        &&& *final(self) == (HumanReviewScreen {
                            busy: false,
                            label: Some(annotation.label),
                            evidence_keys: final(self).evidence_keys,
                            explanation: final(self).explanation,
                            presentation: Some(presentation),
                            notice: None,
                            ..*old(self)
                        })
                        &&& final(self).evidence_keys@ == annotation.evidence_keys@
                        &&& final(self).explanation.retyped(
                            old(self).explanation,
                            annotation.explanation@,
                        )
                    },
                    None => *final(self) == (HumanReviewScreen {
                        busy: false,
                        presentation: Some(presentation),
                        notice: None,
                        ..*old(self)
                    }),
                },
                Err(error) => if !report_unassigned && text::occurs_in(error@, "not assigned"@) {
                    *final(self) == (HumanReviewScreen {
                        busy: false,
                        presentation: None,
                        ..*old(self)
                    })
                } else {
                    *final(self) == (HumanReviewScreen {
                        busy: false,
                        error: Some(error),
                        ..*old(self)
                    })
                },
            },
    {
        if !self.is_selected(task_id) {
            return;
        }
        self.busy = false;
        match answer {
            Ok(presentation) => {
                if let Some(annotation) = &presentation.latest_annotation {
                    self.label = Some(annotation.label);
                    self.evidence_keys = copy_texts(&annotation.evidence_keys);
                    self.explanation.set_text(annotation.explanation.as_str());
                }
                self.presentation = Some(presentation);
                self.notice = None;
            },
            Err(error) => {
                if !report_unassigned && contains_part(error.as_str(), "not assigned") {
                    self.presentation = None;
                } else {
                    self.error = Some(error);
                }
            },
        }
    }

    /// Claims the selected case; the result is the case.
    pub fn claim(&mut self) -> (task_id: Option<String>)
        ensures
            task_id == old(self).selected_task_id,
            *final(self) == (if task_id is Some {
                HumanReviewScreen { busy: true, error: None, ..*old(self) }
            } else {
                *old(self)
            }),
    {
        let task_id = copy_optional(&self.selected_task_id);
        if task_id.is_some() {
            self.busy = true;
            self.error = None;
        }
        task_id
    }

    /// Takes that a case was claimed, and asks for what the rater sees of
    /// it. An answer about another case changes nothing.
    pub fn finish_claim(&mut self, task_id: &str, answer: Result<(), String>) -> (load: Option<
        TaskLoad,
    >)
        ensures
            optional_text(old(self).selected_task_id) != Some(task_id@) ==> *final(self) == *old(self) && load is None,
            optional_text(old(self).selected_task_id) == Some(task_id@) ==> match answer {
                Ok(_) => {
                    &&& *final(self) == (HumanReviewScreen {
                        busy: true,
                        notice: final(self).notice,
                        ..*old(self)
                    })
                    &&& optional_text(final(self).notice) == Some(
                        "Case claimed. The model answer remains sealed until you submit."@,
                    )
                    &&& load == Some(
                        TaskLoad::Presentation {
                            task_id: old(self).selected_task_id->0,
                            report_unassigned: true,
                        },
                    )
                },
                Err(error) => {
                    &&& *final(self) == (HumanReviewScreen {
                        busy: false,
                        error: Some(error),
                        ..*old(self)
                    })
                    &&& load is None
                },
            },
    {
        if !self.is_selected(task_id) {
            return None;
        }
        self.busy = false;
        match answer {
            Ok(_) => {
                self.notice =
                Some(
                    "Case claimed. The model answer remains sealed until you submit.".to_owned(),
                );
                self.load_presentation(true)
            },
            Err(error) => {
                self.error = Some(error);
                None
            },
        }
    }

    /// Asks for a queue of blind cases; the result is the project.
    pub fn create_queue(&mut self) -> (project_id: Option<String>)
        ensures
            project_id == old(self).project_id,
            *final(self) == (if project_id is Some {
                HumanReviewScreen { busy: true, error: None, ..*old(self) }
            } else {
                *old(self)
            }),
    {
        let project_id = copy_optional(&self.project_id);
        if project_id.is_some() {
            self.busy = true;
            self.error = None;
        }
        project_id
    }

    /// Takes how many cases a new queue has, and asks for them.
    pub fn finish_create_queue(&mut self, answer: Result<u64, String>) -> (request: Option<
        TaskListRequest,
    >)
        ensures
            match answer {
                Ok(count) => {
                    let told = HumanReviewScreen {
                        busy: false,
                        notice: final(self).notice,
                        ..*old(self)
                    };
                    &&& reloads(told, *final(self), request)
                    &&& optional_text(final(self).notice) == Some(
                        "Created a group-safe blind queue with "@ + text::decimal(count as nat)
                            + " exact trace revisions."@,
                    )
                },
                Err(error) => {
                    &&& *final(self) == (HumanReviewScreen {
                        busy: false,
                        error: Some(error),
                        ..*old(self)
                    })
                    &&& request is None
                },
            },
    {
        self.busy = false;
        match answer {
            Ok(count) => {
                self.notice =
                Some(
                    concat3(
                        "Created a group-safe blind queue with ",
                        decimal_text(count).as_str(),
                        " exact trace revisions.",
                    ),
                );
                self.reload()
            },
            Err(error) => {
                self.error = Some(error);
                None
            },
        }
    }

    /// Chooses an answer; who abstains cites no evidence.
    pub fn choose_label(&mut self, label: AnnotationLabelV1)
        ensures
            *final(self) == (HumanReviewScreen {
                label: Some(label),
                evidence_keys: final(self).evidence_keys,
                ..*old(self)
            }),
            final(self).evidence_keys@ == (if label == AnnotationLabelV1::Abstain {
                Seq::empty()
            } else {
                old(self).evidence_keys@
            }),
    {
        self.label = Some(label);
        if label == AnnotationLabelV1::Abstain {
            self.evidence_keys = Vec::new();
        }
    }

    /// Cites a place of the evidence, or no longer.
    pub fn toggle_evidence(&mut self, key: &str)
        ensures
            *final(self) == (HumanReviewScreen {
                evidence_keys: final(self).evidence_keys,
                ..*old(self)
            }),
            match text::place_of_text(old(self).evidence_keys@, key@) {
                Some(place) => final(self).evidence_keys@ == old(self).evidence_keys@.remove(
                    place,
                ),
                None => {
                    &&& final(self).evidence_keys@.len() == old(self).evidence_keys@.len() + 1
                    &&& final(self).evidence_keys@.drop_last() == old(self).evidence_keys@
                    &&& final(self).evidence_keys@.last()@ == key@
                },
            },
    {
        match find_text(&self.evidence_keys, key) {
            Some(place) => {
                self.evidence_keys.remove(place);
            },
            None => {
                let ghost before = self.evidence_keys@;
                self.evidence_keys.push(key.to_owned());
                assert(self.evidence_keys@.drop_last() =~= before);
            },
        }
    }

    /// Submits the answer to the selected case, or resolves the disagreement.
    pub fn submit(&mut self) -> (submission: Option<Submission>)
        ensures
            match (old(self).selected_task_id, old(self).label, submission) {
                (Some(task_id), Some(label), Some(submission)) => {
                    &&& *final(self) == (HumanReviewScreen {
                        busy: true,
                        error: None,
                        ..*old(self)
                    })
                    &&& submission.task_id == task_id
                    &&& submission.expected_head == expected_head(*old(self))
                    &&& submission.label == label
                    &&& submission.explanation@ == text::trimmed(old(self).explanation@.text)
                    &&& submission.evidence@ == old(self).evidence_keys@
                    &&& match (old(self).adjudication, submission.adjudicates) {
                        (Some(packet), Some(ids)) => ids@ == revision_ids(
                            packet.annotation_revisions@,
                        ),
                        (None, None) => true,
                        _ => false,
                    }
                },
                (Some(_), Some(_), None) => false,
                (_, _, submission) => *final(self) == *old(self) && submission is None,
            },
    {
        let task_id = match &self.selected_task_id {
            Some(task_id) => task_id.clone(),
            None => {
                return None;
            },
        };
        let label = match self.label {
            Some(label) => label,
            None => {
                return None;
            },
        };
        let expected_head = expected_head_of(&*self);
        let adjudicates = match &self.adjudication {
            Some(packet) => Some(revision_ids_of(&packet.annotation_revisions)),
            None => None,
        };
        let explanation = trim(self.explanation.text());
        let evidence = copy_texts(&self.evidence_keys);
        self.busy = true;
        self.error = None;
        Some(Submission { task_id, expected_head, label, explanation, evidence, adjudicates })
    }

    /// Takes the number of the revision that was saved, and whether it
    /// resolves a disagreement; the cases are asked for again, and so is what
    /// the rater sees of an answered case.
    pub fn finish_submit(&mut self, answer: Result<(u64, bool), String>) -> (next: (
        Option<TaskLoad>,
        Option<TaskListRequest>,
    ))
        ensures
            match answer {
                Ok((revision, adjudicated)) => {
                    let told = HumanReviewScreen {
                        notice: final(self).notice,
                        adjudication: if adjudicated {
                            None
                        } else {
                            old(self).adjudication
                        },
                        selected_task_id: if adjudicated {
                            None
                        } else {
                            old(self).selected_task_id
                        },
                        busy: !adjudicated && old(self).selected_task_id is Some,
                        ..*old(self)
                    };
                    &&& reloads(told, *final(self), next.1)
                    &&& next.0 == (if adjudicated {
                        None
                    } else {
                        match old(self).selected_task_id {
                            Some(task_id) => Some(
                                TaskLoad::Presentation { task_id, report_unassigned: true },
                            ),
                            None => None,
                        }
                    })
                    &&& optional_text(final(self).notice) == Some(
                        if adjudicated {
                            "Disagreement resolved as adjudication revision "@ + text::decimal(
                                revision as nat,
                            ) + ". The judge stayed sealed during the decision."@
                        } else {
                            "Answer saved as annotation revision "@ + text::decimal(
                                revision as nat,
                            ) + ". The original remains immutable."@
                        },
                    )
                },
                Err(error) => {
                    &&& *final(self) == (HumanReviewScreen {
                        busy: false,
                        error: Some(error),
                        ..*old(self)
                    })
                    &&& next.0 is None
                    &&& next.1 is None
                },
            },
    {
        self.busy = false;
        match answer {
            Ok((revision, adjudicated)) => {
                let number = decimal_text(revision);
                self.notice =
                Some(
                    if adjudicated {
                        concat3(
                            "Disagreement resolved as adjudication revision ",
                            number.as_str(),
                            ". The judge stayed sealed during the decision.",
                        )
                    } else {
                        concat3(
                            "Answer saved as annotation revision ",
                            number.as_str(),
                            ". The original remains immutable.",
                        )
                    },
                );
                let load = if adjudicated {
                    self.adjudication = None;
                    self.selected_task_id = None;
                    None
                } else {
                    self.load_presentation(true)
                };
                let request = self.reload();
                (load, request)
            },
            Err(error) => {
                self.error = Some(error);
                (None, None)
            },
        }
    }

    /// The place of the selected case.
    pub open spec fn selected_place(self) -> Option<int> {
        match self.selected_task_id {
            Some(task_id) => place_of_task(self.tasks@, task_id@),
            None => None,
        }
    }

    /// The place of the selected case.
    pub fn selected_task(&self) -> (place: Option<usize>)
        ensures
            match place {
                Some(place) => place < self.tasks@.len() && self.selected_place() == Some(
                    place as int,
                ),
                None => self.selected_place() is None,
            },
    {
        match &self.selected_task_id {
            Some(task_id) => find_task(&self.tasks, task_id),
            None => None,
        }
    }

    /// Opens the trace of the selected case at the first cited span.
    pub fn open_trace(&self) -> (event: Option<HumanReviewEvent>)
        ensures
            match (self.selected_place(), event) {
                (
                    Some(place),
                    Some(
                        HumanReviewEvent::SourceTrace {
                            project_id,
                            logical_trace_id,
                            revision,
                            selected_span_id,
                        },
                    ),
                ) => {
                    let task = self.tasks@[place];
                    &&& project_id == task.project_id
                    &&& logical_trace_id == task.logical_trace_id
                    &&& revision == task.revision
                    &&& optional_text(selected_span_id) == cited_span(self.evidence_keys@)
                },
                (None, None) => true,
                _ => false,
            },
    {
        let place = match self.selected_task() {
            Some(place) => place,
            None => {
                return None;
            },
        };
        let task = &self.tasks[place];
        let selected_span_id = if self.evidence_keys.len() > 0 {
            match strip_prefix(self.evidence_keys[0].as_str(), "span:") {
                Some(span_id) => Some(span_id.to_owned()),
                None => None,
            }
        } else {
            None
        };
        Some(
            HumanReviewEvent::SourceTrace {
                project_id: task.project_id.clone(),
                logical_trace_id: task.logical_trace_id.clone(),
                revision: task.revision,
                selected_span_id,
            },
        )
    }
}

/// The span that the first piece of evidence cites.
pub open spec fn cited_span(evidence_keys: Seq<String>) -> Option<Seq<char>> {
    if evidence_keys.len() > 0 && "span:"@.is_prefix_of(evidence_keys[0]@) {
        Some(evidence_keys[0]@.skip("span:"@.len() as int))
    } else {
        None
    }
}

/// A place of the evidence, in words.
pub open spec fn evidence_text(key: Seq<char>) -> Seq<char> {
    if "span:"@.is_prefix_of(key) {
        "Trace span "@ + short(key.skip("span:"@.len() as int))
    } else if "terminal-output:"@.is_prefix_of(key) {
        match text::parsed_number(key.skip("terminal-output:"@.len() as int)) {
            Some(index) => if index <= usize::MAX {
                "Terminal output "@ + text::decimal(index + 1)
            } else {
                "Terminal output"@
            },
            None => "Terminal output"@,
        }
    } else if "tool-call:"@.is_prefix_of(key) {
        "Tool call "@ + short(key.skip("tool-call:"@.len() as int))
    } else {
        text::replaced(text::replaced(text::replaced(key, ':', ' '), '-', ' '), '_', ' ')
    }
}

/// A place of the evidence, in words.
pub fn evidence_key_label(key: &str) -> (label: String)
    ensures
        label@ == evidence_text(key@),
{
    if let Some(span_id) = strip_prefix(key, "span:") {
        return concat2("Trace span ", short_id(span_id));
    }
    if let Some(index) = strip_prefix(key, "terminal-output:") {
        return match parse_number(index) {
            Some(index) => if index <= usize::MAX as u64 {
                let mut label = "Terminal output ".to_owned();
                append_wide_decimal(&mut label, index as u128 + 1);
                label
            } else {
                "Terminal output".to_owned()
            },
            None => "Terminal output".to_owned(),
        };
    }
    if let Some(tool_call) = strip_prefix(key, "tool-call:") {
        return concat2("Tool call ", short_id(tool_call));
    }
    let colons = replace_char(key, ':', ' ');
    let dashes = replace_char(colons.as_str(), '-', ' ');
    replace_char(dashes.as_str(), '_', ' ')
}

/// A case as it is listed.
#[derive(Debug)]
pub struct TaskRowView {
    pub title: String,
    pub label: String,
    pub summary: String,
    pub status: &'static str,
    pub status_tint: u32,
    pub selected: bool,
}

/// A case as it is listed.
pub open spec fn shows_task(view: TaskRowView, screen: HumanReviewScreen, task: ReviewTaskV1) -> bool {
    let revision = text::decimal(task.revision as nat);
    let reviewers = text::decimal(task.required_reviewers as nat);
    &&& view.title@ == "Trace "@ + short(task.logical_trace_id@) + " · r"@ + revision
    &&& view.label@ == "Review trace "@ + task.logical_trace_id@ + " revision "@ + revision
        + "; "@ + split_text(task.split) + "; "@ + selection_text(task.selection_reason) + "; "@
        + reviewers + " raters; "@ + task.status.mark().0
    &&& view.summary@ == split_text(task.split) + " · "@ + selection_text(task.selection_reason)
        + " · "@ + reviewers + " raters"@
    &&& (view.status@, view.status_tint) == task.status.mark()
    &&& view.selected == (optional_text(screen.selected_task_id) == Some(task.task_id@))
}

/// How many cases were chosen for a reason.
pub open spec fn chosen_for(tasks: Seq<ReviewTaskV1>, reason: ReviewSelectionReasonV1) -> nat
    decreases tasks.len(),
{
    if tasks.len() == 0 {
        0
    } else {
        chosen_for(tasks.drop_last(), reason) + (if tasks.last().selection_reason == reason {
            1nat
        } else {
            0nat
        })
    }
}

/// What is shown of the cases.
#[derive(Debug)]
pub struct TaskListView {
    pub summary: String,
    pub rows: Vec<TaskRowView>,
    /// Whether the blind queue can be resumed.
    pub offers_queue: bool,
}

impl HumanReviewScreen {
    fn task_row(&self, task: &ReviewTaskV1) -> (view: TaskRowView)
        ensures
            shows_task(view, *self, *task),
    {
        let mut title = concat3("Trace ", short_id(task.logical_trace_id.as_str()), " · r");
        append_decimal(&mut title, task.revision);
        let mut label = concat3("Review trace ", task.logical_trace_id.as_str(), " revision ");
        append_decimal(&mut label, task.revision);
        label.append("; ");
        label.append(split_label(task));
        label.append("; ");
        label.append(selection_label(task));
        label.append("; ");
        append_decimal(&mut label, task.required_reviewers);
        label.append(" raters; ");
        label.append(status_label(task.status));
        let mut summary = concat4(split_label(task), " · ", selection_label(task), " · ");
        append_decimal(&mut summary, task.required_reviewers);
        summary.append(" raters");
        TaskRowView {
            title,
            label,
            summary,
            status: status_label(task.status),
            status_tint: status_tint(task.status),
            selected: self.is_selected(task.task_id.as_str()),
        }
    }

    /// What is shown of the cases.
    pub fn render_task_list(&self) -> (view: TaskListView)
        ensures
            view.summary@ == text::decimal(self.tasks@.len()) + " cases · "@ + text::decimal(
                chosen_for(self.tasks@, ReviewSelectionReasonV1::RandomAudit),
            ) + " random audit · "@ + text::decimal(
                chosen_for(self.tasks@, ReviewSelectionReasonV1::ActiveLearning),
            ) + " active"@,
            view.rows@.len() == self.tasks@.len(),
            forall|i: int|
                0 <= i < view.rows@.len() ==> shows_task(
                    #[trigger] view.rows@[i],
                    *self,
                    self.tasks@[i],
                ),
            view.offers_queue == (self.mode == ReviewModeV1::BlindCalibration),
    {
        let mut audits: usize = 0;
        let mut active: usize = 0;
        let mut rows: Vec<TaskRowView> = Vec::new();
        let mut index: usize = 0;
        assert(self.tasks@.take(0) =~= Seq::empty());
        while index < self.tasks.len()
            invariant
                index <= self.tasks@.len(),
                audits <= index,
                active <= index,
                audits == chosen_for(
                    self.tasks@.take(index as int),
                    ReviewSelectionReasonV1::RandomAudit,
                ),
                active == chosen_for(
                    self.tasks@.take(index as int),
                    ReviewSelectionReasonV1::ActiveLearning,
                ),
                rows@.len() == index,
                forall|i: int|
                    0 <= i < rows@.len() ==> shows_task(
                        #[trigger] rows@[i],
                        *self,
                        self.tasks@[i],
                    ),
            decreases self.tasks@.len() - index,
        {
            proof {
                assert(self.tasks@.take(index + 1).drop_last() =~= self.tasks@.take(index as int));
                assert(self.tasks@.take(index + 1).last() == self.tasks@[index as int]);
            }
            match self.tasks[index].selection_reason {
                ReviewSelectionReasonV1::RandomAudit => {
                    audits += 1;
                },
                ReviewSelectionReasonV1::ActiveLearning => {
                    active += 1;
                },
                ReviewSelectionReasonV1::Manual => {},
            }
            rows.push(self.task_row(&self.tasks[index]));
            index += 1;
        }
        assert(self.tasks@.take(index as int) =~= self.tasks@);
        let mut summary = length_text(self.tasks.len());
        summary.append(" cases · ");
        summary.append(length_text(audits).as_str());
        summary.append(" random audit · ");
        summary.append(length_text(active).as_str());
        summary.append(" active");
        TaskListView {
            summary,
            rows,
            offers_queue: self.mode == ReviewModeV1::BlindCalibration,
        }
    }
}

/// What is shown where no case is selected.
#[derive(Debug)]
pub struct EmptyDetail {
    pub label: &'static str,
    pub heading: &'static str,
    pub note: Option<&'static str>,
    /// Whether a blind queue can be created.
    pub offers_queue: bool,
}

/// The rubric of a case.
#[derive(Debug)]
pub struct RubricView {
    pub label: String,
    pub instructions: String,
    pub note: String,
}

/// An answer of another rater.
#[derive(Debug)]
pub struct PeerAnswer {
    pub reviewer: String,
    pub label: &'static str,
    pub explanation: String,
}

/// Something to choose.
#[derive(Debug)]
pub struct ChoiceView {
    pub shown: String,
    pub label: String,
    pub selected: bool,
}

/// What the automated assessment came to.
#[derive(Debug)]
pub struct AutomatedView {
    pub label: String,
    pub run: String,
    pub output: String,
}

/// The answer to a case and what it rests on.
#[derive(Debug)]
pub struct AnswerView {
    pub peers: Vec<PeerAnswer>,
    pub answers: Vec<ChoiceView>,
    pub evidence: Vec<ChoiceView>,
    /// Whether the answer can be changed now.
    pub editable: bool,
    pub automated: Option<AutomatedView>,
    pub status: String,
    pub submit: &'static str,
    pub submit_label: &'static str,
    pub submit_enabled: bool,
}

/// What is shown of a case.
#[derive(Debug)]
pub struct TaskDetail {
    pub heading: &'static str,
    pub guidance: &'static str,
    pub label: String,
    pub rubric: Option<RubricView>,
    /// How the case is claimed, where it is not claimed yet.
    pub claim: Option<(&'static str, &'static str)>,
    pub answer: Option<AnswerView>,
}

/// What is shown beside the list of cases.
#[derive(Debug)]
pub enum DetailView {
    Empty(EmptyDetail),
    Task(TaskDetail),
}

/// The rubric that holds.
pub open spec fn schema_of(screen: HumanReviewScreen) -> Option<AnnotationSchemaReleaseV1> {
    match screen.adjudication {
        Some(packet) => Some(packet.annotation_schema),
        None => match screen.presentation {
            Some(presentation) => Some(presentation.annotation_schema),
            None => None,
        },
    }
}

/// The evidence that can be cited.
pub open spec fn available_evidence(screen: HumanReviewScreen) -> Seq<String> {
    match screen.adjudication {
        Some(packet) => packet.evidence_keys@,
        None => match screen.presentation {
            Some(presentation) => presentation.evidence_keys@,
            None => Seq::empty(),
        },
    }
}

/// Whether a blind answer stands since the automated one was revealed.
pub open spec fn answer_locked(screen: HumanReviewScreen) -> bool {
    &&& screen.mode == ReviewModeV1::BlindCalibration
    &&& screen.adjudication is None
    &&& match screen.presentation {
        Some(presentation) => presentation.revealed is Some,
        None => false,
    }
}

/// Whether the answer can be submitted: one is chosen and explained, and
/// evidence is cited unless the rater abstains.
pub open spec fn can_submit(screen: HumanReviewScreen) -> bool {
    &&& !screen.busy
    &&& !answer_locked(screen)
    &&& screen.label is Some
    &&& text::trimmed(screen.explanation@.text).len() > 0
    &&& screen.label == Some(AnnotationLabelV1::Abstain) || screen.evidence_keys@.len() > 0
}

/// What is said of the answer so far.
pub open spec fn answer_status(screen: HumanReviewScreen) -> Seq<char> {
    match screen.adjudication {
        Some(packet) => match packet.latest_adjudication {
            Some(adjudication) => "Prior adjudication revision "@ + text::decimal(
                adjudication.adjudication_revision as nat,
            ) + " is stale and retained"@,
            None => "No adjudication committed yet."@,
        },
        None => match latest_answer(screen.presentation) {
            Some(annotation) => "Current immutable revision "@ + text::decimal(
                annotation.annotation_revision as nat,
            ) + " · "@ + annotation.label.name(),
            None => "No answer submitted yet."@,
        },
    }
}

/// What submitting is called, and what a screen reader says of it.
pub open spec fn submit_texts(screen: HumanReviewScreen) -> (Seq<char>, Seq<char>) {
    if screen.adjudication is Some {
        ("Submit adjudication"@, "Submit adjudication"@)
    } else if answer_locked(screen) {
        ("Answer locked after reveal"@, "Answer locked after automated output reveal"@)
    } else if latest_answer(screen.presentation) is Some {
        ("Save correction"@, "Save review correction"@)
    } else {
        ("Submit answer"@, "Submit independent human answer"@)
    }
}

/// What is shown of something to choose.
pub open spec fn shows_choice(
    view: ChoiceView,
    kind: Seq<char>,
    shown: Seq<char>,
    selected: bool,
) -> bool {
    &&& view.shown@ == shown
    &&& view.selected == selected
    &&& view.label@ == kind + shown + (if selected {
        ", selected"@
    } else {
        ""@
    })
}

fn choice(kind: &str, shown: String, selected: bool) -> (view: ChoiceView)
    ensures
        shows_choice(view, kind@, shown@, selected),
{
    let label = concat3(
        kind,
        shown.as_str(),
        if selected {
            ", selected"
        } else {
            ""
        },
    );
    ChoiceView { shown, label, selected }
}

/// What is shown of the answer of another rater.
pub open spec fn shows_peer(view: PeerAnswer, annotation: AnnotationRevisionV1) -> bool {
    &&& view.reviewer@ == "Rater "@ + short(annotation.reviewer_id@)
    &&& view.label@ == annotation.label.name()
    &&& view.explanation@ == annotation.explanation@
}

/// What is shown of the automated assessment.
pub open spec fn shows_automated(view: AutomatedView, assessment: AssessmentOutput) -> bool {
    let verdict = |evaluation: EvaluationOutput|
        match evaluation.label {
            Some(label) => label@,
            None => "not reported"@,
        };
    let score = |evaluation: EvaluationOutput|
        match evaluation.score {
            Some(score) => score@,
            None => "not reported"@,
        };
    &&& view.run@ == "Provider run: "@ + assessment.status@
    &&& view.output@ == (match assessment.evaluation {
        Some(evaluation) => verdict(evaluation) + " · raw score "@ + score(evaluation),
        None => "No learned-evaluator output was reported."@,
    })
    &&& view.label@ == "Automated output revealed after your answer. Provider run status "@
        + assessment.status@ + (match assessment.evaluation {
        Some(evaluation) => ". Learned verdict "@ + verdict(evaluation) + ". Raw score "@ + score(
            evaluation,
        ) + "."@,
        None => ". No learned-evaluator output was reported."@,
    })
}

fn or_not_reported(value: &Option<String>) -> (shown: &str)
    ensures
        shown@ == (match *value {
            Some(value) => value@,
            None => "not reported"@,
        }),
{
    match value {
        Some(value) => value.as_str(),
        None => "not reported",
    }
}

fn automated_view(assessment: &AssessmentOutput) -> (view: AutomatedView)
    ensures
        shows_automated(view, *assessment),
{
    let mut label = concat2(
        "Automated output revealed after your answer. Provider run status ",
        assessment.status.as_str(),
    );
    let (output, rest) = match &assessment.evaluation {
        Some(evaluation) => {
            let verdict = or_not_reported(&evaluation.label);
            let score = or_not_reported(&evaluation.score);
            let mut rest = concat4(". Learned verdict ", verdict, ". Raw score ", score);
            rest.append(".");
            (concat3(verdict, " · raw score ", score), rest)
        },
        None => (
            "No learned-evaluator output was reported.".to_owned(),
            ". No learned-evaluator output was reported.".to_owned(),
        ),
    };
    label.append(rest.as_str());
    AutomatedView { label, run: concat2("Provider run: ", assessment.status.as_str()), output }
}

fn peer_answers(annotations: &Vec<AnnotationRevisionV1>) -> (peers: Vec<PeerAnswer>)
    ensures
        peers@.len() == annotations@.len(),
        forall|i: int|
            0 <= i < peers@.len() ==> shows_peer(#[trigger] peers@[i], annotations@[i]),
{
    let mut peers: Vec<PeerAnswer> = Vec::new();
    let mut index: usize = 0;
    while index < annotations.len()
        invariant
            index <= annotations@.len(),
            peers@.len() == index,
            forall|i: int|
                0 <= i < peers@.len() ==> shows_peer(#[trigger] peers@[i], annotations@[i]),
        decreases annotations@.len() - index,
    {
        let annotation = &annotations[index];
        peers.push(
            PeerAnswer {
                reviewer: concat2("Rater ", short_id(annotation.reviewer_id.as_str())),
                label: label_name(annotation.label),
                explanation: annotation.explanation.clone(),
            },
        );
        index += 1;
    }
    peers
}

fn label_choice(label: AnnotationLabelV1, chosen: Option<AnnotationLabelV1>) -> (view: ChoiceView)
    ensures
        shows_choice(view, "Answer "@, label.name(), chosen == Some(label)),
{
    let selected = match chosen {
        Some(chosen) => chosen == label,
        None => false,
    };
    choice("Answer ", label_name(label).to_owned(), selected)
}

fn label_choices(chosen: Option<AnnotationLabelV1>) -> (choices: Vec<ChoiceView>)
    ensures
        choices@.len() == all_labels().len(),
        forall|i: int|
            0 <= i < choices@.len() ==> shows_choice(
                #[trigger] choices@[i],
                "Answer "@,
                all_labels()[i].name(),
                chosen == Some(all_labels()[i]),
            ),
{
    let mut choices: Vec<ChoiceView> = Vec::new();
    choices.push(label_choice(AnnotationLabelV1::Completed, chosen));
    choices.push(label_choice(AnnotationLabelV1::Partial, chosen));
    choices.push(label_choice(AnnotationLabelV1::Failed, chosen));
    choices.push(label_choice(AnnotationLabelV1::Abstain, chosen));
    choices
}

/// How many places of the evidence are listed.
pub open spec fn listed_evidence(available: Seq<String>) -> int {
    if available.len() < EVIDENCE_LIMIT {
        available.len() as int
    } else {
        EVIDENCE_LIMIT as int
    }
}

fn evidence_choices(available: &Vec<String>, cited: &Vec<String>) -> (choices: Vec<ChoiceView>)
    ensures
        choices@.len() == listed_evidence(available@),
        forall|i: int|
            0 <= i < choices@.len() ==> shows_choice(
                #[trigger] choices@[i],
                "Evidence "@,
                evidence_text(available@[i]@),
                text::texts(cited@).contains(available@[i]@),
            ),
{
    let mut choices: Vec<ChoiceView> = Vec::new();
    let mut index: usize = 0;
    while index < available.len() && index < EVIDENCE_LIMIT
        invariant
            index <= listed_evidence(available@),
            choices@.len() == index,
            forall|i: int|
                0 <= i < choices@.len() ==> shows_choice(
                    #[trigger] choices@[i],
                    "Evidence "@,
                    evidence_text(available@[i]@),
                    text::texts(cited@).contains(available@[i]@),
                ),
        decreases available@.len() - index,
    {
        let key = available[index].as_str();
        choices.push(choice("Evidence ", evidence_key_label(key), contains_text(cited, key)));
        index += 1;
    }
    choices
}

/// What is shown of the answer to a case.
pub open spec fn shows_answer(view: AnswerView, screen: HumanReviewScreen) -> bool {
    let available = available_evidence(screen);
    let peers = match screen.adjudication {
        Some(packet) => packet.annotation_revisions@,
        None => Seq::empty(),
    };
    &&& view.peers@.len() == peers.len()
    &&& forall|i: int| 0 <= i < peers.len() ==> shows_peer(#[trigger] view.peers@[i], peers[i])
    &&& view.answers@.len() == all_labels().len()
    &&& forall|i: int|
        0 <= i < view.answers@.len() ==> shows_choice(
            #[trigger] view.answers@[i],
            "Answer "@,
            all_labels()[i].name(),
            screen.label == Some(all_labels()[i]),
        )
    &&& view.evidence@.len() == listed_evidence(available)
    &&& forall|i: int|
        0 <= i < view.evidence@.len() ==> shows_choice(
            #[trigger] view.evidence@[i],
            "Evidence "@,
            evidence_text(available[i]@),
            text::texts(screen.evidence_keys@).contains(available[i]@),
        )
    &&& view.editable == (!screen.busy && !answer_locked(screen))
    &&& match screen.presentation {
        Some(presentation) => match (presentation.revealed, view.automated) {
            (Some(assessment), Some(automated)) => shows_automated(automated, assessment),
            (None, None) => true,
            _ => false,
        },
        None => view.automated is None,
    }
    &&& view.status@ == answer_status(screen)
    &&& (view.submit@, view.submit_label@) == submit_texts(screen)
    &&& view.submit_enabled == can_submit(screen)
}

/// What is shown where no case is selected.
pub open spec fn shows_empty(view: EmptyDetail, screen: HumanReviewScreen) -> bool {
    let blind = screen.mode == ReviewModeV1::BlindCalibration;
    let empty = screen.tasks@.len() == 0;
    &&& view.label@ == (if !empty {
        "Choose a case to review its trace evidence."@
    } else if blind {
        "No blind calibration cases exist for this project. Start from completed learned assessments. Perseval freezes trace-level leakage groups and keeps a held-out test split."@
    } else {
        "No visible triage cases exist for this project. Visible triage is deliberately excluded from calibration and agreement. Operator-opened cases appear here. Uncertainty-selected blind cases stay in Blind calibration and remain separate from the random-audit population."@
    })
    &&& view.heading@ == (if !empty {
        "Choose a case to review its trace evidence."@
    } else if blind {
        "No blind calibration cases exist for this project."@
    } else {
        "No visible triage cases exist for this project."@
    })
    &&& match view.note {
        Some(note) => {
            &&& empty
            &&& note@ == (if blind {
                "Start from completed learned assessments. Perseval freezes trace-level leakage groups and keeps a held-out test split."@
            } else {
                "Visible triage is deliberately excluded from calibration and agreement. Operator-opened cases appear here. Uncertainty-selected blind cases stay in Blind calibration and remain separate from the random-audit population."@
            })
        },
        None => !empty,
    }
    &&& view.offers_queue == (empty && blind)
}

/// The heading of a case and the guidance for it.
pub open spec fn headings(screen: HumanReviewScreen) -> (Seq<char>, Seq<char>) {
    if screen.adjudication is Some {
        (
            "Resolve rater disagreement"@,
            "Compare the two human answers. The learned judge remains sealed until adjudication is committed."@,
        )
    } else if screen.mode == ReviewModeV1::BlindCalibration {
        (
            "Independent human answer"@,
            "Judge output and peer answers stay sealed until submission."@,
        )
    } else {
        (
            "Triage automated review"@,
            "Visible triage is excluded from calibration and agreement."@,
        )
    }
}

/// What is shown of a rubric.
pub open spec fn shows_rubric(view: RubricView, schema: AnnotationSchemaReleaseV1) -> bool {
    &&& view.label@ == "Review rubric. "@ + schema.instructions@ + " Positive class: "@
        + schema.positive_class@ + ". Schema "@ + schema.schema_version@ + "."@
    &&& view.instructions@ == schema.instructions@
    &&& view.note@ == "Positive class: "@ + schema.positive_class@ + " · schema "@
        + schema.schema_version@
}

/// What is shown of a case.
pub open spec fn shows_detail(view: TaskDetail, screen: HumanReviewScreen) -> bool {
    let blind = screen.mode == ReviewModeV1::BlindCalibration;
    let claimed = screen.presentation is Some || screen.adjudication is Some;
    &&& (view.heading@, view.guidance@) == headings(screen)
    &&& view.label@ == view.heading@ + ". "@ + view.guidance@
    &&& match (schema_of(screen), view.rubric) {
        (Some(schema), Some(rubric)) => shows_rubric(rubric, schema),
        (None, None) => true,
        _ => false,
    }
    &&& match view.claim {
        Some(claim) => {
            &&& !claimed
            &&& claim.0@ == (if blind {
                "Claim blind review"@
            } else {
                "Claim triage case"@
            })
            &&& claim.1@ == (if blind {
                "Claim blind review"@
            } else {
                "Claim visible triage case"@
            })
        },
        None => claimed,
    }
    &&& match view.answer {
        Some(answer) => claimed && shows_answer(answer, screen),
        None => !claimed,
    }
}

fn rubric_view(schema: &AnnotationSchemaReleaseV1) -> (view: RubricView)
    ensures
        shows_rubric(view, *schema),
{
    let mut label = concat4(
        "Review rubric. ",
        schema.instructions.as_str(),
        " Positive class: ",
        schema.positive_class.as_str(),
    );
    label.append(". Schema ");
    label.append(schema.schema_version.as_str());
    label.append(".");
    RubricView {
        label,
        instructions: schema.instructions.clone(),
        note: concat4(
            "Positive class: ",
            schema.positive_class.as_str(),
            " · schema ",
            schema.schema_version.as_str(),
        ),
    }
}

impl HumanReviewScreen {
    fn answer_status_text(&self) -> (status: String)
        ensures
            status@ == answer_status(*self),
    {
        match &self.adjudication {
            Some(packet) => match &packet.latest_adjudication {
                Some(adjudication) => concat3(
                    "Prior adjudication revision ",
                    decimal_text(adjudication.adjudication_revision).as_str(),
                    " is stale and retained",
                ),
                None => "No adjudication committed yet.".to_owned(),
            },
            None => {
                if let Some(presentation) = &self.presentation {
                    if let Some(annotation) = &presentation.latest_annotation {
                        return concat4(
                            "Current immutable revision ",
                            decimal_text(annotation.annotation_revision).as_str(),
                            " · ",
                            label_name(annotation.label),
                        );
                    }
                }
                "No answer submitted yet.".to_owned()
            },
        }
    }

    /// Whether a blind answer stands since the automated one was revealed.
    pub fn is_answer_locked(&self) -> (locked: bool)
        ensures
            locked == answer_locked(*self),
    {
        let revealed = match &self.presentation {
            Some(presentation) => presentation.revealed.is_some(),
            None => false,
        };
        self.mode == ReviewModeV1::BlindCalibration && revealed && self.adjudication.is_none()
    }

    /// Whether the answer can be submitted.
    pub fn is_submittable(&self) -> (can: bool)
        ensures
            can == can_submit(*self),
    {
        let explained = !trim(self.explanation.text()).as_str().is_empty();
        let abstains = match self.label {
            Some(label) => label == AnnotationLabelV1::Abstain,
            None => false,
        };
        !self.busy && !self.is_answer_locked() && self.label.is_some() && explained && (abstains
            || self.evidence_keys.len() > 0)
    }

    fn answer_view(&self) -> (view: AnswerView)
        ensures
            shows_answer(view, *self),
    {
        let locked = self.is_answer_locked();
        let answered = match &self.presentation {
            Some(presentation) => presentation.latest_annotation.is_some(),
            None => false,
        };
        let (submit, submit_label) = if self.adjudication.is_some() {
            ("Submit adjudication", "Submit adjudication")
        } else if locked {
            ("Answer locked after reveal", "Answer locked after automated output reveal")
        } else if answered {
            ("Save correction", "Save review correction")
        } else {
            ("Submit answer", "Submit independent human answer")
        };
        let peers = match &self.adjudication {
            Some(packet) => peer_answers(&packet.annotation_revisions),
            None => Vec::new(),
        };
        let evidence = match &self.adjudication {
            Some(packet) => evidence_choices(&packet.evidence_keys, &self.evidence_keys),
            None => match &self.presentation {
                Some(presentation) => evidence_choices(
                    &presentation.evidence_keys,
                    &self.evidence_keys,
                ),
                None => Vec::new(),
            },
        };
        let automated = match &self.presentation {
            Some(presentation) => match &presentation.revealed {
                Some(assessment) => Some(automated_view(assessment)),
                None => None,
            },
            None => None,
        };
        AnswerView {
            peers,
            answers: label_choices(self.label),
            evidence,
            editable: !self.busy && !locked,
            automated,
            status: self.answer_status_text(),
            submit,
            submit_label,
            submit_enabled: self.is_submittable(),
        }
    }

    fn empty_detail(&self) -> (view: EmptyDetail)
        ensures
            shows_empty(view, *self),
    {
        let blind = self.mode == ReviewModeV1::BlindCalibration;
        if self.tasks.len() > 0 {
            EmptyDetail {
                label: "Choose a case to review its trace evidence.",
                heading: "Choose a case to review its trace evidence.",
                note: None,
                offers_queue: false,
            }
        } else if blind {
            EmptyDetail {
                label:
                    "No blind calibration cases exist for this project. Start from completed learned assessments. Perseval freezes trace-level leakage groups and keeps a held-out test split.",
                heading: "No blind calibration cases exist for this project.",
                note: Some(
                    "Start from completed learned assessments. Perseval freezes trace-level leakage groups and keeps a held-out test split.",
                ),
                offers_queue: true,
            }
        } else {
            EmptyDetail {
                label:
                    "No visible triage cases exist for this project. Visible triage is deliberately excluded from calibration and agreement. Operator-opened cases appear here. Uncertainty-selected blind cases stay in Blind calibration and remain separate from the random-audit population.",
                heading: "No visible triage cases exist for this project.",
                note: Some(
                    "Visible triage is deliberately excluded from calibration and agreement. Operator-opened cases appear here. Uncertainty-selected blind cases stay in Blind calibration and remain separate from the random-audit population.",
                ),
                offers_queue: false,
            }
        }
    }

    /// What is shown beside the list of cases.
    pub fn render_detail(&self) -> (view: DetailView)
        ensures
            match view {
                DetailView::Empty(empty) => self.selected_place() is None && shows_empty(
                    empty,
                    *self,
                ),
                DetailView::Task(detail) => self.selected_place() is Some && shows_detail(
                    detail,
                    *self,
                ),
            },
    {
        if self.selected_task().is_none() {
            return DetailView::Empty(self.empty_detail());
        }
        let blind = self.mode == ReviewModeV1::BlindCalibration;
        let (heading, guidance) = if self.adjudication.is_some() {
            (
                "Resolve rater disagreement",
                "Compare the two human answers. The learned judge remains sealed until adjudication is committed.",
            )
        } else if blind {
            (
                "Independent human answer",
                "Judge output and peer answers stay sealed until submission.",
            )
        } else {
            (
                "Triage automated review",
                "Visible triage is excluded from calibration and agreement.",
            )
        };
        let rubric = match &self.adjudication {
            Some(packet) => Some(rubric_view(&packet.annotation_schema)),
            None => match &self.presentation {
                Some(presentation) => Some(rubric_view(&presentation.annotation_schema)),
                None => None,
            },
        };
        let claimed = self.presentation.is_some() || self.adjudication.is_some();
        let claim = if claimed {
            None
        } else if blind {
            Some(("Claim blind review", "Claim blind review"))
        } else {
            Some(("Claim triage case", "Claim visible triage case"))
        };
        let answer = if claimed {
            Some(self.answer_view())
        } else {
            None
        };
        DetailView::Task(
            TaskDetail {
                heading,
                guidance,
                label: concat3(heading, ". ", guidance),
                rubric,
                claim,
                answer,
            },
        )
    }
}

/// Changing the mode and back goes on with the same case, and neither mode
/// takes the case of the other.
pub proof fn modes_keep_their_own_case(screen: HumanReviewScreen)
    ensures
        ({
            let other = if screen.mode == ReviewModeV1::BlindCalibration {
                ReviewModeV1::VisibleTriage
            } else {
                ReviewModeV1::BlindCalibration
            };
            let there = screen.in_mode(other);
            let back = there.in_mode(screen.mode);
            &&& back.selected_task_id == screen.selected_task_id
            &&& screen.mode == ReviewModeV1::BlindCalibration ==> there.selected_task_id
                == screen.visible_selected_task_id
            &&& screen.mode == ReviewModeV1::VisibleTriage ==> there.selected_task_id
                == screen.blind_selected_task_id
        }),
{
}

/// A blind answer cannot be submitted or changed once the automated output
/// was revealed, and the automated output is shown only then.
pub proof fn blind_answers_are_sealed(view: AnswerView, screen: HumanReviewScreen)
    requires
        shows_answer(view, screen),
        screen.mode == ReviewModeV1::BlindCalibration,
        screen.adjudication is None,
    ensures
        view.automated is Some ==> !view.submit_enabled && !view.editable,
{
}

/// A case is found at the first place that has its identity, and nowhere where
/// none has it.
pub proof fn tasks_are_found_by_identity(tasks: Seq<ReviewTaskV1>, task_id: Seq<char>)
    ensures
        match place_of_task(tasks, task_id) {
            Some(place) => {
                &&& 0 <= place < tasks.len()
                &&& tasks[place].task_id@ == task_id
                &&& forall|i: int| 0 <= i < place ==> (#[trigger] tasks[i]).task_id@ != task_id
            },
            None => forall|i: int|
                0 <= i < tasks.len() ==> (#[trigger] tasks[i]).task_id@ != task_id,
        },
    decreases tasks.len(),
{
    if tasks.len() > 0 && tasks[0].task_id@ != task_id {
        let rest = tasks.drop_first();
        tasks_are_found_by_identity(rest, task_id);
        let end = match place_of_task(rest, task_id) {
            Some(place) => place,
            None => rest.len() as int,
        };
        assert forall|i: int| 0 <= i < end + 1 implies (#[trigger] tasks[i]).task_id@
            != task_id by {
            if i > 0 {
                assert(rest[i - 1] == tasks[i]);
            }
        }
    }
}

/// Answers, states, selections and splits are shown under their own names, and
/// the answers are offered in a fixed order.
pub proof fn names_tell_answers_and_states_apart()
    ensures
        AnnotationLabelV1::Completed.name() == "Completed"@,
        AnnotationLabelV1::Partial.name() == "Partial"@,
        AnnotationLabelV1::Failed.name() == "Failed"@,
        AnnotationLabelV1::Abstain.name() == "Abstain"@,
        all_labels().len() == 4,
        all_labels()[0] == AnnotationLabelV1::Completed,
        all_labels()[1] == AnnotationLabelV1::Partial,
        all_labels()[2] == AnnotationLabelV1::Failed,
        all_labels()[3] == AnnotationLabelV1::Abstain,
        ReviewTaskStatusV1::Pending.mark() == ("PENDING"@, Theme::DIM),
        ReviewTaskStatusV1::InReview.mark() == ("IN REVIEW"@, Theme::AMBER),
        ReviewTaskStatusV1::AwaitingAdjudication.mark() == ("ADJUDICATE"@, Theme::RED),
        ReviewTaskStatusV1::Completed.mark() == ("COMPLETE"@, Theme::GREEN),
        ReviewTaskStatusV1::Cancelled.mark() == ("CANCELLED"@, Theme::MUTED),
        selection_text(ReviewSelectionReasonV1::RandomAudit) == "random audit"@,
        selection_text(ReviewSelectionReasonV1::ActiveLearning) == "active selection"@,
        selection_text(ReviewSelectionReasonV1::Manual) == "manual"@,
        split_text(CalibrationDataSplitV1::Train) == "fit"@,
        split_text(CalibrationDataSplitV1::Calibration) == "calibration"@,
        split_text(CalibrationDataSplitV1::Test) == "held-out test"@,
        EXPLANATION_BYTES == 4_096,
        EVIDENCE_LIMIT == 40,
{
}

/// Identities are shown by their first twelve bytes.
pub proof fn identities_are_shown_by_twelve_bytes(value: Seq<char>)
    requires
        forall|i: int| 0 <= i < value.len() ==> (#[trigger] value[i]) as u32 <= 0x7f,
    ensures
        value.len() <= 12 ==> short(value) == value,
        value.len() > 12 ==> short(value) == value.take(12),
{
    offsets::plain_texts_are_cut_to_the_limit(value, 12);
}

/// An answer can be submitted exactly where nothing is at work, a label is
/// chosen and explained and evidence is cited, unless the answer is to abstain;
/// a blind answer cannot be once the automated output was revealed.
pub proof fn answers_are_complete_before_they_are_submitted(screen: HumanReviewScreen)
    ensures
        can_submit(screen) ==> !screen.busy && screen.label is Some && text::trimmed(
            screen.explanation@.text,
        ).len() > 0,
        can_submit(screen) && screen.label != Some(AnnotationLabelV1::Abstain)
            ==> screen.evidence_keys@.len() > 0,
        can_submit(screen) && screen.mode == ReviewModeV1::BlindCalibration && screen.adjudication
            is None && screen.presentation is Some ==> screen.presentation->0.revealed is None,
        !screen.busy && screen.label is Some && text::trimmed(screen.explanation@.text).len() > 0
            && (screen.label == Some(AnnotationLabelV1::Abstain) || screen.evidence_keys@.len() > 0)
            && (screen.mode != ReviewModeV1::BlindCalibration || screen.adjudication is Some
            || screen.presentation is None || screen.presentation->0.revealed is None)
            ==> can_submit(screen),
{
}

/// A new answer replaces the one that was seen: the latest adjudication where
/// there is one, and the latest answer without.
pub proof fn corrections_replace_what_was_seen(screen: HumanReviewScreen)
    ensures
        screen.adjudication is Some && screen.adjudication->0.latest_adjudication is Some
            ==> expected_head(screen) == Some(
            screen.adjudication->0.latest_adjudication->0.revision_id,
        ),
        (screen.adjudication is None || screen.adjudication->0.latest_adjudication is None)
            && screen.presentation is Some && screen.presentation->0.latest_annotation is Some
            ==> expected_head(screen) == Some(
            screen.presentation->0.latest_annotation->0.revision_id,
        ),
        (screen.adjudication is None || screen.adjudication->0.latest_adjudication is None) && (
        screen.presentation is None || screen.presentation->0.latest_annotation is None)
            ==> expected_head(screen) is None,
{
}

/// Opening a case loads what its state asks for, clears the answer of the case
/// before, and is remembered for the mode; a place without a case opens none.
pub proof fn opened_cases_start_afresh(
    before: HumanReviewScreen,
    after: HumanReviewScreen,
    index: int,
    load: Option<TaskLoad>,
)
    requires
        selects(before, after, index, load),
    ensures
        !(0 <= index < before.tasks@.len()) ==> after == before && load is None,
        0 <= index < before.tasks@.len() ==> {
            let task = before.tasks@[index];
            &&& after.selected_task_id == Some(task.task_id)
            &&& after.label is None && after.evidence_keys@.len() == 0
            &&& after.explanation@.text.len() == 0
            &&& after.presentation is None && after.adjudication is None
            &&& after.notice is None && after.error is None && after.busy
            &&& after.tasks == before.tasks && after.mode == before.mode
            &&& task.status == ReviewTaskStatusV1::AwaitingAdjudication ==> load == Some(
                TaskLoad::Adjudication { task_id: task.task_id },
            )
            &&& task.status != ReviewTaskStatusV1::AwaitingAdjudication ==> load == Some(
                TaskLoad::Presentation { task_id: task.task_id, report_unassigned: false },
            )
            &&& before.mode == ReviewModeV1::BlindCalibration ==> after.blind_selected_task_id
                == Some(task.task_id) && after.visible_selected_task_id
                == before.visible_selected_task_id
            &&& before.mode != ReviewModeV1::BlindCalibration ==> after.visible_selected_task_id
                == Some(task.task_id) && after.blind_selected_task_id
                == before.blind_selected_task_id
        },
{
}

/// The cases are those of the chosen project and mode.
pub proof fn cases_are_those_of_project_and_mode(
    before: HumanReviewScreen,
    after: HumanReviewScreen,
    request: Option<TaskListRequest>,
)
    requires
        reloads(before, after, request),
    ensures
        request is Some <==> before.project_id is Some,
        request is Some ==> request->0.project_id == before.project_id->0 && request->0.mode
            == before.mode && request->0.generation == after.request_generation && after.busy
            && after.tasks == before.tasks,
        before.project_id is None ==> after.tasks@.len() == 0,
        after.request_generation != before.request_generation,
        after.error is None,
        after.mode == before.mode,
{
}

/// The trace opens at the span that is cited first, where a span is.
pub proof fn cited_spans_are_named_by_their_key(evidence_keys: Seq<String>, span_id: Seq<char>)
    ensures
        evidence_keys.len() > 0 && evidence_keys[0]@ == "span:"@ + span_id ==> cited_span(
            evidence_keys,
        ) == Some(span_id),
        cited_span(evidence_keys) == Some(span_id) ==> evidence_keys.len() > 0
            && evidence_keys[0]@ == "span:"@ + span_id,
{
    if evidence_keys.len() > 0 {
        let key = evidence_keys[0]@;
        if key == "span:"@ + span_id {
            assert("span:"@.is_prefix_of(key)) by {
                assert(key.take("span:"@.len() as int) =~= "span:"@);
            }
            assert(key.skip("span:"@.len() as int) =~= span_id);
        }
        if cited_span(evidence_keys) == Some(span_id) {
            assert(key =~= key.take("span:"@.len() as int) + key.skip("span:"@.len() as int));
            assert(key.take("span:"@.len() as int) =~= "span:"@);
        }
    }
}

/// Evidence is named by its kind: a span or tool call by its identity, and a
/// terminal output by its number, counted from one.
pub proof fn evidence_is_named_by_its_kind(name: Seq<char>)
    ensures
        evidence_text("span:"@ + name) == "Trace span "@ + short(name),
        evidence_text("tool-call:"@ + name) == "Tool call "@ + short(name),
        text::parsed_number(name) is Some && text::parsed_number(name)->0 <= usize::MAX
            ==> evidence_text("terminal-output:"@ + name) == "Terminal output "@ + text::decimal(
            text::parsed_number(name)->0 + 1,
        ),
        text::parsed_number(name) is None ==> evidence_text("terminal-output:"@ + name)
            == "Terminal output"@,
{
    reveal_strlit("span:");
    reveal_strlit("tool-call:");
    reveal_strlit("terminal-output:");
    lemma_prefixed("span:"@, name);
    lemma_prefixed("tool-call:"@, name);
    lemma_prefixed("terminal-output:"@, name);
    let tool = "tool-call:"@ + name;
    assert(tool[0] == 't' && tool[1] == 'o');
    assert("span:"@[0] == 's');
    assert("terminal-output:"@[1] == 'e');
    let terminal = "terminal-output:"@ + name;
    assert(terminal[0] == 't');
}

proof fn lemma_prefixed(prefix: Seq<char>, rest: Seq<char>)
    ensures
        prefix.is_prefix_of(prefix + rest),
        (prefix + rest).skip(prefix.len() as int) == rest,
{
    assert((prefix + rest).take(prefix.len() as int) =~= prefix);
    assert((prefix + rest).skip(prefix.len() as int) =~= rest);
}

/// One case more adds to the count of its own reason and to no other.
pub proof fn cases_count_for_their_reason(
    tasks: Seq<ReviewTaskV1>,
    task: ReviewTaskV1,
    reason: ReviewSelectionReasonV1,
)
    ensures
        chosen_for(Seq::empty(), reason) == 0,
        task.selection_reason == reason ==> chosen_for(tasks.push(task), reason) == chosen_for(
            tasks,
            reason,
        ) + 1,
        task.selection_reason != reason ==> chosen_for(tasks.push(task), reason) == chosen_for(
            tasks,
            reason,
        ),
{
    assert(tasks.push(task).drop_last() =~= tasks);
}

/// What is adjudicated is answered by the packet's rubric and evidence, and
/// otherwise by the presentation's.
pub proof fn adjudication_takes_its_own_packet(screen: HumanReviewScreen)
    ensures
        screen.adjudication is Some ==> schema_of(screen) == Some(
            screen.adjudication->0.annotation_schema,
        ) && available_evidence(screen) == screen.adjudication->0.evidence_keys@,
        screen.adjudication is None && screen.presentation is Some ==> schema_of(screen) == Some(
            screen.presentation->0.annotation_schema,
        ) && available_evidence(screen) == screen.presentation->0.evidence_keys@,
        screen.adjudication is None && screen.presentation is None ==> schema_of(screen) is None
            && available_evidence(screen).len() == 0,
{
}

/// The status tells which revision stands, and the button whether an answer is
/// new, corrects one, settles a disagreement or is locked.
pub proof fn answers_tell_where_they_stand(view: AnswerView, screen: HumanReviewScreen)
    requires
        shows_answer(view, screen),
    ensures
        screen.adjudication is Some ==> view.submit@ == "Submit adjudication"@
            && view.submit_label@ == "Submit adjudication"@,
        screen.adjudication is Some && screen.adjudication->0.latest_adjudication is None
            ==> view.status@ == "No adjudication committed yet."@,
        screen.adjudication is Some && screen.adjudication->0.latest_adjudication is Some
            ==> view.status@ == "Prior adjudication revision "@ + text::decimal(
            screen.adjudication->0.latest_adjudication->0.adjudication_revision as nat,
        ) + " is stale and retained"@,
        screen.adjudication is None && latest_answer(screen.presentation) is None ==> view.status@
            == "No answer submitted yet."@,
        screen.adjudication is None && latest_answer(screen.presentation) is Some ==> view.status@
            == "Current immutable revision "@ + text::decimal(
            latest_answer(screen.presentation)->0.annotation_revision as nat,
        ) + " · "@ + latest_answer(screen.presentation)->0.label.name(),
        screen.adjudication is None && screen.mode == ReviewModeV1::BlindCalibration
            && screen.presentation is Some && screen.presentation->0.revealed is Some
            ==> view.submit@ == "Answer locked after reveal"@ && !view.submit_enabled
            && !view.editable,
        screen.adjudication is None && (screen.presentation is None
            || screen.presentation->0.revealed is None) && latest_answer(screen.presentation)
            is Some ==> view.submit@ == "Save correction"@,
        screen.adjudication is None && (screen.presentation is None
            || screen.presentation->0.revealed is None) && latest_answer(screen.presentation)
            is None ==> view.submit@ == "Submit answer"@,
        view.automated is Some <==> screen.presentation is Some && screen.presentation->0.revealed
            is Some,
        view.answers@.len() == 4,
        view.answers@[0].selected <==> screen.label == Some(AnnotationLabelV1::Completed),
        view.answers@[1].selected <==> screen.label == Some(AnnotationLabelV1::Partial),
        view.answers@[2].selected <==> screen.label == Some(AnnotationLabelV1::Failed),
        view.answers@[3].selected <==> screen.label == Some(AnnotationLabelV1::Abstain),
        view.evidence@.len() <= 40,
        available_evidence(screen).len() <= 40 ==> view.evidence@.len() == available_evidence(
            screen,
        ).len(),
        available_evidence(screen).len() >= 40 ==> view.evidence@.len() == 40,
        screen.busy ==> !view.editable && !view.submit_enabled,
{
    let first = view.answers@[0];
    let second = view.answers@[1];
    let third = view.answers@[2];
    let fourth = view.answers@[3];
    assert(all_labels()[0] == AnnotationLabelV1::Completed);
    assert(all_labels()[1] == AnnotationLabelV1::Partial);
    assert(all_labels()[2] == AnnotationLabelV1::Failed);
    assert(all_labels()[3] == AnnotationLabelV1::Abstain);
}

/// A case shows its trace, split, reason and state, and whether it is open.
pub proof fn cases_show_their_own_particulars(
    view: TaskRowView,
    screen: HumanReviewScreen,
    task: ReviewTaskV1,
)
    requires
        shows_task(view, screen, task),
    ensures
        view.title@ == "Trace "@ + short(task.logical_trace_id@) + " · r"@ + text::decimal(
            task.revision as nat,
        ),
        view.summary@ == split_text(task.split) + " · "@ + selection_text(task.selection_reason)
            + " · "@ + text::decimal(task.required_reviewers as nat) + " raters"@,
        view.selected <==> screen.selected_task_id is Some && screen.selected_task_id->0@
            == task.task_id@,
        (view.status@, view.status_tint) == task.status.mark(),
{
}

/// A case is claimed before it is answered, and the heading says what is asked:
/// an independent answer, the settlement of a disagreement, or triage.
pub proof fn cases_are_claimed_before_they_are_answered(view: TaskDetail, screen: HumanReviewScreen)
    requires
        shows_detail(view, screen),
    ensures
        view.claim is Some <==> screen.presentation is None && screen.adjudication is None,
        view.answer is Some <==> screen.presentation is Some || screen.adjudication is Some,
        screen.adjudication is Some ==> view.heading@ == "Resolve rater disagreement"@
            && view.guidance@
            == "Compare the two human answers. The learned judge remains sealed until adjudication is committed."@,
        screen.adjudication is None && screen.mode == ReviewModeV1::BlindCalibration
            ==> view.heading@ == "Independent human answer"@ && view.guidance@
            == "Judge output and peer answers stay sealed until submission."@,
        screen.adjudication is None && screen.mode == ReviewModeV1::VisibleTriage ==> view.heading@
            == "Triage automated review"@ && view.guidance@
            == "Visible triage is excluded from calibration and agreement."@,
        view.rubric is Some <==> screen.presentation is Some || screen.adjudication is Some,
{
}

/// Only an empty blind queue can be filled, and a queue with cases asks to
/// choose one.
pub proof fn empty_queues_say_how_they_fill(view: EmptyDetail, screen: HumanReviewScreen)
    requires
        shows_empty(view, screen),
    ensures
        view.offers_queue <==> screen.tasks@.len() == 0 && screen.mode
            == ReviewModeV1::BlindCalibration,
        view.note is Some <==> screen.tasks@.len() == 0,
        screen.tasks@.len() > 0 ==> view.heading@ == "Choose a case to review its trace evidence."@,
        screen.tasks@.len() == 0 && screen.mode == ReviewModeV1::BlindCalibration ==> view.heading@
            == "No blind calibration cases exist for this project."@,
        screen.tasks@.len() == 0 && screen.mode == ReviewModeV1::VisibleTriage ==> view.heading@
            == "No visible triage cases exist for this project."@,
{
}

/// The answers that are adjudicated are named by their revisions, in order.
pub proof fn adjudicated_answers_are_named_in_order(annotations: Seq<AnnotationRevisionV1>)
    ensures
        revision_ids(annotations).len() == annotations.len(),
        forall|i: int|
            0 <= i < annotations.len() ==> #[trigger] revision_ids(annotations)[i]
                == annotations[i].revision_id,
{
}

/// A choice says what it stands for and whether it is chosen, and a peer's
/// answer who gave it and why.
pub proof fn choices_say_whether_they_are_chosen(
    view: AnswerView,
    screen: HumanReviewScreen,
    place: int,
)
    requires
        shows_answer(view, screen),
    ensures
        0 <= place < 4 ==> {
            let choice = view.answers@[place];
            &&& choice.shown@ == all_labels()[place].name()
            &&& choice.selected ==> choice.label@ == "Answer "@ + all_labels()[place].name()
                + ", selected"@
            &&& !choice.selected ==> choice.label@ == "Answer "@ + all_labels()[place].name()
        },
        0 <= place < view.evidence@.len() ==> {
            let choice = view.evidence@[place];
            let key = available_evidence(screen)[place]@;
            &&& choice.shown@ == evidence_text(key)
            &&& choice.selected <==> exists|i: int|
                0 <= i < screen.evidence_keys@.len() && (#[trigger] screen.evidence_keys@[i])@
                    == key
            &&& choice.selected ==> choice.label@ == "Evidence "@ + evidence_text(key)
                + ", selected"@
        },
        screen.adjudication is None ==> view.peers@.len() == 0,
        screen.adjudication is Some ==> view.peers@.len()
            == screen.adjudication->0.annotation_revisions@.len(),
        screen.adjudication is Some && 0 <= place < view.peers@.len() ==> {
            let peer = view.peers@[place];
            let answer = screen.adjudication->0.annotation_revisions@[place];
            &&& peer.reviewer@ == "Rater "@ + short(answer.reviewer_id@)
            &&& peer.label@ == answer.label.name()
            &&& peer.explanation@ == answer.explanation@
        },
        screen.adjudication is None && screen.mode == ReviewModeV1::BlindCalibration
            && screen.presentation is Some && screen.presentation->0.revealed is Some
            ==> view.submit_label@ == "Answer locked after automated output reveal"@,
        screen.adjudication is None && (screen.presentation is None
            || screen.presentation->0.revealed is None) && latest_answer(screen.presentation)
            is Some ==> view.submit_label@ == "Save review correction"@,
        screen.adjudication is None && (screen.presentation is None
            || screen.presentation->0.revealed is None) && latest_answer(screen.presentation)
            is None ==> view.submit_label@ == "Submit independent human answer"@,
{
    reveal_strlit("");
    if 0 <= place < 4 {
        let choice = view.answers@[place];
        assert(shows_choice(
            choice,
            "Answer "@,
            all_labels()[place].name(),
            screen.label == Some(all_labels()[place]),
        ));
        let told = "Answer "@ + all_labels()[place].name();
        assert(told + ""@ =~= told);
    }
    if 0 <= place < view.evidence@.len() {
        let key = available_evidence(screen)[place]@;
        let choice = view.evidence@[place];
        let keys = text::texts(screen.evidence_keys@);
        assert(choice.selected == keys.contains(key));
        if keys.contains(key) {
            let i = choose|i: int| 0 <= i < keys.len() && keys[i] == key;
            assert(screen.evidence_keys@[i]@ == key);
        }
        if exists|i: int|
            0 <= i < screen.evidence_keys@.len() && (#[trigger] screen.evidence_keys@[i])@ == key {
            let i = choose|i: int|
                0 <= i < screen.evidence_keys@.len() && (#[trigger] screen.evidence_keys@[i])@
                    == key;
            assert(keys[i] == key);
        }
    }
    if screen.adjudication is Some && 0 <= place < view.peers@.len() {
        assert(shows_peer(
            view.peers@[place],
            screen.adjudication->0.annotation_revisions@[place],
        ));
    }
}

/// The automated output is told with its verdict and raw score, or that none
/// was reported.
pub proof fn automated_output_is_told_in_full(view: AutomatedView, assessment: AssessmentOutput)
    requires
        shows_automated(view, assessment),
    ensures
        view.run@ == "Provider run: "@ + assessment.status@,
        assessment.evaluation is None ==> view.output@
            == "No learned-evaluator output was reported."@ && view.label@
            == "Automated output revealed after your answer. Provider run status "@
            + assessment.status@ + ". No learned-evaluator output was reported."@,
        assessment.evaluation is Some && assessment.evaluation->0.label is Some
            && assessment.evaluation->0.score is Some ==> view.output@
            == assessment.evaluation->0.label->0@ + " · raw score "@
            + assessment.evaluation->0.score->0@ && view.label@
            == "Automated output revealed after your answer. Provider run status "@
            + assessment.status@ + (". Learned verdict "@ + assessment.evaluation->0.label->0@
            + ". Raw score "@ + assessment.evaluation->0.score->0@ + "."@),
        assessment.evaluation is Some && assessment.evaluation->0.label is None
            && assessment.evaluation->0.score is None ==> view.output@ == "not reported"@
            + " · raw score "@ + "not reported"@,
{
}

/// The rubric is told with its instructions, positive class and version.
pub proof fn rubrics_name_the_positive_class(view: RubricView, schema: AnnotationSchemaReleaseV1)
    requires
        shows_rubric(view, schema),
    ensures
        view.instructions@ == schema.instructions@,
        view.note@ == "Positive class: "@ + schema.positive_class@ + " · schema "@
            + schema.schema_version@,
        view.label@ == "Review rubric. "@ + schema.instructions@ + " Positive class: "@
            + schema.positive_class@ + ". Schema "@ + schema.schema_version@ + "."@,
{
}

/// A case is told aloud by its trace, revision, split, reason, raters and
/// state; a claim by its mode.
pub proof fn cases_are_told_aloud(
    view: TaskRowView,
    detail: TaskDetail,
    screen: HumanReviewScreen,
    task: ReviewTaskV1,
)
    requires
        shows_task(view, screen, task),
        shows_detail(detail, screen),
    ensures
        view.label@ == "Review trace "@ + task.logical_trace_id@ + " revision "@ + text::decimal(
            task.revision as nat,
        ) + "; "@ + split_text(task.split) + "; "@ + selection_text(task.selection_reason)
            + "; "@ + text::decimal(task.required_reviewers as nat) + " raters; "@
            + view.status@,
        detail.label@ == detail.heading@ + ". "@ + detail.guidance@,
        detail.claim is Some ==> match detail.claim->0 {
            (shown, spoken) => {
                &&& screen.mode == ReviewModeV1::BlindCalibration ==> shown@
                    == "Claim blind review"@ && spoken@ == "Claim blind review"@
                &&& screen.mode == ReviewModeV1::VisibleTriage ==> shown@ == "Claim triage case"@
                    && spoken@ == "Claim visible triage case"@
            },
        },
{
}

/// An empty queue explains what its mode holds.
pub proof fn empty_queues_explain_their_mode(view: EmptyDetail, screen: HumanReviewScreen)
    requires
        shows_empty(view, screen),
        screen.tasks@.len() == 0,
    ensures
        screen.mode == ReviewModeV1::BlindCalibration ==> view.note->0@
            == "Start from completed learned assessments. Perseval freezes trace-level leakage groups and keeps a held-out test split."@
            && view.label@
            == "No blind calibration cases exist for this project. Start from completed learned assessments. Perseval freezes trace-level leakage groups and keeps a held-out test split."@,
        screen.mode == ReviewModeV1::VisibleTriage ==> view.note->0@
            == "Visible triage is deliberately excluded from calibration and agreement. Operator-opened cases appear here. Uncertainty-selected blind cases stay in Blind calibration and remain separate from the random-audit population."@
            && view.label@
            == "No visible triage cases exist for this project. Visible triage is deliberately excluded from calibration and agreement. Operator-opened cases appear here. Uncertainty-selected blind cases stay in Blind calibration and remain separate from the random-audit population."@,
{
}

} // verus!
