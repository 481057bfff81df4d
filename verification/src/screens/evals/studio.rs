//! Quality checks: composing, previewing and running them.

use crate::binary64::{self, Binary64};
use crate::components::text_input::TextInput;
use crate::design::tokens::Theme;
use crate::keyed;
use crate::offsets::{self, leading_bytes_of};
use crate::screens::failure_inbox::components::{self, diagnosis_fact, LabelledText};
use crate::screens::failure_inbox::model::{optional_text, same_optional};
use crate::screens::failure_inbox::state::{self, following_request};
use crate::sorting::{self, distinct_sorted_texts};
use crate::text::{
    self, append_decimal, concat2, concat3, concat4, concat5, decimal_text, length_text,
    parse_number, same_text, six_decimals_text, trim,
};
use vstd::prelude::*;
use vstd::string::*;

verus! {

/// How many runs of a quality check are listed.
pub const RUN_LIMIT: usize = 8;

/// How many of ten thousand traces are sampled automatically.
pub const SAMPLE_BASIS_POINTS: u32 = 1_000;

/// How many traces are sampled in a day at most.
pub const SAMPLES_PER_DAY: u32 = 100;

/// The fewest tokens that a judge is expected to answer with.
pub const OUTPUT_TOKENS_LOW: u64 = 96;

/// The most tokens that a judge is expected to answer with.
pub const OUTPUT_TOKENS_HIGH: u64 = 384;

/// How long to wait between two looks at a run.
pub const WATCH_MILLISECONDS: u64 = 250;

/// Where a judge runs.
#[derive(Debug, Clone, Copy, PartialEq, Eq, Structural)]
pub enum TaskCompletionExecutionRouteV1 {
    LocalOnnx,
    HostedOpenAi,
}

/// What a part of the taxonomy is about.
#[derive(Debug, Clone, Copy, PartialEq, Eq, Structural)]
pub enum TaxonomyDimensionV1 {
    Task,
    Capability,
    Policy,
    Other,
}

/// A part of the taxonomy.
#[derive(Debug)]
pub struct TaxonomyNode {
    pub node_id: String,
    pub dimension: TaxonomyDimensionV1,
}

/// A model on this machine.
#[derive(Debug)]
pub struct LocalTaskCompletionModelV1 {
    pub model_artifact_id: String,
    pub model_id: String,
}

/// What a quality check is judged by.
#[derive(Debug)]
pub enum EvaluationImplementationV1 {
    PromptJudge { requested_model: String, rubric: String },
    LocalClassifier { model_artifact_id: String },
    Other,
}

/// A judge that was published.
#[derive(Debug)]
pub struct EvaluatorRelease {
    pub name: String,
    pub implementation: EvaluationImplementationV1,
    pub applicable_taxonomy_node_ids: Vec<String>,
}

/// How a judge is run.
#[derive(Debug)]
pub struct TaskCompletionConfig {
    pub evaluator_release_id: String,
    pub context_release_id: String,
    pub pricing_version: String,
    pub estimated_output_tokens_low: u64,
    pub estimated_output_tokens_high: u64,
}

/// A quality check.
#[derive(Debug)]
pub struct TaskCompletionQualityCheckV1 {
    pub config: TaskCompletionConfig,
    pub evaluator: EvaluatorRelease,
    /// Whether traces are sampled automatically, where that was ever set.
    pub sampling: Option<bool>,
}

/// A run of a quality check.
#[derive(Debug)]
pub struct AssessmentJobV1 {
    pub job_id: String,
    pub evaluator_release_id: String,
    pub status: String,
    pub terminal_count: u64,
    pub item_count: u64,
    pub selection_hash: String,
}

/// A trace that a run would judge.
#[derive(Debug)]
pub struct PreviewTarget {
    pub logical_trace_id: String,
    pub revision: u64,
}

/// What a run would judge, and what that costs.
#[derive(Debug)]
pub struct AssessmentBackfillPreviewV1 {
    pub evaluator_release_id: String,
    pub selection_hash: String,
    pub targets: Vec<PreviewTarget>,
    pub target_count: u64,
    pub executable_count: u64,
    pub non_executable_count: u64,
    pub estimated_input_tokens_low: u64,
    pub estimated_input_tokens_high: u64,
    pub estimated_cost_micros_low: u64,
    pub estimated_cost_micros_high: u64,
}

/// The start of an identity.
pub open spec fn short(value: Seq<char>) -> Seq<char> {
    offsets::leading_bytes(value, 16)
}

/// The start of an identity.
pub fn short_id(value: &str) -> (head: &str)
    ensures
        head@ == short(value@),
{
    leading_bytes_of(value, 16)
}

/// An amount of millionths of a dollar, in dollars.
pub open spec fn cost(micros: u64) -> Seq<char> {
    "$"@ + text::six_decimals(
        binary64::to_parts(
            binary64::quotient(
                binary64::of_integer(micros as nat),
                binary64::of_integer(1_000_000),
            ),
            1_000_000,
        ),
    )
}

/// An amount of millionths of a dollar, in dollars.
pub fn format_cost(micros: u64) -> (shown: String)
    ensures
        shown@ == cost(micros),
{
    let dollars = Binary64::of_integer(micros).quotient(Binary64::of_integer(1_000_000));
    concat2("$", six_decimals_text(dollars.to_parts(1_000_000)).as_str())
}

/// Where quality checks are composed and run.
pub struct QualityCheckStudio {
    pub project_id: Option<String>,
    pub reviewer_ref: String,
    pub quality_checks: Vec<TaskCompletionQualityCheckV1>,
    pub selected_release_id: Option<String>,
    pub jobs: Vec<AssessmentJobV1>,
    pub preview: Option<AssessmentBackfillPreviewV1>,
    pub taxonomy: Vec<TaxonomyNode>,
    pub execution_route: TaskCompletionExecutionRouteV1,
    pub local_model: Option<LocalTaskCompletionModelV1>,
    pub name: TextInput,
    pub criteria: TextInput,
    pub model: TextInput,
    pub pricing_version: TextInput,
    pub input_rate: TextInput,
    pub output_rate: TextInput,
    pub busy: bool,
    pub error: Option<String>,
    pub notice: Option<String>,
    pub request_generation: u64,
}

/// A request for the quality checks of a project.
#[derive(Debug)]
pub struct StudioRequest {
    pub generation: u64,
    pub project_id: String,
}

/// The quality checks of a project.
#[derive(Debug)]
pub struct StudioContents {
    pub quality_checks: Vec<TaskCompletionQualityCheckV1>,
    pub jobs: Vec<AssessmentJobV1>,
    pub taxonomy: Vec<TaxonomyNode>,
    /// Whether the agent is set up.
    pub has_context: bool,
}

/// A quality check to publish.
#[derive(Debug)]
pub struct QualityCheckDraft {
    pub project_id: String,
    pub reviewer_ref: String,
    pub name: String,
    pub review_criteria: String,
    pub execution_route: TaskCompletionExecutionRouteV1,
    pub requested_model: String,
    pub applicable_taxonomy_node_ids: Vec<String>,
    pub estimated_output_tokens_low: u64,
    pub estimated_output_tokens_high: u64,
    pub input_cost_micros_per_million_tokens: u64,
    pub output_cost_micros_per_million_tokens: u64,
    pub pricing_version: String,
}

/// A request for what a run would judge.
#[derive(Debug)]
pub struct PreviewRequest {
    pub project_id: String,
    pub evaluator_release_id: String,
    pub context_release_id: String,
}

/// A request to run a quality check.
#[derive(Debug)]
pub struct RunRequest {
    pub project_id: String,
    pub evaluator_release_id: String,
    pub exact_revisions: Vec<(String, u64)>,
    pub selection_hash: String,
    pub idempotency_key: String,
}

/// A run to look at until it is done.
#[derive(Debug)]
pub struct WatchRequest {
    pub project_id: String,
    pub job_id: String,
}

/// What follows a look at a run.
#[derive(Debug, Clone, Copy, PartialEq, Eq, Structural)]
pub enum WatchStep {
    /// The run is not there.
    Missing,
    /// The run goes on; look again after some milliseconds.
    Wait(u64),
    /// Every trace has its result.
    Finished,
}

/// How a quality check is to be sampled.
#[derive(Debug)]
pub struct SamplingChange {
    pub project_id: String,
    pub evaluator_release_id: String,
    pub enabled: bool,
    pub sample_basis_points: u32,
    pub maximum_targets_per_utc_day: u32,
    pub updated_by: String,
    pub updated_at_unix_ms: i64,
}

/// What follows a look at a run.
pub fn watch_step(job: Option<&AssessmentJobV1>) -> (step: WatchStep)
    ensures
        step == (match job {
            Some(job) => if job.terminal_count >= job.item_count {
                WatchStep::Finished
            } else {
                WatchStep::Wait(WATCH_MILLISECONDS)
            },
            None => WatchStep::Missing,
        }),
{
    match job {
        Some(job) => if job.terminal_count >= job.item_count {
            WatchStep::Finished
        } else {
            WatchStep::Wait(WATCH_MILLISECONDS)
        },
        None => WatchStep::Missing,
    }
}

/// The first place of a quality check.
pub open spec fn place_of_check(
    checks: Seq<TaskCompletionQualityCheckV1>,
    release_id: Seq<char>,
) -> Option<int>
    decreases checks.len(),
{
    if checks.len() == 0 {
        None
    } else if checks[0].config.evaluator_release_id@ == release_id {
        Some(0)
    } else {
        match place_of_check(checks.drop_first(), release_id) {
            Some(place) => Some(place + 1),
            None => None,
        }
    }
}

fn find_check(checks: &Vec<TaskCompletionQualityCheckV1>, release_id: &String) -> (found: Option<
    usize,
>)
    ensures
        match found {
            Some(place) => place < checks@.len() && place_of_check(checks@, release_id@) == Some(
                place as int,
            ),
            None => place_of_check(checks@, release_id@) is None,
        },
{
    let mut index: usize = 0;
    assert(checks@.skip(0) =~= checks@);
    while index < checks.len()
        invariant
            index <= checks@.len(),
            place_of_check(checks@, release_id@) == (match place_of_check(
                checks@.skip(index as int),
                release_id@,
            ) {
                Some(place) => Some(place + index),
                None => None,
            }),
        decreases checks@.len() - index,
    {
        proof {
            assert(checks@.skip(index as int)[0] == checks@[index as int]);
            assert(checks@.skip(index as int).drop_first() =~= checks@.skip(index + 1));
        }
        if checks[index].config.evaluator_release_id == *release_id {
            return Some(index);
        }
        index += 1;
    }
    None
}

/// Whether a quality check can be about a part of the taxonomy.
pub open spec fn is_applicable(node: TaxonomyNode) -> bool {
    node.dimension != TaxonomyDimensionV1::Other
}

/// The parts of the taxonomy that a quality check can be about.
pub open spec fn applicable_nodes(nodes: Seq<TaxonomyNode>) -> Seq<Seq<char>> {
    nodes.filter(|node: TaxonomyNode| is_applicable(node)).map_values(
        |node: TaxonomyNode| node.node_id@,
    )
}

fn applicable_node_ids(nodes: &Vec<TaxonomyNode>) -> (ids: Vec<String>)
    ensures
        text::texts(ids@) == applicable_nodes(nodes@),
{
    let ghost keep = |node: TaxonomyNode| is_applicable(node);
    let mut ids: Vec<String> = Vec::new();
    let mut index: usize = 0;
    proof {
        reveal(Seq::filter);
        assert(nodes@.take(0) =~= Seq::empty());
        assert(text::texts(ids@) =~= applicable_nodes(nodes@.take(0)));
    }
    while index < nodes.len()
        invariant
            index <= nodes@.len(),
            keep == (|node: TaxonomyNode| is_applicable(node)),
            text::texts(ids@) == applicable_nodes(nodes@.take(index as int)),
        decreases nodes@.len() - index,
    {
        let ghost before = ids@;
        proof {
            keyed::lemma_filter_take(nodes@, index as int, keep);
        }
        let applicable = match nodes[index].dimension {
            TaxonomyDimensionV1::Task | TaxonomyDimensionV1::Capability
            | TaxonomyDimensionV1::Policy => true,
            TaxonomyDimensionV1::Other => false,
        };
        if applicable {
            ids.push(nodes[index].node_id.clone());
            assert(text::texts(ids@) =~= text::texts(before).push(nodes@[index as int].node_id@));
        }
        index += 1;
        assert(text::texts(ids@) =~= applicable_nodes(nodes@.take(index as int)));
    }
    assert(nodes@.take(index as int) =~= nodes@);
    ids
}

/// The exact traces of a preview.
pub open spec fn exact_revisions(targets: Seq<PreviewTarget>) -> Seq<(String, u64)> {
    targets.map_values(|target: PreviewTarget| (target.logical_trace_id, target.revision))
}

fn exact_revisions_of(targets: &Vec<PreviewTarget>) -> (revisions: Vec<(String, u64)>)
    ensures
        revisions@ == exact_revisions(targets@),
{
    let mut revisions: Vec<(String, u64)> = Vec::new();
    let mut index: usize = 0;
    while index < targets.len()
        invariant
            index <= targets@.len(),
            revisions@ == exact_revisions(targets@.take(index as int)),
        decreases targets@.len() - index,
    {
        revisions.push((targets[index].logical_trace_id.clone(), targets[index].revision));
        index += 1;
        assert(revisions@ =~= exact_revisions(targets@.take(index as int)));
    }
    assert(targets@.take(index as int) =~= targets@);
    revisions
}

/// What asking for the quality checks does: without a project there are none.
pub open spec fn reloads(
    before: QualityCheckStudio,
    after: QualityCheckStudio,
    request: Option<StudioRequest>,
) -> bool {
    let generation = state::next_request(before.request_generation);
    match before.project_id {
        Some(project_id) => {
            &&& after == (QualityCheckStudio {
                request_generation: generation,
                error: None,
                busy: true,
                ..before
            })
            &&& request == Some(StudioRequest { generation, project_id })
        },
        None => {
            &&& after == (QualityCheckStudio {
                request_generation: generation,
                error: None,
                quality_checks: after.quality_checks,
                jobs: after.jobs,
                taxonomy: after.taxonomy,
                ..before
            })
            &&& after.quality_checks@.len() == 0
            &&& after.jobs@.len() == 0
            &&& after.taxonomy@.len() == 0
            &&& request is None
        },
    }
}

fn filled_input(value: &str, placeholder: &str, maximum_bytes: usize) -> (input: TextInput)
    ensures
        input.filled(placeholder@, maximum_bytes as nat, value@),
{
    let mut input = TextInput::new(placeholder.to_owned(), maximum_bytes);
    input.set_text(value);
    input
}

impl QualityCheckStudio {
    /// A studio that has not loaded anything yet; judges run on this machine
    /// where there is a model for it.
    pub fn new(
        project_id: Option<String>,
        reviewer_ref: String,
        local_model: Option<LocalTaskCompletionModelV1>,
    ) -> (studio: Self)
        ensures
            studio.project_id == project_id,
            studio.reviewer_ref == reviewer_ref,
            studio.quality_checks@.len() == 0,
            studio.selected_release_id is None,
            studio.jobs@.len() == 0,
            studio.preview is None,
            studio.taxonomy@.len() == 0,
            studio.execution_route == (if local_model is Some {
                TaskCompletionExecutionRouteV1::LocalOnnx
            } else {
                TaskCompletionExecutionRouteV1::HostedOpenAi
            }),
            studio.local_model == local_model,
            studio.name.filled("Quality check name"@, 160, "Task completion"@),
            studio.criteria.filled(
                "Review criteria"@,
                4_096,
                "Return completed, partial, failed, or abstain. Evaluate each declared success criterion and cite every decision to exact observed trace evidence."@,
            ),
            studio.model.filled("Provider model"@, 160, "gpt-4.1-mini"@),
            studio.pricing_version.filled("Rate-card version"@, 160, ""@),
            studio.input_rate.filled("Input $/1M tokens in micros"@, 24, ""@),
            studio.output_rate.filled("Output $/1M tokens in micros"@, 24, ""@),
            !studio.busy,
            studio.error is None,
            studio.notice is None,
            studio.request_generation == 0,
    {
        let execution_route = if local_model.is_some() {
            TaskCompletionExecutionRouteV1::LocalOnnx
        } else {
            TaskCompletionExecutionRouteV1::HostedOpenAi
        };
        QualityCheckStudio {
            project_id,
            reviewer_ref,
            quality_checks: Vec::new(),
            selected_release_id: None,
            jobs: Vec::new(),
            preview: None,
            taxonomy: Vec::new(),
            execution_route,
            local_model,
            name: filled_input("Task completion", "Quality check name", 160),
            criteria: filled_input(
                "Return completed, partial, failed, or abstain. Evaluate each declared success criterion and cite every decision to exact observed trace evidence.",
                "Review criteria",
                4_096,
            ),
            model: filled_input("gpt-4.1-mini", "Provider model", 160),
            pricing_version: filled_input("", "Rate-card version", 160),
            input_rate: filled_input("", "Input $/1M tokens in micros", 24),
            output_rate: filled_input("", "Output $/1M tokens in micros", 24),
            busy: false,
            error: None,
            notice: None,
            request_generation: 0,
        }
    }

    /// Asks for the quality checks.
    pub fn reload(&mut self) -> (request: Option<StudioRequest>)
        ensures
            reloads(*old(self), *final(self), request),
    {
        self.request_generation = following_request(self.request_generation);
        self.error = None;
        let project_id = match &self.project_id {
            Some(project_id) => project_id.clone(),
            None => {
                self.quality_checks = Vec::new();
                self.jobs = Vec::new();
                self.taxonomy = Vec::new();
                return None;
            },
        };
        self.busy = true;
        Some(StudioRequest { generation: self.request_generation, project_id })
    }

    /// Shows the quality checks of another project.
    pub fn set_project_scope(&mut self, project_id: Option<String>) -> (request: Option<
        StudioRequest,
    >)
        ensures
            optional_text(old(self).project_id) == optional_text(project_id) ==> *final(self)
                == *old(self) && request is None,
            optional_text(old(self).project_id) != optional_text(project_id) ==> reloads(
                QualityCheckStudio {
                    project_id,
                    selected_release_id: None,
                    preview: None,
                    ..*old(self)
                },
                *final(self),
                request,
            ),
    {
        if same_optional(&self.project_id, &project_id) {
            return None;
        }
        self.project_id = project_id;
        self.selected_release_id = None;
        self.preview = None;
        self.reload()
    }

    /// Takes the quality checks; the first is selected where the selected one
    /// is not there. An answer to an earlier request changes nothing.
    pub fn finish_reload(&mut self, generation: u64, answer: Result<StudioContents, String>)
        ensures
            generation != old(self).request_generation ==> *final(self) == *old(self),
            generation == old(self).request_generation ==> match answer {
                Ok(contents) => {
                    let kept = match old(self).selected_release_id {
                        Some(selected) => place_of_check(contents.quality_checks@, selected@)
                            is Some,
                        None => false,
                    };
                    &&& *final(self) == (QualityCheckStudio {
                        busy: false,
                        quality_checks: contents.quality_checks,
                        jobs: contents.jobs,
                        taxonomy: contents.taxonomy,
                        selected_release_id: if kept {
                            old(self).selected_release_id
                        } else if contents.quality_checks@.len() > 0 {
                            Some(contents.quality_checks@[0].config.evaluator_release_id)
                        } else {
                            None
                        },
                        notice: final(self).notice,
                        ..*old(self)
                    })
                    &&& if contents.has_context {
                        final(self).notice == old(self).notice
                    } else {
                        optional_text(final(self).notice) == Some(
                            "Set up the agent in Settings before creating a quality check."@,
                        )
                    }
                },
                Err(error) => *final(self) == (QualityCheckStudio {
                    busy: false,
                    error: Some(error),
                    ..*old(self)
                }),
            },
    {
        if generation != self.request_generation {
            return;
        }
        self.busy = false;
        match answer {
            Ok(contents) => {
                self.quality_checks = contents.quality_checks;
                self.jobs = contents.jobs;
                self.taxonomy = contents.taxonomy;
                let kept = match &self.selected_release_id {
                    Some(selected) => find_check(&self.quality_checks, selected).is_some(),
                    None => false,
                };
                if !kept {
                    self.selected_release_id =
                    if self.quality_checks.len() > 0 {
                        Some(self.quality_checks[0].config.evaluator_release_id.clone())
                    } else {
                        None
                    };
                }
                if !contents.has_context {
                    self.notice =
                    Some(
                        "Set up the agent in Settings before creating a quality check.".to_owned(),
                    );
                }
            },
            Err(error) => {
                self.error = Some(error);
            },
        }
    }

    /// The selected quality check.
    pub open spec fn selection(self) -> Option<TaskCompletionQualityCheckV1> {
        match self.selected_release_id {
            Some(release_id) => match place_of_check(self.quality_checks@, release_id@) {
                Some(place) => Some(self.quality_checks@[place]),
                None => None,
            },
            None => None,
        }
    }

    /// The selected quality check.
    pub fn selected_check(&self) -> (found: Option<&TaskCompletionQualityCheckV1>)
        ensures
            match found {
                Some(check) => self.selection() == Some(*check),
                None => self.selection() is None,
            },
    {
        match &self.selected_release_id {
            Some(release_id) => match find_check(&self.quality_checks, release_id) {
                Some(place) => Some(&self.quality_checks[place]),
                None => None,
            },
            None => None,
        }
    }

    /// Selects a quality check.
    pub fn select_check(&mut self, index: usize)
        ensures
            *final(self) == (if index < old(self).quality_checks@.len() {
                QualityCheckStudio {
                    selected_release_id: Some(
                        old(self).quality_checks@[index as int].config.evaluator_release_id,
                    ),
                    preview: None,
                    notice: None,
                    ..*old(self)
                }
            } else {
                *old(self)
            }),
    {
        if index >= self.quality_checks.len() {
            return;
        }
        self.selected_release_id =
        Some(self.quality_checks[index].config.evaluator_release_id.clone());
        self.preview = None;
        self.notice = None;
    }

    /// Chooses where judges run: on this machine only where there is a model.
    pub fn select_execution_route(&mut self, route: TaskCompletionExecutionRouteV1)
        ensures
            if route == TaskCompletionExecutionRouteV1::LocalOnnx && old(self).local_model
                is None {
                &&& *final(self) == (QualityCheckStudio {
                    error: final(self).error,
                    ..*old(self)
                })
                &&& optional_text(final(self).error) == Some(
                    "Configure a verified local model artifact in Settings, then restart Perseval."@,
                )
            } else {
                *final(self) == (QualityCheckStudio {
                    execution_route: route,
                    error: None,
                    notice: None,
                    ..*old(self)
                })
            },
    {
        if route == TaskCompletionExecutionRouteV1::LocalOnnx && self.local_model.is_none() {
            self.error =
            Some(
                "Configure a verified local model artifact in Settings, then restart Perseval.".to_owned(),
            );
            return;
        }
        self.execution_route = route;
        self.error = None;
        self.notice = None;
    }

    /// The rates that were typed, where both are numbers.
    pub open spec fn typed_rates(self) -> Option<(nat, nat)> {
        match (
            text::parsed_number(text::trimmed(self.input_rate@.text)),
            text::parsed_number(text::trimmed(self.output_rate@.text)),
        ) {
            (Some(input), Some(output)) => Some((input, output)),
            _ => None,
        }
    }

    fn rates(&self) -> (rates: Option<(u64, u64)>)
        ensures
            match (self.typed_rates(), rates) {
                (Some((input, output)), Some((input_rate, output_rate))) => input_rate == input
                    && output_rate == output,
                (None, None) => true,
                _ => false,
            },
    {
        let input = parse_number(trim(self.input_rate.text()).as_str());
        let output = parse_number(trim(self.output_rate.text()).as_str());
        match (input, output) {
            (Some(input), Some(output)) => Some((input, output)),
            _ => None,
        }
    }

    /// Why a quality check cannot be published now.
    pub open spec fn publish_refusal(self) -> Option<Seq<char>> {
        if self.project_id is None {
            Some("Choose one project before publishing a quality check."@)
        } else if self.execution_route == TaskCompletionExecutionRouteV1::HostedOpenAi
            && self.typed_rates() is None {
            Some(
                "Enter the exact input and output rate-card amounts in micros per million tokens."@,
            )
        } else {
            None
        }
    }

    /// Whether a draft is what was typed; a judge on this machine has no
    /// criteria, model or rates of its own.
    pub open spec fn drafts(self, draft: QualityCheckDraft) -> bool {
        let hosted = self.execution_route == TaskCompletionExecutionRouteV1::HostedOpenAi;
        let typed = |input: TextInput|
            if hosted {
                text::trimmed(input@.text)
            } else {
                Seq::empty()
            };
        &&& self.project_id == Some(draft.project_id)
        &&& draft.reviewer_ref == self.reviewer_ref
        &&& draft.name@ == text::trimmed(self.name@.text)
        &&& draft.review_criteria@ == typed(self.criteria)
        &&& draft.execution_route == self.execution_route
        &&& draft.requested_model@ == typed(self.model)
        &&& draft.pricing_version@ == typed(self.pricing_version)
        &&& text::texts(draft.applicable_taxonomy_node_ids@) == sorting::distinct_sorted(
            applicable_nodes(self.taxonomy@),
        )
        &&& draft.estimated_output_tokens_low == OUTPUT_TOKENS_LOW
        &&& draft.estimated_output_tokens_high == OUTPUT_TOKENS_HIGH
        &&& (draft.input_cost_micros_per_million_tokens as nat,
            draft.output_cost_micros_per_million_tokens as nat) == (if hosted {
            self.typed_rates()->0
        } else {
            (0, 0)
        })
    }

    /// Publishes a quality check.
    pub fn publish(&mut self) -> (draft: Option<QualityCheckDraft>)
        ensures
            old(self).busy ==> *final(self) == *old(self) && draft is None,
            !old(self).busy ==> match old(self).publish_refusal() {
                Some(reason) => {
                    &&& *final(self) == (QualityCheckStudio {
                        error: final(self).error,
                        ..*old(self)
                    })
                    &&& optional_text(final(self).error) == Some(reason)
                    &&& draft is None
                },
                None => {
                    &&& *final(self) == (QualityCheckStudio {
                        busy: true,
                        error: None,
                        notice: final(self).notice,
                        ..*old(self)
                    })
                    &&& optional_text(final(self).notice) == Some("Creating the quality check…"@)
                    &&& draft is Some
                    &&& old(self).drafts(draft->0)
                },
            },
    {
        if self.busy {
            return None;
        }
        let project_id = match &self.project_id {
            Some(project_id) => project_id.clone(),
            None => {
                self.error =
                Some("Choose one project before publishing a quality check.".to_owned());
                return None;
            },
        };
        let hosted = self.execution_route == TaskCompletionExecutionRouteV1::HostedOpenAi;
        let (input_rate, output_rate) = if hosted {
            match self.rates() {
                Some(rates) => rates,
                None => {
                    self.error =
                    Some(
                        "Enter the exact input and output rate-card amounts in micros per million tokens.".to_owned(),
                    );
                    return None;
                },
            }
        } else {
            (0, 0)
        };
        let (review_criteria, requested_model, pricing_version) = if hosted {
            (
                trim(self.criteria.text()),
                trim(self.model.text()),
                trim(self.pricing_version.text()),
            )
        } else {
            (String::new(), String::new(), String::new())
        };
        let applicable_taxonomy_node_ids = distinct_sorted_texts(
            applicable_node_ids(&self.taxonomy),
        );
        let draft = QualityCheckDraft {
            project_id,
            reviewer_ref: self.reviewer_ref.clone(),
            name: trim(self.name.text()),
            review_criteria,
            execution_route: self.execution_route,
            requested_model,
            applicable_taxonomy_node_ids,
            estimated_output_tokens_low: OUTPUT_TOKENS_LOW,
            estimated_output_tokens_high: OUTPUT_TOKENS_HIGH,
            input_cost_micros_per_million_tokens: input_rate,
            output_cost_micros_per_million_tokens: output_rate,
            pricing_version,
        };
        self.busy = true;
        self.error = None;
        self.notice = Some("Creating the quality check…".to_owned());
        Some(draft)
    }

    /// Takes the quality check that was published, and asks for all.
    pub fn finish_publish(&mut self, answer: Result<String, String>) -> (request: Option<
        StudioRequest,
    >)
        ensures
            match answer {
                Ok(release_id) => {
                    &&& reloads(
                        QualityCheckStudio {
                            busy: false,
                            selected_release_id: Some(release_id),
                            notice: final(self).notice,
                            ..*old(self)
                        },
                        *final(self),
                        request,
                    )
                    &&& optional_text(final(self).notice) == Some(
                        "Quality check "@ + short(release_id@)
                            + " is ready. Preview the traces before running it."@,
                    )
                },
                Err(error) => {
                    &&& *final(self) == (QualityCheckStudio {
                        busy: false,
                        error: Some(error),
                        ..*old(self)
                    })
                    &&& request is None
                },
            },
    {
        self.busy = false;
        match answer {
            Ok(release_id) => {
                self.notice =
                Some(
                    concat3(
                        "Quality check ",
                        short_id(release_id.as_str()),
                        " is ready. Preview the traces before running it.",
                    ),
                );
                self.selected_release_id = Some(release_id);
                self.reload()
            },
            Err(error) => {
                self.error = Some(error);
                None
            },
        }
    }

    /// Asks for what a run of the selected quality check would judge.
    pub fn preview(&mut self) -> (request: Option<PreviewRequest>)
        ensures
            request == (match (old(self).project_id, old(self).selection()) {
                (Some(project_id), Some(check)) => if old(self).busy {
                    None
                } else {
                    Some(
                        PreviewRequest {
                            project_id,
                            evaluator_release_id: check.config.evaluator_release_id,
                            context_release_id: check.config.context_release_id,
                        },
                    )
                },
                _ => None,
            }),
            request is None ==> *final(self) == *old(self),
            request is Some ==> *final(self) == (QualityCheckStudio {
                busy: true,
                error: None,
                notice: final(self).notice,
                ..*old(self)
            }) && optional_text(final(self).notice) == Some("Preparing the trace preview…"@),
    {
        if self.busy {
            return None;
        }
        let project_id = match &self.project_id {
            Some(project_id) => project_id.clone(),
            None => {
                return None;
            },
        };
        let (evaluator_release_id, context_release_id) = match self.selected_check() {
            Some(check) => (
                check.config.evaluator_release_id.clone(),
                check.config.context_release_id.clone(),
            ),
            None => {
                return None;
            },
        };
        self.busy = true;
        self.error = None;
        self.notice = Some("Preparing the trace preview…".to_owned());
        Some(PreviewRequest { project_id, evaluator_release_id, context_release_id })
    }

    /// Takes what a run would judge.
    pub fn finish_preview(&mut self, answer: Result<AssessmentBackfillPreviewV1, String>)
        ensures
            match answer {
                Ok(preview) => {
                    &&& *final(self) == (QualityCheckStudio {
                        busy: false,
                        preview: Some(preview),
                        notice: final(self).notice,
                        ..*old(self)
                    })
                    &&& optional_text(final(self).notice) == Some(
                        "Preview ready. Perseval will recheck it before the run."@,
                    )
                },
                Err(error) => *final(self) == (QualityCheckStudio {
                    busy: false,
                    error: Some(error),
                    ..*old(self)
                }),
            },
    {
        self.busy = false;
        match answer {
            Ok(preview) => {
                self.notice =
                Some("Preview ready. Perseval will recheck it before the run.".to_owned());
                self.preview = Some(preview);
            },
            Err(error) => {
                self.error = Some(error);
            },
        }
    }

    /// Runs exactly what was previewed.
    pub fn run_preview(&mut self) -> (request: Option<RunRequest>)
        ensures
            match (old(self).project_id, old(self).preview, request) {
                (Some(project_id), Some(preview), Some(request)) => {
                    &&& !old(self).busy
                    &&& *final(self) == (QualityCheckStudio {
                        busy: true,
                        error: None,
                        notice: final(self).notice,
                        ..*old(self)
                    })
                    &&& optional_text(final(self).notice) == Some("Starting the quality check…"@)
                    &&& request.project_id == project_id
                    &&& request.evaluator_release_id == preview.evaluator_release_id
                    &&& request.exact_revisions@ == exact_revisions(preview.targets@)
                    &&& request.selection_hash == preview.selection_hash
                    &&& request.idempotency_key@ == "studio:"@ + short(
                        preview.evaluator_release_id@,
                    ) + ":"@ + preview.selection_hash@
                },
                (Some(_), Some(_), None) => old(self).busy && *final(self) == *old(self),
                (_, _, request) => request is None && *final(self) == *old(self),
            },
    {
        if self.busy {
            return None;
        }
        let project_id = match &self.project_id {
            Some(project_id) => project_id.clone(),
            None => {
                return None;
            },
        };
        let request = match &self.preview {
            Some(preview) => RunRequest {
                project_id,
                evaluator_release_id: preview.evaluator_release_id.clone(),
                exact_revisions: exact_revisions_of(&preview.targets),
                selection_hash: preview.selection_hash.clone(),
                idempotency_key: concat4(
                    "studio:",
                    short_id(preview.evaluator_release_id.as_str()),
                    ":",
                    preview.selection_hash.as_str(),
                ),
            },
            None => {
                return None;
            },
        };
        self.busy = true;
        self.error = None;
        self.notice = Some("Starting the quality check…".to_owned());
        Some(request)
    }

    /// Takes the run that was started; the quality checks are asked for, and
    /// the run is looked at until it is done.
    pub fn finish_run(&mut self, answer: Result<AssessmentJobV1, String>) -> (next: (
        Option<StudioRequest>,
        Option<WatchRequest>,
    ))
        ensures
            match answer {
                Ok(job) => {
                    &&& reloads(
                        QualityCheckStudio {
                            busy: false,
                            notice: final(self).notice,
                            ..*old(self)
                        },
                        *final(self),
                        next.0,
                    )
                    &&& optional_text(final(self).notice) == Some(
                        "Run "@ + short(job.job_id@) + " started for "@ + text::decimal(
                            job.item_count as nat,
                        ) + " trace(s)."@,
                    )
                    &&& next.1 == (match old(self).project_id {
                        Some(project_id) => Some(WatchRequest { project_id, job_id: job.job_id }),
                        None => None,
                    })
                },
                Err(error) => {
                    &&& *final(self) == (QualityCheckStudio {
                        busy: false,
                        error: final(self).error,
                        ..*old(self)
                    })
                    &&& optional_text(final(self).error) == Some(
                        "The traces changed before the run. Preview them again: "@ + error@,
                    )
                    &&& next.0 is None
                    &&& next.1 is None
                },
            },
    {
        self.busy = false;
        match answer {
            Ok(job) => {
                self.notice =
                Some(
                    concat5(
                        "Run ",
                        short_id(job.job_id.as_str()),
                        " started for ",
                        decimal_text(job.item_count).as_str(),
                        " trace(s).",
                    ),
                );
                let request = self.reload();
                let watch = match &self.project_id {
                    Some(project_id) => Some(
                        WatchRequest { project_id: project_id.clone(), job_id: job.job_id },
                    ),
                    None => None,
                };
                (request, watch)
            },
            Err(error) => {
                self.error =
                Some(
                    concat2(
                        "The traces changed before the run. Preview them again: ",
                        error.as_str(),
                    ),
                );
                (None, None)
            },
        }
    }

    /// Takes that a run is done, and asks for the quality checks.
    pub fn finish_watch(&mut self, answer: Result<AssessmentJobV1, String>) -> (request: Option<
        StudioRequest,
    >)
        ensures
            match answer {
                Ok(job) => {
                    &&& reloads(
                        QualityCheckStudio { notice: final(self).notice, ..*old(self) },
                        *final(self),
                        request,
                    )
                    &&& optional_text(final(self).notice) == Some(
                        "Run "@ + short(job.job_id@) + " finished: "@ + text::decimal(
                            job.terminal_count as nat,
                        ) + " of "@ + text::decimal(job.item_count as nat)
                            + " traces reached a final result."@,
                    )
                },
                Err(error) => {
                    &&& *final(self) == (QualityCheckStudio {
                        error: final(self).error,
                        ..*old(self)
                    })
                    &&& optional_text(final(self).error) == Some(
                        "Could not refresh the quality check: "@ + error@,
                    )
                    &&& request is None
                },
            },
    {
        match answer {
            Ok(job) => {
                let mut notice = concat3("Run ", short_id(job.job_id.as_str()), " finished: ");
                append_decimal(&mut notice, job.terminal_count);
                notice.append(" of ");
                append_decimal(&mut notice, job.item_count);
                notice.append(" traces reached a final result.");
                self.notice = Some(notice);
                self.reload()
            },
            Err(error) => {
                self.error =
                Some(concat2("Could not refresh the quality check: ", error.as_str()));
                None
            },
        }
    }

    /// Switches the automatic sampling of the selected quality check.
    pub fn toggle_sampling(&mut self, now_unix_ms: i64) -> (change: Option<SamplingChange>)
        ensures
            match (old(self).project_id, old(self).selection(), change) {
                (Some(project_id), Some(check), Some(change)) => {
                    let enabled = check.sampling != Some(true);
                    &&& !old(self).busy
                    &&& *final(self) == (QualityCheckStudio {
                        busy: true,
                        error: None,
                        ..*old(self)
                    })
                    &&& change == (SamplingChange {
                        project_id,
                        evaluator_release_id: check.config.evaluator_release_id,
                        enabled,
                        sample_basis_points: if enabled {
                            SAMPLE_BASIS_POINTS
                        } else {
                            0
                        },
                        maximum_targets_per_utc_day: if enabled {
                            SAMPLES_PER_DAY
                        } else {
                            0
                        },
                        updated_by: old(self).reviewer_ref,
                        updated_at_unix_ms: now_unix_ms,
                    })
                },
                (Some(_), Some(_), None) => old(self).busy && *final(self) == *old(self),
                (_, _, change) => change is None && *final(self) == *old(self),
            },
    {
        if self.busy {
            return None;
        }
        let project_id = match &self.project_id {
            Some(project_id) => project_id.clone(),
            None => {
                return None;
            },
        };
        let (evaluator_release_id, enabled) = match self.selected_check() {
            Some(check) => (check.config.evaluator_release_id.clone(), !is_sampled(check)),
            None => {
                return None;
            },
        };
        let updated_by = self.reviewer_ref.clone();
        self.busy = true;
        self.error = None;
        Some(
            SamplingChange {
                project_id,
                evaluator_release_id,
                enabled,
                sample_basis_points: if enabled {
                    SAMPLE_BASIS_POINTS
                } else {
                    0
                },
                maximum_targets_per_utc_day: if enabled {
                    SAMPLES_PER_DAY
                } else {
                    0
                },
                updated_by,
                updated_at_unix_ms: now_unix_ms,
            },
        )
    }

    /// Takes that the sampling was switched, and asks for the quality checks.
    pub fn finish_sampling(&mut self, enabled: bool, answer: Result<(), String>) -> (request: Option<
        StudioRequest,
    >)
        ensures
            match answer {
                Ok(_) => {
                    &&& reloads(
                        QualityCheckStudio {
                            busy: false,
                            notice: final(self).notice,
                            ..*old(self)
                        },
                        *final(self),
                        request,
                    )
                    &&& optional_text(final(self).notice) == Some(
                        if enabled {
                            "Automatic 10% sampling is on, capped at 100 traces per day."@
                        } else {
                            "Automatic sampling is off. You can still run this check manually."@
                        },
                    )
                },
                Err(error) => {
                    &&& *final(self) == (QualityCheckStudio {
                        busy: false,
                        error: Some(error),
                        ..*old(self)
                    })
                    &&& request is None
                },
            },
    {
        self.busy = false;
        match answer {
            Ok(_) => {
                self.notice =
                Some(
                    if enabled {
                        "Automatic 10% sampling is on, capped at 100 traces per day."
                    } else {
                        "Automatic sampling is off. You can still run this check manually."
                    }.to_owned(),
                );
                self.reload()
            },
            Err(error) => {
                self.error = Some(error);
                None
            },
        }
    }
}

fn is_sampled(check: &TaskCompletionQualityCheckV1) -> (sampled: bool)
    ensures
        sampled == (check.sampling == Some(true)),
{
    match check.sampling {
        Some(enabled) => enabled,
        None => false,
    }
}

/// What is shown where a quality check is composed.
#[derive(Debug)]
pub struct BuilderView {
    pub local_selected: bool,
    pub hosted_selected: bool,
    /// Whether judges can run on this machine.
    pub local_available: bool,
    pub note: &'static str,
    pub ready: bool,
    pub publish_label: &'static str,
}

/// Whether what was typed is complete.
pub open spec fn can_publish(studio: QualityCheckStudio) -> bool {
    let typed = |input: TextInput| text::trimmed(input@.text).len() > 0;
    &&& studio.project_id is Some
    &&& !studio.busy
    &&& typed(studio.name)
    &&& studio.execution_route == TaskCompletionExecutionRouteV1::LocalOnnx || (typed(
        studio.criteria,
    ) && typed(studio.model) && typed(studio.pricing_version) && studio.typed_rates() is Some)
}

/// What is shown where a quality check is composed.
pub open spec fn shows_builder(view: BuilderView, studio: QualityCheckStudio) -> bool {
    let local = studio.execution_route == TaskCompletionExecutionRouteV1::LocalOnnx;
    &&& view.local_selected == local
    &&& view.hosted_selected == !local
    &&& view.local_available == (studio.local_model is Some)
    &&& view.note@ == (if local {
        "Trace evidence stays on this Mac. Traces with missing context are skipped."@
    } else {
        "Sends redacted summaries to OpenAI. Traces with missing context are skipped."@
    })
    &&& view.ready == can_publish(studio)
    &&& view.publish_label@ == (if can_publish(studio) {
        "Publish immutable task-completion quality check"@
    } else if local && studio.local_model is None {
        "Publishing unavailable until a verified local model is configured in Settings"@
    } else {
        "Publishing unavailable until project, specification, model, and exact rate card are complete"@
    })
}

fn is_typed(input: &TextInput) -> (typed: bool)
    ensures
        typed == (text::trimmed(input@.text).len() > 0),
{
    !trim(input.text()).as_str().is_empty()
}

/// What the judge of a quality check is called.
pub open spec fn model_text(
    implementation: EvaluationImplementationV1,
    local_model: Option<LocalTaskCompletionModelV1>,
) -> Seq<char> {
    match implementation {
        EvaluationImplementationV1::PromptJudge { requested_model, .. } => "OpenAI "@
            + requested_model@,
        EvaluationImplementationV1::LocalClassifier { model_artifact_id } => match local_model {
            Some(model) => if model.model_artifact_id@ == model_artifact_id@ {
                "Local "@ + model.model_id@
            } else {
                "Local "@ + short(model_artifact_id@)
            },
            None => "Local "@ + short(model_artifact_id@),
        },
        EvaluationImplementationV1::Other => "Unsupported runtime"@,
    }
}

/// Where the judge of a quality check runs.
pub open spec fn route_text(implementation: EvaluationImplementationV1) -> Seq<char> {
    match implementation {
        EvaluationImplementationV1::PromptJudge { .. } => "OpenAI"@,
        EvaluationImplementationV1::LocalClassifier { .. } => "On this Mac"@,
        EvaluationImplementationV1::Other => "Unavailable"@,
    }
}

/// A quality check as it is listed.
#[derive(Debug)]
pub struct CheckRow {
    pub name: String,
    pub label: String,
    pub summary: String,
    pub selected: bool,
}

/// A quality check as it is listed.
pub open spec fn shows_check(
    row: CheckRow,
    studio: QualityCheckStudio,
    check: TaskCompletionQualityCheckV1,
) -> bool {
    let sampled = check.sampling == Some(true);
    &&& row.name@ == check.evaluator.name@
    &&& row.label@ == "Quality check "@ + check.evaluator.name@ + ", release "@ + short(
        check.config.evaluator_release_id@,
    ) + ", model "@ + model_text(check.evaluator.implementation, studio.local_model)
        + ", sampling "@ + (if sampled {
        "enabled"@
    } else {
        "disabled"@
    })
    &&& row.summary@ == route_text(check.evaluator.implementation) + " · "@ + (if sampled {
        "automatic 10% sampling"@
    } else {
        "manual runs"@
    })
    &&& row.selected == (optional_text(studio.selected_release_id) == Some(
        check.config.evaluator_release_id@,
    ))
}

/// A run as it is listed.
#[derive(Debug)]
pub struct RunRow {
    pub progress: String,
    pub identity: String,
}

/// A run as it is listed.
pub open spec fn shows_run(row: RunRow, job: AssessmentJobV1) -> bool {
    &&& row.progress@ == job.status@ + " · "@ + text::decimal(job.terminal_count as nat) + "/"@
        + text::decimal(job.item_count as nat) + " terminal"@
    &&& row.identity@ == short(job.job_id@) + " · selection "@ + short(job.selection_hash@)
}

/// The runs of a quality check.
pub open spec fn runs_of(jobs: Seq<AssessmentJobV1>, release_id: Seq<char>) -> Seq<
    AssessmentJobV1,
> {
    jobs.filter(|job: AssessmentJobV1| job.evaluator_release_id@ == release_id)
}

/// The first runs of a quality check.
pub open spec fn listed_runs(jobs: Seq<AssessmentJobV1>, release_id: Seq<char>) -> Seq<
    AssessmentJobV1,
> {
    let runs = runs_of(jobs, release_id);
    if runs.len() > RUN_LIMIT {
        runs.take(RUN_LIMIT as int)
    } else {
        runs
    }
}

fn run_row(job: &AssessmentJobV1) -> (row: RunRow)
    ensures
        shows_run(row, *job),
{
    let mut progress = concat2(job.status.as_str(), " · ");
    append_decimal(&mut progress, job.terminal_count);
    progress.append("/");
    append_decimal(&mut progress, job.item_count);
    progress.append(" terminal");
    RunRow {
        progress,
        identity: concat3(
            short_id(job.job_id.as_str()),
            " · selection ",
            short_id(job.selection_hash.as_str()),
        ),
    }
}

fn run_rows(jobs: &Vec<AssessmentJobV1>, release_id: &str) -> (rows: Vec<RunRow>)
    ensures
        rows@.len() == listed_runs(jobs@, release_id@).len(),
        forall|i: int|
            0 <= i < rows@.len() ==> shows_run(
                #[trigger] rows@[i],
                listed_runs(jobs@, release_id@)[i],
            ),
{
    let ghost keep = |job: AssessmentJobV1| job.evaluator_release_id@ == release_id@;
    let mut rows: Vec<RunRow> = Vec::new();
    let mut index: usize = 0;
    proof {
        reveal(Seq::filter);
        assert(jobs@.take(0) =~= Seq::empty());
        assert(runs_of(jobs@.take(0), release_id@) =~= Seq::empty());
    }
    while index < jobs.len()
        invariant
            index <= jobs@.len(),
            keep == (|job: AssessmentJobV1| job.evaluator_release_id@ == release_id@),
            rows@.len() == listed_runs(jobs@.take(index as int), release_id@).len(),
            forall|i: int|
                0 <= i < rows@.len() ==> shows_run(
                    #[trigger] rows@[i],
                    listed_runs(jobs@.take(index as int), release_id@)[i],
                ),
        decreases jobs@.len() - index,
    {
        let ghost before = runs_of(jobs@.take(index as int), release_id@);
        let ghost listed = listed_runs(jobs@.take(index as int), release_id@);
        proof {
            keyed::lemma_filter_take(jobs@, index as int, keep);
        }
        if rows.len() < RUN_LIMIT && same_text(
            jobs[index].evaluator_release_id.as_str(),
            release_id,
        ) {
            rows.push(run_row(&jobs[index]));
        }
        index += 1;
        proof {
            let after = listed_runs(jobs@.take(index as int), release_id@);
            assert forall|i: int| 0 <= i < listed.len() implies after[i] == listed[i] by {}
        }
    }
    assert(jobs@.take(index as int) =~= jobs@);
    rows
}

/// How a quality check decides.
pub open spec fn rubric_text(implementation: EvaluationImplementationV1) -> Seq<char> {
    match implementation {
        EvaluationImplementationV1::PromptJudge { rubric, .. } => rubric@,
        EvaluationImplementationV1::LocalClassifier { .. } =>
            "Checks completion against the approved success criteria."@,
        EvaluationImplementationV1::Other => "This release does not use a prompt rubric."@,
    }
}

/// How a quality check is run.
pub open spec fn execution_text(check: TaskCompletionQualityCheckV1) -> Seq<char> {
    match check.evaluator.implementation {
        EvaluationImplementationV1::PromptJudge { requested_model, .. } =>
            "OpenAI · requested "@ + requested_model@ + " · "@ + check.config.pricing_version@
            + " · output estimate "@ + text::decimal(
            check.config.estimated_output_tokens_low as nat,
        ) + "–"@ + text::decimal(check.config.estimated_output_tokens_high as nat) + " tokens"@,
        EvaluationImplementationV1::LocalClassifier { .. } => "On this Mac · $0 provider cost"@,
        EvaluationImplementationV1::Other => "Unsupported evaluator implementation"@,
    }
}

/// The details of a quality check.
pub open spec fn check_facts(check: TaskCompletionQualityCheckV1) -> Seq<components::FactContent> {
    seq![
        components::fact(
            "Decision"@,
            rubric_text(check.evaluator.implementation),
            Theme::MUTED,
        ),
        components::fact("Runs"@, execution_text(check), Theme::MUTED),
        components::fact(
            "Data"@,
            match check.evaluator.implementation {
                EvaluationImplementationV1::LocalClassifier { .. } => "Stays on this Mac"@,
                _ => "Redacted summaries are sent to OpenAI"@,
            },
            Theme::MUTED,
        ),
        components::fact(
            "Scope"@,
            text::decimal(check.evaluator.applicable_taxonomy_node_ids@.len()) + " task type(s)"@,
            Theme::MUTED,
        ),
    ]
}

/// The details of a preview.
pub open spec fn preview_facts(preview: AssessmentBackfillPreviewV1) -> Seq<
    components::FactContent,
> {
    seq![
        components::fact(
            "Traces"@,
            text::decimal(preview.target_count as nat) + " selected · "@ + text::decimal(
                preview.executable_count as nat,
            ) + " ready · "@ + text::decimal(preview.non_executable_count as nat) + " skipped"@,
            Theme::MUTED,
        ),
        components::fact(
            "Estimated input"@,
            text::decimal(preview.estimated_input_tokens_low as nat) + "–"@ + text::decimal(
                preview.estimated_input_tokens_high as nat,
            ) + " tokens"@,
            Theme::MUTED,
        ),
        components::fact(
            "Estimated cost"@,
            cost(preview.estimated_cost_micros_low) + "–"@ + cost(
                preview.estimated_cost_micros_high,
            ),
            Theme::MUTED,
        ),
    ]
}

fn detail_row(label: &str, value: &str) -> (row: LabelledText)
    ensures
        row@ == components::fact(label@, value@, Theme::MUTED),
{
    diagnosis_fact(label, value, Theme::MUTED)
}

/// What is shown of the selected quality check.
#[derive(Debug)]
pub struct SelectedCheckView {
    pub name: String,
    pub version: String,
    pub details: Vec<LabelledText>,
    pub sampling_action: &'static str,
    /// Whether a preview can be asked for, and the sampling be switched.
    pub actions_enabled: bool,
    pub preview: Option<Vec<LabelledText>>,
    pub run_enabled: bool,
    pub runs: Vec<RunRow>,
}

/// What is shown of the selected quality check.
pub open spec fn shows_selected(
    view: SelectedCheckView,
    studio: QualityCheckStudio,
    check: TaskCompletionQualityCheckV1,
) -> bool {
    let release_id = check.config.evaluator_release_id@;
    &&& view.name@ == check.evaluator.name@
    &&& view.version@ == "Approved version "@ + short(release_id)
    &&& components::facts(view.details@) == check_facts(check)
    &&& view.sampling_action@ == (if check.sampling == Some(true) {
        "Disable 10% sampling"@
    } else {
        "Enable 10% sampling"@
    })
    &&& view.actions_enabled == !studio.busy
    &&& match (studio.preview, view.preview) {
        (Some(preview), Some(details)) => components::facts(details@) == preview_facts(preview),
        (None, None) => true,
        _ => false,
    }
    &&& view.run_enabled == (!studio.busy && studio.preview is Some)
    &&& view.runs@.len() == listed_runs(studio.jobs@, release_id).len()
    &&& forall|i: int|
        0 <= i < view.runs@.len() ==> shows_run(
            #[trigger] view.runs@[i],
            listed_runs(studio.jobs@, release_id)[i],
        )
}

fn execution_of(check: &TaskCompletionQualityCheckV1) -> (execution: String)
    ensures
        execution@ == execution_text(*check),
{
    match &check.evaluator.implementation {
        EvaluationImplementationV1::PromptJudge { requested_model, .. } => {
            let mut execution = concat5(
                "OpenAI · requested ",
                requested_model.as_str(),
                " · ",
                check.config.pricing_version.as_str(),
                " · output estimate ",
            );
            append_decimal(&mut execution, check.config.estimated_output_tokens_low);
            execution.append("–");
            append_decimal(&mut execution, check.config.estimated_output_tokens_high);
            execution.append(" tokens");
            execution
        },
        EvaluationImplementationV1::LocalClassifier { .. } => {
            "On this Mac · $0 provider cost".to_owned()
        },
        EvaluationImplementationV1::Other => "Unsupported evaluator implementation".to_owned(),
    }
}

fn check_details(check: &TaskCompletionQualityCheckV1) -> (details: Vec<LabelledText>)
    ensures
        components::facts(details@) == check_facts(*check),
{
    let rubric = match &check.evaluator.implementation {
        EvaluationImplementationV1::PromptJudge { rubric, .. } => rubric.as_str(),
        EvaluationImplementationV1::LocalClassifier { .. } => {
            "Checks completion against the approved success criteria."
        },
        EvaluationImplementationV1::Other => "This release does not use a prompt rubric.",
    };
    let data = match &check.evaluator.implementation {
        EvaluationImplementationV1::LocalClassifier { .. } => "Stays on this Mac",
        _ => "Redacted summaries are sent to OpenAI",
    };
    let mut details: Vec<LabelledText> = Vec::new();
    details.push(detail_row("Decision", rubric));
    details.push(detail_row("Runs", execution_of(check).as_str()));
    details.push(detail_row("Data", data));
    details.push(
        detail_row(
            "Scope",
            concat2(
                length_text(check.evaluator.applicable_taxonomy_node_ids.len()).as_str(),
                " task type(s)",
            ).as_str(),
        ),
    );
    assert(components::facts(details@) =~= check_facts(*check));
    details
}

fn preview_details(preview: &AssessmentBackfillPreviewV1) -> (details: Vec<LabelledText>)
    ensures
        components::facts(details@) == preview_facts(*preview),
{
    let mut traces = decimal_text(preview.target_count);
    traces.append(" selected · ");
    append_decimal(&mut traces, preview.executable_count);
    traces.append(" ready · ");
    append_decimal(&mut traces, preview.non_executable_count);
    traces.append(" skipped");
    let mut tokens = decimal_text(preview.estimated_input_tokens_low);
    tokens.append("–");
    append_decimal(&mut tokens, preview.estimated_input_tokens_high);
    tokens.append(" tokens");
    let price = concat3(
        format_cost(preview.estimated_cost_micros_low).as_str(),
        "–",
        format_cost(preview.estimated_cost_micros_high).as_str(),
    );
    let mut details: Vec<LabelledText> = Vec::new();
    details.push(detail_row("Traces", traces.as_str()));
    details.push(detail_row("Estimated input", tokens.as_str()));
    details.push(detail_row("Estimated cost", price.as_str()));
    assert(components::facts(details@) =~= preview_facts(*preview));
    details
}

impl QualityCheckStudio {
    /// What is shown where a quality check is composed.
    pub fn render_builder(&self) -> (view: BuilderView)
        ensures
            shows_builder(view, *self),
    {
        let local = self.execution_route == TaskCompletionExecutionRouteV1::LocalOnnx;
        let judge_ready = local || (is_typed(&self.criteria) && is_typed(&self.model) && is_typed(
            &self.pricing_version,
        ) && self.rates().is_some());
        let ready = self.project_id.is_some() && !self.busy && is_typed(&self.name) && judge_ready;
        BuilderView {
            local_selected: local,
            hosted_selected: !local,
            local_available: self.local_model.is_some(),
            note: if local {
                "Trace evidence stays on this Mac. Traces with missing context are skipped."
            } else {
                "Sends redacted summaries to OpenAI. Traces with missing context are skipped."
            },
            ready,
            publish_label: if ready {
                "Publish immutable task-completion quality check"
            } else if local && self.local_model.is_none() {
                "Publishing unavailable until a verified local model is configured in Settings"
            } else {
                "Publishing unavailable until project, specification, model, and exact rate card are complete"
            },
        }
    }

    fn model_label(&self, implementation: &EvaluationImplementationV1) -> (label: String)
        ensures
            label@ == model_text(*implementation, self.local_model),
    {
        match implementation {
            EvaluationImplementationV1::PromptJudge { requested_model, .. } => concat2(
                "OpenAI ",
                requested_model.as_str(),
            ),
            EvaluationImplementationV1::LocalClassifier { model_artifact_id } => {
                if let Some(model) = &self.local_model {
                    if same_text(model.model_artifact_id.as_str(), model_artifact_id.as_str()) {
                        return concat2("Local ", model.model_id.as_str());
                    }
                }
                concat2("Local ", short_id(model_artifact_id.as_str()))
            },
            EvaluationImplementationV1::Other => "Unsupported runtime".to_owned(),
        }
    }

    fn check_row(&self, check: &TaskCompletionQualityCheckV1) -> (row: CheckRow)
        ensures
            shows_check(row, *self, *check),
    {
        let sampled = is_sampled(check);
        let route = match &check.evaluator.implementation {
            EvaluationImplementationV1::PromptJudge { .. } => "OpenAI",
            EvaluationImplementationV1::LocalClassifier { .. } => "On this Mac",
            EvaluationImplementationV1::Other => "Unavailable",
        };
        let mut label = concat5(
            "Quality check ",
            check.evaluator.name.as_str(),
            ", release ",
            short_id(check.config.evaluator_release_id.as_str()),
            ", model ",
        );
        label.append(self.model_label(&check.evaluator.implementation).as_str());
        label.append(", sampling ");
        label.append(
            if sampled {
                "enabled"
            } else {
                "disabled"
            },
        );
        let selected = match &self.selected_release_id {
            Some(release_id) => same_text(
                release_id.as_str(),
                check.config.evaluator_release_id.as_str(),
            ),
            None => false,
        };
        CheckRow {
            name: check.evaluator.name.clone(),
            label,
            summary: concat3(
                route,
                " · ",
                if sampled {
                    "automatic 10% sampling"
                } else {
                    "manual runs"
                },
            ),
            selected,
        }
    }

    /// What is shown of the quality checks.
    pub fn render_checks(&self) -> (rows: Vec<CheckRow>)
        ensures
            rows@.len() == self.quality_checks@.len(),
            forall|i: int|
                0 <= i < rows@.len() ==> shows_check(
                    #[trigger] rows@[i],
                    *self,
                    self.quality_checks@[i],
                ),
    {
        let mut rows: Vec<CheckRow> = Vec::new();
        let mut index: usize = 0;
        while index < self.quality_checks.len()
            invariant
                index <= self.quality_checks@.len(),
                rows@.len() == index,
                forall|i: int|
                    0 <= i < rows@.len() ==> shows_check(
                        #[trigger] rows@[i],
                        *self,
                        self.quality_checks@[i],
                    ),
            decreases self.quality_checks@.len() - index,
        {
            rows.push(self.check_row(&self.quality_checks[index]));
            index += 1;
        }
        rows
    }

    /// What is shown of the selected quality check, if there is one.
    pub fn render_selected(&self) -> (view: Option<SelectedCheckView>)
        ensures
            match (self.selection(), view) {
                (Some(check), Some(view)) => shows_selected(view, *self, check),
                (None, None) => true,
                _ => false,
            },
    {
        let check = match self.selected_check() {
            Some(check) => check,
            None => {
                return None;
            },
        };
        let release_id = check.config.evaluator_release_id.as_str();
        Some(
            SelectedCheckView {
                name: check.evaluator.name.clone(),
                version: concat2("Approved version ", short_id(release_id)),
                details: check_details(check),
                sampling_action: if is_sampled(check) {
                    "Disable 10% sampling"
                } else {
                    "Enable 10% sampling"
                },
                actions_enabled: !self.busy,
                preview: match &self.preview {
                    Some(preview) => Some(preview_details(preview)),
                    None => None,
                },
                run_enabled: !self.busy && self.preview.is_some(),
                runs: run_rows(&self.jobs, release_id),
            },
        )
    }
}

/// What may be published is never refused.
pub proof fn ready_checks_are_published(studio: QualityCheckStudio, view: BuilderView)
    requires
        shows_builder(view, studio),
        view.ready,
    ensures
        !studio.busy,
        studio.publish_refusal() is None,
{
}

/// A check is found at the first place that has its release, and nowhere where
/// none has it.
pub proof fn checks_are_found_by_release(checks: Seq<TaskCompletionQualityCheckV1>, release_id: Seq<char>)
    ensures
        match place_of_check(checks, release_id) {
            Some(place) => {
                &&& 0 <= place < checks.len()
                &&& checks[place].config.evaluator_release_id@ == release_id
                &&& forall|i: int| 0 <= i < place ==> (#[trigger] checks[i]).config.evaluator_release_id@ != release_id
            },
            None => forall|i: int|
                0 <= i < checks.len() ==> (#[trigger] checks[i]).config.evaluator_release_id@ != release_id,
        },
    decreases checks.len(),
{
    if checks.len() > 0 && checks[0].config.evaluator_release_id@ != release_id {
        let rest = checks.drop_first();
        checks_are_found_by_release(rest, release_id);
        let end = match place_of_check(rest, release_id) {
            Some(place) => place,
            None => rest.len() as int,
        };
        assert forall|i: int| 0 <= i < end + 1 implies (#[trigger] checks[i]).config.evaluator_release_id@
            != release_id by {
            if i > 0 {
                assert(rest[i - 1] == checks[i]);
            }
        }
    }
}

/// Identities are shown by their first sixteen bytes.
pub proof fn identities_are_shown_by_sixteen_bytes(value: Seq<char>)
    requires
        forall|i: int| 0 <= i < value.len() ==> (#[trigger] value[i]) as u32 <= 0x7f,
    ensures
        value.len() <= 16 ==> short(value) == value,
        value.len() > 16 ==> short(value) == value.take(16),
{
    offsets::plain_texts_are_cut_to_the_limit(value, 16);
}

/// A check applies to every task type of a known dimension.
pub proof fn checks_apply_to_known_dimensions(nodes: Seq<TaxonomyNode>, node: TaxonomyNode)
    ensures
        applicable_nodes(Seq::empty()).len() == 0,
        node.dimension == TaxonomyDimensionV1::Other ==> applicable_nodes(nodes.push(node))
            == applicable_nodes(nodes),
        node.dimension != TaxonomyDimensionV1::Other ==> applicable_nodes(nodes.push(node))
            == applicable_nodes(nodes).push(node.node_id@),
{
    let keep = |node: TaxonomyNode| is_applicable(node);
    reveal(Seq::filter);
    assert(nodes.push(node).drop_last() =~= nodes);
    let name = |node: TaxonomyNode| node.node_id@;
    let kept = nodes.filter(keep);
    assert(kept.push(node).map_values(name) =~= kept.map_values(name).push(node.node_id@));
}

/// A preview is for the exact revisions that were chosen, in their order.
pub proof fn previews_name_exact_revisions(targets: Seq<PreviewTarget>)
    ensures
        exact_revisions(targets).len() == targets.len(),
        forall|i: int|
            0 <= i < targets.len() ==> #[trigger] exact_revisions(targets)[i] == (
                targets[i].logical_trace_id,
                targets[i].revision,
            ),
{
}

/// The checks, runs and task types are those of the chosen project.
pub proof fn studios_show_the_project(
    before: QualityCheckStudio,
    after: QualityCheckStudio,
    request: Option<StudioRequest>,
)
    requires
        reloads(before, after, request),
    ensures
        request is Some <==> before.project_id is Some,
        request is Some ==> request->0.project_id == before.project_id->0
            && request->0.generation == after.request_generation && after.busy
            && after.quality_checks == before.quality_checks && after.jobs == before.jobs,
        before.project_id is None ==> after.quality_checks@.len() == 0 && after.jobs@.len() == 0
            && after.taxonomy@.len() == 0,
        after.request_generation != before.request_generation,
        after.error is None,
{
}

/// A check is published for one project, and a hosted one only with both rates;
/// what is drafted for a local check names no criteria, model, price or rate.
pub proof fn drafts_hold_what_was_typed(studio: QualityCheckStudio, draft: QualityCheckDraft)
    requires
        studio.drafts(draft),
    ensures
        studio.project_id == Some(draft.project_id),
        draft.name@ == text::trimmed(studio.name@.text),
        draft.execution_route == studio.execution_route,
        draft.reviewer_ref == studio.reviewer_ref,
        draft.estimated_output_tokens_low == 96,
        draft.estimated_output_tokens_high == 384,
        studio.execution_route == TaskCompletionExecutionRouteV1::LocalOnnx ==> {
            &&& draft.review_criteria@.len() == 0
            &&& draft.requested_model@.len() == 0
            &&& draft.pricing_version@.len() == 0
            &&& draft.input_cost_micros_per_million_tokens == 0
            &&& draft.output_cost_micros_per_million_tokens == 0
        },
        studio.execution_route == TaskCompletionExecutionRouteV1::HostedOpenAi ==> {
            &&& draft.review_criteria@ == text::trimmed(studio.criteria@.text)
            &&& draft.requested_model@ == text::trimmed(studio.model@.text)
            &&& draft.pricing_version@ == text::trimmed(studio.pricing_version@.text)
        },
        studio.execution_route == TaskCompletionExecutionRouteV1::HostedOpenAi
            && studio.publish_refusal() is None ==> {
            &&& text::parsed_number(text::trimmed(studio.input_rate@.text)) == Some(
                draft.input_cost_micros_per_million_tokens as nat,
            )
            &&& text::parsed_number(text::trimmed(studio.output_rate@.text)) == Some(
                draft.output_cost_micros_per_million_tokens as nat,
            )
        },
{
}

/// Publishing is refused without a project, and for a hosted check without both
/// rates; it is offered once everything that the route asks for is typed.
pub proof fn publishing_needs_what_the_route_asks_for(studio: QualityCheckStudio)
    ensures
        studio.project_id is None ==> studio.publish_refusal() == Some(
            "Choose one project before publishing a quality check."@,
        ) && !can_publish(studio),
        studio.project_id is Some && studio.execution_route
            == TaskCompletionExecutionRouteV1::HostedOpenAi && (text::parsed_number(
            text::trimmed(studio.input_rate@.text),
        ) is None || text::parsed_number(text::trimmed(studio.output_rate@.text)) is None) ==> {
            &&& studio.publish_refusal() == Some(
                "Enter the exact input and output rate-card amounts in micros per million tokens."@,
            )
            &&& !can_publish(studio)
        },
        studio.project_id is Some && studio.execution_route
            == TaskCompletionExecutionRouteV1::LocalOnnx ==> studio.publish_refusal() is None,
        can_publish(studio) ==> studio.publish_refusal() is None && !studio.busy && text::trimmed(
            studio.name@.text,
        ).len() > 0,
        can_publish(studio) && studio.execution_route
            == TaskCompletionExecutionRouteV1::HostedOpenAi ==> text::trimmed(
            studio.criteria@.text,
        ).len() > 0 && text::trimmed(studio.model@.text).len() > 0 && text::trimmed(
            studio.pricing_version@.text,
        ).len() > 0,
        studio.project_id is Some && !studio.busy && text::trimmed(studio.name@.text).len() > 0
            && studio.execution_route == TaskCompletionExecutionRouteV1::LocalOnnx ==> can_publish(
            studio,
        ),
{
}

/// The runs that are listed are the first eight of the check's release, in the
/// order of all runs.
pub proof fn runs_are_those_of_the_release(jobs: Seq<AssessmentJobV1>, job: AssessmentJobV1, release_id: Seq<char>)
    ensures
        runs_of(Seq::empty(), release_id).len() == 0,
        job.evaluator_release_id@ == release_id ==> runs_of(jobs.push(job), release_id) == runs_of(
            jobs,
            release_id,
        ).push(job),
        job.evaluator_release_id@ != release_id ==> runs_of(jobs.push(job), release_id) == runs_of(
            jobs,
            release_id,
        ),
        runs_of(jobs, release_id).len() <= 8 ==> listed_runs(jobs, release_id) == runs_of(
            jobs,
            release_id,
        ),
        runs_of(jobs, release_id).len() > 8 ==> listed_runs(jobs, release_id) == runs_of(
            jobs,
            release_id,
        ).take(8),
{
    reveal(Seq::filter);
    assert(jobs.push(job).drop_last() =~= jobs);
}

/// A check says by what it runs, whether it samples by itself, and whether it
/// is the one looked at.
pub proof fn checks_show_how_they_run(
    row: CheckRow,
    studio: QualityCheckStudio,
    check: TaskCompletionQualityCheckV1,
)
    requires
        shows_check(row, studio, check),
    ensures
        row.name@ == check.evaluator.name@,
        check.sampling == Some(true) ==> row.summary@ == route_text(
            check.evaluator.implementation,
        ) + " · "@ + "automatic 10% sampling"@,
        check.sampling != Some(true) ==> row.summary@ == route_text(
            check.evaluator.implementation,
        ) + " · "@ + "manual runs"@,
        row.selected <==> studio.selected_release_id is Some && studio.selected_release_id->0@
            == check.config.evaluator_release_id@,
        check.evaluator.implementation is PromptJudge ==> route_text(
            check.evaluator.implementation,
        ) == "OpenAI"@ && model_text(check.evaluator.implementation, studio.local_model)
            == "OpenAI "@ + check.evaluator.implementation->requested_model@,
        check.evaluator.implementation is LocalClassifier ==> route_text(
            check.evaluator.implementation,
        ) == "On this Mac"@,
        check.evaluator.implementation is LocalClassifier && studio.local_model is Some
            && studio.local_model->0.model_artifact_id@
            == check.evaluator.implementation->model_artifact_id@ ==> model_text(
            check.evaluator.implementation,
            studio.local_model,
        ) == "Local "@ + studio.local_model->0.model_id@,
        check.evaluator.implementation is LocalClassifier && (studio.local_model is None
            || studio.local_model->0.model_artifact_id@
            != check.evaluator.implementation->model_artifact_id@) ==> model_text(
            check.evaluator.implementation,
            studio.local_model,
        ) == "Local "@ + short(check.evaluator.implementation->model_artifact_id@),
        check.evaluator.implementation is Other ==> route_text(check.evaluator.implementation)
            == "Unavailable"@,
{
}

/// A check's facts say what it decides, by what it runs, where the data goes
/// and how many task types it covers.
pub proof fn facts_say_where_data_goes(check: TaskCompletionQualityCheckV1)
    ensures
        check_facts(check).len() == 4,
        check.evaluator.implementation is LocalClassifier ==> {
            &&& check_facts(check)[0] == components::fact(
                "Decision"@,
                "Checks completion against the approved success criteria."@,
                Theme::MUTED,
            )
            &&& check_facts(check)[1] == components::fact(
                "Runs"@,
                "On this Mac · $0 provider cost"@,
                Theme::MUTED,
            )
            &&& check_facts(check)[2] == components::fact(
                "Data"@,
                "Stays on this Mac"@,
                Theme::MUTED,
            )
        },
        check.evaluator.implementation is PromptJudge ==> {
            &&& check_facts(check)[0] == components::fact(
                "Decision"@,
                check.evaluator.implementation->rubric@,
                Theme::MUTED,
            )
            &&& check_facts(check)[1] == components::fact(
                "Runs"@,
                "OpenAI · requested "@ + check.evaluator.implementation->requested_model@ + " · "@
                    + check.config.pricing_version@ + " · output estimate "@ + text::decimal(
                    check.config.estimated_output_tokens_low as nat,
                ) + "–"@ + text::decimal(check.config.estimated_output_tokens_high as nat)
                    + " tokens"@,
                Theme::MUTED,
            )
            &&& check_facts(check)[2] == components::fact(
                "Data"@,
                "Redacted summaries are sent to OpenAI"@,
                Theme::MUTED,
            )
        },
        check_facts(check)[3] == components::fact(
            "Scope"@,
            text::decimal(check.evaluator.applicable_taxonomy_node_ids@.len()) + " task type(s)"@,
            Theme::MUTED,
        ),
{
}

/// A preview counts what was chosen, what can run and what cannot, and gives
/// tokens and cost from the lower to the higher estimate.
pub proof fn previews_estimate_from_low_to_high(preview: AssessmentBackfillPreviewV1)
    ensures
        preview_facts(preview).len() == 3,
        preview_facts(preview)[0] == components::fact(
            "Traces"@,
            text::decimal(preview.target_count as nat) + " selected · "@ + text::decimal(
                preview.executable_count as nat,
            ) + " ready · "@ + text::decimal(preview.non_executable_count as nat) + " skipped"@,
            Theme::MUTED,
        ),
        preview_facts(preview)[1] == components::fact(
            "Estimated input"@,
            text::decimal(preview.estimated_input_tokens_low as nat) + "–"@ + text::decimal(
                preview.estimated_input_tokens_high as nat,
            ) + " tokens"@,
            Theme::MUTED,
        ),
        preview_facts(preview)[2] == components::fact(
            "Estimated cost"@,
            cost(preview.estimated_cost_micros_low) + "–"@ + cost(
                preview.estimated_cost_micros_high,
            ),
            Theme::MUTED,
        ),
{
}

/// Sampling can be switched to what it is not, and a run can be started once
/// it was previewed and nothing is at work.
pub proof fn runs_follow_a_preview(
    view: SelectedCheckView,
    studio: QualityCheckStudio,
    check: TaskCompletionQualityCheckV1,
)
    requires
        shows_selected(view, studio, check),
    ensures
        check.sampling == Some(true) ==> view.sampling_action@ == "Disable 10% sampling"@,
        check.sampling != Some(true) ==> view.sampling_action@ == "Enable 10% sampling"@,
        view.actions_enabled <==> !studio.busy,
        view.run_enabled <==> !studio.busy && studio.preview is Some,
        view.preview is Some <==> studio.preview is Some,
        view.version@ == "Approved version "@ + short(check.config.evaluator_release_id@),
        view.name@ == check.evaluator.name@,
        view.runs@.len() <= 8,
{
}

/// A run tells its state and how much of it has come to an end.
pub proof fn runs_show_their_progress(row: RunRow, job: AssessmentJobV1)
    requires
        shows_run(row, job),
    ensures
        row.progress@ == job.status@ + " · "@ + text::decimal(job.terminal_count as nat) + "/"@
            + text::decimal(job.item_count as nat) + " terminal"@,
        row.identity@ == short(job.job_id@) + " · selection "@ + short(job.selection_hash@),
{
}

/// The builder says where the evidence goes, and why a check cannot be
/// published yet.
pub proof fn builders_say_where_evidence_goes(view: BuilderView, studio: QualityCheckStudio)
    requires
        shows_builder(view, studio),
    ensures
        studio.execution_route == TaskCompletionExecutionRouteV1::LocalOnnx ==> view.local_selected
            && !view.hosted_selected && view.note@
            == "Trace evidence stays on this Mac. Traces with missing context are skipped."@,
        studio.execution_route == TaskCompletionExecutionRouteV1::HostedOpenAi
            ==> view.hosted_selected && !view.local_selected && view.note@
            == "Sends redacted summaries to OpenAI. Traces with missing context are skipped."@,
        view.local_available <==> studio.local_model is Some,
        view.ready <==> can_publish(studio),
        can_publish(studio) ==> view.publish_label@
            == "Publish immutable task-completion quality check"@,
        !can_publish(studio) && studio.execution_route
            == TaskCompletionExecutionRouteV1::LocalOnnx && studio.local_model is None
            ==> view.publish_label@
            == "Publishing unavailable until a verified local model is configured in Settings"@,
        !can_publish(studio) && !(studio.execution_route
            == TaskCompletionExecutionRouteV1::LocalOnnx && studio.local_model is None)
            ==> view.publish_label@
            == "Publishing unavailable until project, specification, model, and exact rate card are complete"@,
{
}

/// A cost is shown in dollars with the millionths that it was given in.
pub proof fn costs_are_shown_to_the_millionth(micros: u64)
    requires
        0 < micros <= 0x4000_0000_0000,
    ensures
        exists|millionths: nat|
            {
                &&& cost(micros) == "$"@ + #[trigger] text::six_decimals(millionths)
                &&& millionths == micros
            },
{
    let (d, a) = (micros as nat, 1_000_000nat);
    binary64::shares_are_close(d, a);
    let share = binary64::quotient(binary64::of_integer(d), binary64::of_integer(a));
    binary64::parts_are_close(share, a);
    let c = binary64::to_parts(share, a);
    let w = binary64::one() as int;
    vstd::arithmetic::power2::lemma_pow2_pos(0x2000);
    let s = binary64::measure(share) as int;
    let (cw, dw) = (c * w, d * w);
    assert(dw <= 0x4000_0000_0000 * w && dw >= 0) by (nonlinear_arith)
        requires
            dw == d * w,
            0 <= d <= 0x4000_0000_0000,
            w > 0,
    ;
    let sa = s * 1_000_000;
    assert(0x2_0000_0000_0000 * (sa - dw) <= dw && 0x2_0000_0000_0000 * (dw - sa) <= dw);
    assert(2 * (cw - sa) <= w && 2 * (sa - cw) <= w);
    assert(cw - dw < w && dw - cw < w);
    assert(c == d) by (nonlinear_arith)
        requires
            c * w - d * w < w,
            d * w - c * w < w,
            w > 0,
    {
        assert((c - d) * w < w);
        assert((d - c) * w < w);
    }
    assert(cost(micros) == "$"@ + text::six_decimals(c));
}

/// A check is told aloud by name, release, model and sampling, and one of an
/// unknown kind says so.
pub proof fn checks_are_told_aloud(
    row: CheckRow,
    studio: QualityCheckStudio,
    check: TaskCompletionQualityCheckV1,
)
    requires
        shows_check(row, studio, check),
    ensures
        check.sampling == Some(true) ==> row.label@ == "Quality check "@ + check.evaluator.name@
            + ", release "@ + short(check.config.evaluator_release_id@) + ", model "@ + model_text(
            check.evaluator.implementation,
            studio.local_model,
        ) + ", sampling "@ + "enabled"@,
        check.sampling != Some(true) ==> row.label@ == "Quality check "@ + check.evaluator.name@
            + ", release "@ + short(check.config.evaluator_release_id@) + ", model "@ + model_text(
            check.evaluator.implementation,
            studio.local_model,
        ) + ", sampling "@ + "disabled"@,
        check.evaluator.implementation is Other ==> {
            &&& model_text(check.evaluator.implementation, studio.local_model)
                == "Unsupported runtime"@
            &&& rubric_text(check.evaluator.implementation)
                == "This release does not use a prompt rubric."@
            &&& execution_text(check) == "Unsupported evaluator implementation"@
        },
{
}

/// The check that is looked at is the one of the selected release.
pub proof fn selections_are_found_by_release(studio: QualityCheckStudio)
    ensures
        studio.selected_release_id is None ==> studio.selection() is None,
        studio.selection() is Some ==> studio.selection()->0.config.evaluator_release_id@
            == studio.selected_release_id->0@ && studio.quality_checks@.contains(
            studio.selection()->0,
        ),
        SAMPLE_BASIS_POINTS == 1_000,
        SAMPLES_PER_DAY == 100,
        WATCH_MILLISECONDS == 250,
{
    match studio.selected_release_id {
        Some(release_id) => checks_are_found_by_release(studio.quality_checks@, release_id@),
        None => {},
    }
}

} // verus!
