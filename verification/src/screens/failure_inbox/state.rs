//! What the failure inbox remembers between events.

use super::full_trace_timeline::{FullTraceTimelineModel, TimelineState};
use super::full_trace_tree::{FullTraceTreeModel, TreeState};
use super::model::{
    copy_optional, same_optional, FailureFiltersV1, FailureGroupDetail, FailureGroupSummary,
    FailureInboxPreferencesV1, FailureOccurrence, FindingEvidence, QueryScopeCriteriaV1,
    QueryScopeV1, SourceHealth, SpanRow,
};
use super::selection::GroupSelection;
use crate::components::text_input::{TextInput, TextState};
use vstd::prelude::*;
use vstd::string::*;

verus! {

/// How many groups are asked for at a time.
pub const GROUP_PAGE_SIZE: u32 = 200;

/// How many occurrences are asked for at a time.
pub const OCCURRENCE_PAGE_SIZE: u32 = 100;

/// How many bytes a search may have.
pub const SEARCH_BYTES: usize = 512;

/// The number of the next request: requests count up and wrap around.
pub open spec fn next_request(generation: u64) -> u64 {
    if generation == u64::MAX {
        0
    } else {
        (generation + 1) as u64
    }
}

/// The number of the next request.
pub fn following_request(generation: u64) -> (next: u64)
    ensures
        next == next_request(generation),
{
    generation.wrapping_add(1)
}

/// The tabs of the inspector.
#[derive(Debug, Clone, Copy, PartialEq, Eq, Structural)]
pub enum InspectorTab {
    Finding,
    Span,
    Attributes,
    Payload,
}

/// How the full trace is shown.
#[derive(Debug, Clone, Copy, PartialEq, Eq, Structural)]
pub enum FullTraceMode {
    Tree,
    Timeline,
}

/// The menus above the list of groups.
#[derive(Debug, Clone, Copy, PartialEq, Eq, Structural)]
pub enum InboxFilterMenu {
    Filters,
    Organize,
}

/// Where the full trace was opened from.
#[derive(Debug)]
pub enum FullTraceOrigin {
    Runs,
    FailureInvestigation {
        project_id: String,
        group_id: String,
        finding_id: Option<String>,
        occurrence_offset: u64,
        span_id: Option<String>,
    },
}

impl FullTraceOrigin {
    /// The same origin again.
    pub fn copy(&self) -> (copy: Self)
        ensures
            copy == *self,
    {
        match self {
            FullTraceOrigin::Runs => FullTraceOrigin::Runs,
            FullTraceOrigin::FailureInvestigation {
                project_id,
                group_id,
                finding_id,
                occurrence_offset,
                span_id,
            } => FullTraceOrigin::FailureInvestigation {
                project_id: project_id.clone(),
                group_id: group_id.clone(),
                finding_id: copy_optional(finding_id),
                occurrence_offset: *occurrence_offset,
                span_id: copy_optional(span_id),
            },
        }
    }
}

/// A request to compare two runs.
#[derive(Debug)]
pub struct RunComparisonRequestV1 {
    pub scope: QueryScopeV1,
    pub baseline_trace_id: String,
    pub baseline_revision: u64,
    pub candidate_trace_id: String,
    pub candidate_revision: u64,
}

impl RunComparisonRequestV1 {
    /// The same request again.
    pub fn copy(&self) -> (copy: Self)
        ensures
            copy == *self,
    {
        RunComparisonRequestV1 {
            scope: self.scope.copy(),
            baseline_trace_id: self.baseline_trace_id.clone(),
            baseline_revision: self.baseline_revision,
            candidate_trace_id: self.candidate_trace_id.clone(),
            candidate_revision: self.candidate_revision,
        }
    }
}

/// What the inbox tells the rest of the workbench.
#[derive(Debug)]
pub enum FailureInboxEvent {
    OpenInvestigation { project_id: String, group_id: String },
    OpenEvalQueue,
    OpenRuns,
    OpenSources,
    OpenCompare(RunComparisonRequestV1),
    OpenFullTrace {
        project_id: String,
        logical_trace_id: String,
        revision: u64,
        origin: FullTraceOrigin,
    },
    ReturnFromFullTrace { origin: FullTraceOrigin },
    FullTraceSelectionChanged { span_id: String },
    InspectorVisibilityChanged { visible: bool, auto_open_suppressed: bool },
    /// The preferences that are kept for a scope.
    PreferencesChanged { scope: QueryScope, preferences: FailureInboxPreferencesV1 },
    TraceDataChanged,
}

/// The listed groups.
#[derive(Debug)]
pub struct GroupPages {
    pub groups: Vec<FailureGroupSummary>,
    pub total: u64,
    pub loading: bool,
    pub generation: u64,
}

/// The group under investigation and the example that is shown.
#[derive(Debug)]
pub struct Investigation {
    pub target: Option<(String, String)>,
    pub group: Option<FailureGroupDetail>,
    pub occurrences: Vec<FailureOccurrence>,
    pub occurrence_offset: u64,
    pub finding_id: Option<String>,
    pub evidence: Option<FindingEvidence>,
    pub loading: bool,
    pub generation: u64,
    pub evidence_loading: bool,
    pub evidence_generation: u64,
    pub pending_span_id: Option<String>,
    pub compare_base_finding_id: Option<String>,
    pub group_details_open: bool,
    pub actions_open: bool,
    pub review_open: bool,
}

/// A payload that was revealed: its key, its text, and what its preview says
/// of the rest.
#[derive(Debug)]
pub struct RevealedPayload {
    pub key: String,
    pub value: String,
    pub revealed_bytes: u64,
    pub original_bytes: u64,
    pub truncated: bool,
    pub larger_local_reveal_allowed: bool,
}

/// The inspector and the span it shows.
#[derive(Debug)]
pub struct Inspector {
    pub open: bool,
    pub auto_open_suppressed: bool,
    pub tab: InspectorTab,
    pub span_id: Option<String>,
    pub span: Option<SpanRow>,
    pub payload: Option<RevealedPayload>,
}

/// The full trace.
pub struct FullTrace {
    pub open: bool,
    pub tree: FullTraceTreeModel,
    pub timeline: FullTraceTimelineModel,
    pub identity: Option<(String, u64)>,
    pub origin: FullTraceOrigin,
    pub span_count: u64,
    pub loading: bool,
    pub mode: FullTraceMode,
    pub errors_only: bool,
    pub generation: u64,
    pub start_unix_nano: u64,
    pub end_unix_nano: u64,
    pub search: TextInput,
}

impl FullTrace {
    /// Whether the caches are in order.
    pub open spec fn wf(&self) -> bool {
        self.tree.wf() && self.timeline.wf()
    }
}

/// What is known of the data that arrives.
#[derive(Debug)]
pub struct LiveState {
    pub health: SourceHealth,
    pub run_count: u64,
    pub last_sequence: u64,
    pub delayed: bool,
}

/// Which projects are shown.
#[derive(Debug)]
pub enum ProjectScope {
    AllProjects,
    Project(String),
}

/// The scope that the workbench shows.
#[derive(Debug)]
pub struct QueryScope {
    pub project: ProjectScope,
    pub environment: Option<String>,
    pub build: Option<String>,
    pub session: Option<String>,
    /// The name of the period.
    pub period: String,
}

/// The content of the scope that the workbench shows.
pub struct QueryScopeContent {
    pub project: Option<Seq<char>>,
    pub environment: Option<Seq<char>>,
    pub build: Option<Seq<char>>,
    pub session: Option<Seq<char>>,
    pub period: Seq<char>,
}

impl View for QueryScope {
    type V = QueryScopeContent;

    open spec fn view(&self) -> QueryScopeContent {
        QueryScopeContent {
            project: match self.project {
                ProjectScope::AllProjects => None,
                ProjectScope::Project(project_id) => Some(project_id@),
            },
            environment: super::model::optional_text(self.environment),
            build: super::model::optional_text(self.build),
            session: super::model::optional_text(self.session),
            period: self.period@,
        }
    }
}

impl QueryScope {
    /// The same scope again.
    pub fn copy(&self) -> (copy: Self)
        ensures
            copy == *self,
    {
        QueryScope {
            project: match &self.project {
                ProjectScope::AllProjects => ProjectScope::AllProjects,
                ProjectScope::Project(project_id) => ProjectScope::Project(project_id.clone()),
            },
            environment: copy_optional(&self.environment),
            build: copy_optional(&self.build),
            session: copy_optional(&self.session),
            period: self.period.clone(),
        }
    }

    /// Whether two scopes show the same.
    pub fn same(&self, other: &Self) -> (same: bool)
        ensures
            same == (self@ == other@),
    {
        let projects = match (&self.project, &other.project) {
            (ProjectScope::AllProjects, ProjectScope::AllProjects) => true,
            (ProjectScope::Project(left), ProjectScope::Project(right)) => *left == *right,
            _ => false,
        };
        projects && same_optional(&self.environment, &other.environment) && same_optional(
            &self.build,
            &other.build,
        ) && same_optional(&self.session, &other.session) && self.period == other.period
    }
}

/// The failure inbox.
pub struct FailureInbox {
    pub list: GroupPages,
    pub selection: GroupSelection,
    pub showing_inbox: bool,
    pub investigation: Investigation,
    pub inspector: Inspector,
    pub trace: FullTrace,
    pub eval: super::eval_generation::EvalBatch,
    pub live: LiveState,
    pub filters: FailureFiltersV1,
    pub preferences: FailureInboxPreferencesV1,
    pub query_scope: QueryScope,
    pub detector_options: Vec<String>,
    pub service_options: Vec<String>,
    pub open_filter_menu: Option<InboxFilterMenu>,
    pub search: TextInput,
    pub search_generation: u64,
    pub load_error: Option<String>,
}

impl FailureInbox {
    /// Whether everything that the inbox holds is in order.
    pub open spec fn wf(&self) -> bool {
        &&& self.selection.selected.wf()
        &&& self.trace.wf()
        &&& self.eval.expanded_group_ids.wf()
    }

    /// An inbox that has not loaded anything yet. What the filters offer
    /// comes with an error where it could not be had, which is shown.
    pub fn new(
        health: SourceHealth,
        run_count: u64,
        commit_sequence: u64,
        filter_options: Result<(Vec<String>, Vec<String>), String>,
        scope: QueryScope,
        cached_pages: usize,
    ) -> (inbox: Self)
        ensures
            inbox.wf(),
            inbox.list == (GroupPages {
                groups: inbox.list.groups,
                total: 0,
                loading: false,
                generation: 0,
            }),
            inbox.list.groups@.len() == 0,
            inbox.selection@ == (super::selection::SelectionState {
                focused: None,
                selected: Set::empty(),
                anchor: None,
            }),
            inbox.showing_inbox,
            inbox.investigation == (Investigation {
                target: None,
                group: None,
                occurrences: inbox.investigation.occurrences,
                occurrence_offset: 0,
                finding_id: None,
                evidence: None,
                loading: false,
                generation: 0,
                evidence_loading: false,
                evidence_generation: 0,
                pending_span_id: None,
                compare_base_finding_id: None,
                group_details_open: false,
                actions_open: false,
                review_open: false,
            }),
            inbox.investigation.occurrences@.len() == 0,
            inbox.inspector == (Inspector {
                open: false,
                auto_open_suppressed: false,
                tab: InspectorTab::Finding,
                span_id: None,
                span: None,
                payload: None,
            }),
            inbox.trace == (FullTrace {
                open: false,
                tree: inbox.trace.tree,
                timeline: inbox.trace.timeline,
                identity: None,
                origin: FullTraceOrigin::Runs,
                span_count: 0,
                loading: false,
                mode: FullTraceMode::Tree,
                errors_only: false,
                generation: 0,
                start_unix_nano: 0,
                end_unix_nano: 1,
                search: inbox.trace.search,
            }),
            inbox.trace.tree@ == TreeState::empty(cached_pages as nat),
            inbox.trace.timeline@ == TimelineState::empty(cached_pages as nat),
            inbox.trace.search@ == TextState::blank(SEARCH_BYTES as nat),
            inbox.trace.search.placeholder_text() == "Search loaded spans…"@,
            inbox.eval.is_new(),
            inbox.live == (LiveState {
                health,
                run_count,
                last_sequence: commit_sequence,
                delayed: false,
            }),
            inbox.filters == (FailureFiltersV1 {
                scope: QueryScopeV1 { criteria: QueryScopeCriteriaV1::unlimited() },
                severity: None,
                recovery: None,
                detector_id: None,
                search: None,
                include_fully_dismissed: false,
            }),
            inbox.preferences.is_new(),
            inbox.query_scope == scope,
            inbox.open_filter_menu is None,
            inbox.search@ == TextState::blank(SEARCH_BYTES as nat),
            inbox.search.placeholder_text() == "Search failures…"@,
            inbox.search_generation == 0,
            match filter_options {
                Ok(options) => {
                    &&& inbox.detector_options == options.0
                    &&& inbox.service_options == options.1
                    &&& inbox.load_error is None
                },
                Err(error) => {
                    &&& inbox.detector_options@.len() == 0
                    &&& inbox.service_options@.len() == 0
                    &&& inbox.load_error == Some(error)
                },
            },
    {
        let (detector_options, service_options, load_error) = match filter_options {
            Ok(options) => (options.0, options.1, None),
            Err(error) => (Vec::new(), Vec::new(), Some(error)),
        };
        FailureInbox {
            list: GroupPages { groups: Vec::new(), total: 0, loading: false, generation: 0 },
            selection: GroupSelection::new(),
            showing_inbox: true,
            investigation: Investigation {
                target: None,
                group: None,
                occurrences: Vec::new(),
                occurrence_offset: 0,
                finding_id: None,
                evidence: None,
                loading: false,
                generation: 0,
                evidence_loading: false,
                evidence_generation: 0,
                pending_span_id: None,
                compare_base_finding_id: None,
                group_details_open: false,
                actions_open: false,
                review_open: false,
            },
            inspector: Inspector {
                open: false,
                auto_open_suppressed: false,
                tab: InspectorTab::Finding,
                span_id: None,
                span: None,
                payload: None,
            },
            trace: FullTrace {
                open: false,
                tree: FullTraceTreeModel::new(cached_pages),
                timeline: FullTraceTimelineModel::new(cached_pages),
                identity: None,
                origin: FullTraceOrigin::Runs,
                span_count: 0,
                loading: false,
                mode: FullTraceMode::Tree,
                errors_only: false,
                generation: 0,
                start_unix_nano: 0,
                end_unix_nano: 1,
                search: TextInput::new("Search loaded spans…".to_owned(), SEARCH_BYTES),
            },
            eval: super::eval_generation::EvalBatch::new(),
            live: LiveState { health, run_count, last_sequence: commit_sequence, delayed: false },
            filters: FailureFiltersV1 {
                scope: QueryScopeV1::new(QueryScopeCriteriaV1::default()),
                severity: None,
                recovery: None,
                detector_id: None,
                search: None,
                include_fully_dismissed: false,
            },
            preferences: FailureInboxPreferencesV1::default(),
            query_scope: scope,
            detector_options,
            service_options,
            open_filter_menu: None,
            search: TextInput::new("Search failures…".to_owned(), SEARCH_BYTES),
            search_generation: 0,
            load_error,
        }
    }
}

/// Each request gets the number after the one before, and after the last number
/// counting begins anew.
pub proof fn requests_are_numbered_in_turn(generation: u64)
    ensures
        next_request(generation) != generation,
        generation < 0xffff_ffff_ffff_ffff ==> next_request(generation) == generation + 1,
        next_request(0xffff_ffff_ffff_ffff) == 0,
        GROUP_PAGE_SIZE == 200,
        OCCURRENCE_PAGE_SIZE == 100,
        SEARCH_BYTES == 512,
{
}

} // verus!
