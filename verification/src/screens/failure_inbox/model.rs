//! The records that the failure inbox works on.

use std::sync::Arc;
use vstd::prelude::*;
use vstd::string::*;

verus! {

/// An attribute of a span: a text, or a value of another kind.
#[derive(Debug)]
pub enum AttributeValue {
    Text(String),
    Other,
}

/// A reference to an externalized payload.
#[derive(Debug)]
pub struct BlobRefV1 {
    pub blob_id: String,
}

/// A list of structured records: how many, and their rendered form.
#[derive(Debug)]
pub struct RecordList {
    pub count: usize,
    pub rendered: String,
}

/// One step of a trace.
#[derive(Debug)]
pub struct SpanRow {
    pub logical_trace_id: String,
    pub revision: u64,
    pub span_id: String,
    pub parent_span_id: Option<String>,
    pub name: String,
    pub category: String,
    pub start_time_unix_nano: u64,
    pub duration_nano: u64,
    pub status_code: i32,
    pub status_message: String,
    pub depth: u32,
    pub has_children: bool,
    pub attributes: Arc<Vec<(String, AttributeValue)>>,
    pub attributes_rendered: String,
    pub payload_refs: Arc<Vec<(String, BlobRefV1)>>,
    pub events: RecordList,
    pub links: RecordList,
}

/// Another optional text with the same content.
pub fn copy_optional(value: &Option<String>) -> (copy: Option<String>)
    ensures
        copy == *value,
{
    match value {
        Some(text) => Some(text.clone()),
        None => None,
    }
}

impl RecordList {
    /// The same list again.
    pub fn copy(&self) -> (copy: Self)
        ensures
            copy == *self,
    {
        RecordList { count: self.count, rendered: self.rendered.clone() }
    }
}

impl BlobRefV1 {
    /// The same reference again.
    pub fn copy(&self) -> (copy: Self)
        ensures
            copy == *self,
    {
        BlobRefV1 { blob_id: self.blob_id.clone() }
    }
}

impl View for SpanRow {
    type V = SpanRow;

    open spec fn view(&self) -> SpanRow {
        *self
    }
}

impl SpanRow {
    /// The same step again.
    pub fn copy(&self) -> (copy: Self)
        ensures
            copy == *self,
    {
        SpanRow {
            logical_trace_id: self.logical_trace_id.clone(),
            revision: self.revision,
            span_id: self.span_id.clone(),
            parent_span_id: copy_optional(&self.parent_span_id),
            name: self.name.clone(),
            category: self.category.clone(),
            start_time_unix_nano: self.start_time_unix_nano,
            duration_nano: self.duration_nano,
            status_code: self.status_code,
            status_message: self.status_message.clone(),
            depth: self.depth,
            has_children: self.has_children,
            attributes: self.attributes.clone(),
            attributes_rendered: self.attributes_rendered.clone(),
            payload_refs: self.payload_refs.clone(),
            events: self.events.copy(),
            links: self.links.copy(),
        }
    }
}

/// One page of the children of a span, or of the roots of a trace.
#[derive(Debug)]
pub struct SpanTreePageV1 {
    pub parent_span_id: Option<String>,
    pub offset: u64,
    pub total: u64,
    pub rows: Vec<SpanRow>,
}

/// How severe a finding is.
#[derive(Debug, Clone, Copy, PartialEq, Eq, Structural)]
pub enum FindingSeverity {
    Critical,
    High,
    Medium,
    Low,
    Info,
}

/// Whether the run recovered from a finding.
#[derive(Debug, Clone, Copy, PartialEq, Eq, Structural)]
pub enum RecoveryStatus {
    Unrecovered,
    Unknown,
    Recovered,
}

impl FindingSeverity {
    /// The name of the severity.
    pub open spec fn name(self) -> Seq<char> {
        match self {
            FindingSeverity::Critical => "Critical"@,
            FindingSeverity::High => "High"@,
            FindingSeverity::Medium => "Medium"@,
            FindingSeverity::Low => "Low"@,
            FindingSeverity::Info => "Info"@,
        }
    }

    /// The name of the severity.
    pub fn label(self) -> (label: &'static str)
        ensures
            label@ == self.name(),
    {
        match self {
            FindingSeverity::Critical => "Critical",
            FindingSeverity::High => "High",
            FindingSeverity::Medium => "Medium",
            FindingSeverity::Low => "Low",
            FindingSeverity::Info => "Info",
        }
    }
}

impl RecoveryStatus {
    /// The name of the status.
    pub open spec fn name(self) -> Seq<char> {
        match self {
            RecoveryStatus::Unrecovered => "Unrecovered"@,
            RecoveryStatus::Unknown => "Unknown"@,
            RecoveryStatus::Recovered => "Recovered"@,
        }
    }

    /// The name of the status.
    pub fn label(self) -> (label: &'static str)
        ensures
            label@ == self.name(),
    {
        match self {
            RecoveryStatus::Unrecovered => "Unrecovered",
            RecoveryStatus::Unknown => "Unknown",
            RecoveryStatus::Recovered => "Recovered",
        }
    }
}

/// The runs of one stretch of time, and how many of them failed.
#[derive(Debug, Clone, Copy, PartialEq, Eq, Structural)]
pub struct FailureRecurrenceBucketV1 {
    pub started_at_unix_nano: u64,
    pub ended_at_unix_nano: u64,
    pub eligible_run_count: u64,
    pub affected_run_count: u64,
    pub finding_count: u64,
    pub recurrence_rate_basis_points: Option<u16>,
}

/// How often a failure recurred over time.
#[derive(Debug)]
pub struct FailureRecurrenceSeriesV1 {
    pub started_at_unix_nano: u64,
    pub ended_at_unix_nano: u64,
    pub bucket_width_nano: u64,
    pub buckets: Vec<FailureRecurrenceBucketV1>,
}

/// The content of an optional text.
pub open spec fn optional_text(value: Option<String>) -> Option<Seq<char>> {
    match value {
        Some(text) => Some(text@),
        None => None,
    }
}

/// Whether two optional texts have the same content.
pub fn same_optional(left: &Option<String>, right: &Option<String>) -> (same: bool)
    ensures
        same == (optional_text(*left) == optional_text(*right)),
{
    match (left, right) {
        (Some(left), Some(right)) => *left == *right,
        (None, None) => true,
        _ => false,
    }
}

/// Which runs a query is about.
#[derive(Debug, Clone)]
pub struct QueryScopeCriteriaV1 {
    pub project_id: Option<String>,
    pub environment: Option<String>,
    pub build_id: Option<String>,
    pub session_id: Option<String>,
    pub service_name: Option<String>,
    pub started_after_unix_nano: Option<u64>,
    pub started_before_unix_nano: Option<u64>,
}

/// The content of query criteria.
#[verifier::ext_equal]
pub struct CriteriaView {
    pub project_id: Option<Seq<char>>,
    pub environment: Option<Seq<char>>,
    pub build_id: Option<Seq<char>>,
    pub session_id: Option<Seq<char>>,
    pub service_name: Option<Seq<char>>,
    pub started_after_unix_nano: Option<u64>,
    pub started_before_unix_nano: Option<u64>,
}

impl View for QueryScopeCriteriaV1 {
    type V = CriteriaView;

    open spec fn view(&self) -> CriteriaView {
        CriteriaView {
            project_id: optional_text(self.project_id),
            environment: optional_text(self.environment),
            build_id: optional_text(self.build_id),
            session_id: optional_text(self.session_id),
            service_name: optional_text(self.service_name),
            started_after_unix_nano: self.started_after_unix_nano,
            started_before_unix_nano: self.started_before_unix_nano,
        }
    }
}

impl Default for QueryScopeCriteriaV1 {
    fn default() -> (criteria: Self)
        ensures
            criteria == Self::unlimited(),
    {
        QueryScopeCriteriaV1 {
            project_id: None,
            environment: None,
            build_id: None,
            session_id: None,
            service_name: None,
            started_after_unix_nano: None,
            started_before_unix_nano: None,
        }
    }
}

impl QueryScopeCriteriaV1 {
    /// No limit at all.
    pub open spec fn unlimited() -> QueryScopeCriteriaV1 {
        QueryScopeCriteriaV1 {
            project_id: None,
            environment: None,
            build_id: None,
            session_id: None,
            service_name: None,
            started_after_unix_nano: None,
            started_before_unix_nano: None,
        }
    }

    /// The same criteria again.
    pub fn copy(&self) -> (copy: Self)
        ensures
            copy == *self,
    {
        QueryScopeCriteriaV1 {
            project_id: copy_optional(&self.project_id),
            environment: copy_optional(&self.environment),
            build_id: copy_optional(&self.build_id),
            session_id: copy_optional(&self.session_id),
            service_name: copy_optional(&self.service_name),
            started_after_unix_nano: self.started_after_unix_nano,
            started_before_unix_nano: self.started_before_unix_nano,
        }
    }

    /// Whether two criteria mean the same runs.
    pub fn same(&self, other: &Self) -> (same: bool)
        ensures
            same == (self@ == other@),
    {
        same_optional(&self.project_id, &other.project_id) && same_optional(
            &self.environment,
            &other.environment,
        ) && same_optional(&self.build_id, &other.build_id) && same_optional(
            &self.session_id,
            &other.session_id,
        ) && same_optional(&self.service_name, &other.service_name) && same_time(
            self.started_after_unix_nano,
            other.started_after_unix_nano,
        ) && same_time(self.started_before_unix_nano, other.started_before_unix_nano)
    }
}

fn same_time(left: Option<u64>, right: Option<u64>) -> (same: bool)
    ensures
        same == (left == right),
{
    match (left, right) {
        (Some(left), Some(right)) => left == right,
        (None, None) => true,
        _ => false,
    }
}

/// A query scope.
#[derive(Debug, Clone)]
pub struct QueryScopeV1 {
    pub criteria: QueryScopeCriteriaV1,
}

impl View for QueryScopeV1 {
    type V = CriteriaView;

    open spec fn view(&self) -> CriteriaView {
        self.criteria@
    }
}

impl QueryScopeV1 {
    /// The scope of some criteria.
    pub fn new(criteria: QueryScopeCriteriaV1) -> (scope: Self)
        ensures
            scope.criteria == criteria,
    {
        QueryScopeV1 { criteria }
    }

    /// The same scope again.
    pub fn copy(&self) -> (copy: Self)
        ensures
            copy == *self,
    {
        QueryScopeV1 { criteria: self.criteria.copy() }
    }

    /// Whether two scopes mean the same runs.
    pub fn same(&self, other: &Self) -> (same: bool)
        ensures
            same == (self@ == other@),
    {
        self.criteria.same(&other.criteria)
    }
}

/// Which failure groups are listed.
#[derive(Debug, Clone)]
pub struct FailureFiltersV1 {
    pub scope: QueryScopeV1,
    pub severity: Option<FindingSeverity>,
    pub recovery: Option<RecoveryStatus>,
    pub detector_id: Option<String>,
    pub search: Option<String>,
    pub include_fully_dismissed: bool,
}

impl FailureFiltersV1 {
    /// The same filters again.
    pub fn copy(&self) -> (copy: Self)
        ensures
            copy == *self,
    {
        FailureFiltersV1 {
            scope: self.scope.copy(),
            severity: self.severity,
            recovery: self.recovery,
            detector_id: copy_optional(&self.detector_id),
            search: copy_optional(&self.search),
            include_fully_dismissed: self.include_fully_dismissed,
        }
    }
}

/// How failure groups are ordered.
#[derive(Debug, Clone, Copy, PartialEq, Eq, Structural)]
pub enum FailureInboxSort {
    Priority,
    MostRecent,
    MostFrequent,
    MostUnresolved,
}

impl FailureInboxSort {
    /// The name of the order.
    pub open spec fn name(self) -> Seq<char> {
        match self {
            FailureInboxSort::Priority => "Priority"@,
            FailureInboxSort::MostRecent => "Most recent"@,
            FailureInboxSort::MostFrequent => "Most frequent"@,
            FailureInboxSort::MostUnresolved => "Most unresolved"@,
        }
    }

    /// The name of the order.
    pub fn label(self) -> (label: &'static str)
        ensures
            label@ == self.name(),
    {
        match self {
            FailureInboxSort::Priority => "Priority",
            FailureInboxSort::MostRecent => "Most recent",
            FailureInboxSort::MostFrequent => "Most frequent",
            FailureInboxSort::MostUnresolved => "Most unresolved",
        }
    }
}

/// A view of the inbox: its filters and its order.
#[derive(Debug, Clone)]
pub struct FailureInboxViewV1 {
    pub severity: Option<FindingSeverity>,
    pub recovery: Option<RecoveryStatus>,
    pub detector_id: Option<String>,
    pub service_name: Option<String>,
    pub search: Option<String>,
    pub sort: FailureInboxSort,
}

/// The content of a view of the inbox.
#[verifier::ext_equal]
pub struct InboxViewContent {
    pub severity: Option<FindingSeverity>,
    pub recovery: Option<RecoveryStatus>,
    pub detector_id: Option<Seq<char>>,
    pub service_name: Option<Seq<char>>,
    pub search: Option<Seq<char>>,
    pub sort: FailureInboxSort,
}

impl View for FailureInboxViewV1 {
    type V = InboxViewContent;

    open spec fn view(&self) -> InboxViewContent {
        InboxViewContent {
            severity: self.severity,
            recovery: self.recovery,
            detector_id: optional_text(self.detector_id),
            service_name: optional_text(self.service_name),
            search: optional_text(self.search),
            sort: self.sort,
        }
    }
}

impl Default for FailureInboxViewV1 {
    fn default() -> (view: Self)
        ensures
            view@ == Self::unfiltered(),
    {
        FailureInboxViewV1 {
            severity: None,
            recovery: None,
            detector_id: None,
            service_name: None,
            search: None,
            sort: FailureInboxSort::Priority,
        }
    }
}

impl FailureInboxViewV1 {
    /// The content of the view that shows everything in the first order.
    pub open spec fn unfiltered() -> InboxViewContent {
        InboxViewContent {
            severity: None,
            recovery: None,
            detector_id: None,
            service_name: None,
            search: None,
            sort: FailureInboxSort::Priority,
        }
    }

    /// The same view again.
    pub fn copy(&self) -> (copy: Self)
        ensures
            copy == *self,
    {
        FailureInboxViewV1 {
            severity: self.severity,
            recovery: self.recovery,
            detector_id: copy_optional(&self.detector_id),
            service_name: copy_optional(&self.service_name),
            search: copy_optional(&self.search),
            sort: self.sort,
        }
    }

    /// Whether two views show the same.
    pub fn same(&self, other: &Self) -> (same: bool)
        ensures
            same == (self@ == other@),
    {
        self.severity == other.severity && self.recovery == other.recovery && same_optional(
            &self.detector_id,
            &other.detector_id,
        ) && same_optional(&self.service_name, &other.service_name) && same_optional(
            &self.search,
            &other.search,
        ) && self.sort == other.sort
    }
}

/// A view that was saved under a name.
#[derive(Debug, Clone)]
pub struct SavedFailureInboxViewV1 {
    pub id: String,
    pub name: String,
    pub view: FailureInboxViewV1,
}

/// The current view, the saved ones, and which of them is shown.
#[derive(Debug, Clone)]
pub struct FailureInboxPreferencesV1 {
    pub current: FailureInboxViewV1,
    pub saved: Vec<SavedFailureInboxViewV1>,
    pub active_saved_view_id: Option<String>,
}

impl SavedFailureInboxViewV1 {
    /// The same saved view again.
    pub fn copy(&self) -> (copy: Self)
        ensures
            copy == *self,
    {
        SavedFailureInboxViewV1 {
            id: self.id.clone(),
            name: self.name.clone(),
            view: self.view.copy(),
        }
    }
}

impl FailureInboxPreferencesV1 {
    /// Whether nothing is chosen and nothing saved.
    pub open spec fn is_new(self) -> bool {
        &&& self.current@ == FailureInboxViewV1::unfiltered()
        &&& self.saved@.len() == 0
        &&& self.active_saved_view_id is None
    }

    /// Whether two preferences hold the same.
    pub open spec fn holds_same(self, other: Self) -> bool {
        &&& self.current == other.current
        &&& self.saved@ == other.saved@
        &&& self.active_saved_view_id == other.active_saved_view_id
    }

    /// The same preferences again.
    pub fn copy(&self) -> (copy: Self)
        ensures
            copy.holds_same(*self),
    {
        let mut saved: Vec<SavedFailureInboxViewV1> = Vec::new();
        let mut index: usize = 0;
        while index < self.saved.len()
            invariant
                index <= self.saved@.len(),
                saved@ == self.saved@.take(index as int),
            decreases self.saved@.len() - index,
        {
            saved.push(self.saved[index].copy());
            index += 1;
            assert(saved@ =~= self.saved@.take(index as int));
        }
        assert(self.saved@.take(index as int) =~= self.saved@);
        FailureInboxPreferencesV1 {
            current: self.current.copy(),
            saved,
            active_saved_view_id: copy_optional(&self.active_saved_view_id),
        }
    }

    /// Whether two preferences show the same.
    pub open spec fn shows_same(self, other: Self) -> bool {
        &&& self.current@ == other.current@
        &&& self.saved@.len() == other.saved@.len()
        &&& forall|i: int|
            0 <= i < self.saved@.len() ==> {
                &&& (#[trigger] self.saved@[i]).id@ == other.saved@[i].id@
                &&& self.saved@[i].name@ == other.saved@[i].name@
                &&& self.saved@[i].view@ == other.saved@[i].view@
            }
        &&& optional_text(self.active_saved_view_id) == optional_text(other.active_saved_view_id)
    }

    /// Whether two preferences show the same.
    pub fn same(&self, other: &Self) -> (same: bool)
        ensures
            same == self.shows_same(*other),
    {
        if !self.current.same(&other.current) || self.saved.len() != other.saved.len()
            || !same_optional(&self.active_saved_view_id, &other.active_saved_view_id) {
            return false;
        }
        let mut index: usize = 0;
        while index < self.saved.len()
            invariant
                index <= self.saved@.len(),
                self.saved@.len() == other.saved@.len(),
                forall|i: int|
                    0 <= i < index ==> {
                        &&& (#[trigger] self.saved@[i]).id@ == other.saved@[i].id@
                        &&& self.saved@[i].name@ == other.saved@[i].name@
                        &&& self.saved@[i].view@ == other.saved@[i].view@
                    },
            decreases self.saved@.len() - index,
        {
            if self.saved[index].id != other.saved[index].id || self.saved[index].name
                != other.saved[index].name || !self.saved[index].view.same(
                &other.saved[index].view,
            ) {
                assert(!({
                    &&& self.saved@[index as int].id@ == other.saved@[index as int].id@
                    &&& self.saved@[index as int].name@ == other.saved@[index as int].name@
                    &&& self.saved@[index as int].view@ == other.saved@[index as int].view@
                }));
                return false;
            }
            index += 1;
        }
        true
    }
}

impl Default for FailureInboxPreferencesV1 {
    fn default() -> (preferences: Self)
        ensures
            preferences.is_new(),
    {
        FailureInboxPreferencesV1 {
            current: FailureInboxViewV1::default(),
            saved: Vec::new(),
            active_saved_view_id: None,
        }
    }
}

/// A step that a presentation explains.
#[derive(Debug, Clone)]
pub struct PresentedEvidence {
    pub span_id: Option<String>,
    pub role: String,
    pub explanation: String,
}

/// A failure in words.
#[derive(Debug, Clone)]
pub struct FailurePresentation {
    pub title: String,
    pub diagnosis: String,
    pub expected_behavior: String,
    pub observed_behavior: String,
    pub recovery_summary: String,
    pub caveat: Option<String>,
    pub remediation_hint: String,
    pub evidence: Vec<PresentedEvidence>,
}

/// Findings that resemble each other.
#[derive(Debug, Clone)]
pub struct SimilarityCohort {
    pub cluster_id: String,
    pub member_count: u64,
    pub novelty_count: u64,
    pub method: String,
    pub embedding_provider: Option<String>,
    pub embedding_model: Option<String>,
}

/// A group of related findings.
#[derive(Debug)]
pub struct FailureGroupSummary {
    pub scope: QueryScopeV1,
    pub project_id: String,
    pub group_id: String,
    pub failure_signature: String,
    pub detector_ids: Vec<String>,
    pub subject: Option<String>,
    pub operation: Option<String>,
    pub presentation: Option<FailurePresentation>,
    pub severity: FindingSeverity,
    pub occurrence_count: u64,
    pub recovered_count: u64,
    pub unrecovered_count: u64,
    pub unknown_recovery_count: u64,
    pub affected_run_count: u64,
    pub dismissed_count: u64,
    pub unreviewed_count: u64,
    pub first_seen_at: String,
    pub last_seen_at: String,
    pub occurrence_trend: Vec<u64>,
    pub recurrence: Option<FailureRecurrenceSeriesV1>,
    pub feature_similarity_cohorts: Vec<SimilarityCohort>,
}

impl View for FailureGroupSummary {
    type V = FailureGroupSummary;

    open spec fn view(&self) -> FailureGroupSummary {
        *self
    }
}

/// A group with what is known of it as a whole.
#[derive(Debug)]
pub struct FailureGroupDetail {
    pub summary: FailureGroupSummary,
    pub explanation: String,
    pub detector_versions: Vec<String>,
    pub adapter_versions: Vec<String>,
    pub telemetry_gaps: Vec<String>,
}

/// What a rater decided of a finding.
#[derive(Debug, Clone, Copy, PartialEq, Eq, Structural)]
pub enum FindingDispositionStateV1 {
    Confirmed,
    Dismissed,
    NeedsContext,
}

/// A finding of a detector.
#[derive(Debug)]
pub struct BehaviorFinding {
    pub finding_id: String,
    pub detector_id: String,
    pub detector_version: String,
    pub severity: FindingSeverity,
    pub recovery: RecoveryStatus,
    pub created_at: String,
    pub rule_match: String,
    pub missing_facts: Vec<String>,
    /// The calibrated risk in whole percent, where there is one.
    pub calibrated_failure_risk: Option<String>,
}

/// A finding in a run.
#[derive(Debug)]
pub struct FailureOccurrence {
    pub scope: QueryScopeV1,
    pub project_id: String,
    pub group_id: String,
    pub logical_trace_id: String,
    pub revision: u64,
    pub run_title: String,
    pub service_name: Option<String>,
    pub analysis_status: String,
    pub finding: BehaviorFinding,
    pub disposition: Option<FindingDispositionStateV1>,
    pub disposition_stale: bool,
}

/// A finding with the steps that show it.
#[derive(Debug)]
pub struct FindingEvidence {
    pub occurrence: FailureOccurrence,
    pub presentation: Option<FailurePresentation>,
    pub spans: Vec<SpanRow>,
    pub evidence_span_ids: Vec<String>,
    pub has_candidate: bool,
}

/// What the analysis is busy with.
#[derive(Debug, Clone, Copy, PartialEq, Eq, Structural)]
pub struct SourceHealth {
    pub analysis_pending: u64,
    pub analysis_running: u64,
}

/// Severities, recoveries and orders are named in words.
pub proof fn names_are_words()
    ensures
        FindingSeverity::Critical.name() == "Critical"@,
        FindingSeverity::High.name() == "High"@,
        FindingSeverity::Medium.name() == "Medium"@,
        FindingSeverity::Low.name() == "Low"@,
        FindingSeverity::Info.name() == "Info"@,
        RecoveryStatus::Unrecovered.name() == "Unrecovered"@,
        RecoveryStatus::Unknown.name() == "Unknown"@,
        RecoveryStatus::Recovered.name() == "Recovered"@,
        FailureInboxSort::Priority.name() == "Priority"@,
        FailureInboxSort::MostRecent.name() == "Most recent"@,
        FailureInboxSort::MostFrequent.name() == "Most frequent"@,
        FailureInboxSort::MostUnresolved.name() == "Most unresolved"@,
{
}

/// An optional text is there exactly where it was given, as it was given.
pub proof fn optional_texts_keep_their_text(value: Option<String>)
    ensures
        optional_text(value) is Some <==> value is Some,
        value is Some ==> optional_text(value) == Some(value->0@),
{
}

/// Two scopes are the same exactly where every criterion is.
pub proof fn scopes_differ_by_any_criterion(left: QueryScopeCriteriaV1, right: QueryScopeCriteriaV1)
    ensures
        left@ == right@ <==> {
            &&& optional_text(left.project_id) == optional_text(right.project_id)
            &&& optional_text(left.environment) == optional_text(right.environment)
            &&& optional_text(left.build_id) == optional_text(right.build_id)
            &&& optional_text(left.session_id) == optional_text(right.session_id)
            &&& optional_text(left.service_name) == optional_text(right.service_name)
            &&& left.started_after_unix_nano == right.started_after_unix_nano
            &&& left.started_before_unix_nano == right.started_before_unix_nano
        },
{
}

/// Two views are the same exactly where every filter and the order are.
pub proof fn views_differ_by_any_filter(left: FailureInboxViewV1, right: FailureInboxViewV1)
    ensures
        left@ == right@ <==> {
            &&& left.severity == right.severity
            &&& left.recovery == right.recovery
            &&& optional_text(left.detector_id) == optional_text(right.detector_id)
            &&& optional_text(left.service_name) == optional_text(right.service_name)
            &&& optional_text(left.search) == optional_text(right.search)
            &&& left.sort == right.sort
        },
{
}

/// Nothing is filtered by default: every criterion is unset and the order is
/// the priority.
pub proof fn nothing_is_filtered_by_default(preferences: FailureInboxPreferencesV1)
    ensures
        QueryScopeCriteriaV1::unlimited().project_id is None,
        QueryScopeCriteriaV1::unlimited().environment is None,
        QueryScopeCriteriaV1::unlimited().build_id is None,
        QueryScopeCriteriaV1::unlimited().session_id is None,
        QueryScopeCriteriaV1::unlimited().service_name is None,
        QueryScopeCriteriaV1::unlimited().started_after_unix_nano is None,
        QueryScopeCriteriaV1::unlimited().started_before_unix_nano is None,
        preferences.is_new() ==> {
            &&& preferences.current.severity is None
            &&& preferences.current.recovery is None
            &&& preferences.current.detector_id is None
            &&& preferences.current.service_name is None
            &&& preferences.current.search is None
            &&& preferences.current.sort == FailureInboxSort::Priority
            &&& preferences.saved@.len() == 0
            &&& preferences.active_saved_view_id is None
        },
{
}

} // verus!
