use perseval_app::design::ExecutionRole;
use perseval_app::keyed::KeySet;
use perseval_app::screens::failure_inbox::actions::{review_menu, InvestigationAction};
use perseval_app::screens::failure_inbox::comparison::comparison_request;
use perseval_app::screens::failure_inbox::components::{
    execution_role_for_span, full_trace_role, full_trace_span_row, full_trace_timeline_row,
    recurrence_sparkline, recurrence_trend_summary, trend_sparkline, trend_summary,
    FullTraceRowState,
};
use perseval_app::screens::failure_inbox::eval_batch_preview::selection_reason_label;
use perseval_app::screens::failure_inbox::eval_generation::{
    CandidateGenerationJobStatusV1, CandidateGenerationJobV1, EvalBatchExclusion, EvalBatchItem,
    EvalBatchPreviewV1, EvalCandidatePreview, EvalSelectionReasonV1,
};
use perseval_app::screens::failure_inbox::evidence::{
    order_steps, review_label, EvidencePanel,
};
use perseval_app::screens::failure_inbox::filter_menu::MenuView;
use perseval_app::screens::failure_inbox::full_trace_render::{
    filter_spans, span_matches_search,
};
use perseval_app::screens::failure_inbox::full_trace_state::{LoadedTrace, RunTimes};
use perseval_app::screens::failure_inbox::full_trace_timeline::FullTraceTimelineModel;
use perseval_app::screens::failure_inbox::full_trace_tree::{
    FullTraceListRow, FullTraceTreeModel, TreePageKey,
};
use perseval_app::screens::failure_inbox::groups::FailureGroupPage;
use perseval_app::screens::failure_inbox::inspector::BlobPreviewV1;
use perseval_app::screens::failure_inbox::investigation_state::OccurrenceStep;
use perseval_app::screens::failure_inbox::model::{
    AttributeValue, BehaviorFinding, BlobRefV1, FailureGroupDetail, FailureGroupSummary,
    FailureInboxPreferencesV1, FailureInboxSort, FailureInboxViewV1, FailureOccurrence,
    FailureRecurrenceBucketV1, FailureRecurrenceSeriesV1, FindingDispositionStateV1,
    FindingEvidence, FindingSeverity, QueryScopeCriteriaV1, QueryScopeV1, RecordList,
    RecoveryStatus, SavedFailureInboxViewV1, SourceHealth, SpanRow, SpanTreePageV1,
};
use perseval_app::screens::failure_inbox::navigation::FocusMove;
use perseval_app::screens::failure_inbox::preferences::{
    describe_view, next_saved_view_id, sort_groups,
};
use perseval_app::screens::failure_inbox::render::{
    group_trend, row_click, short_hash, RowClick,
};
use perseval_app::screens::failure_inbox::render_root::InboxContent;
use perseval_app::screens::failure_inbox::selection::{
    adjacent_group_index, inclusive_selection_indices, occurrence_navigation_state,
    reconcile_group_identity_state,
};
use perseval_app::screens::failure_inbox::state::{
    FailureInbox, FailureInboxEvent, FullTraceMode, FullTraceOrigin, InboxFilterMenu,
    InspectorTab, ProjectScope, QueryScope,
};
use perseval_app::screens::failure_inbox::updates::{Retry, TraceChangeKind, TraceDelta};
use std::sync::Arc;

const UNASSIGNED: &str = "unassigned";

fn scope(project: &str) -> QueryScopeV1 {
    QueryScopeV1::new(QueryScopeCriteriaV1 {
        project_id: Some(project.into()),
        ..QueryScopeCriteriaV1::default()
    })
}

fn group(id: &str, occurrences: u64, unresolved: u64, last_seen: &str) -> FailureGroupSummary {
    FailureGroupSummary {
        scope: scope("project"),
        project_id: "project".into(),
        group_id: id.into(),
        failure_signature: id.into(),
        detector_ids: vec![id.into()],
        subject: None,
        operation: None,
        presentation: None,
        severity: FindingSeverity::Medium,
        occurrence_count: occurrences,
        recovered_count: occurrences.saturating_sub(unresolved),
        unrecovered_count: unresolved,
        unknown_recovery_count: 0,
        affected_run_count: occurrences,
        dismissed_count: 0,
        unreviewed_count: occurrences,
        first_seen_at: last_seen.into(),
        last_seen_at: last_seen.into(),
        occurrence_trend: vec![occurrences],
        recurrence: None,
        feature_similarity_cohorts: Vec::new(),
    }
}

fn detail(id: &str, occurrences: u64) -> FailureGroupDetail {
    FailureGroupDetail {
        summary: group(id, occurrences, 1, "2026-01-01T00:00:00Z"),
        explanation: "why".into(),
        detector_versions: vec!["loop@1".into()],
        adapter_versions: Vec::new(),
        telemetry_gaps: Vec::new(),
    }
}

fn occurrence(project: &str, trace: &str, revision: u64) -> FailureOccurrence {
    FailureOccurrence {
        scope: scope(project),
        project_id: project.into(),
        group_id: "group".into(),
        logical_trace_id: trace.into(),
        revision,
        run_title: trace.into(),
        service_name: None,
        analysis_status: "Ready".into(),
        finding: BehaviorFinding {
            finding_id: format!("{trace}-{revision}"),
            detector_id: "test".into(),
            detector_version: "1".into(),
            severity: FindingSeverity::High,
            recovery: RecoveryStatus::Unrecovered,
            created_at: "2026-07-13T00:00:00Z".into(),
            rule_match: "exact".into(),
            missing_facts: Vec::new(),
            calibrated_failure_risk: None,
        },
        disposition: None,
        disposition_stale: false,
    }
}

fn span(id: &str, parent: Option<&str>, start: u64, has_children: bool) -> SpanRow {
    SpanRow {
        logical_trace_id: "trace".into(),
        revision: 1,
        span_id: id.into(),
        parent_span_id: parent.map(str::to_owned),
        name: id.into(),
        category: "agent".into(),
        start_time_unix_nano: start,
        duration_nano: 1,
        status_code: 0,
        status_message: String::new(),
        depth: 0,
        has_children,
        attributes: Arc::new(Vec::new()),
        attributes_rendered: String::new(),
        payload_refs: Arc::new(Vec::new()),
        events: RecordList { count: 0, rendered: "[]".into() },
        links: RecordList { count: 0, rendered: "[]".into() },
    }
}

fn page(parent: Option<&str>, rows: Vec<SpanRow>) -> SpanTreePageV1 {
    SpanTreePageV1 {
        parent_span_id: parent.map(str::to_owned),
        offset: 0,
        total: rows.len() as u64,
        rows,
    }
}

fn query_scope(project: ProjectScope) -> QueryScope {
    QueryScope {
        project,
        environment: None,
        build: None,
        session: None,
        period: "Last 7 days".into(),
    }
}

fn inbox() -> FailureInbox {
    let mut inbox = FailureInbox::new(
        SourceHealth { analysis_pending: 0, analysis_running: 0 },
        4,
        10,
        Ok((vec!["tool_call_loop".into()], vec!["agent".into()])),
        query_scope(ProjectScope::AllProjects),
        8,
    );
    assert!(inbox
        .set_query_scope(query_scope(ProjectScope::Project("project".into())), None, 0)
        .is_some());
    assert!(inbox
        .set_query_scope(query_scope(ProjectScope::Project("project".into())), None, 0)
        .is_none());
    inbox
}

fn loaded_inbox() -> FailureInbox {
    let mut inbox = inbox();
    let request = inbox.reload_groups(0);
    let rows = vec![
        group("a", 2, 2, "2026-01-01T00:00:00Z"),
        group("b", 8, 1, "2026-01-03T00:00:00Z"),
        group("c", 3, 3, "2026-01-02T00:00:00Z"),
    ];
    inbox.finish_reload(request, Ok(FailureGroupPage { rows, total: 3 }));
    inbox
}

fn evidence(occurrence: FailureOccurrence) -> FindingEvidence {
    FindingEvidence {
        occurrence,
        presentation: None,
        spans: vec![span("second", None, 20, false), span("first", None, 10, false)],
        evidence_span_ids: vec!["second".into()],
        has_candidate: false,
    }
}

fn investigating_inbox(total: u64) -> FailureInbox {
    let mut inbox = loaded_inbox();
    let (request, _) = inbox.open_group("project".into(), "group".into());
    let request = request.expect("a group that was not loaded");
    let rows = vec![occurrence("project", "trace-a", 1), occurrence("project", "trace-b", 2)];
    let request = inbox
        .finish_group(request.generation, None, Ok((Some(detail("group", total)), rows)))
        .expect("the evidence of the first example");
    inbox.finish_occurrence(
        request.generation,
        request.finding_id,
        Ok(Some(evidence(occurrence("project", "trace-a", 1)))),
    );
    inbox
}

fn ids(groups: &[FailureGroupSummary]) -> Vec<&str> {
    groups.iter().map(|group| group.group_id.as_str()).collect()
}

#[test]
fn explicit_agent_role_wins_over_shared_agent_name() {
    let mut row = span("span", None, 0, false);
    row.attributes = Arc::new(vec![
        ("agent.name".into(), AttributeValue::Text("returns-support-agent".into())),
        ("agent.role".into(), AttributeValue::Text("browser".into())),
    ]);

    assert_eq!(full_trace_role(&row), "Browser");
    assert_eq!(execution_role_for_span(&row), ExecutionRole::Browser);
}

fn recurrence(rates: &[(u64, u64)]) -> FailureRecurrenceSeriesV1 {
    FailureRecurrenceSeriesV1 {
        started_at_unix_nano: 0,
        ended_at_unix_nano: rates.len() as u64,
        bucket_width_nano: 1,
        buckets: rates
            .iter()
            .enumerate()
            .map(|(index, (affected, eligible))| FailureRecurrenceBucketV1 {
                started_at_unix_nano: index as u64,
                ended_at_unix_nano: index as u64 + 1,
                eligible_run_count: *eligible,
                affected_run_count: *affected,
                finding_count: *affected,
                recurrence_rate_basis_points: (*eligible > 0)
                    .then(|| ((*affected * 10_000) / *eligible) as u16),
            })
            .collect(),
    }
}

#[test]
fn trend_compares_first_and_last_observed_buckets() {
    assert_eq!(trend_summary(&[1, 0, 0, 1, 0, 0, 1]).0, "Intermittent");
    assert_eq!(trend_summary(&[1, 0, 0, 3]).0, "+200%");
    assert_eq!(trend_summary(&[4, 0, 0, 2]).0, "-50%");
    assert_eq!(trend_summary(&[]).0, "New");
}

#[test]
fn recurrence_trend_compares_rates_instead_of_raw_run_counts() {
    let series = recurrence(&[(1, 1), (0, 0), (1, 4), (0, 0)]);
    assert_eq!(recurrence_trend_summary(&series).0, "-75%");
}

#[test]
fn recurrence_trend_distinguishes_no_population_from_zero_failures() {
    let no_recent_runs = recurrence(&[(1, 1), (0, 0)]);
    assert_eq!(
        recurrence_trend_summary(&no_recent_runs).0,
        "No recent runs"
    );

    let resolved = recurrence(&[(1, 1), (0, 1)]);
    assert_eq!(recurrence_trend_summary(&resolved).0, "-100%");
}

#[test]
fn changes_are_rounded_as_floating_point_does() {
    for (from, to) in [(200u64, 229u64), (8, 9), (3, 4), (7, 1), (1_000, 1_005)] {
        let expected = ((to as f64 - from as f64) / from as f64 * 100.0).round() as i64;
        assert_eq!(trend_summary(&[from, to]).0, format!("{expected:+}%").replace("+0%", "Flat"));
    }
}

#[test]
fn timeline_rows_do_not_depend_on_tree_expansion() {
    let mut timeline = FullTraceTimelineModel::new(8);
    timeline.set_total(2);
    timeline.finish_load(0, vec![span("parent", None, 10, false), span("child", None, 20, false)]);

    assert_eq!(timeline.total(), 2);
    assert_eq!(
        timeline.row(1).map(|row| row.span_id.as_str()),
        Some("child")
    );
}

#[test]
fn retained_pages_are_bounded() {
    let mut timeline = FullTraceTimelineModel::new(2);
    timeline.finish_load(0, vec![span("zero", None, 0, false)]);
    timeline.finish_load(1, vec![span("one", None, 1, false)]);
    timeline.finish_load(2, vec![span("two", None, 2, false)]);

    assert!(timeline.row(0).is_none());
    assert_eq!(timeline.loaded_count(), 2);
}

#[test]
fn loaded_timeline_rows_are_in_order_of_time() {
    let mut timeline = FullTraceTimelineModel::new(4);
    timeline.finish_load(0, vec![span("late", None, 9, false), span("early", None, 3, false)]);
    let rows = timeline.loaded_rows();
    assert_eq!(rows[0].span_id, "early");
    assert!(!timeline.begin_load(0));
    assert!(timeline.begin_load(1));
    assert!(!timeline.begin_load(1));
    timeline.fail_load(1);
    assert!(timeline.begin_load(1));
}

#[test]
fn children_are_absent_until_their_real_parent_is_expanded() {
    let mut tree = FullTraceTreeModel::new(8);
    let root_key = TreePageKey::new(None, 0);
    tree.finish_load(&root_key, page(None, vec![span("root", None, 0, true)]));
    let child_key = TreePageKey::new(Some("root".into()), 0);
    tree.finish_load(
        &child_key,
        page(Some("root"), vec![span("child", Some("root"), 0, false)]),
    );

    assert_eq!(tree.visible_rows().len(), 1);
    assert!(tree.toggle("root"));
    let visible = tree.visible_rows();
    assert_eq!(visible.len(), 2);
    assert!(
        matches!(&visible[1], FullTraceListRow::Span(span) if span.span_id == "child" && span.depth == 1)
    );
    assert!(!tree.toggle("root"));
    assert_eq!(tree.visible_rows().len(), 1);
}

#[test]
fn a_partial_page_exposes_an_explicit_load_more_row() {
    let mut tree = FullTraceTreeModel::new(8);
    let key = TreePageKey::new(None, 0);
    tree.finish_load(
        &key,
        SpanTreePageV1 {
            parent_span_id: None,
            offset: 0,
            total: 501,
            rows: vec![span("root", None, 0, false)],
        },
    );
    assert!(matches!(
        tree.visible_rows().last(),
        Some(FullTraceListRow::LoadMore { offset: 1, .. })
    ));
}

#[test]
fn a_span_that_is_its_own_child_is_shown_once() {
    let mut tree = FullTraceTreeModel::new(8);
    tree.finish_load(&TreePageKey::new(None, 0), page(None, vec![span("root", None, 0, true)]));
    tree.finish_load(
        &TreePageKey::new(Some("root".into()), 0),
        page(Some("root"), vec![span("root", Some("root"), 0, true)]),
    );
    tree.expand_all_loaded();
    assert!(tree.is_expanded("root"));
    let visible = tree.visible_rows();
    let shown = visible.iter().filter(|row| matches!(row, FullTraceListRow::Span(_))).count();
    assert_eq!(shown, 1);
}

#[test]
fn the_latest_page_is_kept_within_the_capacity() {
    let mut tree = FullTraceTreeModel::new(0);
    let (first, second) = (TreePageKey::new(None, 0), TreePageKey::new(None, 500));
    tree.finish_load(&first, page(None, vec![span("a", None, 0, false)]));
    assert!(tree.has_page(&first));
    tree.finish_load(&second, page(None, vec![span("b", None, 1, false)]));
    assert!(tree.has_page(&second) && !tree.has_page(&first));
    let mut timeline = FullTraceTimelineModel::new(1);
    timeline.finish_load(0, vec![span("a", None, 0, false)]);
    timeline.finish_load(1, vec![span("b", None, 1, false)]);
    assert_eq!(timeline.loaded_count(), 1);
    assert!(!timeline.begin_load(1) && timeline.begin_load(0));
}

#[test]
fn children_stand_behind_the_nearest_expanded_span_of_the_level_above() {
    let mut tree = FullTraceTreeModel::new(8);
    let roots = vec![span("first", None, 0, true), span("second", None, 1, true)];
    tree.finish_load(&TreePageKey::new(None, 0), page(None, roots));
    for parent in ["first", "second"] {
        let child = format!("{parent} child");
        tree.finish_load(
            &TreePageKey::new(Some(parent.into()), 0),
            page(Some(parent), vec![span(&child, Some(parent), 7, false)]),
        );
    }
    tree.expand_all_loaded();
    let visible = tree.visible_rows();
    let shown: Vec<(&str, u32)> = visible
        .iter()
        .filter_map(|row| match row {
            FullTraceListRow::Span(span) => Some((span.span_id.as_str(), span.depth)),
            _ => None,
        })
        .collect();
    assert_eq!(
        shown,
        vec![("first", 0), ("first child", 1), ("second", 0), ("second child", 1)]
    );
}

#[test]
fn saved_view_names_and_ids_are_stable_and_human_readable() {
    let view = FailureInboxViewV1 {
        severity: Some(FindingSeverity::Critical),
        recovery: Some(RecoveryStatus::Unrecovered),
        detector_id: Some("tool_call_loop".into()),
        sort: FailureInboxSort::MostFrequent,
        ..FailureInboxViewV1::default()
    };
    assert_eq!(
        describe_view(&view),
        "Critical · Unrecovered · Tool Call Loop · Most frequent"
    );
    let mut preferences = FailureInboxPreferencesV1::default();
    assert_eq!(next_saved_view_id(&preferences), "failure-view-1");
    preferences.saved.push(SavedFailureInboxViewV1 {
        id: "failure-view-2".into(),
        name: "Existing".into(),
        view,
    });
    assert_eq!(next_saved_view_id(&preferences), "failure-view-1");
}

#[test]
fn a_new_view_id_skips_the_ids_in_use() {
    let mut preferences = FailureInboxPreferencesV1::default();
    for id in ["failure-view-1", "failure-view-2", "failure-view-4"] {
        preferences.saved.push(SavedFailureInboxViewV1 {
            id: id.into(),
            name: id.into(),
            view: FailureInboxViewV1::default(),
        });
    }
    assert_eq!(next_saved_view_id(&preferences), "failure-view-3");
}

#[test]
fn supported_sorts_are_deterministic() {
    let groups = || {
        vec![
            group("a", 2, 2, "2026-01-01T00:00:00Z"),
            group("b", 8, 1, "2026-01-03T00:00:00Z"),
            group("c", 3, 3, "2026-01-02T00:00:00Z"),
        ]
    };
    let sort = |kind| {
        sort_groups(kind, groups())
            .into_iter()
            .map(|group| group.group_id)
            .collect::<Vec<_>>()
    };
    assert_eq!(sort(FailureInboxSort::MostRecent), vec!["b", "c", "a"]);
    assert_eq!(sort(FailureInboxSort::MostFrequent), vec!["b", "c", "a"]);
    assert_eq!(sort(FailureInboxSort::MostUnresolved), vec!["c", "a", "b"]);
}

#[test]
fn comparison_requires_distinct_revisions_in_one_project() {
    let baseline = occurrence("project-a", "trace-a", 1);
    let candidate = occurrence("project-a", "trace-b", 2);
    let request = comparison_request(&baseline, &candidate).expect("compatible examples");
    assert_eq!(request.baseline_trace_id, "trace-a");
    assert_eq!(request.candidate_trace_id, "trace-b");
    assert!(comparison_request(&baseline, &baseline).is_none());
    assert!(comparison_request(&baseline, &occurrence("project-b", "trace-b", 2)).is_none());
}

fn key(project: &str, group: &str) -> Option<(String, String)> {
    Some((project.into(), group.into()))
}

fn set(keys: &[&str]) -> KeySet<String> {
    let mut set = KeySet::new();
    for key in keys {
        set.insert(key.to_string());
    }
    set
}

#[test]
fn committed_updates_keep_stable_selection_and_drop_only_missing_groups() {
    let available = vec![
        ("project".to_owned(), "group-b".to_owned()),
        ("project".to_owned(), "group-c".to_owned()),
    ];
    let mut focused = key("project", "group-b");
    let mut selected = set(&["group-a", "group-b", "group-c"]);
    let mut anchor = key("project", "group-c");
    reconcile_group_identity_state(
        &available,
        &mut focused,
        &mut selected,
        &mut anchor,
        key("project", "group-b"),
    );
    assert_eq!(focused, key("project", "group-b"));
    let mut kept = selected.keys().to_vec();
    kept.sort();
    assert_eq!(kept, vec!["group-b", "group-c"]);
    assert_eq!(anchor, key("project", "group-c"));
}

#[test]
fn resync_never_retargets_focus_to_a_different_group() {
    let available = vec![("project".to_owned(), "group-c".to_owned())];
    let mut focused = key("project", "group-b");
    let mut selected = set(&["group-b"]);
    let mut anchor = key("project", "group-b");
    reconcile_group_identity_state(
        &available,
        &mut focused,
        &mut selected,
        &mut anchor,
        key("project", "group-b"),
    );
    assert_eq!(focused, None);
    assert_eq!(selected.len(), 0);
    assert_eq!(anchor, None);
}

#[test]
fn occurrence_navigation_disables_boundaries_and_crosses_pages() {
    assert_eq!(occurrence_navigation_state(0, 0, 1, 1), (false, false));
    assert_eq!(occurrence_navigation_state(0, 1, 3, 3), (true, true));
    assert_eq!(occurrence_navigation_state(0, 99, 100, 101), (true, true));
    assert_eq!(occurrence_navigation_state(100, 0, 1, 101), (true, false));
}

#[test]
fn group_keyboard_navigation_is_bounded_and_starts_at_an_edge() {
    assert_eq!(adjacent_group_index(None, 0, 1), None);
    assert_eq!(adjacent_group_index(None, 3, 1), Some(0));
    assert_eq!(adjacent_group_index(None, 3, -1), Some(2));
    assert_eq!(adjacent_group_index(Some(0), 3, -1), Some(0));
    assert_eq!(adjacent_group_index(Some(2), 3, 1), Some(2));
}

#[test]
fn range_selection_is_inclusive_bounded_and_direction_independent() {
    assert_eq!(inclusive_selection_indices(1, 3, 5), vec![1, 2, 3]);
    assert_eq!(inclusive_selection_indices(3, 1, 5), vec![1, 2, 3]);
    assert_eq!(inclusive_selection_indices(9, 2, 4), vec![2, 3]);
}

#[test]
fn only_the_latest_page_of_groups_counts() {
    let mut inbox = inbox();
    let stale = inbox.reload_groups(0);
    let current = inbox.reload_groups(0);
    inbox.finish_reload(
        stale,
        Ok(FailureGroupPage { rows: vec![group("x", 1, 1, "")], total: 1 }),
    );
    assert!(inbox.list.groups.is_empty());
    assert!(inbox.list.loading);
    inbox.finish_reload(current, Err("offline".into()));
    assert_eq!(inbox.load_error.as_deref(), Some("offline"));
    assert!(!inbox.list.loading);
}

#[test]
fn a_range_is_selected_with_the_keyboard() {
    let mut inbox = loaded_inbox();
    assert_eq!(ids(&inbox.list.groups), vec!["a", "b", "c"]);
    assert!(matches!(inbox.move_primary_focus(1), FocusMove::Group(0)));
    assert_eq!(inbox.selection.focused, key("project", "a"));
    let groups = &inbox.list.groups;
    assert_eq!(inbox.selection.extend_group_selection(groups, 1, true), Some(1));
    assert_eq!(inbox.selection.extend_group_selection(&Vec::new(), 1, true), None);
    assert_eq!(inbox.selection.selected.len(), 2);
    let summary = inbox.selection_summary(UNASSIGNED).expect("a selection");
    assert!(!summary.can_open && summary.can_generate);
    assert!(inbox.open_only_selected_group().is_none());
    inbox.selection.toggle_group("project".into(), "a".into());
    let (request, event) = inbox.open_only_selected_group().expect("one group");
    assert_eq!(request.expect("not loaded").group_id, "b");
    assert!(matches!(
        event,
        FailureInboxEvent::OpenInvestigation { group_id, .. } if group_id == "b"
    ));
}

#[test]
fn the_keyboard_moves_along_the_steps_of_the_evidence() {
    let mut inbox = investigating_inbox(2);
    inbox.inspector.span_id = None;
    assert!(matches!(inbox.move_primary_focus(1), FocusMove::EvidenceStep(_)));
    assert_eq!(inbox.inspector.span_id.as_deref(), Some("second"));
    inbox.move_primary_focus(1);
    assert_eq!(inbox.inspector.span_id.as_deref(), Some("first"));
    inbox.move_primary_focus(1);
    assert_eq!(inbox.inspector.span_id.as_deref(), Some("first"));
}

#[test]
fn stepping_through_examples_crosses_pages() {
    let mut inbox = investigating_inbox(103);
    assert_eq!(inbox.investigation.occurrence_position(), Some(1));
    assert!(!inbox.investigation.can_navigate_occurrence(false));
    assert!(inbox.investigation.can_navigate_occurrence(true));
    let OccurrenceStep::Evidence(request) = inbox.navigate_occurrence(true) else {
        panic!("the next example is on the page");
    };
    assert_eq!(request.finding_id, "trace-b-2");
    inbox.finish_occurrence(
        request.generation,
        request.finding_id,
        Ok(Some(evidence(occurrence("project", "trace-b", 2)))),
    );
    assert_eq!(inbox.investigation.occurrence_position(), Some(2));
    assert!(matches!(inbox.navigate_occurrence(true), OccurrenceStep::Page(_)));
}

#[test]
fn two_examples_are_chosen_for_a_comparison() {
    let mut inbox = investigating_inbox(2);
    assert!(inbox.can_compare_examples());
    inbox.set_inspector_open(true);
    assert!(matches!(
        inbox.begin_compare_examples(),
        Some(FailureInboxEvent::InspectorVisibilityChanged { visible: false, .. })
    ));
    assert!(inbox.is_comparison_base("trace-a-1"));
    assert!(inbox.compare_with_occurrence("trace-a-1").is_none());
    assert!(matches!(
        inbox.compare_with_occurrence("trace-b-2"),
        Some(FailureInboxEvent::OpenCompare(request)) if request.candidate_trace_id == "trace-b"
    ));
}

#[test]
fn filters_are_set_and_reset() {
    let mut inbox = loaded_inbox();
    inbox.select_severity(Some(FindingSeverity::High), 0);
    inbox.select_detector(Some("tool_call_loop".into()), 0);
    assert_eq!(inbox.active_group_filter_count(), 2);
    assert_eq!(inbox.filters_label(), "Filters · 2");
    inbox.toggle_filter_menu(InboxFilterMenu::Filters);
    assert!(inbox.render_open_filter_menu().is_none());
    inbox.toggle_filter_menu(InboxFilterMenu::Filters);
    let view = inbox.render_open_filter_menu().expect("an open menu");
    let MenuView::Filters { severities, detectors, services, .. } = view else {
        panic!("the filters are offered");
    };
    assert!(severities[2].active && !severities[0].active);
    assert_eq!((detectors[1].label.as_str(), detectors[1].active), ("Tool Call Loop", true));
    assert_eq!((services[0].label.as_str(), services[0].active), ("All", true));
    inbox.clear_filters(0);
    assert!(!inbox.has_active_group_filters());
}

#[test]
fn a_saved_view_is_found_again() {
    let mut inbox = loaded_inbox();
    inbox.select_severity(Some(FindingSeverity::Low), 0);
    inbox.select_sort(FailureInboxSort::MostRecent, 0);
    inbox.save_current_view();
    inbox.clear_filters(0);
    assert!(inbox.filters.severity.is_none());
    let id = inbox.preferences.saved[0].id.clone();
    assert_eq!(id, "failure-view-1");
    assert_eq!(inbox.preferences.saved[0].name, "Low · Most recent");
    inbox.activate_saved_view(id.clone(), 0).expect("a saved view");
    assert_eq!(inbox.filters.severity, Some(FindingSeverity::Low));
    inbox.toggle_filter_menu(InboxFilterMenu::Organize);
    let MenuView::Organize { saved, sorts } = inbox.render_open_filter_menu().expect("open") else {
        panic!("the views are offered");
    };
    assert!(saved[0].active && sorts[1].active);
    inbox.select_severity(Some(FindingSeverity::High), 0);
    inbox.save_current_view();
    assert_eq!(inbox.preferences.saved[1].id, "failure-view-2");
    assert_eq!(inbox.preferences.active_saved_view_id.as_deref(), Some("failure-view-2"));
    inbox.remove_saved_view("failure-view-2");
    assert_eq!(saved[0].remove_label, format!("Remove saved view {}", saved[0].name));
    inbox.remove_saved_view(&id);
    assert!(inbox.preferences.saved.is_empty());
    assert!(inbox.activate_saved_view(id, 0).is_none());
}

#[test]
fn searches_apply_only_when_they_are_the_latest() {
    let mut inbox = loaded_inbox();
    inbox.search.set_text("  loop ");
    let stale = inbox.schedule_search();
    let current = inbox.schedule_search();
    assert!(inbox.finish_search(stale, 0).is_none());
    assert!(inbox.finish_search(current, 0).is_some());
    assert_eq!(inbox.filters.search.as_deref(), Some("loop"));
}

#[test]
fn a_gap_in_the_updates_delays_the_inbox() {
    let mut inbox = loaded_inbox();
    let delta = |commit_sequence, change| TraceDelta { commit_sequence, change };
    let effect = inbox.apply_deltas(&vec![
        delta(11, TraceChangeKind::Other),
        delta(11, TraceChangeKind::Other),
        delta(12, TraceChangeKind::FindingsCommitted),
        delta(15, TraceChangeKind::FindingsCommitted),
    ]);
    assert!(effect.refresh);
    assert_eq!(inbox.live.last_sequence, 12);
    assert!(!inbox.live.delayed);
    inbox.apply_deltas(&vec![delta(14, TraceChangeKind::Other)]);
    assert!(inbox.live.delayed);
    let health = SourceHealth { analysis_pending: 1, analysis_running: 0 };
    inbox.resynchronize(health, 9, 20, 0);
    assert_eq!((inbox.live.last_sequence, inbox.live.run_count), (20, 9));
    assert!(!inbox.live.delayed);
}

#[test]
fn an_error_is_retried_where_it_arose() {
    let mut inbox = loaded_inbox();
    inbox.lose_updates("gone".into());
    assert!(matches!(inbox.retry_current_view(0), Retry::Groups(_)));
    inbox.dismiss_load_error();
    assert!(inbox.load_error.is_none());
}

#[test]
fn a_trace_is_opened_filtered_and_left() {
    let mut inbox = inbox();
    let loads = inbox.show_full_trace("trace".into(), 1, FullTraceOrigin::Runs, None);
    let request = loads.trace.expect("a trace that was not loaded");
    let mut failed = span("Failed step", None, 7, false);
    failed.status_code = 2;
    inbox.finish_full_trace(
        request.generation,
        request.revision,
        Ok(LoadedTrace {
            span_count: 2,
            first_page: page(None, vec![span("root", None, 5, true), failed.copy()]),
            timeline: vec![span("root", None, 5, true), failed],
            run: Some(RunTimes {
                revision: 1,
                start_time_unix_nano: 5,
                end_time_unix_nano: 1_000_005,
            }),
        }),
    );
    let view = inbox.render_full_trace();
    assert_eq!((view.tree_rows.len(), view.duration_nano), (2, 1_000_000));
    inbox.showing_inbox = false;
    assert!(matches!(inbox.move_primary_focus(1), FocusMove::TraceSpan(..)));
    assert_eq!(inbox.inspector.span_id.as_deref(), Some("root"));
    inbox.toggle_full_trace_errors();
    assert_eq!(inbox.render_full_trace().tree_rows.len(), 1);
    inbox.reset_full_trace_filters();
    inbox.set_full_trace_mode(FullTraceMode::Timeline);
    inbox.trace.search.set_text("FAILED");
    let filtered = inbox.render_full_trace();
    assert_eq!(filtered.timeline_rows.expect("filtered rows").len(), 1);
    assert!(matches!(
        inbox.return_from_full_trace(),
        FailureInboxEvent::ReturnFromFullTrace { origin: FullTraceOrigin::Runs }
    ));
}

#[test]
fn searches_ignore_case() {
    let row = span("Fetch ÄPFEL", None, 0, false);
    assert!(span_matches_search(&row, "äpfel"));
    assert!(!span_matches_search(&row, "birnen"));
    assert_eq!(filter_spans(&vec![row], "", true).len(), 0);
}

#[test]
fn steps_are_shown_in_order_of_time() {
    let ordered = order_steps(&vec![span("b", None, 9, false), span("a", None, 3, false)]);
    assert_eq!(ordered[0].span_id, "a");
}

#[test]
fn payloads_are_revealed_in_bounds() {
    let mut inbox = investigating_inbox(2);
    let mut focused = span("first", None, 10, false);
    focused.payload_refs =
        Arc::new(vec![("input".into(), BlobRefV1 { blob_id: "blob".into() })]);
    inbox.inspector.span = Some(focused);
    inbox.set_tab(InspectorTab::Payload);
    assert_eq!(inbox.payload_buttons(), vec!["Reveal input (bounded)"]);
    inbox.reveal_payload(
        "input".into(),
        Ok(BlobPreviewV1 {
            bytes: b"{ }".to_vec(),
            revealed_bytes: 3,
            original_bytes: 9,
            truncated: true,
            larger_local_reveal_allowed: true,
        }),
    );
    let view = inbox.payload_view().expect("a revealed payload");
    assert_eq!(view.shown, "input · 3 of 9 bytes · truncated\n\n{}");
    assert_eq!(inbox.larger_payload().expect("a larger payload").1.blob_id, "blob");
    inbox.reveal_payload("input".into(), Err("denied".into()));
    assert_eq!(inbox.load_error.as_deref(), Some("denied"));
}

#[test]
fn the_inspector_and_the_details_exclude_each_other() {
    let mut inbox = investigating_inbox(2);
    inbox.set_inspector_open(false);
    inbox.toggle_inspector();
    assert!(inbox.inspector.open && !inbox.investigation.group_details_open);
    inbox.toggle_group_details();
    assert!(!inbox.inspector.open && inbox.investigation.group_details_open);
    assert_eq!(inbox.content(true), InboxContent::GroupDetail);
}

#[test]
fn reviews_are_labelled() {
    let mut example = occurrence("project", "trace", 1);
    assert!(review_label(&example).is_none());
    example.disposition = Some(FindingDispositionStateV1::Dismissed);
    assert!(review_label(&example).is_some());
}

#[test]
fn rows_open_and_select() {
    assert_eq!(row_click(false, 1, false, false), RowClick::Open);
    assert_eq!(row_click(false, 1, true, false), RowClick::Interact);
    assert_eq!(row_click(true, 1, false, false), RowClick::Interact);
    assert_eq!(row_click(true, 2, true, true), RowClick::Open);
    assert_eq!(short_hash("sha256:0123456789abcdef"), "0123456789ab");
    assert_eq!(short_hash("short"), "short");
}

#[test]
fn draft_evals_are_previewed_and_generated() {
    let mut inbox = loaded_inbox();
    inbox.selection.toggle_group("project".into(), "a".into());
    let request = inbox.preview_selected_groups(UNASSIGNED).expect("a selected group");
    assert_eq!(request.group_ids, vec!["a"]);
    assert_eq!(inbox.content(false), InboxContent::Selecting);
    let item = |already_exists| EvalBatchItem {
        group_id: "a".into(),
        already_exists,
        evidence_count: 2,
        telemetry_gaps: Vec::new(),
        build_id: None,
        session_id: None,
        selection_reason: EvalSelectionReasonV1::CanonicalMember,
        run_title: None,
        revision: 1,
        recovery: RecoveryStatus::Unknown,
        proposed_rubric: "rubric".into(),
    };
    inbox.finish_preview(Ok(EvalBatchPreviewV1 {
        preview_id: "preview".into(),
        project_id: "project".into(),
        selection_hash: "sha256:0123456789abcdef".into(),
        group_ids: vec!["a".into()],
        maximum_candidate_count: 20,
        items: vec![item(false), item(true)],
        exclusions: vec![EvalBatchExclusion { group_id: "a".into(), reason: "old".into() }],
    }));
    assert_eq!(inbox.content(false), InboxContent::EvalBatch);
    let view = inbox.render_eval_batch_preview();
    assert_eq!(view.groups[0].existing.as_deref(), Some("1 EXISTING"));
    assert_eq!(view.groups[0].excluded.as_deref(), Some("1 EXCLUDED"));
    let request = inbox.create_eval_batch().expect("a preview");
    assert_eq!(request.preview_id, "preview");
    let job = |status| CandidateGenerationJobV1 {
        job_id: "job".into(),
        status,
        outcome_count: 0,
    };
    let queued = job(CandidateGenerationJobStatusV1::Queued);
    assert_eq!(inbox.finish_create_batch(Ok(queued)).as_deref(), Some("job"));
    let running = job(CandidateGenerationJobStatusV1::Running);
    assert_eq!(inbox.finish_poll("job".into(), Ok(Some(running))).as_deref(), Some("job"));
    assert_eq!(inbox.finish_poll("job".into(), Ok(None)), None);
    assert_eq!(
        inbox.load_error.as_deref(),
        Some("Candidate generation job disappeared.")
    );
    let failed = job(CandidateGenerationJobStatusV1::Failed);
    assert_eq!(inbox.finish_poll("job".into(), Ok(Some(failed))), None);
    let shown = inbox.render_eval_batch_preview().job.expect("a job");
    assert_eq!(shown.0, "Generation Failed");
    assert_eq!(inbox.retry_generation_job().as_deref(), Some("job"));
    assert_eq!(selection_reason_label(EvalSelectionReasonV1::CanonicalMember), "Canonical example");
}

#[test]
fn groups_are_listed() {
    let mut inbox = loaded_inbox();
    inbox.selection.toggle_group("project".into(), "b".into());
    let row = inbox.render_group_row(&inbox.list.groups[1], 1, false, UNASSIGNED);
    assert_eq!(row.title, "B");
    assert_eq!(row.label, "B; Medium; 8 examples; 1 unresolved; Jan 03 · 00:00 UTC");
    assert_eq!(row.review, "8 unreviewed · 0 dismissed");
    assert_eq!(row.select_label, "Select B for eval generation");
    assert_eq!(row.investigate_label, "Investigate B");
    assert!(row.focused && row.selected && row.selectable);
    assert_eq!(row.position, 2);
    let view = inbox.render_group_list(UNASSIGNED);
    assert!(view.empty.is_none());
    assert_eq!(view.status, "3 of 3 groups loaded · 1 selected");
    assert_eq!(view.filters_hint, "Open failure filters; 0 active");
    assert_eq!(view.organize_label, "Organize · Priority");
    let selection = view.selection.expect("a selected group");
    assert_eq!(selection.summary, "1 groups selected · 8 findings · 1 representatives");
    assert_eq!(
        selection.create_label,
        "Create eval candidates from 1 selected failure groups"
    );
    let header = inbox.render_compact_group_header(UNASSIGNED);
    assert!(header.generate.is_some() && header.organize.is_none());
}

#[test]
fn more_groups_are_loaded_behind_the_listed_ones() {
    let mut inbox = inbox();
    let request = inbox.reload_groups(0);
    inbox.finish_reload(
        request,
        Ok(FailureGroupPage { rows: vec![group("a", 1, 1, "")], total: 2 }),
    );
    let view = inbox.render_group_list(UNASSIGNED);
    assert_eq!(view.page_status.as_deref(), Some("1 of 2 failure groups loaded"));
    let request = inbox.load_more_groups().expect("more groups");
    assert_eq!((request.offset, request.limit), (1, 200));
    inbox.finish_more(request.generation + 1, Err("another request".into()));
    assert!(inbox.list.loading);
    inbox.finish_more(
        request.generation,
        Ok(FailureGroupPage { rows: vec![group("b", 1, 1, "")], total: 2 }),
    );
    assert_eq!(ids(&inbox.list.groups), vec!["a", "b"]);
    assert!(inbox.load_more_groups().is_none());
}

#[test]
fn an_empty_list_says_what_to_do() {
    let mut inbox = inbox();
    let request = inbox.reload_groups(0);
    inbox.finish_reload(request, Ok(FailureGroupPage { rows: Vec::new(), total: 0 }));
    inbox.select_recovery(Some(RecoveryStatus::Recovered), 0);
    let request = inbox.reload_groups(0);
    inbox.finish_reload(request, Ok(FailureGroupPage { rows: Vec::new(), total: 0 }));
    let action = inbox.render_group_list(UNASSIGNED).empty.expect("no groups");
    assert_eq!(action.message(), "No failure groups match the current filters.");
    assert_eq!(action.offer(), Some(("Reset filters", "Reset failure filters")));
    assert!(action.event().is_none());
}

#[test]
fn a_group_is_described() {
    let mut inbox = investigating_inbox(103);
    let view = inbox.render_group_detail().expect("a group");
    assert_eq!(view.diagnosis, "why");
    assert_eq!(view.details[0].heading, "FAILURE SIGNATURE");
    assert_eq!(view.details[1].value, "loop@1");
    assert!(view.range.starts_with("Showing examples 1–2 of 103."));
    assert_eq!(view.occurrences.len(), 2);
    inbox.toggle_group_details();
    assert_eq!(inbox.content(false), InboxContent::Evidence { details: true, inspector: false });
    assert_eq!(inbox.group_detail_heading(), "FAILURE DETAILS & EXAMPLES");
}

#[test]
fn evidence_is_shown_step_by_step() {
    let inbox = investigating_inbox(2);
    let EvidencePanel::Shown(body) = inbox.render_evidence(false, UNASSIGNED) else {
        panic!("an example is shown");
    };
    assert_eq!(body.toolbar.position, "Example 1 of 2");
    assert_eq!(body.toolbar.source, "trace-a · revision 1");
    assert_eq!(body.toolbar.hint, Some("First example"));
    assert!(!body.toolbar.previous_enabled && body.toolbar.next_enabled);
    assert_eq!(body.toolbar.previous_label, "Previous example, unavailable");
    assert_eq!(body.toolbar.next_label, "Next example");
    assert!(body.toolbar.can_generate && body.toolbar.actions.is_empty());
    assert_eq!(
        body.toolbar.generate_label,
        "Generate eval candidates for this failure group"
    );
    assert!(body.toolbar.decisions.is_empty());
    assert_eq!(body.counts, "1 evidence · 2 with context");
    assert_eq!(body.steps[0].span_id, "first");
    assert_eq!(body.steps[0].row.role, "Context");
    assert_eq!(body.steps[1].row.role, "Evidence");
    assert_eq!(body.steps[1].row.summary, "Unset · agent · 0.0 ms");
    assert!(body.steps[1].label.starts_with("Step 2; second; agent; 0.0 milliseconds; "));
    let empty = loaded_inbox();
    assert!(matches!(empty.render_evidence(false, UNASSIGNED), EvidencePanel::Empty { .. }));
}

#[test]
fn the_menu_of_actions_is_offered_while_it_is_open() {
    let mut inbox = investigating_inbox(2);
    inbox.toggle_investigation_actions();
    let EvidencePanel::Shown(body) = inbox.render_evidence(false, UNASSIGNED) else {
        panic!("an example is shown");
    };
    assert_eq!(body.toolbar.actions_label, "Close investigation actions");
    let actions = &body.toolbar.actions;
    assert_eq!(actions.len(), 6);
    assert_eq!(actions[0].action, InvestigationAction::ReviewFinding);
    assert_eq!(actions[0].label, "Review finding");
    assert_eq!(actions[4].action, InvestigationAction::CompareExamples);
    assert_eq!(actions[4].hint, "Choose another example to compare with this one");
    assert!(actions[4].enabled && !actions[5].active);
    inbox.close_investigation_actions();
    assert!(inbox.action_menu().is_empty());
}

#[test]
fn a_decision_that_holds_can_be_taken_back() {
    let undecided = review_menu(true, None);
    assert_eq!(undecided.len(), 3);
    assert!(undecided.iter().all(|entry| !entry.active && entry.decision.is_some()));
    let dismissed = review_menu(true, Some(FindingDispositionStateV1::Dismissed));
    assert_eq!(dismissed.len(), 4);
    assert!(dismissed[1].active && !dismissed[0].active && !dismissed[2].active);
    assert_eq!((dismissed[3].label, dismissed[3].decision), ("Undo", None));
    assert!(review_menu(false, Some(FindingDispositionStateV1::Dismissed)).is_empty());
}

#[test]
fn the_inspector_shows_the_chosen_tab() {
    let mut inbox = investigating_inbox(2);
    inbox.set_tab(InspectorTab::Span);
    inbox.focus_evidence_span("first".into());
    let view = inbox.render_shared_inspector();
    assert!(view.tabs[1].selected && !view.tabs[0].selected);
    assert_eq!(
        view.content,
        "first\nagent\nstatus 0 · 1 ns\nparent root\n\nevents (0)\n[]\n\nlinks (0)\n[]"
    );
    assert!(view.note.is_none() && view.payload.is_none());
    inbox.set_tab(InspectorTab::Payload);
    let view = inbox.render_shared_inspector();
    assert_eq!(view.note, Some("This span has no externalized payloads."));
    assert!(view.reveal_labels.is_empty());
}

#[test]
fn spans_are_shown_as_rows_and_bars() {
    let mut row = span("search", None, 30, true);
    row.duration_nano = 2_450_000;
    row.status_code = 2;
    row.depth = 2;
    let state = FullTraceRowState::new(true, false, true, false);
    let view = full_trace_span_row(&row, state, false);
    assert_eq!(view.disclosure_label.as_deref(), Some("Expand children for search"));
    assert_eq!(view.duration_label, "2.5 ms · children");
    assert_eq!((view.status, view.level), ("Error", 3));
    let bar = full_trace_timeline_row(&row, state, 10, 100);
    assert_eq!((bar.bar_offset, bar.bar_duration), (20, 2_450_000));
    assert!(bar.accessible_label.ends_with("; status Error; 2.5 milliseconds; evidence"));
}

#[test]
fn trends_are_drawn() {
    let line = trend_sparkline(&[4, 0, 2]);
    assert_eq!(line.bars.len(), 3);
    assert_eq!(line.accessible_label, format!("Occurrence trend: {}", line.label));
    let series = recurrence(&[(1, 1), (1, 4)]);
    assert_eq!(recurrence_sparkline(&series).label, "-75% · 2 / 5 runs");
    let mut counted = group("a", 1, 1, "");
    counted.occurrence_trend = vec![4, 0, 2];
    assert_eq!(group_trend(&counted).label, line.label);
    counted.recurrence = Some(series);
    assert_eq!(group_trend(&counted).label, "-75% · 2 / 5 runs");
}

#[test]
fn a_finding_is_turned_into_a_draft_eval() {
    let mut inbox = investigating_inbox(2);
    assert_eq!(inbox.create_candidate().as_deref(), Some("trace-a-1"));
    inbox.finish_create_candidate(Ok(Some(EvalCandidatePreview {
        packet_id: "packet".into(),
        content_hash: "hash".into(),
        telemetry_gaps: Vec::new(),
        proposed_expected_behavior: vec!["answer".into()],
        proposed_rubric: "rubric".into(),
        proposed_grader: "grader".into(),
        generator_name: "generator".into(),
        generator_version: "1".into(),
    })));
    let EvidencePanel::Shown(body) = inbox.render_evidence(true, UNASSIGNED) else {
        panic!("an example is shown");
    };
    assert!(body.candidate.is_some());
    let (_, finding_id) = inbox.confirm_candidate().expect("a group and an example");
    assert!(inbox.finish_confirm_candidate(finding_id, Ok(())).is_some());
    assert!(inbox.eval.candidate.is_none());
}
