use perseval_app::screens::compare::{
    loading_runs, render_result, AlignmentRelation, AlignmentRow, CompareEvent, CompareScreen,
    CompareState, ExecutionStep, TraceComparison,
};
use perseval_app::screens::evals::calibration::{
    automation_population_sufficient, automation_quality_sufficient, format_rate_interval,
    metric_view_ordinal, AgreementReport, BinaryCalibrationReportV1, CalibrationReleaseV1,
    CalibrationReportV1, CalibrationScreen, CalibrationSliceReportV1, ConfusionCounts, Measure,
    MetricContent, MetricView, PolicyStep, RateInterval, ThresholdPolicyReleaseV1,
};
use perseval_app::screens::evals::human_review::{
    evidence_key_label, AnnotationLabelV1, AnnotationRevisionV1, AnnotationSchemaReleaseV1,
    AssessmentOutput, CalibrationDataSplitV1, DetailView, EvaluationOutput, HumanReviewEvent,
    HumanReviewScreen, ReviewAdjudicationPacketV1, ReviewModeV1, ReviewSelectionReasonV1,
    ReviewTaskPresentationV1, ReviewTaskStatusV1, ReviewTaskV1, TaskLoad,
};
use perseval_app::screens::evals::review::{
    EvalCandidateRecordV1, EvalReviewDecisionV1, EvalReviewEvent, EvalReviewQueueStateV1,
    EvalReviewScreen,
};
use perseval_app::screens::evals::studio::{
    watch_step, AssessmentBackfillPreviewV1, AssessmentJobV1, EvaluationImplementationV1,
    EvaluatorRelease, LocalTaskCompletionModelV1, PreviewTarget, QualityCheckStudio,
    StudioContents, TaskCompletionConfig, TaskCompletionExecutionRouteV1,
    TaskCompletionQualityCheckV1, TaxonomyDimensionV1, TaxonomyNode, WatchStep,
};
use perseval_app::screens::failure_inbox::model::{QueryScopeCriteriaV1, QueryScopeV1};
use perseval_app::screens::failure_inbox::state::RunComparisonRequestV1;
use std::sync::Arc;

fn comparison_request() -> RunComparisonRequestV1 {
    RunComparisonRequestV1 {
        scope: QueryScopeV1::new(QueryScopeCriteriaV1::default()),
        baseline_trace_id: "baseline".into(),
        baseline_revision: 1,
        candidate_trace_id: "candidate".into(),
        candidate_revision: 2,
    }
}

fn comparison() -> TraceComparison {
    let step = |name: &str| {
        Some(ExecutionStep {
            name: name.into(),
            kind: "tool".into(),
            status_code: 0,
            duration_nano: 1_500_000,
            agent_ref: None,
        })
    };
    TraceComparison {
        comparison_id: "comparison".into(),
        project_id: "project".into(),
        baseline_trace_id: "baseline".into(),
        baseline_revision: 1,
        candidate_trace_id: "candidate".into(),
        candidate_revision: 2,
        common_prefix_steps: 1,
        divergence_reason: Some("another tool".into()),
        rows: vec![AlignmentRow {
            relation: AlignmentRelation::Changed,
            baseline: step("search"),
            candidate: step("fetch"),
            reason: None,
        }],
        truncated: false,
    }
}

#[test]
fn superseded_comparisons_are_not_shown() {
    let mut screen = CompareScreen::new();
    let (stale, _) = screen.compare(comparison_request());
    let (current, cancels) = screen.compare(comparison_request());
    assert!(cancels);
    assert!(screen.finish_compare(stale, comparison_request(), Ok(comparison())).is_none());
    assert!(matches!(screen.state, CompareState::Loading(_)));
    let event = screen.finish_compare(current, comparison_request(), Ok(comparison()));
    assert!(matches!(event, Some(CompareEvent::ComparisonReady { .. })));
    assert!(matches!(screen.state, CompareState::Result(_)));
    screen.select_row(0);
    let row = screen.render_row(&comparison().rows[0], 0, false);
    assert!(row.selected);
    assert_eq!(
        render_result(&comparison()).divergence,
        "First meaningful divergence after 1 equivalent steps · another tool"
    );
    assert!(!loading_runs(&comparison_request()).is_empty());
}

#[test]
fn an_earlier_comparison_is_looked_up_behind_a_blank_request() {
    let mut screen = CompareScreen::new();
    let (lookup, cancels) = screen.show_comparison("earlier".into()).expect("a lookup");
    assert!(lookup.comparison_id == "earlier" && !cancels);
    let CompareState::Loading(request) = &screen.state else {
        panic!("a comparison is being loaded");
    };
    assert_eq!((request.baseline_revision, request.candidate_revision), (0, 0));
    assert!(request.scope.criteria.project_id.is_none());
}

#[test]
fn failed_comparisons_can_be_retried() {
    let mut screen = CompareScreen::new();
    assert!(screen.retry().is_none());
    let (generation, _) = screen.compare(comparison_request());
    screen.finish_compare(generation, comparison_request(), Err("offline".into()));
    assert_eq!(screen.retry().expect("a failed request").candidate_trace_id, "candidate");
    screen.show_setup();
    assert!(matches!(screen.state, CompareState::Setup));
}

fn candidate(id: &str, queue_state: EvalReviewQueueStateV1) -> Arc<EvalCandidateRecordV1> {
    Arc::new(EvalCandidateRecordV1 {
        project_id: "project".into(),
        group_id: "group".into(),
        logical_trace_id: "trace".into(),
        revision: 3,
        finding_id: "finding".into(),
        queue_state,
        candidate_id: id.into(),
        proposed_rubric: "rubric".into(),
        proposed_input: None,
        proposed_expected_behavior: vec!["answer".into()],
        proposed_grader: "grader".into(),
        generator_name: "generator".into(),
        generator_version: "1".into(),
        definition_hash: "sha256:abc".into(),
        review: None,
        packet_id: "packet".into(),
        content_hash: "sha256:def".into(),
        evidence_span_ids: vec![None, Some("span".into())],
        telemetry_gaps: Vec::new(),
    })
}

#[test]
fn draft_evals_are_decided_one_after_another() {
    let mut screen = EvalReviewScreen::new(Some("project".into()));
    let request = screen.reload();
    screen.finish_reload(
        request.generation,
        Ok(vec![
            candidate("one", EvalReviewQueueStateV1::Pending),
            candidate("two", EvalReviewQueueStateV1::Accepted),
        ]),
    );
    let queue = screen.render_queue();
    assert_eq!(queue.summary, "1 awaiting a decision · 2 total");
    assert_eq!(queue.rows[0].label, "rubric; PENDING; project project; trace trace; revision 3");
    assert_eq!(queue.rows[0].source, "Project project · group group · trace trace · revision 3");
    let lookup = screen.show_candidate("project".into(), "one".into());
    screen.finish_candidate(
        lookup.generation,
        Ok(Some(candidate("one", EvalReviewQueueStateV1::Pending))),
    );
    let view = screen.render_candidate(&candidate("one", EvalReviewQueueStateV1::Pending));
    assert_eq!(view.position, "Candidate 1 of 2");
    assert_eq!(view.source, "Project project · concrete finding finding");
    assert!(view.input_missing && view.enabled && !view.previous_enabled && view.next_enabled);
    assert_eq!(view.previous_label, "Previous eval candidate, unavailable");
    assert_eq!(view.next_label, "Next eval candidate");
    assert_eq!(screen.selected_candidate_index(), Some(0));
    assert!(matches!(
        screen.navigate_candidate(true),
        Some(EvalReviewEvent::Candidate { candidate_id, .. }) if candidate_id == "two"
    ));
    assert!(screen.navigate_candidate(false).is_none());
    assert!(matches!(
        screen.open_source_trace(),
        Some(EvalReviewEvent::SourceTrace { selected_span_id, .. })
            if selected_span_id.as_deref() == Some("span")
    ));
    assert!(screen.review(EvalReviewDecisionV1::Accept).is_some());
    assert!(screen.review(EvalReviewDecisionV1::Reject).is_none());
    screen.finish_review(Ok(candidate("one", EvalReviewQueueStateV1::Accepted)));
    assert_eq!(
        screen.notice.as_deref(),
        Some("Accepted. This candidate is now an approved definition.")
    );
    assert!(!EvalReviewQueueStateV1::Accepted.is_actionable());
}

#[test]
fn decisions_need_a_chosen_project() {
    let mut screen = EvalReviewScreen::new(None);
    let lookup = screen.show_candidate("project".into(), "one".into());
    screen.finish_candidate(
        lookup.generation,
        Ok(Some(candidate("one", EvalReviewQueueStateV1::Pending))),
    );
    screen.project_id = Some("other".into());
    assert!(screen.review(EvalReviewDecisionV1::Accept).is_none());
    assert_eq!(
        screen.error.as_deref(),
        Some("Choose the candidate's project before reviewing it.")
    );
}

fn task(id: &str, status: ReviewTaskStatusV1) -> ReviewTaskV1 {
    ReviewTaskV1 {
        task_id: id.into(),
        project_id: "project".into(),
        logical_trace_id: "0123456789abcdef".into(),
        revision: 7,
        status,
        selection_reason: ReviewSelectionReasonV1::RandomAudit,
        split: CalibrationDataSplitV1::Test,
        required_reviewers: 2,
    }
}

fn schema() -> AnnotationSchemaReleaseV1 {
    AnnotationSchemaReleaseV1 {
        instructions: "Read the trace.".into(),
        positive_class: "failed".into(),
        schema_version: "1".into(),
    }
}

fn annotation(evidence: &str) -> AnnotationRevisionV1 {
    AnnotationRevisionV1 {
        revision_id: "revision-1".into(),
        annotation_revision: 1,
        reviewer_id: "person".into(),
        label: AnnotationLabelV1::Failed,
        explanation: "It looped.".into(),
        evidence_keys: vec![evidence.into()],
    }
}

fn presentation(revealed: bool) -> ReviewTaskPresentationV1 {
    ReviewTaskPresentationV1 {
        evidence_keys: vec!["span:abc".into(), "terminal-output:0".into()],
        annotation_schema: schema(),
        latest_annotation: if revealed { Some(annotation("span:abc")) } else { None },
        revealed: if revealed {
            Some(AssessmentOutput {
                status: "Completed".into(),
                evaluation: Some(EvaluationOutput {
                    label: Some("failed".into()),
                    score: Some("0.812".into()),
                }),
            })
        } else {
            None
        },
    }
}

fn review_screen(status: ReviewTaskStatusV1) -> HumanReviewScreen {
    let mut screen = HumanReviewScreen::new(Some("project".into()));
    let request = screen.reload().expect("a project");
    assert!(screen.finish_reload(request.generation, Ok(vec![task("task", status)])).is_none());
    screen
}

#[test]
fn blind_answers_are_given_and_then_locked() {
    let mut screen = review_screen(ReviewTaskStatusV1::Pending);
    assert!(matches!(screen.render_detail(), DetailView::Empty(view) if !view.offers_queue));
    assert!(matches!(
        screen.select_task(0),
        Some(TaskLoad::Presentation { report_unassigned: false, .. })
    ));
    screen.finish_presentation("task", false, Err("task is not assigned to you".into()));
    assert!(screen.error.is_none());
    let DetailView::Task(detail) = screen.render_detail() else {
        panic!("a case is selected");
    };
    assert_eq!(detail.claim.expect("not claimed").0, "Claim blind review");

    assert_eq!(screen.claim().as_deref(), Some("task"));
    assert!(screen.finish_claim("task", Ok(())).is_some());
    screen.finish_presentation("task", true, Ok(presentation(false)));
    screen.choose_label(AnnotationLabelV1::Failed);
    screen.toggle_evidence("span:abc");
    assert!(!screen.is_submittable());
    screen.explanation.set_text("  It looped. ");
    assert!(screen.is_submittable());
    assert!(matches!(
        screen.open_trace(),
        Some(HumanReviewEvent::SourceTrace { selected_span_id, revision: 7, .. })
            if selected_span_id.as_deref() == Some("abc")
    ));
    let submission = screen.submit().expect("a case and an answer");
    assert_eq!(submission.explanation, "It looped.");
    assert_eq!(submission.evidence, vec!["span:abc"]);
    assert!(submission.adjudicates.is_none() && submission.expected_head.is_none());
    let (load, list) = screen.finish_submit(Ok((1, false)));
    assert!(load.is_some() && list.is_some());
    assert_eq!(
        screen.notice.as_deref(),
        Some("Answer saved as annotation revision 1. The original remains immutable.")
    );

    screen.finish_presentation("task", true, Ok(presentation(true)));
    assert!(screen.is_answer_locked() && !screen.is_submittable());
    let DetailView::Task(detail) = screen.render_detail() else {
        panic!("a case is selected");
    };
    let answer = detail.answer.expect("a claimed case");
    assert_eq!(answer.submit, "Answer locked after reveal");
    assert_eq!(answer.status, "Current immutable revision 1 · Failed");
    assert_eq!(answer.automated.expect("revealed").output, "failed · raw score 0.812");
    assert!(answer.evidence[0].selected && !answer.evidence[1].selected);
    assert_eq!(answer.evidence[1].label, "Evidence Terminal output 1");
}

#[test]
fn abstaining_cites_no_evidence() {
    let mut screen = review_screen(ReviewTaskStatusV1::Pending);
    screen.select_task(0);
    screen.finish_presentation("task", false, Ok(presentation(false)));
    screen.toggle_evidence("span:abc");
    screen.toggle_evidence("terminal-output:0");
    screen.toggle_evidence("span:abc");
    assert_eq!(screen.evidence_keys, vec!["terminal-output:0"]);
    screen.choose_label(AnnotationLabelV1::Abstain);
    assert!(screen.evidence_keys.is_empty());
    screen.explanation.set_text("unclear");
    assert!(screen.is_submittable());
}

#[test]
fn disagreements_are_resolved() {
    let mut screen = review_screen(ReviewTaskStatusV1::AwaitingAdjudication);
    assert!(matches!(screen.select_task(0), Some(TaskLoad::Adjudication { .. })));
    screen.finish_adjudication("other", Err("ignored".into()));
    assert!(screen.error.is_none());
    screen.finish_adjudication(
        "task",
        Ok(ReviewAdjudicationPacketV1 {
            evidence_keys: vec!["tool-call:1".into()],
            annotation_schema: schema(),
            annotation_revisions: vec![annotation("span:abc")],
            latest_adjudication: None,
        }),
    );
    let DetailView::Task(detail) = screen.render_detail() else {
        panic!("a case is selected");
    };
    assert_eq!(detail.heading, "Resolve rater disagreement");
    assert_eq!(detail.answer.expect("a packet").peers[0].reviewer, "Rater person");
    screen.choose_label(AnnotationLabelV1::Partial);
    let submission = screen.submit().expect("an answer");
    assert_eq!(submission.adjudicates, Some(vec!["revision-1".to_string()]));
    screen.finish_submit(Ok((4, true)));
    assert!(screen.selected_task_id.is_none());
    assert_eq!(
        screen.notice.as_deref(),
        Some(
            "Disagreement resolved as adjudication revision 4. The judge stayed sealed during the decision."
        )
    );
}

#[test]
fn each_mode_remembers_its_case() {
    let mut screen = review_screen(ReviewTaskStatusV1::Pending);
    screen.select_task(0);
    let request = screen.set_mode(ReviewModeV1::VisibleTriage).expect("another mode");
    assert!(screen.selected_task_id.is_none());
    assert!(screen.set_mode(ReviewModeV1::VisibleTriage).is_none());
    let blind = screen.set_mode(ReviewModeV1::BlindCalibration).expect("another mode");
    assert_eq!(screen.selected_task_id.as_deref(), Some("task"));
    assert!(screen.finish_reload(request.generation, Ok(Vec::new())).is_none());
    assert_eq!(screen.selected_task_id.as_deref(), Some("task"));
    assert!(screen
        .finish_reload(blind.generation, Ok(vec![task("task", ReviewTaskStatusV1::Pending)]))
        .is_some());
    let list = screen.render_task_list();
    assert_eq!(list.summary, "1 cases · 1 random audit · 0 active");
    assert_eq!(list.rows[0].title, "Trace 0123456789ab · r7");
    assert_eq!(list.rows[0].summary, "held-out test · random audit · 2 raters");
    assert!(screen.set_project_scope(None).is_none());
    assert!(screen.tasks.is_empty());
}

#[test]
fn places_of_the_evidence_have_names() {
    assert_eq!(evidence_key_label("span:0123456789abcdef"), "Trace span 0123456789ab");
    assert_eq!(evidence_key_label("terminal-output:+4"), "Terminal output 5");
    assert_eq!(evidence_key_label("terminal-output:x"), "Terminal output");
    assert_eq!(evidence_key_label("tool-call:call"), "Tool call call");
    assert_eq!(evidence_key_label("final_answer-1:a"), "final answer 1 a");
}

fn measure(value: f64) -> Measure {
    Measure { bits: value.to_bits(), shown: format!("{value:.3}") }
}

fn report(attempted: u64, decided: u64) -> BinaryCalibrationReportV1 {
    BinaryCalibrationReportV1 {
        positive_class: "failed".into(),
        confusion: ConfusionCounts {
            true_positive: 80,
            false_positive: 20,
            true_negative: 130,
            false_negative: 20,
        },
        attempted_count: attempted,
        decided_count: decided,
        abstained_count: attempted - decided,
        precision: Some(measure(0.60)),
        precision_interval: Some(RateInterval {
            lower_95: measure(0.5),
            upper_95: measure(0.7),
            successes: 80,
            trials: 100,
        }),
        recall: Some(measure(0.60)),
        recall_interval: None,
        specificity: None,
        specificity_interval: None,
        f1: Some(measure(0.207)),
        macro_f1: Some(measure(0.60)),
        macro_f1_lower_95: Some(measure(0.054)),
        matthews_correlation: Some(measure(0.201)),
        average_precision: Some(measure(0.65)),
        brier_score: Some(measure(0.20)),
        expected_calibration_error: Some(measure(0.08)),
        calibration_bins: Vec::new(),
        selective_risk: Vec::new(),
    }
}

fn random_audit(attempted: u64, decided: u64) -> Vec<CalibrationSliceReportV1> {
    vec![CalibrationSliceReportV1 {
        dimension: "selection stream".into(),
        value: "random audit".into(),
        report: report(attempted, decided),
    }]
}

fn release(alpha: f64) -> CalibrationReleaseV1 {
    CalibrationReleaseV1 {
        evaluator_release_id: "evaluator".into(),
        fit_annotation_revision_ids: vec!["a".into(), "b".into()],
        agreement_report: AgreementReport {
            rater_count: 2,
            item_count: 10,
            disagreement_item_count: 1,
            krippendorff_alpha: Some(measure(alpha)),
            cohen_kappa: None,
            quadratic_weighted_kappa: None,
        },
        fit_report: report(250, 250),
        fit_slice_reports: random_audit(250, 250),
    }
}

fn policy() -> (String, ThresholdPolicyReleaseV1) {
    (
        "policy".into(),
        ThresholdPolicyReleaseV1 {
            pass_probability_threshold: measure(0.25),
            fail_probability_threshold: measure(0.75),
            minimum_decision_confidence: measure(0.5),
        },
    )
}

fn calibration(alpha: f64) -> CalibrationScreen {
    let mut screen = CalibrationScreen::new(Some("project".into()));
    let request = screen.reload().expect("a project");
    let releases = vec![("release-0123456789".to_string(), release(alpha))];
    let selected = screen.finish_reload(request.generation, Ok(releases));
    assert_eq!(selected.as_deref(), Some("release-0123456789"));
    screen.finish_reports("release-0123456789", Ok((Vec::new(), None)));
    screen
}

#[test]
fn the_bounds_of_automation_are_those_of_floating_point() {
    let passing = report(250, 225);
    assert!(automation_quality_sufficient(&passing));
    assert!(automation_population_sufficient(&passing, &report(250, 0)));
    assert!(!automation_population_sufficient(&report(249, 0), &report(250, 0)));
    assert!(!automation_quality_sufficient(&report(250, 224)));
    assert!(!automation_quality_sufficient(&report(0, 0)));
    let below = |value: f64| f64::from_bits(value.to_bits() - 1);
    let above = |value: f64| f64::from_bits(value.to_bits() + 1);
    let changed = |change: fn(&mut BinaryCalibrationReportV1, Measure), value: f64| {
        let mut report = report(250, 225);
        change(&mut report, measure(value));
        automation_quality_sufficient(&report)
    };
    assert!(!changed(|r, m| r.average_precision = Some(m), below(0.65)));
    assert!(!changed(|r, m| r.macro_f1 = Some(m), below(0.60)));
    assert!(!changed(|r, m| r.precision = Some(m), below(0.60)));
    assert!(!changed(|r, m| r.recall = Some(m), f64::NAN));
    assert!(!changed(|r, m| r.f1 = Some(m), 0.206));
    assert!(changed(|r, m| r.f1 = Some(m), above(0.206)));
    assert!(!changed(|r, m| r.matthews_correlation = Some(m), 0.200));
    assert!(!changed(|r, m| r.brier_score = Some(m), above(0.20)));
    assert!(changed(|r, m| r.brier_score = Some(m), -1.0));
    assert!(!changed(|r, m| r.expected_calibration_error = Some(m), above(0.08)));
    assert!(!changed(|r, m| r.macro_f1_lower_95 = Some(m), 0.053));
    assert!(changed(|r, m| r.macro_f1_lower_95 = Some(m), f64::INFINITY));
}

#[test]
fn coverage_is_compared_as_floating_point_does() {
    for (attempted, decided) in [(10u64, 9u64), (1_000_003, 900_002), (1_000_003, 900_003), (7, 6)] {
        let expected = decided as f64 / attempted as f64 >= 0.90;
        assert_eq!(automation_quality_sufficient(&report(attempted, decided)), expected);
    }
}

#[test]
fn thresholds_are_frozen_evaluated_and_activated_in_this_order() {
    let mut screen = calibration(0.67);
    assert!(screen.render_threshold_policy().freeze_enabled);
    assert!(screen.evaluate_held_out().is_none());
    assert!(screen.create_policy(false).is_none());
    assert_eq!(
        screen.error.as_deref(),
        Some("Thresholds must be probabilities between 0 and 1.")
    );
    let request = screen.create_policy(true).expect("everything is in order");
    assert_eq!(request.evaluator_release_id, "evaluator");
    screen.finish_policy("release-0123456789", Ok(policy()));
    assert!(screen.create_policy(true).is_none());
    assert_eq!(
        screen.error.as_deref(),
        Some("This calibration release already has a frozen threshold policy.")
    );
    assert_eq!(screen.render_threshold_policy().step, PolicyStep::Frozen);

    assert!(screen.evaluate_held_out().is_some());
    assert!(screen.finish_held_out("release-0123456789", Ok(())).is_some());
    let held_out = CalibrationReportV1 {
        report: report(250, 225),
        slice_reports: random_audit(250, 225),
    };
    screen.finish_reports("release-0123456789", Ok((vec![held_out], Some(policy()))));
    assert_eq!(screen.typed_thresholds().0, "0.250");
    assert!(screen.evaluate_held_out().is_none());
    assert!(screen.create_policy(true).is_none());
    assert!(screen.error.as_deref().unwrap().starts_with("Held-out labels are already unsealed."));

    let view = screen.render_metrics().expect("a selected release");
    let gates = view.gates.expect("reports");
    assert!(gates.ready);
    assert_eq!(gates.count, "5/5 gates pass");
    assert_eq!(gates.rows[0].current, "500 / 500");
    assert_eq!(gates.rows[1].current, "200/100 failure · 300/100 non-failure");
    assert_eq!(gates.rows[2].current, "90.0% / 90%");
    assert_eq!(gates.rows[3].current, "0.054 / >0.053");
    assert!(view.policy.activates && !view.policy.warns);
    assert_eq!(screen.activate_policy().as_deref(), Some("policy"));
    screen.finish_activation(Ok(("activation-0123456789".into(), 12)));
    assert_eq!(
        screen.notice.as_deref(),
        Some("Policy activated as activation-0 and materialized 12 immutable decisions. Prior assessments were not changed.")
    );
}

#[test]
fn thresholds_need_agreement() {
    let mut screen = calibration(0.66);
    assert!(screen.create_policy(true).is_none());
    assert_eq!(
        screen.error.as_deref(),
        Some("Threshold publication requires Krippendorff alpha of at least 0.67.")
    );
    let mut infinite = calibration(f64::INFINITY);
    assert!(infinite.create_policy(true).is_none());
}

#[test]
fn blocked_gates_are_named() {
    let mut screen = calibration(0.7);
    let held_out =
        CalibrationReportV1 { report: report(10, 5), slice_reports: random_audit(10, 5) };
    screen.finish_reports("release-0123456789", Ok((vec![held_out], Some(policy()))));
    let view = screen.render_metrics().expect("a selected release");
    let gates = view.gates.expect("reports");
    assert!(!gates.ready && view.policy.warns && !view.policy.activates);
    assert_eq!(gates.rows[2].heading, "BLOCKED · Held-out coverage");
    assert!(gates.label.starts_with("Automation blocked. 3 of 5 safety gates pass. Unbiased random labels: 260 / 500, blocked; "));
    assert_eq!(view.scope, "Metrics scope: held-out random-audit slice · used by automation safety gates");
    assert_eq!(view.slices[0].count, "10");
}

#[test]
fn measures_are_shown_by_view() {
    let mut screen = calibration(0.7);
    let view = screen.render_metrics().expect("a selected release");
    assert_eq!(view.subtitle, "Release release-0123 · CALIBRATION FIT · choose thresholds before test");
    let MetricContent::Confusion { rates, .. } = view.content else {
        panic!("the confusion is shown first");
    };
    assert_eq!(rates[0].value, "0.600 · 0.500–0.700 · 80/100");
    assert_eq!(rates[1].value, "not available");
    screen.set_metric_view(MetricView::Agreement);
    let view = screen.render_metrics().expect("a selected release");
    assert!(matches!(view.content, MetricContent::Agreement { rater_count, .. } if rater_count == "2"));
    assert_eq!(metric_view_ordinal(MetricView::RiskCoverage), 3);
    assert_eq!(format_rate_interval(&None, &None), "not available");
    let list = screen.render_release_list();
    assert_eq!(list.rows[0].summary, "2 fitted answers · 2 raters");
}

fn check(id: &str, implementation: EvaluationImplementationV1) -> TaskCompletionQualityCheckV1 {
    TaskCompletionQualityCheckV1 {
        config: TaskCompletionConfig {
            evaluator_release_id: id.into(),
            context_release_id: "context".into(),
            pricing_version: "2026-01".into(),
            estimated_output_tokens_low: 96,
            estimated_output_tokens_high: 384,
        },
        evaluator: EvaluatorRelease {
            name: "Task completion".into(),
            implementation,
            applicable_taxonomy_node_ids: vec!["task".into()],
        },
        sampling: None,
    }
}

fn job(id: &str, terminal: u64) -> AssessmentJobV1 {
    AssessmentJobV1 {
        job_id: id.into(),
        evaluator_release_id: "local".into(),
        status: "Running".into(),
        terminal_count: terminal,
        item_count: 3,
        selection_hash: "hash".into(),
    }
}

fn studio(local: bool) -> QualityCheckStudio {
    let model = LocalTaskCompletionModelV1 {
        model_artifact_id: "artifact".into(),
        model_id: "tiny".into(),
    };
    let mut studio = QualityCheckStudio::new(
        Some("project".into()),
        "person".into(),
        if local { Some(model) } else { None },
    );
    let request = studio.reload().expect("a project");
    let node = |id: &str, dimension| TaxonomyNode { node_id: id.into(), dimension };
    studio.finish_reload(
        request.generation,
        Ok(StudioContents {
            quality_checks: vec![
                check(
                    "local",
                    EvaluationImplementationV1::LocalClassifier {
                        model_artifact_id: "artifact".into(),
                    },
                ),
                check(
                    "hosted",
                    EvaluationImplementationV1::PromptJudge {
                        requested_model: "judge".into(),
                        rubric: "Be strict.".into(),
                    },
                ),
            ],
            jobs: (0..10).map(|index| job(&format!("job-{index}"), 1)).collect(),
            taxonomy: vec![
                node("task", TaxonomyDimensionV1::Task),
                node("other", TaxonomyDimensionV1::Other),
                node("policy", TaxonomyDimensionV1::Policy),
                node("task", TaxonomyDimensionV1::Capability),
            ],
            has_context: true,
        }),
    );
    studio
}

#[test]
fn a_check_on_this_machine_is_published() {
    let mut studio = studio(true);
    assert!(studio.render_builder().ready);
    let draft = studio.publish().expect("a complete draft");
    assert_eq!(draft.name, "Task completion");
    assert_eq!((draft.review_criteria.as_str(), draft.requested_model.as_str()), ("", ""));
    assert_eq!(draft.applicable_taxonomy_node_ids, vec!["policy", "task"]);
    assert!(studio.publish().is_none());
    assert!(studio.finish_publish(Ok("release-0123456789abcdef".into())).is_some());
    assert_eq!(
        studio.notice.as_deref(),
        Some("Quality check release-01234567 is ready. Preview the traces before running it.")
    );
}

#[test]
fn a_hosted_check_needs_exact_rates() {
    let mut studio = studio(false);
    studio.select_execution_route(TaskCompletionExecutionRouteV1::LocalOnnx);
    assert_eq!(
        studio.error.as_deref(),
        Some("Configure a verified local model artifact in Settings, then restart Perseval.")
    );
    assert!(studio.publish().is_none());
    assert_eq!(
        studio.error.as_deref(),
        Some("Enter the exact input and output rate-card amounts in micros per million tokens.")
    );
    studio.input_rate.set_text(" 400000 ");
    studio.output_rate.set_text("1600000");
    assert!(!studio.render_builder().ready);
    studio.pricing_version.set_text("2026-01");
    assert!(studio.render_builder().ready);
    let draft = studio.publish().expect("a complete draft");
    assert_eq!(draft.requested_model, "gpt-4.1-mini");
    assert_eq!(draft.input_cost_micros_per_million_tokens, 400_000);
}

#[test]
fn a_preview_is_run_and_watched() {
    let mut studio = studio(true);
    assert!(studio.run_preview().is_none());
    let request = studio.preview().expect("a selected check");
    assert_eq!(request.evaluator_release_id, "local");
    assert_eq!(request.context_release_id, "context");
    studio.finish_preview(Ok(AssessmentBackfillPreviewV1 {
        evaluator_release_id: "local".into(),
        selection_hash: "sha256:abc".into(),
        targets: vec![PreviewTarget { logical_trace_id: "trace".into(), revision: 2 }],
        target_count: 3,
        executable_count: 2,
        non_executable_count: 1,
        estimated_input_tokens_low: 10,
        estimated_input_tokens_high: 20,
        estimated_cost_micros_low: 0,
        estimated_cost_micros_high: 1_250_000,
    }));
    let view = studio.render_selected().expect("a selected check");
    assert_eq!(view.runs.len(), 8);
    assert_eq!(view.runs[0].progress, "Running · 1/3 terminal");
    assert_eq!(view.details[1].value, "On this Mac · $0 provider cost");
    let details = view.preview.expect("a preview");
    assert_eq!(details[0].value, "3 selected · 2 ready · 1 skipped");
    assert_eq!(details[2].heading, "ESTIMATED COST");
    assert_eq!(details[2].value, "$0.000000–$1.250000");

    let request = studio.run_preview().expect("a preview");
    assert_eq!(request.idempotency_key, "studio:local:sha256:abc");
    assert_eq!(request.exact_revisions, vec![("trace".to_string(), 2)]);
    let (reload, watch) = studio.finish_run(Ok(job("job", 0)));
    assert!(reload.is_some());
    assert_eq!(watch.expect("a run").job_id, "job");
    assert_eq!(watch_step(None), WatchStep::Missing);
    assert_eq!(watch_step(Some(&job("job", 2))), WatchStep::Wait(250));
    assert_eq!(watch_step(Some(&job("job", 3))), WatchStep::Finished);
    studio.finish_watch(Ok(job("job", 3)));
    assert_eq!(
        studio.notice.as_deref(),
        Some("Run job finished: 3 of 3 traces reached a final result.")
    );
    studio.finish_run(Err("stale".into()));
    assert_eq!(
        studio.error.as_deref(),
        Some("The traces changed before the run. Preview them again: stale")
    );
}

#[test]
fn sampling_is_switched() {
    let mut studio = studio(true);
    let change = studio.toggle_sampling(5).expect("a selected check");
    assert_eq!((change.enabled, change.sample_basis_points, change.maximum_targets_per_utc_day), (true, 1_000, 100));
    assert_eq!(change.updated_at_unix_ms, 5);
    studio.finish_sampling(true, Ok(()));
    assert_eq!(
        studio.notice.as_deref(),
        Some("Automatic 10% sampling is on, capped at 100 traces per day.")
    );
    let rows = studio.render_checks();
    assert_eq!(
        rows[0].label,
        "Quality check Task completion, release local, model Local tiny, sampling disabled"
    );
    assert_eq!(rows[1].summary, "OpenAI · manual runs");
    studio.select_check(1);
    let view = studio.render_selected().expect("a selected check");
    assert_eq!(
        view.details[1].value,
        "OpenAI · requested judge · 2026-01 · output estimate 96–384 tokens"
    );
}
