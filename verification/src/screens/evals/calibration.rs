//! Comparing learned judges with human answers, and the policies that follow.

use crate::binary64::{self, Binary64, Number};
use crate::components::text_input::TextInput;
use crate::design::tokens::Theme;
use crate::offsets::{self, leading_bytes_of};
use crate::screens::failure_inbox::model::{copy_optional, optional_text, same_optional};
use crate::screens::failure_inbox::state::{self, following_request};
use crate::sorting;
use crate::text::{
    self, append_decimal, concat2, concat3, concat4, concat5, decimal_text, join, length_text,
    one_decimal_text, same_text, trim,
};
use vstd::prelude::*;
use vstd::string::*;

verus! {

/// How many bytes a threshold may have.
pub const THRESHOLD_BYTES: usize = 16;

/// How many points of the selective risk are listed.
pub const RISK_POINT_LIMIT: usize = 20;

/// How many random labels automation needs.
pub const REQUIRED_LABELS: u64 = 500;

/// How many labels of each class automation needs.
pub const REQUIRED_CLASS_LABELS: u64 = 100;

/// The sign bit of a binary64 number.
pub const SIGN: u64 = 0x8000_0000_0000_0000;

/// Infinity as a binary64 number.
pub const INFINITY: u64 = 0x7ff0_0000_0000_0000;

/// Krippendorff's alpha that agreement needs: 67 hundredths in binary64.
pub const REQUIRED_ALPHA: u64 = 0x3fe5_70a3_d70a_3d71;

/// The average precision that automation needs: 65 hundredths in binary64.
pub const REQUIRED_AVERAGE_PRECISION: u64 = 0x3fe4_cccc_cccc_cccd;

/// The macro F1, precision and recall that automation needs: 60 hundredths in binary64.
pub const REQUIRED_RATE: u64 = 0x3fe3_3333_3333_3333;

/// The baseline of F1: 206 thousandths in binary64.
pub const F1_BASELINE: u64 = 0x3fca_5e35_3f7c_ed91;

/// The baseline of the Matthews correlation, and the bound of the Brier
/// score: 20 hundredths in binary64.
pub const FIFTH: u64 = 0x3fc9_9999_9999_999a;

/// The bound of the calibration error: 8 hundredths in binary64.
pub const CALIBRATION_ERROR_BOUND: u64 = 0x3fb4_7ae1_47ae_147b;

/// The baseline of the grouped confidence: 53 thousandths in binary64.
pub const GROUPED_BASELINE: u64 = 0x3fab_22d0_e560_4189;

/// Which measures are shown.
#[derive(Debug, Clone, Copy, PartialEq, Eq, Structural)]
pub enum MetricView {
    Confusion,
    Agreement,
    Calibration,
    RiskCoverage,
}

/// The place of a view among the views.
pub open spec fn view_order() -> Seq<MetricView> {
    seq![
        MetricView::Confusion,
        MetricView::Agreement,
        MetricView::Calibration,
        MetricView::RiskCoverage,
    ]
}

/// The place of a view among the views.
pub fn metric_view_ordinal(view: MetricView) -> (ordinal: u32)
    ensures
        ordinal < view_order().len(),
        view_order()[ordinal as int] == view,
{
    match view {
        MetricView::Confusion => 0,
        MetricView::Agreement => 1,
        MetricView::Calibration => 2,
        MetricView::RiskCoverage => 3,
    }
}

/// The place of a binary64 number that is not negative, counted from zero.
pub open spec fn magnitude(bits: u64) -> int {
    if bits < SIGN {
        bits as int
    } else {
        bits - SIGN
    }
}

/// The place of a binary64 number among the numbers: of two numbers the lower
/// one has the lower place.
pub open spec fn place(bits: u64) -> int {
    if bits < SIGN {
        magnitude(bits)
    } else {
        -magnitude(bits)
    }
}

/// A measured value: its binary64 notation, and the value with three decimal
/// places.
#[derive(Debug)]
pub struct Measure {
    pub bits: u64,
    pub shown: String,
}

impl Measure {
    /// Whether this is a number at all.
    pub open spec fn is_number(self) -> bool {
        magnitude(self.bits) <= INFINITY
    }

    /// Whether the value is at least a bound.
    pub open spec fn reaches(self, bound: u64) -> bool {
        self.is_number() && place(self.bits) >= place(bound)
    }

    /// Whether the value is above a bound.
    pub open spec fn exceeds(self, bound: u64) -> bool {
        self.is_number() && place(self.bits) > place(bound)
    }

    /// Whether the value is at most a bound.
    pub open spec fn stays_within(self, bound: u64) -> bool {
        self.is_number() && place(self.bits) <= place(bound)
    }
}

fn magnitude_of(bits: u64) -> (found: i64)
    ensures
        found == magnitude(bits),
        found >= 0,
{
    if bits < SIGN {
        bits as i64
    } else {
        (bits - SIGN) as i64
    }
}

fn place_of(bits: u64) -> (found: i64)
    ensures
        found == place(bits),
{
    if bits < SIGN {
        magnitude_of(bits)
    } else {
        -magnitude_of(bits)
    }
}

fn reaches(value: &Option<Measure>, bound: u64) -> (holds: bool)
    ensures
        holds == (value is Some && value->0.reaches(bound)),
{
    match value {
        Some(measure) => magnitude_of(measure.bits) <= INFINITY as i64 && place_of(measure.bits)
            >= place_of(bound),
        None => false,
    }
}

fn exceeds(value: &Option<Measure>, bound: u64) -> (holds: bool)
    ensures
        holds == (value is Some && value->0.exceeds(bound)),
{
    match value {
        Some(measure) => magnitude_of(measure.bits) <= INFINITY as i64 && place_of(measure.bits)
            > place_of(bound),
        None => false,
    }
}

fn stays_within(value: &Option<Measure>, bound: u64) -> (holds: bool)
    ensures
        holds == (value is Some && value->0.stays_within(bound)),
{
    match value {
        Some(measure) => magnitude_of(measure.bits) <= INFINITY as i64 && place_of(measure.bits)
            <= place_of(bound),
        None => false,
    }
}

/// A rate with its bounds.
#[derive(Debug)]
pub struct RateInterval {
    pub lower_95: Measure,
    pub upper_95: Measure,
    pub successes: u64,
    pub trials: u64,
}

/// How often a judge was right and wrong.
#[derive(Debug, Clone, Copy, PartialEq, Eq, Structural)]
pub struct ConfusionCounts {
    pub true_positive: u64,
    pub false_positive: u64,
    pub true_negative: u64,
    pub false_negative: u64,
}

/// Predictions of a range against what was observed.
#[derive(Debug)]
pub struct CalibrationBin {
    /// The range of the predictions with two decimal places.
    pub range: String,
    pub count: u64,
    pub mean_predicted_failure: Option<Measure>,
    pub empirical_failure_rate: Option<Measure>,
}

/// The risk at a coverage.
#[derive(Debug)]
pub struct SelectiveRiskPoint {
    /// The coverage in percent with one decimal place.
    pub coverage_percent: String,
    pub classification_risk: Option<Measure>,
    pub decided_count: u64,
}

/// A judge against human answers.
#[derive(Debug)]
pub struct BinaryCalibrationReportV1 {
    pub positive_class: String,
    pub confusion: ConfusionCounts,
    pub attempted_count: u64,
    pub decided_count: u64,
    pub abstained_count: u64,
    pub precision: Option<Measure>,
    pub precision_interval: Option<RateInterval>,
    pub recall: Option<Measure>,
    pub recall_interval: Option<RateInterval>,
    pub specificity: Option<Measure>,
    pub specificity_interval: Option<RateInterval>,
    pub f1: Option<Measure>,
    pub macro_f1: Option<Measure>,
    /// The lower bound of the macro F1 over groups.
    pub macro_f1_lower_95: Option<Measure>,
    pub matthews_correlation: Option<Measure>,
    pub average_precision: Option<Measure>,
    pub brier_score: Option<Measure>,
    pub expected_calibration_error: Option<Measure>,
    pub calibration_bins: Vec<CalibrationBin>,
    pub selective_risk: Vec<SelectiveRiskPoint>,
}

/// A report on a part of the answers.
#[derive(Debug)]
pub struct CalibrationSliceReportV1 {
    pub dimension: String,
    pub value: String,
    pub report: BinaryCalibrationReportV1,
}

/// A report on the held-out answers.
#[derive(Debug)]
pub struct CalibrationReportV1 {
    pub report: BinaryCalibrationReportV1,
    pub slice_reports: Vec<CalibrationSliceReportV1>,
}

/// How far raters agree.
#[derive(Debug)]
pub struct AgreementReport {
    pub rater_count: u64,
    pub item_count: u64,
    pub disagreement_item_count: u64,
    pub krippendorff_alpha: Option<Measure>,
    pub cohen_kappa: Option<Measure>,
    pub quadratic_weighted_kappa: Option<Measure>,
}

/// A calibration that was published.
#[derive(Debug)]
pub struct CalibrationReleaseV1 {
    pub evaluator_release_id: String,
    pub fit_annotation_revision_ids: Vec<String>,
    pub agreement_report: AgreementReport,
    pub fit_report: BinaryCalibrationReportV1,
    pub fit_slice_reports: Vec<CalibrationSliceReportV1>,
}

/// Thresholds that were frozen.
#[derive(Debug)]
pub struct ThresholdPolicyReleaseV1 {
    pub pass_probability_threshold: Measure,
    pub fail_probability_threshold: Measure,
    pub minimum_decision_confidence: Measure,
}

/// A value with three decimal places, if there is one.
pub open spec fn optional_value(value: Option<Measure>) -> Seq<char> {
    match value {
        Some(measure) => measure.shown@,
        None => "not available"@,
    }
}

/// A value with three decimal places, if there is one.
pub fn format_optional(value: &Option<Measure>) -> (shown: &str)
    ensures
        shown@ == optional_value(*value),
{
    match value {
        Some(measure) => measure.shown.as_str(),
        None => "not available",
    }
}

/// A rate with its bounds and counts.
pub open spec fn rate_text(estimate: Option<Measure>, interval: Option<RateInterval>) -> Seq<char> {
    match (estimate, interval) {
        (Some(estimate), Some(interval)) => estimate.shown@ + " · "@ + interval.lower_95.shown@
            + "–"@ + interval.upper_95.shown@ + " · "@ + text::decimal(interval.successes as nat)
            + "/"@ + text::decimal(interval.trials as nat),
        _ => "not available"@,
    }
}

/// A rate with its bounds and counts.
pub fn format_rate_interval(estimate: &Option<Measure>, interval: &Option<RateInterval>) -> (shown:
    String)
    ensures
        shown@ == rate_text(*estimate, *interval),
{
    match (estimate, interval) {
        (Some(estimate), Some(interval)) => {
            let mut shown = concat5(
                estimate.shown.as_str(),
                " · ",
                interval.lower_95.shown.as_str(),
                "–",
                interval.upper_95.shown.as_str(),
            );
            shown.append(" · ");
            append_decimal(&mut shown, interval.successes);
            shown.append("/");
            append_decimal(&mut shown, interval.trials);
            shown
        },
        _ => "not available".to_owned(),
    }
}

/// The start of an identity.
pub open spec fn short(value: Seq<char>) -> Seq<char> {
    offsets::leading_bytes(value, 12)
}

/// The start of an identity.
pub fn short_id(value: &str) -> (head: &str)
    ensures
        head@ == short(value@),
{
    leading_bytes_of(value, 12)
}

/// Whether raters agree enough to publish thresholds.
pub open spec fn agreement_suffices(release: CalibrationReleaseV1) -> bool {
    match release.agreement_report.krippendorff_alpha {
        Some(alpha) => magnitude(alpha.bits) < INFINITY && alpha.reaches(REQUIRED_ALPHA),
        None => false,
    }
}

/// Whether raters agree enough to publish thresholds.
pub fn agreement_is_sufficient(release: &CalibrationReleaseV1) -> (sufficient: bool)
    ensures
        sufficient == agreement_suffices(*release),
{
    let finite = match &release.agreement_report.krippendorff_alpha {
        Some(alpha) => magnitude_of(alpha.bits) < INFINITY as i64,
        None => false,
    };
    finite && reaches(&release.agreement_report.krippendorff_alpha, REQUIRED_ALPHA)
}

/// Whether a part holds the answers that were drawn at random.
pub open spec fn is_random_audit(slice: CalibrationSliceReportV1) -> bool {
    slice.dimension@ == "selection stream"@ && slice.value@ == "random audit"@
}

/// The report on the answers that were drawn at random.
pub open spec fn random_audit(slices: Seq<CalibrationSliceReportV1>) -> Option<
    BinaryCalibrationReportV1,
>
    decreases slices.len(),
{
    if slices.len() == 0 {
        None
    } else if is_random_audit(slices[0]) {
        Some(slices[0].report)
    } else {
        random_audit(slices.drop_first())
    }
}

/// The report on the answers that were drawn at random.
pub fn random_audit_report(slices: &Vec<CalibrationSliceReportV1>) -> (found: Option<
    &BinaryCalibrationReportV1,
>)
    ensures
        match found {
            Some(report) => random_audit(slices@) == Some(*report),
            None => random_audit(slices@) is None,
        },
{
    let mut index: usize = 0;
    assert(slices@.skip(0) =~= slices@);
    while index < slices.len()
        invariant
            index <= slices@.len(),
            random_audit(slices@) == random_audit(slices@.skip(index as int)),
        decreases slices@.len() - index,
    {
        proof {
            assert(slices@.skip(index as int)[0] == slices@[index as int]);
            assert(slices@.skip(index as int).drop_first() =~= slices@.skip(index + 1));
        }
        let slice = &slices[index];
        if same_text(slice.dimension.as_str(), "selection stream") && same_text(
            slice.value.as_str(),
            "random audit",
        ) {
            return Some(&slice.report);
        }
        index += 1;
    }
    None
}

/// A sum that stops at the largest number.
pub open spec fn capped(sum: int) -> int {
    if sum > u64::MAX {
        u64::MAX as int
    } else {
        sum
    }
}

/// How many answers were drawn at random.
pub open spec fn label_count(
    fit: BinaryCalibrationReportV1,
    held_out: BinaryCalibrationReportV1,
) -> int {
    capped(fit.attempted_count + held_out.attempted_count)
}

/// How many of the answers are failures.
pub open spec fn positive_count(
    fit: BinaryCalibrationReportV1,
    held_out: BinaryCalibrationReportV1,
) -> int {
    capped(
        fit.confusion.true_positive + fit.confusion.false_negative
            + held_out.confusion.true_positive + held_out.confusion.false_negative,
    )
}

/// How many of the answers are no failures.
pub open spec fn negative_count(
    fit: BinaryCalibrationReportV1,
    held_out: BinaryCalibrationReportV1,
) -> int {
    capped(
        fit.confusion.true_negative + fit.confusion.false_positive
            + held_out.confusion.true_negative + held_out.confusion.false_positive,
    )
}

fn counts_of(fit: &BinaryCalibrationReportV1, held_out: &BinaryCalibrationReportV1) -> (counts: (
    u64,
    u64,
    u64,
))
    ensures
        counts.0 == label_count(*fit, *held_out),
        counts.1 == positive_count(*fit, *held_out),
        counts.2 == negative_count(*fit, *held_out),
{
    let labels: u64 = fit.attempted_count.saturating_add(held_out.attempted_count);
    let positive: u64 = fit.confusion.true_positive.saturating_add(
        fit.confusion.false_negative,
    ).saturating_add(held_out.confusion.true_positive).saturating_add(
        held_out.confusion.false_negative,
    );
    let negative: u64 = fit.confusion.true_negative.saturating_add(
        fit.confusion.false_positive,
    ).saturating_add(held_out.confusion.true_negative).saturating_add(
        held_out.confusion.false_positive,
    );
    (labels, positive, negative)
}

/// Whether enough answers of each class were drawn at random.
pub open spec fn population_suffices(
    fit: BinaryCalibrationReportV1,
    held_out: BinaryCalibrationReportV1,
) -> bool {
    &&& label_count(fit, held_out) >= REQUIRED_LABELS
    &&& positive_count(fit, held_out) >= REQUIRED_CLASS_LABELS
    &&& negative_count(fit, held_out) >= REQUIRED_CLASS_LABELS
}

/// Whether enough answers of each class were drawn at random.
pub fn automation_population_sufficient(
    fit: &BinaryCalibrationReportV1,
    held_out: &BinaryCalibrationReportV1,
) -> (sufficient: bool)
    ensures
        sufficient == population_suffices(*fit, *held_out),
{
    let (labels, positive, negative) = counts_of(fit, held_out);
    labels >= REQUIRED_LABELS && positive >= REQUIRED_CLASS_LABELS && negative
        >= REQUIRED_CLASS_LABELS
}

/// Whether the judge is good enough and its probabilities mean what they say.
pub open spec fn metrics_suffice(report: BinaryCalibrationReportV1) -> bool {
    &&& report.average_precision is Some && report.average_precision->0.reaches(
        REQUIRED_AVERAGE_PRECISION,
    )
    &&& report.macro_f1 is Some && report.macro_f1->0.reaches(REQUIRED_RATE)
    &&& report.precision is Some && report.precision->0.reaches(REQUIRED_RATE)
    &&& report.recall is Some && report.recall->0.reaches(REQUIRED_RATE)
    &&& report.f1 is Some && report.f1->0.exceeds(F1_BASELINE)
    &&& report.matthews_correlation is Some && report.matthews_correlation->0.exceeds(FIFTH)
    &&& report.brier_score is Some && report.brier_score->0.stays_within(FIFTH)
    &&& report.expected_calibration_error is Some
        && report.expected_calibration_error->0.stays_within(CALIBRATION_ERROR_BOUND)
}

/// Whether the judge is good enough and its probabilities mean what they say.
pub fn automation_quality_metrics_sufficient(report: &BinaryCalibrationReportV1) -> (sufficient:
    bool)
    ensures
        sufficient == metrics_suffice(*report),
{
    reaches(&report.average_precision, REQUIRED_AVERAGE_PRECISION) && reaches(
        &report.macro_f1,
        REQUIRED_RATE,
    ) && reaches(&report.precision, REQUIRED_RATE) && reaches(&report.recall, REQUIRED_RATE)
        && exceeds(&report.f1, F1_BASELINE) && exceeds(&report.matthews_correlation, FIFTH)
        && stays_within(&report.brier_score, FIFTH) && stays_within(
        &report.expected_calibration_error,
        CALIBRATION_ERROR_BOUND,
    )
}

/// Which part of the attempts was decided.
pub open spec fn decision_coverage(report: BinaryCalibrationReportV1) -> Number {
    if report.attempted_count == 0 {
        binary64::of_integer(0)
    } else {
        binary64::quotient(
            binary64::of_integer(report.decided_count as nat),
            binary64::of_integer(report.attempted_count as nat),
        )
    }
}

/// Nine tenths.
pub open spec fn required_coverage() -> Number {
    binary64::quotient(binary64::of_integer(9), binary64::of_integer(10))
}

/// Whether enough of the attempts was decided.
pub open spec fn coverage_suffices(report: BinaryCalibrationReportV1) -> bool {
    !binary64::below(decision_coverage(report), required_coverage())
}

/// Which part of the attempts was decided, in percent.
pub open spec fn coverage_percent(report: BinaryCalibrationReportV1) -> Seq<char> {
    text::one_decimal(binary64::to_parts(binary64::multiple(decision_coverage(report), 100), 10))
}

fn coverage_of(report: &BinaryCalibrationReportV1) -> (coverage: Binary64)
    ensures
        coverage@ == decision_coverage(*report),
        coverage@.normal(),
        -118 <= coverage@.exponent <= 13,
        coverage@.significand == 0 ==> coverage@.exponent == 0,
{
    if report.attempted_count == 0 {
        Binary64::of_integer(0)
    } else {
        Binary64::of_integer(report.decided_count).quotient(
            Binary64::of_integer(report.attempted_count),
        )
    }
}

fn is_covered(report: &BinaryCalibrationReportV1) -> (covered: bool)
    ensures
        covered == coverage_suffices(*report),
{
    let required = Binary64::of_integer(9).quotient(Binary64::of_integer(10));
    !coverage_of(report).is_below(&required)
}

/// Whether the judge is good enough to act on its own.
pub open spec fn quality_suffices(report: BinaryCalibrationReportV1) -> bool {
    &&& metrics_suffice(report)
    &&& coverage_suffices(report)
    &&& report.macro_f1_lower_95 is Some && report.macro_f1_lower_95->0.exceeds(GROUPED_BASELINE)
}

/// Whether the judge is good enough to act on its own.
pub fn automation_quality_sufficient(report: &BinaryCalibrationReportV1) -> (sufficient: bool)
    ensures
        sufficient == quality_suffices(*report),
{
    automation_quality_metrics_sufficient(report) && is_covered(report) && exceeds(
        &report.macro_f1_lower_95,
        GROUPED_BASELINE,
    )
}

/// A requirement of automation.
#[derive(Debug)]
pub struct AutomationGateItem {
    pub label: &'static str,
    pub current: String,
    pub passed: bool,
}

/// A requirement of automation: what it is, where it stands, whether it is met.
pub struct Gate {
    pub label: Seq<char>,
    pub current: Seq<char>,
    pub passed: bool,
}

impl View for AutomationGateItem {
    type V = Gate;

    open spec fn view(&self) -> Gate {
        Gate { label: self.label@, current: self.current@, passed: self.passed }
    }
}

/// The measures of a judge in one line.
pub open spec fn quality_line(report: BinaryCalibrationReportV1) -> Seq<char> {
    "macro F1 "@ + optional_value(report.macro_f1) + " · MCC "@ + optional_value(
        report.matthews_correlation,
    ) + " · AP "@ + optional_value(report.average_precision) + " · Brier "@ + optional_value(
        report.brier_score,
    ) + " · ECE "@ + optional_value(report.expected_calibration_error)
}

/// The requirements of automation.
pub open spec fn gates(
    fit: BinaryCalibrationReportV1,
    held_out: BinaryCalibrationReportV1,
) -> Seq<Gate> {
    seq![
        Gate {
            label: "Unbiased random labels"@,
            current: text::decimal(label_count(fit, held_out) as nat) + " / 500"@,
            passed: label_count(fit, held_out) >= REQUIRED_LABELS,
        },
        Gate {
            label: "Each important class"@,
            current: text::decimal(positive_count(fit, held_out) as nat) + "/100 failure · "@
                + text::decimal(negative_count(fit, held_out) as nat) + "/100 non-failure"@,
            passed: positive_count(fit, held_out) >= REQUIRED_CLASS_LABELS && negative_count(
                fit,
                held_out,
            ) >= REQUIRED_CLASS_LABELS,
        },
        Gate {
            label: "Held-out coverage"@,
            current: coverage_percent(held_out) + "% / 90%"@,
            passed: coverage_suffices(held_out),
        },
        Gate {
            label: "Grouped confidence"@,
            current: optional_value(held_out.macro_f1_lower_95) + " / >0.053"@,
            passed: held_out.macro_f1_lower_95 is Some && held_out.macro_f1_lower_95->0.exceeds(
                GROUPED_BASELINE,
            ),
        },
        Gate {
            label: "Quality and calibration"@,
            current: quality_line(held_out),
            passed: metrics_suffice(held_out),
        },
    ]
}

fn gate_items(fit: &BinaryCalibrationReportV1, held_out: &BinaryCalibrationReportV1) -> (items: Vec<
    AutomationGateItem,
>)
    ensures
        sorting::views(items@) == gates(*fit, *held_out),
        items@.len() == gates(*fit, *held_out).len(),
{
    let (labels, positive, negative) = counts_of(fit, held_out);
    let mut items: Vec<AutomationGateItem> = Vec::new();
    items.push(
        AutomationGateItem {
            label: "Unbiased random labels",
            current: concat2(decimal_text(labels).as_str(), " / 500"),
            passed: labels >= REQUIRED_LABELS,
        },
    );
    items.push(
        AutomationGateItem {
            label: "Each important class",
            current: concat4(
                decimal_text(positive).as_str(),
                "/100 failure · ",
                decimal_text(negative).as_str(),
                "/100 non-failure",
            ),
            passed: positive >= REQUIRED_CLASS_LABELS && negative >= REQUIRED_CLASS_LABELS,
        },
    );
    let percent = coverage_of(held_out).hundredfold();
    items.push(
        AutomationGateItem {
            label: "Held-out coverage",
            current: concat2(one_decimal_text(percent.to_parts(10)).as_str(), "% / 90%"),
            passed: is_covered(held_out),
        },
    );
    items.push(
        AutomationGateItem {
            label: "Grouped confidence",
            current: concat2(format_optional(&held_out.macro_f1_lower_95), " / >0.053"),
            passed: exceeds(&held_out.macro_f1_lower_95, GROUPED_BASELINE),
        },
    );
    let mut quality = concat4(
        "macro F1 ",
        format_optional(&held_out.macro_f1),
        " · MCC ",
        format_optional(&held_out.matthews_correlation),
    );
    quality.append(" · AP ");
    quality.append(format_optional(&held_out.average_precision));
    quality.append(" · Brier ");
    quality.append(format_optional(&held_out.brier_score));
    quality.append(" · ECE ");
    quality.append(format_optional(&held_out.expected_calibration_error));
    items.push(
        AutomationGateItem {
            label: "Quality and calibration",
            current: quality,
            passed: automation_quality_metrics_sufficient(held_out),
        },
    );
    assert(sorting::views(items@) =~= gates(*fit, *held_out));
    items
}

/// How many requirements are met.
pub open spec fn passing(list: Seq<Gate>) -> nat
    decreases list.len(),
{
    if list.len() == 0 {
        0
    } else {
        passing(list.drop_last()) + (if list.last().passed {
            1nat
        } else {
            0nat
        })
    }
}

/// All requirements are met exactly where none is open.
proof fn lemma_all_pass(list: Seq<Gate>)
    ensures
        passing(list) <= list.len(),
        passing(list) == list.len() <==> (forall|i: int|
            0 <= i < list.len() ==> (#[trigger] list[i]).passed),
    decreases list.len(),
{
    if list.len() > 0 {
        let rest = list.drop_last();
        lemma_all_pass(rest);
        assert forall|i: int| 0 <= i < rest.len() implies rest[i] == list[i] by {}
        if passing(list) == list.len() {
            assert forall|i: int| 0 <= i < list.len() implies (#[trigger] list[i]).passed by {
                if i < rest.len() {
                    assert(rest[i].passed);
                }
            }
        }
        if forall|i: int| 0 <= i < list.len() ==> (#[trigger] list[i]).passed {
            assert forall|i: int| 0 <= i < rest.len() implies (#[trigger] rest[i]).passed by {
                assert(list[i].passed);
            }
            assert(list[list.len() - 1].passed);
        }
    }
}

/// Every requirement is met exactly where the population and the quality
/// suffice for automation: the list of requirements and the permission to
/// activate a policy never disagree.
pub proof fn gates_decide_automation(
    fit: BinaryCalibrationReportV1,
    held_out: BinaryCalibrationReportV1,
)
    ensures
        passing(gates(fit, held_out)) == gates(fit, held_out).len() <==> population_suffices(
            fit,
            held_out,
        ) && quality_suffices(held_out),
{
    let list = gates(fit, held_out);
    lemma_all_pass(list);
    if passing(list) == list.len() {
        assert(list[0].passed && list[1].passed && list[2].passed && list[3].passed
            && list[4].passed);
    }
}

/// What is shown of a requirement.
#[derive(Debug)]
pub struct GateRow {
    pub heading: String,
    pub current: String,
    pub tint: u32,
}

/// What is shown of all requirements.
#[derive(Debug)]
pub struct GateSummary {
    pub ready: bool,
    pub label: String,
    pub heading: &'static str,
    pub count: String,
    pub tint: u32,
    pub surface: u32,
    pub rows: Vec<GateRow>,
}

/// A requirement in one line.
pub open spec fn gate_line(gate: Gate) -> Seq<char> {
    gate.label + ": "@ + gate.current + ", "@ + (if gate.passed {
        "passed"@
    } else {
        "blocked"@
    })
}

/// What is shown of a requirement.
pub open spec fn shows_gate(row: GateRow, gate: Gate) -> bool {
    &&& row.heading@ == (if gate.passed {
        "PASS"@
    } else {
        "BLOCKED"@
    }) + " · "@ + gate.label
    &&& row.current@ == gate.current
    &&& row.tint == (if gate.passed {
        Theme::GREEN
    } else {
        Theme::AMBER
    })
}

/// What is shown of all requirements.
pub open spec fn shows_gates(view: GateSummary, list: Seq<Gate>) -> bool {
    let ready = passing(list) == list.len();
    let passed = text::decimal(passing(list));
    let all = text::decimal(list.len());
    &&& view.ready == ready
    &&& view.label@ == "Automation "@ + (if ready {
        "ready"@
    } else {
        "blocked"@
    }) + ". "@ + passed + " of "@ + all + " safety gates pass. "@ + text::joined(
        list.map_values(|gate: Gate| gate_line(gate)),
        "; "@,
    )
    &&& view.heading@ == (if ready {
        "Automation ready"@
    } else {
        "Automation blocked"@
    })
    &&& view.count@ == passed + "/"@ + all + " gates pass"@
    &&& view.tint == (if ready {
        Theme::GREEN
    } else {
        Theme::AMBER
    })
    &&& view.surface == (if ready {
        Theme::SUCCESS_SURFACE
    } else {
        Theme::WARNING_SURFACE
    })
    &&& view.rows@.len() == list.len()
    &&& forall|i: int| 0 <= i < list.len() ==> shows_gate(#[trigger] view.rows@[i], list[i])
}

fn gate_summary(items: &Vec<AutomationGateItem>) -> (view: GateSummary)
    ensures
        shows_gates(view, sorting::views(items@)),
{
    let ghost list = sorting::views(items@);
    let mut lines: Vec<String> = Vec::new();
    let mut rows: Vec<GateRow> = Vec::new();
    let mut passed: usize = 0;
    let mut index: usize = 0;
    assert(list.take(0) =~= Seq::empty());
    while index < items.len()
        invariant
            index <= items@.len(),
            list == sorting::views(items@),
            passed == passing(list.take(index as int)),
            passed <= index,
            lines@.len() == index,
            forall|i: int| 0 <= i < index ==> (#[trigger] lines@[i])@ == gate_line(list[i]),
            rows@.len() == index,
            forall|i: int| 0 <= i < index ==> shows_gate(#[trigger] rows@[i], list[i]),
        decreases items@.len() - index,
    {
        let item = &items[index];
        proof {
            assert(list[index as int] == item@);
            assert(list.take(index + 1).drop_last() =~= list.take(index as int));
            assert(list.take(index + 1).last() == list[index as int]);
        }
        let (mark, outcome, tint) = if item.passed {
            ("PASS", "passed", Theme::GREEN)
        } else {
            ("BLOCKED", "blocked", Theme::AMBER)
        };
        if item.passed {
            passed += 1;
        }
        lines.push(concat5(item.label, ": ", item.current.as_str(), ", ", outcome));
        rows.push(
            GateRow { heading: concat3(mark, " · ", item.label), current: item.current.clone(), tint },
        );
        index += 1;
    }
    proof {
        assert(list.take(index as int) =~= list);
        assert(text::texts(lines@) =~= list.map_values(|gate: Gate| gate_line(gate)));
    }
    let ready = passed == items.len();
    let mut label = concat3(
        "Automation ",
        if ready {
            "ready"
        } else {
            "blocked"
        },
        ". ",
    );
    label.append(length_text(passed).as_str());
    label.append(" of ");
    label.append(length_text(items.len()).as_str());
    label.append(" safety gates pass. ");
    label.append(join(&lines, "; ").as_str());
    GateSummary {
        ready,
        label,
        heading: if ready {
            "Automation ready"
        } else {
            "Automation blocked"
        },
        count: concat4(
            length_text(passed).as_str(),
            "/",
            length_text(items.len()).as_str(),
            " gates pass",
        ),
        tint: if ready {
            Theme::GREEN
        } else {
            Theme::AMBER
        },
        surface: if ready {
            Theme::SUCCESS_SURFACE
        } else {
            Theme::WARNING_SURFACE
        },
        rows,
    }
}

/// The screen of calibrations.
pub struct CalibrationScreen {
    pub project_id: Option<String>,
    pub releases: Vec<(String, CalibrationReleaseV1)>,
    pub selected_release_id: Option<String>,
    pub reports: Vec<CalibrationReportV1>,
    pub metric_view: MetricView,
    pub pass_threshold: TextInput,
    pub fail_threshold: TextInput,
    pub minimum_confidence: TextInput,
    pub proposed_policy: Option<(String, ThresholdPolicyReleaseV1)>,
    pub busy: bool,
    pub error: Option<String>,
    pub notice: Option<String>,
    pub request_generation: u64,
}

/// A request for the releases of a project.
#[derive(Debug)]
pub struct ReleaseListRequest {
    pub generation: u64,
    pub project_id: String,
}

/// A request to freeze thresholds.
#[derive(Debug)]
pub struct PolicyRequest {
    pub project_id: String,
    pub evaluator_release_id: String,
    pub calibration_release_id: String,
}

/// The first place of a release.
pub open spec fn place_of_release(
    releases: Seq<(String, CalibrationReleaseV1)>,
    release_id: Seq<char>,
) -> Option<int>
    decreases releases.len(),
{
    if releases.len() == 0 {
        None
    } else if releases[0].0@ == release_id {
        Some(0)
    } else {
        match place_of_release(releases.drop_first(), release_id) {
            Some(place) => Some(place + 1),
            None => None,
        }
    }
}

fn find_release(releases: &Vec<(String, CalibrationReleaseV1)>, release_id: &String) -> (found:
    Option<usize>)
    ensures
        match found {
            Some(place) => place < releases@.len() && place_of_release(releases@, release_id@)
                == Some(place as int),
            None => place_of_release(releases@, release_id@) is None,
        },
{
    let mut index: usize = 0;
    assert(releases@.skip(0) =~= releases@);
    while index < releases.len()
        invariant
            index <= releases@.len(),
            place_of_release(releases@, release_id@) == (match place_of_release(
                releases@.skip(index as int),
                release_id@,
            ) {
                Some(place) => Some(place + index),
                None => None,
            }),
        decreases releases@.len() - index,
    {
        proof {
            assert(releases@.skip(index as int)[0] == releases@[index as int]);
            assert(releases@.skip(index as int).drop_first() =~= releases@.skip(index + 1));
        }
        if releases[index].0 == *release_id {
            return Some(index);
        }
        index += 1;
    }
    None
}

/// What asking for the releases does: without a project there are none.
pub open spec fn reloads(
    before: CalibrationScreen,
    after: CalibrationScreen,
    request: Option<ReleaseListRequest>,
) -> bool {
    let generation = state::next_request(before.request_generation);
    match before.project_id {
        Some(project_id) => {
            &&& after == (CalibrationScreen {
                request_generation: generation,
                error: None,
                busy: true,
                ..before
            })
            &&& request == Some(ReleaseListRequest { generation, project_id })
        },
        None => {
            &&& after == (CalibrationScreen {
                request_generation: generation,
                error: None,
                releases: after.releases,
                ..before
            })
            &&& after.releases@.len() == 0
            &&& request is None
        },
    }
}

/// What asking for the reports does: without a release there are none.
pub open spec fn loads_reports(
    before: CalibrationScreen,
    after: CalibrationScreen,
    release_id: Option<String>,
) -> bool {
    &&& release_id == before.selected_release_id
    &&& match before.selected_release_id {
        Some(_) => after == (CalibrationScreen { busy: true, ..before }),
        None => {
            &&& after == (CalibrationScreen { reports: after.reports, ..before })
            &&& after.reports@.len() == 0
        },
    }
}

/// An input for a threshold.
fn threshold_input(value: &str, placeholder: &str) -> (input: TextInput)
    ensures
        input.filled(placeholder@, THRESHOLD_BYTES as nat, value@),
{
    let mut input = TextInput::new(placeholder.to_owned(), THRESHOLD_BYTES);
    input.set_text(value);
    input
}

impl CalibrationScreen {
    /// A screen that has not loaded anything yet.
    pub fn new(project_id: Option<String>) -> (screen: Self)
        ensures
            screen.project_id == project_id,
            screen.releases@.len() == 0,
            screen.selected_release_id is None,
            screen.reports@.len() == 0,
            screen.metric_view == MetricView::Confusion,
            screen.pass_threshold.filled("Pass threshold"@, THRESHOLD_BYTES as nat, "0.35"@),
            screen.fail_threshold.filled("Failure threshold"@, THRESHOLD_BYTES as nat, "0.65"@),
            screen.minimum_confidence.filled(
                "Minimum confidence"@,
                THRESHOLD_BYTES as nat,
                "0.60"@,
            ),
            screen.proposed_policy is None,
            !screen.busy,
            screen.error is None,
            screen.notice is None,
            screen.request_generation == 0,
    {
        CalibrationScreen {
            project_id,
            releases: Vec::new(),
            selected_release_id: None,
            reports: Vec::new(),
            metric_view: MetricView::Confusion,
            pass_threshold: threshold_input("0.35", "Pass threshold"),
            fail_threshold: threshold_input("0.65", "Failure threshold"),
            minimum_confidence: threshold_input("0.60", "Minimum confidence"),
            proposed_policy: None,
            busy: false,
            error: None,
            notice: None,
            request_generation: 0,
        }
    }

    /// Asks for the releases.
    pub fn reload(&mut self) -> (request: Option<ReleaseListRequest>)
        ensures
            reloads(*old(self), *final(self), request),
    {
        self.request_generation = following_request(self.request_generation);
        self.error = None;
        let project_id = match &self.project_id {
            Some(project_id) => project_id.clone(),
            None => {
                self.releases = Vec::new();
                return None;
            },
        };
        self.busy = true;
        Some(ReleaseListRequest { generation: self.request_generation, project_id })
    }

    /// Shows the calibrations of another project.
    pub fn set_project_scope(&mut self, project_id: Option<String>) -> (request: Option<
        ReleaseListRequest,
    >)
        ensures
            optional_text(old(self).project_id) == optional_text(project_id) ==> *final(self)
                == *old(self) && request is None,
            optional_text(old(self).project_id) != optional_text(project_id) ==> {
                &&& final(self).reports@.len() == 0
                &&& reloads(
                    CalibrationScreen {
                        project_id,
                        selected_release_id: None,
                        reports: final(self).reports,
                        proposed_policy: None,
                        ..*old(self)
                    },
                    *final(self),
                    request,
                )
            },
    {
        if same_optional(&self.project_id, &project_id) {
            return None;
        }
        self.project_id = project_id;
        self.selected_release_id = None;
        self.reports = Vec::new();
        self.proposed_policy = None;
        self.reload()
    }

    /// Takes the releases and asks for the reports of the selected one, which
    /// is the first where none was selected. An answer to an earlier request
    /// changes nothing.
    pub fn finish_reload(
        &mut self,
        generation: u64,
        answer: Result<Vec<(String, CalibrationReleaseV1)>, String>,
    ) -> (release_id: Option<String>)
        ensures
            generation != old(self).request_generation ==> *final(self) == *old(self)
                && release_id is None,
            generation == old(self).request_generation ==> match answer {
                Ok(releases) => loads_reports(
                    CalibrationScreen {
                        busy: false,
                        releases,
                        selected_release_id: match old(self).selected_release_id {
                            Some(selected) => Some(selected),
                            None => if releases@.len() > 0 {
                                Some(releases@[0].0)
                            } else {
                                None
                            },
                        },
                        ..*old(self)
                    },
                    *final(self),
                    release_id,
                ),
                Err(error) => {
                    &&& *final(self) == (CalibrationScreen {
                        busy: false,
                        error: Some(error),
                        ..*old(self)
                    })
                    &&& release_id is None
                },
            },
    {
        if generation != self.request_generation {
            return None;
        }
        self.busy = false;
        match answer {
            Ok(releases) => {
                self.releases = releases;
                if self.selected_release_id.is_none() && self.releases.len() > 0 {
                    self.selected_release_id = Some(self.releases[0].0.clone());
                }
                self.load_reports()
            },
            Err(error) => {
                self.error = Some(error);
                None
            },
        }
    }

    /// Selects a release and asks for its reports.
    pub fn select_release(&mut self, index: usize) -> (release_id: Option<String>)
        ensures
            index >= old(self).releases@.len() ==> *final(self) == *old(self) && release_id
                is None,
            index < old(self).releases@.len() ==> loads_reports(
                CalibrationScreen {
                    selected_release_id: Some(old(self).releases@[index as int].0),
                    proposed_policy: None,
                    notice: None,
                    ..*old(self)
                },
                *final(self),
                release_id,
            ),
    {
        if index >= self.releases.len() {
            return None;
        }
        self.selected_release_id = Some(self.releases[index].0.clone());
        self.proposed_policy = None;
        self.notice = None;
        self.load_reports()
    }

    /// Asks for the reports of the selected release.
    pub fn load_reports(&mut self) -> (release_id: Option<String>)
        ensures
            loads_reports(*old(self), *final(self), release_id),
    {
        let release_id = copy_optional(&self.selected_release_id);
        if release_id.is_none() {
            self.reports = Vec::new();
        } else {
            self.busy = true;
        }
        release_id
    }

    /// Whether a release is the selected one.
    pub fn is_selected(&self, release_id: &str) -> (selected: bool)
        ensures
            selected == (optional_text(self.selected_release_id) == Some(release_id@)),
    {
        match &self.selected_release_id {
            Some(selected) => same_text(selected.as_str(), release_id),
            None => false,
        }
    }

    /// Takes the reports of a release and the policy that was frozen for it.
    /// An answer about another release changes nothing.
    pub fn finish_reports(
        &mut self,
        release_id: &str,
        answer: Result<
            (Vec<CalibrationReportV1>, Option<(String, ThresholdPolicyReleaseV1)>),
            String,
        >,
    )
        ensures
            optional_text(old(self).selected_release_id) != Some(release_id@) ==> *final(self)
                == *old(self),
            optional_text(old(self).selected_release_id) == Some(release_id@) ==> match answer {
                Ok((reports, policy)) => {
                    &&& *final(self) == (CalibrationScreen {
                        busy: false,
                        reports,
                        proposed_policy: policy,
                        pass_threshold: final(self).pass_threshold,
                        fail_threshold: final(self).fail_threshold,
                        minimum_confidence: final(self).minimum_confidence,
                        ..*old(self)
                    })
                    &&& match policy {
                        Some((_, frozen)) => {
                            &&& final(self).pass_threshold.retyped(
                                old(self).pass_threshold,
                                frozen.pass_probability_threshold.shown@,
                            )
                            &&& final(self).fail_threshold.retyped(
                                old(self).fail_threshold,
                                frozen.fail_probability_threshold.shown@,
                            )
                            &&& final(self).minimum_confidence.retyped(
                                old(self).minimum_confidence,
                                frozen.minimum_decision_confidence.shown@,
                            )
                        },
                        None => {
                            &&& final(self).pass_threshold == old(self).pass_threshold
                            &&& final(self).fail_threshold == old(self).fail_threshold
                            &&& final(self).minimum_confidence == old(self).minimum_confidence
                        },
                    }
                },
                Err(error) => *final(self) == (CalibrationScreen {
                    busy: false,
                    error: Some(error),
                    ..*old(self)
                }),
            },
    {
        if !self.is_selected(release_id) {
            return;
        }
        self.busy = false;
        match answer {
            Ok((reports, policy)) => {
                self.reports = reports;
                if let Some((_, frozen)) = &policy {
                    self.pass_threshold.set_text(frozen.pass_probability_threshold.shown.as_str());
                    self.fail_threshold.set_text(frozen.fail_probability_threshold.shown.as_str());
                    self.minimum_confidence.set_text(
                        frozen.minimum_decision_confidence.shown.as_str(),
                    );
                }
                self.proposed_policy = policy;
            },
            Err(error) => {
                self.error = Some(error);
            },
        }
    }

    /// The three thresholds as they were typed.
    pub fn typed_thresholds(&self) -> (typed: (String, String, String))
        ensures
            typed.0@ == text::trimmed(self.pass_threshold@.text),
            typed.1@ == text::trimmed(self.fail_threshold@.text),
            typed.2@ == text::trimmed(self.minimum_confidence@.text),
    {
        (
            trim(self.pass_threshold.text()),
            trim(self.fail_threshold.text()),
            trim(self.minimum_confidence.text()),
        )
    }

    /// The selected release.
    pub open spec fn release(self) -> Option<(String, CalibrationReleaseV1)> {
        match self.selected_release_id {
            Some(release_id) => match place_of_release(self.releases@, release_id@) {
                Some(place) => Some(self.releases@[place]),
                None => None,
            },
            None => None,
        }
    }

    /// The selected release.
    pub fn selected_release(&self) -> (found: Option<&(String, CalibrationReleaseV1)>)
        ensures
            match found {
                Some(release) => self.release() == Some(*release),
                None => self.release() is None,
            },
    {
        match &self.selected_release_id {
            Some(release_id) => match find_release(&self.releases, release_id) {
                Some(place) => Some(&self.releases[place]),
                None => None,
            },
            None => None,
        }
    }

    /// Why thresholds cannot be frozen now.
    pub open spec fn policy_refusal(self, thresholds_are_numbers: bool) -> Option<Seq<char>> {
        if self.reports@.len() > 0 {
            Some(
                "Held-out labels are already unsealed. Create a new calibration release instead of retuning this policy."@,
            )
        } else if self.proposed_policy is Some {
            Some("This calibration release already has a frozen threshold policy."@)
        } else {
            match self.release() {
                Some((_, release)) => if !agreement_suffices(release) {
                    Some("Threshold publication requires Krippendorff alpha of at least 0.67."@)
                } else if self.project_id is Some && !thresholds_are_numbers {
                    Some("Thresholds must be probabilities between 0 and 1."@)
                } else {
                    None
                },
                None => None,
            }
        }
    }

    /// The request to freeze the thresholds, where nothing stands against it.
    pub open spec fn policy_request(self) -> Option<PolicyRequest> {
        match (self.release(), self.project_id) {
            (Some((calibration_release_id, release)), Some(project_id)) => Some(
                PolicyRequest {
                    project_id,
                    evaluator_release_id: release.evaluator_release_id,
                    calibration_release_id,
                },
            ),
            _ => None,
        }
    }

    /// Freezes the thresholds, which are numbers or not.
    pub fn create_policy(&mut self, thresholds_are_numbers: bool) -> (request: Option<
        PolicyRequest,
    >)
        ensures
            match old(self).policy_refusal(thresholds_are_numbers) {
                Some(reason) => {
                    &&& *final(self) == (CalibrationScreen {
                        error: final(self).error,
                        ..*old(self)
                    })
                    &&& optional_text(final(self).error) == Some(reason)
                    &&& request is None
                },
                None => {
                    &&& request == old(self).policy_request()
                    &&& *final(self) == (if request is Some {
                        CalibrationScreen { busy: true, error: None, ..*old(self) }
                    } else {
                        *old(self)
                    })
                },
            },
    {
        if self.reports.len() > 0 {
            self.error =
            Some(
                "Held-out labels are already unsealed. Create a new calibration release instead of retuning this policy.".to_owned(),
            );
            return None;
        }
        if self.proposed_policy.is_some() {
            self.error =
            Some("This calibration release already has a frozen threshold policy.".to_owned());
            return None;
        }
        let (calibration_release_id, evaluator_release_id, agreed) = match self.selected_release() {
            Some(found) => (
                found.0.clone(),
                found.1.evaluator_release_id.clone(),
                agreement_is_sufficient(&found.1),
            ),
            None => {
                return None;
            },
        };
        if !agreed {
            self.error =
            Some("Threshold publication requires Krippendorff alpha of at least 0.67.".to_owned());
            return None;
        }
        let project_id = match &self.project_id {
            Some(project_id) => project_id.clone(),
            None => {
                return None;
            },
        };
        if !thresholds_are_numbers {
            self.error = Some("Thresholds must be probabilities between 0 and 1.".to_owned());
            return None;
        }
        self.busy = true;
        self.error = None;
        Some(PolicyRequest { project_id, evaluator_release_id, calibration_release_id })
    }

    /// Takes the policy that was frozen for a release. An answer about
    /// another release changes nothing.
    pub fn finish_policy(
        &mut self,
        release_id: &str,
        answer: Result<(String, ThresholdPolicyReleaseV1), String>,
    )
        ensures
            optional_text(old(self).selected_release_id) != Some(release_id@) ==> *final(self)
                == *old(self),
            optional_text(old(self).selected_release_id) == Some(release_id@) ==> match answer {
                Ok(policy) => {
                    &&& *final(self) == (CalibrationScreen {
                        busy: false,
                        proposed_policy: Some(policy),
                        notice: final(self).notice,
                        ..*old(self)
                    })
                    &&& optional_text(final(self).notice) == Some(
                        "Threshold policy frozen from calibration data. You can now run the one-shot held-out evaluation."@,
                    )
                },
                Err(error) => *final(self) == (CalibrationScreen {
                    busy: false,
                    error: Some(error),
                    ..*old(self)
                }),
            },
    {
        if !self.is_selected(release_id) {
            return;
        }
        self.busy = false;
        match answer {
            Ok(policy) => {
                self.proposed_policy = Some(policy);
                self.notice =
                Some(
                    "Threshold policy frozen from calibration data. You can now run the one-shot held-out evaluation.".to_owned(),
                );
            },
            Err(error) => {
                self.error = Some(error);
            },
        }
    }

    /// Asks for a calibration of the reviewed answers; the result is the project.
    pub fn fit_calibration(&mut self) -> (project_id: Option<String>)
        ensures
            project_id == old(self).project_id,
            *final(self) == (if project_id is Some {
                CalibrationScreen { busy: true, error: None, ..*old(self) }
            } else {
                *old(self)
            }),
    {
        let project_id = copy_optional(&self.project_id);
        if project_id.is_some() {
            self.busy = true;
            self.error = None;
        }
        project_id
    }

    /// Takes the calibration that was published, and asks for the releases.
    pub fn finish_fit(&mut self, answer: Result<String, String>) -> (request: Option<
        ReleaseListRequest,
    >)
        ensures
            match answer {
                Ok(release_id) => {
                    &&& reloads(
                        CalibrationScreen {
                            busy: false,
                            selected_release_id: Some(release_id),
                            notice: final(self).notice,
                            ..*old(self)
                        },
                        *final(self),
                        request,
                    )
                    &&& optional_text(final(self).notice) == Some(
                        "Published a calibration release. Freeze thresholds before opening held-out results."@,
                    )
                },
                Err(error) => {
                    &&& *final(self) == (CalibrationScreen {
                        busy: false,
                        error: Some(error),
                        ..*old(self)
                    })
                    &&& request is None
                },
            },
    {
        self.busy = false;
        match answer {
            Ok(release_id) => {
                self.selected_release_id = Some(release_id);
                self.notice =
                Some(
                    "Published a calibration release. Freeze thresholds before opening held-out results.".to_owned(),
                );
                self.reload()
            },
            Err(error) => {
                self.error = Some(error);
                None
            },
        }
    }

    /// Evaluates the held-out answers, once and only against a frozen policy;
    /// the result is the release.
    pub fn evaluate_held_out(&mut self) -> (release_id: Option<String>)
        ensures
            release_id == (if old(self).proposed_policy is Some && old(self).reports@.len() == 0 {
                old(self).selected_release_id
            } else {
                None
            }),
            *final(self) == (if release_id is Some {
                CalibrationScreen { busy: true, error: None, ..*old(self) }
            } else {
                *old(self)
            }),
    {
        if self.proposed_policy.is_none() || self.reports.len() > 0 {
            return None;
        }
        let release_id = copy_optional(&self.selected_release_id);
        if release_id.is_some() {
            self.busy = true;
            self.error = None;
        }
        release_id
    }

    /// Takes that the held-out answers of a release were evaluated, and asks
    /// for the reports. An answer about another release changes nothing.
    pub fn finish_held_out(&mut self, release_id: &str, answer: Result<(), String>) -> (load: Option<
        String,
    >)
        ensures
            optional_text(old(self).selected_release_id) != Some(release_id@) ==> *final(self)
                == *old(self) && load is None,
            optional_text(old(self).selected_release_id) == Some(release_id@) ==> match answer {
                Ok(_) => {
                    &&& loads_reports(
                        CalibrationScreen {
                            busy: false,
                            notice: final(self).notice,
                            ..*old(self)
                        },
                        *final(self),
                        load,
                    )
                    &&& optional_text(final(self).notice) == Some(
                        "Held-out evaluation published once against the frozen policy. Thresholds are now locked."@,
                    )
                },
                Err(error) => {
                    &&& *final(self) == (CalibrationScreen {
                        busy: false,
                        error: Some(error),
                        ..*old(self)
                    })
                    &&& load is None
                },
            },
    {
        if !self.is_selected(release_id) {
            return None;
        }
        self.busy = false;
        match answer {
            Ok(_) => {
                self.notice =
                Some(
                    "Held-out evaluation published once against the frozen policy. Thresholds are now locked.".to_owned(),
                );
                self.load_reports()
            },
            Err(error) => {
                self.error = Some(error);
                None
            },
        }
    }

    /// Activates the policy that was frozen; the result is the policy.
    pub fn activate_policy(&mut self) -> (policy_id: Option<String>)
        ensures
            match old(self).proposed_policy {
                Some(policy) => {
                    &&& policy_id == Some(policy.0)
                    &&& *final(self) == (CalibrationScreen {
                        busy: true,
                        error: None,
                        ..*old(self)
                    })
                },
                None => policy_id is None && *final(self) == *old(self),
            },
    {
        let policy_id = match &self.proposed_policy {
            Some((policy_id, _)) => policy_id.clone(),
            None => {
                return None;
            },
        };
        self.busy = true;
        self.error = None;
        Some(policy_id)
    }

    /// Takes the activation of a policy and how many decisions followed.
    pub fn finish_activation(&mut self, answer: Result<(String, u64), String>)
        ensures
            match answer {
                Ok((activation_id, decision_count)) => {
                    &&& *final(self) == (CalibrationScreen {
                        busy: false,
                        notice: final(self).notice,
                        ..*old(self)
                    })
                    &&& optional_text(final(self).notice) == Some(
                        "Policy activated as "@ + short(activation_id@) + " and materialized "@
                            + text::decimal(decision_count as nat)
                            + " immutable decisions. Prior assessments were not changed."@,
                    )
                },
                Err(error) => *final(self) == (CalibrationScreen {
                    busy: false,
                    error: Some(error),
                    ..*old(self)
                }),
            },
    {
        self.busy = false;
        match answer {
            Ok((activation_id, decision_count)) => {
                self.notice =
                Some(
                    concat5(
                        "Policy activated as ",
                        short_id(activation_id.as_str()),
                        " and materialized ",
                        decimal_text(decision_count).as_str(),
                        " immutable decisions. Prior assessments were not changed.",
                    ),
                );
            },
            Err(error) => {
                self.error = Some(error);
            },
        }
    }

    /// Shows other measures.
    pub fn set_metric_view(&mut self, view: MetricView)
        ensures
            *final(self) == (CalibrationScreen { metric_view: view, ..*old(self) }),
    {
        self.metric_view = view;
    }

    /// The report on the held-out answers.
    pub fn held_out_report(&self) -> (found: Option<&BinaryCalibrationReportV1>)
        ensures
            match found {
                Some(report) => self.reports@.len() > 0 && *report == self.reports@[0].report,
                None => self.reports@.len() == 0,
            },
    {
        if self.reports.len() > 0 {
            Some(&self.reports[0].report)
        } else {
            None
        }
    }

    /// The reports on parts that are shown.
    pub open spec fn shown_slices(self) -> Seq<CalibrationSliceReportV1> {
        if self.reports@.len() > 0 {
            self.reports@[0].slice_reports@
        } else {
            match self.release() {
                Some((_, release)) => release.fit_slice_reports@,
                None => Seq::empty(),
            }
        }
    }

    /// The reports on parts that are shown.
    pub fn displayed_slice_reports(&self) -> (found: Option<&Vec<CalibrationSliceReportV1>>)
        ensures
            match found {
                Some(slices) => slices@ == self.shown_slices(),
                None => self.shown_slices() == Seq::<CalibrationSliceReportV1>::empty(),
            },
    {
        if self.reports.len() > 0 {
            return Some(&self.reports[0].slice_reports);
        }
        match self.selected_release() {
            Some(found) => Some(&found.1.fit_slice_reports),
            None => None,
        }
    }

    /// The report that is shown: on the held-out answers that were drawn at
    /// random, else on all held-out answers, else on those that were fitted.
    pub open spec fn shown_report(self) -> Option<BinaryCalibrationReportV1> {
        if self.reports@.len() > 0 {
            match random_audit(self.reports@[0].slice_reports@) {
                Some(report) => Some(report),
                None => Some(self.reports@[0].report),
            }
        } else {
            match self.release() {
                Some((_, release)) => Some(release.fit_report),
                None => None,
            }
        }
    }

    /// The report that is shown.
    pub fn displayed_report(&self) -> (found: Option<&BinaryCalibrationReportV1>)
        ensures
            match found {
                Some(report) => self.shown_report() == Some(*report),
                None => self.shown_report() is None,
            },
    {
        if self.reports.len() > 0 {
            return match random_audit_report(&self.reports[0].slice_reports) {
                Some(report) => Some(report),
                None => Some(&self.reports[0].report),
            };
        }
        match self.selected_release() {
            Some(found) => Some(&found.1.fit_report),
            None => None,
        }
    }

    /// Which answers the shown report is on.
    pub open spec fn shown_scope(self) -> Seq<char> {
        if self.reports@.len() > 0 && random_audit(self.reports@[0].slice_reports@) is Some {
            "Metrics scope: held-out random-audit slice · used by automation safety gates"@
        } else if self.reports@.len() > 0 {
            "Metrics scope: complete held-out report · no random-audit slice available"@
        } else {
            "Metrics scope: calibration fit"@
        }
    }

    /// Which answers the shown report is on.
    pub fn displayed_report_scope(&self) -> (scope: &'static str)
        ensures
            scope@ == self.shown_scope(),
    {
        if self.reports.len() > 0 {
            if random_audit_report(&self.reports[0].slice_reports).is_some() {
                "Metrics scope: held-out random-audit slice · used by automation safety gates"
            } else {
                "Metrics scope: complete held-out report · no random-audit slice available"
            }
        } else {
            "Metrics scope: calibration fit"
        }
    }

    /// The reports that automation rests on.
    pub open spec fn automation_basis(self, release: CalibrationReleaseV1) -> Option<
        (BinaryCalibrationReportV1, BinaryCalibrationReportV1),
    > {
        if self.reports@.len() == 0 {
            None
        } else {
            match (
                random_audit(release.fit_slice_reports@),
                random_audit(self.reports@[0].slice_reports@),
            ) {
                (Some(fit), Some(held_out)) => Some((fit, held_out)),
                _ => None,
            }
        }
    }

    /// The requirements of automation, where there are reports to hold them to.
    pub fn automation_gate_items(&self, release: &CalibrationReleaseV1) -> (items: Option<
        Vec<AutomationGateItem>,
    >)
        ensures
            match (self.automation_basis(*release), items) {
                (Some((fit, held_out)), Some(items)) => sorting::views(items@) == gates(
                    fit,
                    held_out,
                ),
                (None, None) => true,
                _ => false,
            },
    {
        if self.reports.len() == 0 {
            return None;
        }
        let fit = random_audit_report(&release.fit_slice_reports);
        let held_out = random_audit_report(&self.reports[0].slice_reports);
        match (fit, held_out) {
            (Some(fit), Some(held_out)) => Some(gate_items(fit, held_out)),
            _ => None,
        }
    }

    /// Whether a policy may act on its own.
    pub open spec fn automation_ready(self) -> bool {
        match self.release() {
            Some((_, release)) => match self.automation_basis(release) {
                Some((fit, held_out)) => population_suffices(fit, held_out) && quality_suffices(
                    held_out,
                ),
                None => false,
            },
            None => false,
        }
    }

    /// Whether a policy may act on its own.
    pub fn is_automation_ready(&self) -> (ready: bool)
        ensures
            ready == self.automation_ready(),
    {
        let release = match self.selected_release() {
            Some(found) => &found.1,
            None => {
                return false;
            },
        };
        if self.reports.len() == 0 {
            return false;
        }
        let fit = random_audit_report(&release.fit_slice_reports);
        let held_out = random_audit_report(&self.reports[0].slice_reports);
        match (fit, held_out) {
            (Some(fit), Some(held_out)) => automation_population_sufficient(fit, held_out)
                && automation_quality_sufficient(held_out),
            _ => false,
        }
    }
}

/// A release as it is listed.
#[derive(Debug)]
pub struct ReleaseRowView {
    pub title: String,
    pub label: String,
    pub summary: String,
    pub selected: bool,
}

/// A release as it is listed.
pub open spec fn shows_release(
    view: ReleaseRowView,
    screen: CalibrationScreen,
    entry: (String, CalibrationReleaseV1),
) -> bool {
    let answers = text::decimal(entry.1.fit_annotation_revision_ids@.len());
    let raters = text::decimal(entry.1.agreement_report.rater_count as nat);
    &&& view.title@ == "Release "@ + short(entry.0@)
    &&& view.label@ == "Open calibration release "@ + short(entry.0@) + "; "@ + answers
        + " fitted answers; "@ + raters + " raters"@
    &&& view.summary@ == answers + " fitted answers · "@ + raters + " raters"@
    &&& view.selected == (optional_text(screen.selected_release_id) == Some(entry.0@))
}

/// What is shown of the releases.
#[derive(Debug)]
pub struct ReleaseListView {
    pub summary: String,
    pub rows: Vec<ReleaseRowView>,
}

/// A measure under its name.
#[derive(Debug)]
pub struct MetricTile {
    pub label: &'static str,
    pub value: String,
}

/// A measure under its name.
pub struct TileContent {
    pub label: Seq<char>,
    pub value: Seq<char>,
}

impl View for MetricTile {
    type V = TileContent;

    open spec fn view(&self) -> TileContent {
        TileContent { label: self.label@, value: self.value@ }
    }
}

/// A measure under its name.
pub open spec fn tile(label: Seq<char>, value: Seq<char>) -> TileContent {
    TileContent { label, value }
}

fn metric(label: &'static str, value: String) -> (metric: MetricTile)
    ensures
        metric@ == tile(label@, value@),
{
    MetricTile { label, value }
}

fn measured(label: &'static str, value: &Option<Measure>) -> (metric: MetricTile)
    ensures
        metric@ == tile(label@, optional_value(*value)),
{
    MetricTile { label, value: format_optional(value).to_owned() }
}

fn counted(label: &'static str, count: u64) -> (metric: MetricTile)
    ensures
        metric@ == tile(label@, text::decimal(count as nat)),
{
    MetricTile { label, value: decimal_text(count) }
}

/// A line with a text at either end.
#[derive(Debug)]
pub struct PairedLine {
    pub left: String,
    pub right: String,
}

/// The measures that are shown.
#[derive(Debug)]
pub enum MetricContent {
    Confusion {
        positive_class: String,
        counts: Vec<MetricTile>,
        rates: Vec<MetricTile>,
        scores: Vec<MetricTile>,
    },
    Agreement { rater_count: String, tiles: Vec<MetricTile> },
    Calibration { tiles: Vec<MetricTile>, bins: Vec<PairedLine> },
    RiskCoverage { tiles: Vec<MetricTile>, points: Vec<PairedLine> },
}

/// How often the judge was right and wrong.
pub open spec fn confusion_tiles(report: BinaryCalibrationReportV1) -> Seq<TileContent> {
    seq![
        tile("True positive"@, text::decimal(report.confusion.true_positive as nat)),
        tile("False positive"@, text::decimal(report.confusion.false_positive as nat)),
        tile("True negative"@, text::decimal(report.confusion.true_negative as nat)),
        tile("False negative"@, text::decimal(report.confusion.false_negative as nat)),
    ]
}

/// The rates with their bounds.
pub open spec fn rate_tiles(report: BinaryCalibrationReportV1) -> Seq<TileContent> {
    seq![
        tile("Precision · 95% CI"@, rate_text(report.precision, report.precision_interval)),
        tile("Recall · 95% CI"@, rate_text(report.recall, report.recall_interval)),
        tile("Specificity · 95% CI"@, rate_text(report.specificity, report.specificity_interval)),
    ]
}

/// The scores in one number.
pub open spec fn score_tiles(report: BinaryCalibrationReportV1) -> Seq<TileContent> {
    seq![
        tile("F1"@, optional_value(report.f1)),
        tile("MCC"@, optional_value(report.matthews_correlation)),
        tile("AUPRC"@, optional_value(report.average_precision)),
        tile("Denominator"@, text::decimal(report.attempted_count as nat)),
    ]
}

/// How far raters agree.
pub open spec fn agreement_tiles(report: AgreementReport) -> Seq<TileContent> {
    seq![
        tile("Krippendorff α"@, optional_value(report.krippendorff_alpha)),
        tile("Cohen κ"@, optional_value(report.cohen_kappa)),
        tile("Weighted κ"@, optional_value(report.quadratic_weighted_kappa)),
        tile("Units"@, text::decimal(report.item_count as nat)),
        tile("Disagreements"@, text::decimal(report.disagreement_item_count as nat)),
    ]
}

/// How well probabilities mean what they say.
pub open spec fn calibration_tiles(report: BinaryCalibrationReportV1) -> Seq<TileContent> {
    seq![
        tile("Brier score"@, optional_value(report.brier_score)),
        tile("ECE"@, optional_value(report.expected_calibration_error)),
        tile("Bins"@, text::decimal(report.calibration_bins@.len())),
    ]
}

/// How much was decided.
pub open spec fn coverage_tiles(report: BinaryCalibrationReportV1) -> Seq<TileContent> {
    seq![
        tile("Attempted"@, text::decimal(report.attempted_count as nat)),
        tile("Decided"@, text::decimal(report.decided_count as nat)),
        tile("Abstained"@, text::decimal(report.abstained_count as nat)),
    ]
}

/// What is shown of predictions of a range.
pub open spec fn shows_bin(line: PairedLine, bin: CalibrationBin) -> bool {
    &&& line.left@ == bin.range@
    &&& line.right@ == "n="@ + text::decimal(bin.count as nat) + " · predicted "@ + optional_value(
        bin.mean_predicted_failure,
    ) + " · observed "@ + optional_value(bin.empirical_failure_rate)
}

/// What is shown of the risk at a coverage.
pub open spec fn shows_point(line: PairedLine, point: SelectiveRiskPoint) -> bool {
    &&& line.left@ == "Coverage "@ + point.coverage_percent@ + "%"@
    &&& line.right@ == "Risk "@ + optional_value(point.classification_risk) + " · n="@
        + text::decimal(point.decided_count as nat)
}

/// How many points of the selective risk are listed.
pub open spec fn listed_points(points: Seq<SelectiveRiskPoint>) -> int {
    if points.len() < RISK_POINT_LIMIT {
        points.len() as int
    } else {
        RISK_POINT_LIMIT as int
    }
}

/// The measures that are shown.
pub open spec fn shows_metrics(
    content: MetricContent,
    view: MetricView,
    report: BinaryCalibrationReportV1,
    agreement: AgreementReport,
) -> bool {
    match (view, content) {
        (
            MetricView::Confusion,
            MetricContent::Confusion { positive_class, counts, rates, scores },
        ) => {
            &&& positive_class@ == report.positive_class@
            &&& sorting::views(counts@) == confusion_tiles(report)
            &&& sorting::views(rates@) == rate_tiles(report)
            &&& sorting::views(scores@) == score_tiles(report)
        },
        (MetricView::Agreement, MetricContent::Agreement { rater_count, tiles }) => {
            &&& rater_count@ == text::decimal(agreement.rater_count as nat)
            &&& sorting::views(tiles@) == agreement_tiles(agreement)
        },
        (MetricView::Calibration, MetricContent::Calibration { tiles, bins }) => {
            &&& sorting::views(tiles@) == calibration_tiles(report)
            &&& bins@.len() == report.calibration_bins@.len()
            &&& forall|i: int|
                0 <= i < bins@.len() ==> shows_bin(
                    #[trigger] bins@[i],
                    report.calibration_bins@[i],
                )
        },
        (MetricView::RiskCoverage, MetricContent::RiskCoverage { tiles, points }) => {
            &&& sorting::views(tiles@) == coverage_tiles(report)
            &&& points@.len() == listed_points(report.selective_risk@)
            &&& forall|i: int|
                0 <= i < points@.len() ==> shows_point(
                    #[trigger] points@[i],
                    report.selective_risk@[i],
                )
        },
        _ => false,
    }
}

fn bin_lines(bins: &Vec<CalibrationBin>) -> (lines: Vec<PairedLine>)
    ensures
        lines@.len() == bins@.len(),
        forall|i: int| 0 <= i < lines@.len() ==> shows_bin(#[trigger] lines@[i], bins@[i]),
{
    let mut lines: Vec<PairedLine> = Vec::new();
    let mut index: usize = 0;
    while index < bins.len()
        invariant
            index <= bins@.len(),
            lines@.len() == index,
            forall|i: int| 0 <= i < lines@.len() ==> shows_bin(#[trigger] lines@[i], bins@[i]),
        decreases bins@.len() - index,
    {
        let bin = &bins[index];
        let mut right = "n=".to_owned();
        append_decimal(&mut right, bin.count);
        right.append(" · predicted ");
        right.append(format_optional(&bin.mean_predicted_failure));
        right.append(" · observed ");
        right.append(format_optional(&bin.empirical_failure_rate));
        lines.push(PairedLine { left: bin.range.clone(), right });
        index += 1;
    }
    lines
}

fn risk_lines(points: &Vec<SelectiveRiskPoint>) -> (lines: Vec<PairedLine>)
    ensures
        lines@.len() == listed_points(points@),
        forall|i: int| 0 <= i < lines@.len() ==> shows_point(#[trigger] lines@[i], points@[i]),
{
    let mut lines: Vec<PairedLine> = Vec::new();
    let mut index: usize = 0;
    while index < points.len() && index < RISK_POINT_LIMIT
        invariant
            index <= listed_points(points@),
            lines@.len() == index,
            forall|i: int|
                0 <= i < lines@.len() ==> shows_point(#[trigger] lines@[i], points@[i]),
        decreases points@.len() - index,
    {
        let point = &points[index];
        let mut right = concat3("Risk ", format_optional(&point.classification_risk), " · n=");
        append_decimal(&mut right, point.decided_count);
        lines.push(
            PairedLine { left: concat3("Coverage ", point.coverage_percent.as_str(), "%"), right },
        );
        index += 1;
    }
    lines
}

fn confusion_content(report: &BinaryCalibrationReportV1) -> (content: MetricContent)
    ensures
        forall|agreement: AgreementReport|
            shows_metrics(content, MetricView::Confusion, *report, agreement),
{
    let mut counts: Vec<MetricTile> = Vec::new();
    counts.push(counted("True positive", report.confusion.true_positive));
    counts.push(counted("False positive", report.confusion.false_positive));
    counts.push(counted("True negative", report.confusion.true_negative));
    counts.push(counted("False negative", report.confusion.false_negative));
    let mut rates: Vec<MetricTile> = Vec::new();
    rates.push(
        metric(
            "Precision · 95% CI",
            format_rate_interval(&report.precision, &report.precision_interval),
        ),
    );
    rates.push(
        metric("Recall · 95% CI", format_rate_interval(&report.recall, &report.recall_interval)),
    );
    rates.push(
        metric(
            "Specificity · 95% CI",
            format_rate_interval(&report.specificity, &report.specificity_interval),
        ),
    );
    let mut scores: Vec<MetricTile> = Vec::new();
    scores.push(measured("F1", &report.f1));
    scores.push(measured("MCC", &report.matthews_correlation));
    scores.push(measured("AUPRC", &report.average_precision));
    scores.push(counted("Denominator", report.attempted_count));
    proof {
        assert(sorting::views(counts@) =~= confusion_tiles(*report));
        assert(sorting::views(rates@) =~= rate_tiles(*report));
        assert(sorting::views(scores@) =~= score_tiles(*report));
    }
    MetricContent::Confusion { positive_class: report.positive_class.clone(), counts, rates, scores }
}

fn agreement_content(agreement: &AgreementReport) -> (content: MetricContent)
    ensures
        forall|report: BinaryCalibrationReportV1|
            shows_metrics(content, MetricView::Agreement, report, *agreement),
{
    let mut tiles: Vec<MetricTile> = Vec::new();
    tiles.push(measured("Krippendorff α", &agreement.krippendorff_alpha));
    tiles.push(measured("Cohen κ", &agreement.cohen_kappa));
    tiles.push(measured("Weighted κ", &agreement.quadratic_weighted_kappa));
    tiles.push(counted("Units", agreement.item_count));
    tiles.push(counted("Disagreements", agreement.disagreement_item_count));
    assert(sorting::views(tiles@) =~= agreement_tiles(*agreement));
    MetricContent::Agreement { rater_count: decimal_text(agreement.rater_count), tiles }
}

fn calibration_content(report: &BinaryCalibrationReportV1) -> (content: MetricContent)
    ensures
        forall|agreement: AgreementReport|
            shows_metrics(content, MetricView::Calibration, *report, agreement),
{
    let mut tiles: Vec<MetricTile> = Vec::new();
    tiles.push(measured("Brier score", &report.brier_score));
    tiles.push(measured("ECE", &report.expected_calibration_error));
    tiles.push(metric("Bins", length_text(report.calibration_bins.len())));
    assert(sorting::views(tiles@) =~= calibration_tiles(*report));
    MetricContent::Calibration { tiles, bins: bin_lines(&report.calibration_bins) }
}

fn risk_content(report: &BinaryCalibrationReportV1) -> (content: MetricContent)
    ensures
        forall|agreement: AgreementReport|
            shows_metrics(content, MetricView::RiskCoverage, *report, agreement),
{
    let mut tiles: Vec<MetricTile> = Vec::new();
    tiles.push(counted("Attempted", report.attempted_count));
    tiles.push(counted("Decided", report.decided_count));
    tiles.push(counted("Abstained", report.abstained_count));
    assert(sorting::views(tiles@) =~= coverage_tiles(*report));
    MetricContent::RiskCoverage { tiles, points: risk_lines(&report.selective_risk) }
}

/// What is shown of a part.
#[derive(Debug)]
pub struct SliceRow {
    pub dimension: String,
    pub value: String,
    pub count: String,
    pub f1: String,
    pub matthews_correlation: String,
    pub brier_score: String,
}

/// What is shown of a part.
pub open spec fn shows_slice(row: SliceRow, slice: CalibrationSliceReportV1) -> bool {
    &&& row.dimension@ == slice.dimension@
    &&& row.value@ == slice.value@
    &&& row.count@ == text::decimal(slice.report.attempted_count as nat)
    &&& row.f1@ == optional_value(slice.report.f1)
    &&& row.matthews_correlation@ == optional_value(slice.report.matthews_correlation)
    &&& row.brier_score@ == optional_value(slice.report.brier_score)
}

fn slice_rows(slices: &Vec<CalibrationSliceReportV1>) -> (rows: Vec<SliceRow>)
    ensures
        rows@.len() == slices@.len(),
        forall|i: int| 0 <= i < rows@.len() ==> shows_slice(#[trigger] rows@[i], slices@[i]),
{
    let mut rows: Vec<SliceRow> = Vec::new();
    let mut index: usize = 0;
    while index < slices.len()
        invariant
            index <= slices@.len(),
            rows@.len() == index,
            forall|i: int| 0 <= i < rows@.len() ==> shows_slice(#[trigger] rows@[i], slices@[i]),
        decreases slices@.len() - index,
    {
        let slice = &slices[index];
        rows.push(
            SliceRow {
                dimension: slice.dimension.clone(),
                value: slice.value.clone(),
                count: decimal_text(slice.report.attempted_count),
                f1: format_optional(&slice.report.f1).to_owned(),
                matthews_correlation: format_optional(
                    &slice.report.matthews_correlation,
                ).to_owned(),
                brier_score: format_optional(&slice.report.brier_score).to_owned(),
            },
        );
        index += 1;
    }
    rows
}

/// How far the thresholds of a release are.
#[derive(Debug, Clone, Copy, PartialEq, Eq, Structural)]
pub enum PolicyStep {
    /// No thresholds are frozen.
    Draft,
    /// The held-out answers can be evaluated.
    Frozen,
    /// The held-out answers were evaluated.
    Evaluated,
}

/// What is shown of the thresholds.
#[derive(Debug)]
pub struct PolicyView {
    /// Whether a report is there that does not permit automation.
    pub warns: bool,
    pub freeze_enabled: bool,
    pub step: PolicyStep,
    pub activate_enabled: bool,
    pub activate_label: &'static str,
    /// Whether a click activates the policy.
    pub activates: bool,
}

/// What is shown of the thresholds.
pub open spec fn shows_policy(view: PolicyView, screen: CalibrationScreen) -> bool {
    let evaluated = screen.reports@.len() > 0;
    &&& view.warns == (evaluated && !screen.automation_ready())
    &&& view.freeze_enabled == (!screen.busy && screen.proposed_policy is None && !evaluated
        && match screen.release() {
        Some((_, release)) => agreement_suffices(release),
        None => false,
    })
    &&& view.step == (if screen.proposed_policy is None {
        PolicyStep::Draft
    } else if evaluated {
        PolicyStep::Evaluated
    } else {
        PolicyStep::Frozen
    })
    &&& view.activate_enabled == (!screen.busy && screen.automation_ready())
    &&& view.activate_label@ == (if screen.automation_ready() {
        "Step 3: activate the reviewed automation policy"@
    } else {
        "Step 3 blocked: automation safety gates have not passed"@
    })
    &&& view.activates == screen.automation_ready()
}

/// What is shown of the selected release.
#[derive(Debug)]
pub struct WorkbenchView {
    pub subtitle: String,
    pub positive_class: String,
    pub gates: Option<GateSummary>,
    pub scope: &'static str,
    pub content: MetricContent,
    pub slices: Vec<SliceRow>,
    pub policy: PolicyView,
}

/// What is shown of the selected release.
pub open spec fn shows_workbench(
    view: WorkbenchView,
    screen: CalibrationScreen,
    release_id: String,
    release: CalibrationReleaseV1,
) -> bool {
    &&& view.subtitle@ == "Release "@ + short(release_id@) + " · "@ + (if screen.reports@.len()
        > 0 {
        "HELD-OUT TEST · frozen policy"@
    } else {
        "CALIBRATION FIT · choose thresholds before test"@
    })
    &&& view.positive_class@ == "Positive class: "@ + release.fit_report.positive_class@
    &&& match (screen.automation_basis(release), view.gates) {
        (Some((fit, held_out)), Some(summary)) => shows_gates(summary, gates(fit, held_out)),
        (None, None) => true,
        _ => false,
    }
    &&& view.scope@ == screen.shown_scope()
    &&& screen.shown_report() is Some
    &&& shows_metrics(
        view.content,
        screen.metric_view,
        screen.shown_report()->0,
        release.agreement_report,
    )
    &&& view.slices@.len() == screen.shown_slices().len()
    &&& forall|i: int|
        0 <= i < view.slices@.len() ==> shows_slice(
            #[trigger] view.slices@[i],
            screen.shown_slices()[i],
        )
    &&& shows_policy(view.policy, screen)
}

impl CalibrationScreen {
    fn release_row(&self, release_id: &String, release: &CalibrationReleaseV1) -> (view:
        ReleaseRowView)
        ensures
            shows_release(view, *self, (*release_id, *release)),
    {
        let answers = length_text(release.fit_annotation_revision_ids.len());
        let raters = decimal_text(release.agreement_report.rater_count);
        let short = short_id(release_id.as_str());
        let mut label = concat4("Open calibration release ", short, "; ", answers.as_str());
        label.append(" fitted answers; ");
        label.append(raters.as_str());
        label.append(" raters");
        ReleaseRowView {
            title: concat2("Release ", short),
            label,
            summary: concat4(
                answers.as_str(),
                " fitted answers · ",
                raters.as_str(),
                " raters",
            ),
            selected: self.is_selected(release_id.as_str()),
        }
    }

    /// What is shown of the releases.
    pub fn render_release_list(&self) -> (view: ReleaseListView)
        ensures
            view.summary@ == text::decimal(self.releases@.len()) + " releases"@,
            view.rows@.len() == self.releases@.len(),
            forall|i: int|
                0 <= i < view.rows@.len() ==> shows_release(
                    #[trigger] view.rows@[i],
                    *self,
                    self.releases@[i],
                ),
    {
        let mut rows: Vec<ReleaseRowView> = Vec::new();
        let mut index: usize = 0;
        while index < self.releases.len()
            invariant
                index <= self.releases@.len(),
                rows@.len() == index,
                forall|i: int|
                    0 <= i < rows@.len() ==> shows_release(
                        #[trigger] rows@[i],
                        *self,
                        self.releases@[i],
                    ),
            decreases self.releases@.len() - index,
        {
            rows.push(self.release_row(&self.releases[index].0, &self.releases[index].1));
            index += 1;
        }
        ReleaseListView {
            summary: concat2(length_text(self.releases.len()).as_str(), " releases"),
            rows,
        }
    }

    /// What is shown of the requirements of automation.
    pub fn render_automation_gate_summary(&self, release: &CalibrationReleaseV1) -> (view: Option<
        GateSummary,
    >)
        ensures
            match (self.automation_basis(*release), view) {
                (Some((fit, held_out)), Some(summary)) => shows_gates(
                    summary,
                    gates(fit, held_out),
                ),
                (None, None) => true,
                _ => false,
            },
    {
        match self.automation_gate_items(release) {
            Some(items) => Some(gate_summary(&items)),
            None => None,
        }
    }

    /// What is shown of the parts.
    pub fn render_slice_performance(&self) -> (rows: Vec<SliceRow>)
        ensures
            rows@.len() == self.shown_slices().len(),
            forall|i: int|
                0 <= i < rows@.len() ==> shows_slice(
                    #[trigger] rows@[i],
                    self.shown_slices()[i],
                ),
    {
        match self.displayed_slice_reports() {
            Some(slices) => slice_rows(slices),
            None => Vec::new(),
        }
    }

    /// What is shown of the thresholds.
    pub fn render_threshold_policy(&self) -> (view: PolicyView)
        ensures
            shows_policy(view, *self),
    {
        let ready = self.is_automation_ready();
        let evaluated = self.reports.len() > 0;
        let frozen = self.proposed_policy.is_some();
        let agreed = match self.selected_release() {
            Some(found) => agreement_is_sufficient(&found.1),
            None => false,
        };
        PolicyView {
            warns: evaluated && !ready,
            freeze_enabled: !self.busy && !frozen && !evaluated && agreed,
            step: if !frozen {
                PolicyStep::Draft
            } else if evaluated {
                PolicyStep::Evaluated
            } else {
                PolicyStep::Frozen
            },
            activate_enabled: !self.busy && ready,
            activate_label: if ready {
                "Step 3: activate the reviewed automation policy"
            } else {
                "Step 3 blocked: automation safety gates have not passed"
            },
            activates: ready,
        }
    }

    /// What is shown of the selected release, if there is one.
    pub fn render_metrics(&self) -> (view: Option<WorkbenchView>)
        ensures
            match (self.release(), view) {
                (Some((release_id, release)), Some(view)) => shows_workbench(
                    view,
                    *self,
                    release_id,
                    release,
                ),
                (None, None) => true,
                _ => false,
            },
    {
        let found = match self.selected_release() {
            Some(found) => found,
            None => {
                return None;
            },
        };
        let report = match self.displayed_report() {
            Some(report) => report,
            None => {
                return None;
            },
        };
        let release = &found.1;
        let content = match self.metric_view {
            MetricView::Confusion => confusion_content(report),
            MetricView::Agreement => agreement_content(&release.agreement_report),
            MetricView::Calibration => calibration_content(report),
            MetricView::RiskCoverage => risk_content(report),
        };
        assert(shows_metrics(content, self.metric_view, *report, release.agreement_report));
        Some(
            WorkbenchView {
                subtitle: concat4(
                    "Release ",
                    short_id(found.0.as_str()),
                    " · ",
                    if self.reports.len() > 0 {
                        "HELD-OUT TEST · frozen policy"
                    } else {
                        "CALIBRATION FIT · choose thresholds before test"
                    },
                ),
                positive_class: concat2(
                    "Positive class: ",
                    release.fit_report.positive_class.as_str(),
                ),
                gates: self.render_automation_gate_summary(release),
                scope: self.displayed_report_scope(),
                content,
                slices: self.render_slice_performance(),
                policy: self.render_threshold_policy(),
            },
        )
    }
}

/// Held-out answers are opened once: what asks for them is refused as soon as
/// there is a report, and thresholds can no longer be frozen then either.
pub proof fn held_out_answers_are_opened_once(screen: CalibrationScreen, numbers: bool, view: PolicyView)
    requires
        screen.reports@.len() > 0,
        shows_policy(view, screen),
    ensures
        screen.policy_refusal(numbers) is Some,
        !view.freeze_enabled,
        view.step != PolicyStep::Frozen,
{
}

/// The class of an answer is the human label, whatever the judge said: two
/// pairs of reports with as many human failures and as many human
/// non-failures in each have the same counts of both classes.
pub proof fn classes_are_those_of_the_human_labels(
    fit: BinaryCalibrationReportV1,
    held_out: BinaryCalibrationReportV1,
    other_fit: BinaryCalibrationReportV1,
    other_held_out: BinaryCalibrationReportV1,
)
    requires
        fit.confusion.true_positive + fit.confusion.false_negative
            == other_fit.confusion.true_positive + other_fit.confusion.false_negative,
        fit.confusion.true_negative + fit.confusion.false_positive
            == other_fit.confusion.true_negative + other_fit.confusion.false_positive,
        held_out.confusion.true_positive + held_out.confusion.false_negative
            == other_held_out.confusion.true_positive + other_held_out.confusion.false_negative,
        held_out.confusion.true_negative + held_out.confusion.false_positive
            == other_held_out.confusion.true_negative + other_held_out.confusion.false_positive,
    ensures
        positive_count(fit, held_out) == positive_count(other_fit, other_held_out),
        negative_count(fit, held_out) == negative_count(other_fit, other_held_out),
{
}

/// A further answer is counted in its own class and in no other: one that a
/// human calls a failure raises the failures by one, whether the judge saw it
/// or missed it, and one that a human calls no failure raises the others.
pub proof fn each_answer_counts_in_its_class(
    fit: BinaryCalibrationReportV1,
    held_out: BinaryCalibrationReportV1,
    longer: BinaryCalibrationReportV1,
)
    requires
        positive_count(fit, held_out) < u64::MAX,
        negative_count(fit, held_out) < u64::MAX,
    ensures
        longer.confusion.true_positive == fit.confusion.true_positive
            && longer.confusion.true_negative == fit.confusion.true_negative
            && longer.confusion.false_positive == fit.confusion.false_positive
            && longer.confusion.false_negative == fit.confusion.false_negative + 1 ==> {
            &&& positive_count(longer, held_out) == positive_count(fit, held_out) + 1
            &&& negative_count(longer, held_out) == negative_count(fit, held_out)
            &&& positive_count(held_out, longer) == positive_count(held_out, fit) + 1
            &&& negative_count(held_out, longer) == negative_count(held_out, fit)
        },
        longer.confusion.true_positive == fit.confusion.true_positive + 1
            && longer.confusion.true_negative == fit.confusion.true_negative
            && longer.confusion.false_positive == fit.confusion.false_positive
            && longer.confusion.false_negative == fit.confusion.false_negative ==> {
            &&& positive_count(longer, held_out) == positive_count(fit, held_out) + 1
            &&& negative_count(longer, held_out) == negative_count(fit, held_out)
            &&& positive_count(held_out, longer) == positive_count(held_out, fit) + 1
            &&& negative_count(held_out, longer) == negative_count(held_out, fit)
        },
        longer.confusion.true_positive == fit.confusion.true_positive
            && longer.confusion.true_negative == fit.confusion.true_negative
            && longer.confusion.false_positive == fit.confusion.false_positive + 1
            && longer.confusion.false_negative == fit.confusion.false_negative ==> {
            &&& positive_count(longer, held_out) == positive_count(fit, held_out)
            &&& negative_count(longer, held_out) == negative_count(fit, held_out) + 1
            &&& positive_count(held_out, longer) == positive_count(held_out, fit)
            &&& negative_count(held_out, longer) == negative_count(held_out, fit) + 1
        },
        longer.confusion.true_positive == fit.confusion.true_positive
            && longer.confusion.true_negative == fit.confusion.true_negative + 1
            && longer.confusion.false_positive == fit.confusion.false_positive
            && longer.confusion.false_negative == fit.confusion.false_negative ==> {
            &&& positive_count(longer, held_out) == positive_count(fit, held_out)
            &&& negative_count(longer, held_out) == negative_count(fit, held_out) + 1
            &&& positive_count(held_out, longer) == positive_count(held_out, fit)
            &&& negative_count(held_out, longer) == negative_count(held_out, fit) + 1
        },
{
}

/// The population suffices exactly where five hundred answers were drawn at
/// random, of which humans called a hundred failures and a hundred not.
pub proof fn populations_need_both_classes(
    fit: BinaryCalibrationReportV1,
    held_out: BinaryCalibrationReportV1,
)
    ensures
        population_suffices(fit, held_out) <==> {
            &&& fit.attempted_count + held_out.attempted_count >= 500
            &&& fit.confusion.true_positive + fit.confusion.false_negative
                + held_out.confusion.true_positive + held_out.confusion.false_negative >= 100
            &&& fit.confusion.true_negative + fit.confusion.false_positive
                + held_out.confusion.true_negative + held_out.confusion.false_positive >= 100
        },
        gates(fit, held_out)[0].passed <==> fit.attempted_count + held_out.attempted_count >= 500,
        gates(fit, held_out)[1].passed <==> {
            &&& fit.confusion.true_positive + fit.confusion.false_negative
                + held_out.confusion.true_positive + held_out.confusion.false_negative >= 100
            &&& fit.confusion.true_negative + fit.confusion.false_positive
                + held_out.confusion.true_negative + held_out.confusion.false_positive >= 100
        },
{
}

/// What the requirements on the population say: how many answers were drawn,
/// and how many of them humans called failures and how many not.
pub proof fn population_gates_show_the_counts(
    fit: BinaryCalibrationReportV1,
    held_out: BinaryCalibrationReportV1,
    labels: nat,
    failures: nat,
    others: nat,
)
    requires
        labels == fit.attempted_count + held_out.attempted_count,
        failures == fit.confusion.true_positive + fit.confusion.false_negative
            + held_out.confusion.true_positive + held_out.confusion.false_negative,
        others == fit.confusion.true_negative + fit.confusion.false_positive
            + held_out.confusion.true_negative + held_out.confusion.false_positive,
        labels <= u64::MAX,
        failures <= u64::MAX,
        others <= u64::MAX,
    ensures
        gates(fit, held_out)[0].label == "Unbiased random labels"@,
        gates(fit, held_out)[0].current == text::decimal(labels) + " / 500"@,
        gates(fit, held_out)[1].label == "Each important class"@,
        gates(fit, held_out)[1].current == text::decimal(failures) + "/100 failure · "@
            + text::decimal(others) + "/100 non-failure"@,
{
}

/// The release that is looked at, where there is one.
pub open spec fn chosen_release(screen: CalibrationScreen) -> CalibrationReleaseV1 {
    match screen.release() {
        Some((_, release)) => release,
        None => arbitrary(),
    }
}

/// Of two values that are numbers the higher one passes every bound that the
/// lower one passes, and stays within no bound that the lower one exceeds. A
/// negative number is below a positive one, and what is no number passes none.
pub proof fn measures_are_ordered_as_numbers(low: Measure, high: Measure, bound: u64)
    ensures
        low.bits < high.bits < 0x8000_0000_0000_0000 && high.is_number() ==> {
            &&& low.reaches(bound) ==> high.reaches(bound)
            &&& low.exceeds(bound) ==> high.exceeds(bound)
            &&& high.stays_within(bound) ==> low.stays_within(bound)
            &&& high.exceeds(low.bits) && !low.reaches(high.bits)
        },
        0x8000_0000_0000_0000 <= high.bits < low.bits && low.is_number() ==> {
            &&& low.reaches(bound) ==> high.reaches(bound)
            &&& low.exceeds(bound) ==> high.exceeds(bound)
            &&& high.stays_within(bound) ==> low.stays_within(bound)
            &&& high.exceeds(low.bits) && !low.reaches(high.bits)
        },
        low.bits > 0x8000_0000_0000_0000 && 0 < high.bits < 0x8000_0000_0000_0000
            && high.is_number() ==> high.exceeds(low.bits) && !low.reaches(high.bits),
        low.is_number() ==> low.reaches(low.bits) && low.stays_within(low.bits) && !low.exceeds(
            low.bits,
        ),
        0x7ff0_0000_0000_0000 < low.bits < 0x8000_0000_0000_0000 || low.bits
            > 0xfff0_0000_0000_0000 ==> !low.reaches(bound) && !low.exceeds(bound)
            && !low.stays_within(bound),
{
}

/// Whether a binary64 notation of a number from a half up to one, from a
/// quarter up to a half, and so on, `halvings` times, is the nearest one to a
/// fraction.
pub open spec fn notates(bits: u64, halvings: nat, numerator: int, denominator: int) -> bool {
    let significand = bits - (0x3fe0_0000_0000_0000 - 0x10_0000_0000_0000 * halvings)
        + 0x10_0000_0000_0000;
    let unit = 0x20_0000_0000_0000 * vstd::arithmetic::power2::pow2(halvings);
    &&& 0x10_0000_0000_0000 <= significand < 0x20_0000_0000_0000
    &&& 2 * (significand * denominator - numerator * unit) <= denominator
    &&& 2 * (numerator * unit - significand * denominator) <= denominator
}

/// The bounds are those that the requirements state.
pub proof fn bounds_are_the_stated_ones()
    ensures
        notates(REQUIRED_ALPHA, 0, 67, 100),
        notates(REQUIRED_AVERAGE_PRECISION, 0, 65, 100),
        notates(REQUIRED_RATE, 0, 60, 100),
        notates(F1_BASELINE, 2, 206, 1000),
        notates(FIFTH, 2, 20, 100),
        notates(CALIBRATION_ERROR_BOUND, 3, 8, 100),
        notates(GROUPED_BASELINE, 4, 53, 1000),
        REQUIRED_LABELS == 500,
        REQUIRED_CLASS_LABELS == 100,
        RISK_POINT_LIMIT == 20,
        THRESHOLD_BYTES == 16,
{
    vstd::arithmetic::power2::lemma2_to64();
}

/// A judge is good enough exactly where its average precision reaches 0.65,
/// its macro F1, precision and recall reach 0.60, its F1 exceeds 0.206 and its
/// correlation 0.20, its Brier score is at most 0.20 and its calibration error
/// at most 0.08; to act on its own, it also decides nine of ten attempts and
/// its macro F1 over groups exceeds 0.053. A measure that is missing fails.
pub proof fn quality_is_every_measure(report: BinaryCalibrationReportV1)
    ensures
        metrics_suffice(report) <==> {
            &&& report.average_precision is Some && report.average_precision->0.reaches(
                0x3fe4_cccc_cccc_cccd,
            )
            &&& report.macro_f1 is Some && report.macro_f1->0.reaches(0x3fe3_3333_3333_3333)
            &&& report.precision is Some && report.precision->0.reaches(0x3fe3_3333_3333_3333)
            &&& report.recall is Some && report.recall->0.reaches(0x3fe3_3333_3333_3333)
            &&& report.f1 is Some && report.f1->0.exceeds(0x3fca_5e35_3f7c_ed91)
            &&& report.matthews_correlation is Some && report.matthews_correlation->0.exceeds(
                0x3fc9_9999_9999_999a,
            )
            &&& report.brier_score is Some && report.brier_score->0.stays_within(
                0x3fc9_9999_9999_999a,
            )
            &&& report.expected_calibration_error is Some
                && report.expected_calibration_error->0.stays_within(0x3fb4_7ae1_47ae_147b)
        },
        quality_suffices(report) ==> metrics_suffice(report) && report.macro_f1_lower_95 is Some
            && report.macro_f1_lower_95->0.exceeds(0x3fab_22d0_e560_4189),
        metrics_suffice(report) && coverage_suffices(report) && report.macro_f1_lower_95 is Some
            && report.macro_f1_lower_95->0.exceeds(0x3fab_22d0_e560_4189) ==> quality_suffices(
            report,
        ),
{
}

/// Coverage suffices exactly where nine of ten attempts were decided, and
/// nothing attempted is nothing covered.
pub proof fn nine_tenths_must_be_decided(report: BinaryCalibrationReportV1)
    requires
        report.decided_count <= report.attempted_count <= 0x100_0000_0000,
    ensures
        coverage_suffices(report) <==> report.attempted_count > 0 && 10 * report.decided_count >= 9
            * report.attempted_count,
        quality_suffices(report) ==> report.attempted_count > 0 && 10 * report.decided_count >= 9
            * report.attempted_count,
{
    let (d, a) = (report.decided_count as nat, report.attempted_count as nat);
    if a > 0 && d > 0 {
        binary64::shares_are_compared_exactly(d, a, 9, 10);
    } else {
        binary64::shares_are_close(9, 10);
        let required = required_coverage();
        let coverage = decision_coverage(report);
        assert(coverage.significand == 0);
        let e = binary64::lower_exponent(coverage, required);
        let unit = vstd::arithmetic::power2::pow2((required.exponent - e) as nat);
        vstd::arithmetic::power2::lemma_pow2_pos((required.exponent - e) as nat);
        assert(required.significand * unit > 0) by (nonlinear_arith)
            requires
                required.significand > 0,
                unit > 0,
        ;
        let other = vstd::arithmetic::power2::pow2((coverage.exponent - e) as nat);
        assert(0 * other == 0) by (nonlinear_arith);
    }
}

/// The coverage is shown in percent with one decimal place: the share of the
/// attempts that was decided, rounded to the nearest tenth.
pub proof fn coverage_is_shown_to_a_tenth(report: BinaryCalibrationReportV1)
    requires
        0 < report.decided_count <= report.attempted_count <= 0x10_0000_0000,
    ensures
        exists|tenths: nat|
            {
                &&& coverage_percent(report) == text::decimal(tenths / 10) + "."@ + text::decimal(
                    tenths % 10,
                )
                &&& #[trigger] (tenths * report.attempted_count) * 2 - 2000 * report.decided_count
                    <= report.attempted_count + 1
                &&& 2000 * report.decided_count - 2 * (tenths * report.attempted_count)
                    <= report.attempted_count + 1
            },
{
    let (d, a) = (report.decided_count as nat, report.attempted_count as nat);
    binary64::shares_are_close(d, a);
    let share = decision_coverage(report);
    let percent = binary64::multiple(share, 100);
    binary64::hundredfolds_are_close(share);
    binary64::parts_are_close(percent, 10);
    let tenths = binary64::to_parts(percent, 10);
    let w = binary64::one() as int;
    vstd::arithmetic::power2::lemma_pow2_pos(0x2000);
    let (s, m, t) = (
        binary64::measure(share) as int,
        binary64::measure(percent) as int,
        tenths as int,
    );
    let (sa, dw, ta) = (s * a, d * w, t * a);
    let (ma, aw, taw) = (m * a, a * w, t * w * a);
    assert(taw == ta * w) by (nonlinear_arith)
        requires
            taw == t * w * a,
            ta == t * a,
    ;
    assert(2 * (taw - 10 * ma) <= aw && 2 * (10 * ma - taw) <= aw) by (nonlinear_arith)
        requires
            2 * (t * w - 10 * m) <= w,
            2 * (10 * m - t * w) <= w,
            ma == m * a,
            aw == a * w,
            taw == t * w * a,
            a >= 0,
    {
        assert((2 * (t * w - 10 * m)) * a <= w * a);
        assert((2 * (10 * m - t * w)) * a <= w * a);
    }
    let big = 0x20_0000_0000_0000int;
    assert(big * (ma - 100 * sa) <= 100 * sa && big * (100 * sa - ma) <= 100 * sa)
        by (nonlinear_arith)
        requires
            big * (m - 100 * s) <= 100 * s,
            big * (100 * s - m) <= 100 * s,
            ma == m * a,
            sa == s * a,
            a >= 0,
    {
        assert((big * (m - 100 * s)) * a <= (100 * s) * a);
        assert((big * (100 * s - m)) * a <= (100 * s) * a);
    }
    assert(dw <= 0x10_0000_0000 * w && dw >= 0) by (nonlinear_arith)
        requires
            dw == d * w,
            d <= 0x10_0000_0000,
            d >= 0,
            w > 0,
    ;
    assert(2 * (taw - 1000 * dw) <= aw + w && 2 * (1000 * dw - taw) <= aw + w);
    assert(2 * ta - 2000 * d <= a + 1 && 2000 * d - 2 * ta <= a + 1) by (nonlinear_arith)
        requires
            2 * (taw - 1000 * dw) <= aw + w,
            2 * (1000 * dw - taw) <= aw + w,
            taw == ta * w,
            dw == d * w,
            aw == a * w,
            w > 0,
    {
        assert((2 * ta - 2000 * d) * w <= (a + 1) * w);
        assert((2000 * d - 2 * ta) * w <= (a + 1) * w);
    }
    assert((tenths * report.attempted_count) * 2 - 2000 * report.decided_count
        <= report.attempted_count + 1);
}

/// The agreement suffices for thresholds only where it is known, finite and at
/// least 0.67.
pub proof fn thresholds_need_agreement(release: CalibrationReleaseV1)
    ensures
        agreement_suffices(release) <==> {
            let alpha = release.agreement_report.krippendorff_alpha;
            &&& alpha is Some
            &&& alpha->0.reaches(0x3fe5_70a3_d70a_3d71)
            &&& alpha->0.bits != 0x7ff0_0000_0000_0000
        },
        release.agreement_report.krippendorff_alpha is None ==> !agreement_suffices(release),
{
}

/// The report on the random audit is that of the first slice of the selection
/// stream whose value says so; without such a slice there is none.
pub proof fn random_audits_are_the_audited_slice(slices: Seq<CalibrationSliceReportV1>)
    ensures
        random_audit(slices) is Some ==> exists|i: int|
            {
                &&& 0 <= i < slices.len()
                &&& (#[trigger] slices[i]).dimension@ == "selection stream"@
                &&& slices[i].value@ == "random audit"@
                &&& random_audit(slices) == Some(slices[i].report)
                &&& forall|j: int|
                    0 <= j < i ==> (#[trigger] slices[j]).dimension@ != "selection stream"@
                        || slices[j].value@ != "random audit"@
            },
        random_audit(slices) is None ==> forall|i: int|
            0 <= i < slices.len() ==> (#[trigger] slices[i]).dimension@ != "selection stream"@
                || slices[i].value@ != "random audit"@,
    decreases slices.len(),
{
    if slices.len() > 0 && !is_random_audit(slices[0]) {
        let rest = slices.drop_first();
        random_audits_are_the_audited_slice(rest);
        if random_audit(slices) is Some {
            let i = choose|i: int|
                {
                    &&& 0 <= i < rest.len()
                    &&& (#[trigger] rest[i]).dimension@ == "selection stream"@
                    &&& rest[i].value@ == "random audit"@
                    &&& random_audit(rest) == Some(rest[i].report)
                    &&& forall|j: int|
                        0 <= j < i ==> (#[trigger] rest[j]).dimension@ != "selection stream"@
                            || rest[j].value@ != "random audit"@
                };
            assert(slices[i + 1] == rest[i]);
            assert forall|j: int| 0 <= j < i + 1 implies (#[trigger] slices[j]).dimension@
                != "selection stream"@ || slices[j].value@ != "random audit"@ by {
                if j > 0 {
                    assert(rest[j - 1] == slices[j]);
                }
            }
        } else {
            assert forall|i: int| 0 <= i < slices.len() implies (#[trigger] slices[i]).dimension@
                != "selection stream"@ || slices[i].value@ != "random audit"@ by {
                if i > 0 {
                    assert(rest[i - 1] == slices[i]);
                }
            }
        }
    }
}

/// A judge is ready to be automated only once held-out answers were reported,
/// on the random audits of both: that of the fit and the held-out one, whose
/// quality alone counts.
pub proof fn readiness_rests_on_both_audits(screen: CalibrationScreen)
    requires
        screen.automation_ready(),
    ensures
        screen.reports@.len() > 0,
        screen.selected_release_id is Some,
        exists|place: int|
            {
                &&& 0 <= place < screen.releases@.len()
                &&& (#[trigger] screen.releases@[place]).0@ == screen.selected_release_id->0@
                &&& random_audit(screen.releases@[place].1.fit_slice_reports@) is Some
                &&& random_audit(screen.reports@[0].slice_reports@) is Some
                &&& population_suffices(
                    random_audit(screen.releases@[place].1.fit_slice_reports@)->0,
                    random_audit(screen.reports@[0].slice_reports@)->0,
                )
                &&& quality_suffices(random_audit(screen.reports@[0].slice_reports@)->0)
            },
{
    releases_are_found_by_identity(screen.releases@, screen.selected_release_id->0@);
}

/// A release is found at the first place that has its identity, and nowhere
/// where no release has it.
pub proof fn releases_are_found_by_identity(
    releases: Seq<(String, CalibrationReleaseV1)>,
    release_id: Seq<char>,
)
    ensures
        match place_of_release(releases, release_id) {
            Some(place) => {
                &&& 0 <= place < releases.len()
                &&& releases[place].0@ == release_id
                &&& forall|i: int| 0 <= i < place ==> (#[trigger] releases[i]).0@ != release_id
            },
            None => forall|i: int|
                0 <= i < releases.len() ==> (#[trigger] releases[i]).0@ != release_id,
        },
    decreases releases.len(),
{
    if releases.len() > 0 && releases[0].0@ != release_id {
        let rest = releases.drop_first();
        releases_are_found_by_identity(rest, release_id);
        match place_of_release(rest, release_id) {
            Some(place) => {
                assert(releases[place + 1] == rest[place]);
                assert forall|i: int| 0 <= i < place + 1 implies (#[trigger] releases[i]).0@
                    != release_id by {
                    if i > 0 {
                        assert(rest[i - 1] == releases[i]);
                    }
                }
            },
            None => {
                assert forall|i: int| 0 <= i < releases.len() implies (#[trigger] releases[i]).0@
                    != release_id by {
                    if i > 0 {
                        assert(rest[i - 1] == releases[i]);
                    }
                }
            },
        }
    }
}

/// Without held-out reports nothing can be activated, and what blocks or
/// permits a step is what the policy shows: thresholds are frozen only while
/// nothing is at work, none are frozen, nothing is unsealed and raters agree;
/// a policy is activated only where the judge is ready.
pub proof fn policies_follow_their_steps(view: PolicyView, screen: CalibrationScreen)
    requires
        shows_policy(view, screen),
    ensures
        view.activate_enabled ==> !screen.busy && screen.automation_ready() && screen.reports@.len()
            > 0,
        !screen.busy && screen.automation_ready() ==> view.activate_enabled,
        view.freeze_enabled ==> !screen.busy && screen.proposed_policy is None
            && screen.reports@.len() == 0 && screen.release() is Some && agreement_suffices(
            chosen_release(screen),
        ),
        !screen.busy && screen.proposed_policy is None && screen.reports@.len() == 0
            && screen.release() is Some && agreement_suffices(chosen_release(screen))
            ==> view.freeze_enabled,
        view.step == PolicyStep::Draft <==> screen.proposed_policy is None,
        view.step == PolicyStep::Frozen <==> screen.proposed_policy is Some && screen.reports@.len()
            == 0,
        view.step == PolicyStep::Evaluated <==> screen.proposed_policy is Some
            && screen.reports@.len() > 0,
        view.warns <==> screen.reports@.len() > 0 && !screen.automation_ready(),
        view.activates == screen.automation_ready(),
        screen.automation_ready() ==> view.activate_label@
            == "Step 3: activate the reviewed automation policy"@,
        !screen.automation_ready() ==> view.activate_label@
            == "Step 3 blocked: automation safety gates have not passed"@,
{
}

/// Why thresholds cannot be frozen: held-out labels are unsealed, thresholds
/// are frozen, raters disagree, or a threshold is no probability; the first of
/// these is said.
pub proof fn refused_thresholds_have_a_reason(screen: CalibrationScreen, numbers: bool)
    ensures
        screen.reports@.len() > 0 ==> screen.policy_refusal(numbers) == Some(
            "Held-out labels are already unsealed. Create a new calibration release instead of retuning this policy."@,
        ),
        screen.reports@.len() == 0 && screen.proposed_policy is Some ==> screen.policy_refusal(
            numbers,
        ) == Some("This calibration release already has a frozen threshold policy."@),
        screen.reports@.len() == 0 && screen.proposed_policy is None && screen.release() is Some
            && !agreement_suffices(chosen_release(screen)) ==> screen.policy_refusal(numbers)
            == Some("Threshold publication requires Krippendorff alpha of at least 0.67."@),
        screen.reports@.len() == 0 && screen.proposed_policy is None && screen.release() is Some
            && agreement_suffices(chosen_release(screen)) && screen.project_id is Some && !numbers
            ==> screen.policy_refusal(numbers) == Some(
            "Thresholds must be probabilities between 0 and 1."@,
        ),
        screen.reports@.len() == 0 && screen.proposed_policy is None && screen.release() is Some
            && agreement_suffices(chosen_release(screen)) && numbers ==> screen.policy_refusal(
            numbers,
        ) is None,
{
}

/// What is measured is shown: the held-out random audit once there is one, the
/// whole held-out report without one, and the fit before anything is unsealed.
pub proof fn shown_metrics_are_the_latest(screen: CalibrationScreen)
    ensures
        screen.reports@.len() > 0 && random_audit(screen.reports@[0].slice_reports@) is Some ==> {
            &&& screen.shown_report() == random_audit(screen.reports@[0].slice_reports@)
            &&& screen.shown_scope()
                == "Metrics scope: held-out random-audit slice · used by automation safety gates"@
            &&& screen.shown_slices() == screen.reports@[0].slice_reports@
        },
        screen.reports@.len() > 0 && random_audit(screen.reports@[0].slice_reports@) is None ==> {
            &&& screen.shown_report() == Some(screen.reports@[0].report)
            &&& screen.shown_scope()
                == "Metrics scope: complete held-out report · no random-audit slice available"@
            &&& screen.shown_slices() == screen.reports@[0].slice_reports@
        },
        screen.reports@.len() == 0 && screen.release() is Some ==> {
            &&& screen.shown_report() == Some(chosen_release(screen).fit_report)
            &&& screen.shown_scope() == "Metrics scope: calibration fit"@
            &&& screen.shown_slices() == chosen_release(screen).fit_slice_reports@
        },
        screen.reports@.len() == 0 && screen.release() is None ==> screen.shown_report() is None
            && screen.shown_slices().len() == 0,
{
}

/// What a gate shows: whether it passes, in words and in colour; and the judge
/// is ready exactly where every gate passes.
pub proof fn gates_show_whether_they_pass(view: GateSummary, list: Seq<Gate>)
    requires
        shows_gates(view, list),
    ensures
        view.ready <==> forall|i: int| 0 <= i < list.len() ==> (#[trigger] list[i]).passed,
        view.ready ==> view.heading@ == "Automation ready"@ && view.tint == Theme::GREEN
            && view.surface == Theme::SUCCESS_SURFACE,
        !view.ready ==> view.heading@ == "Automation blocked"@ && view.tint == Theme::AMBER
            && view.surface == Theme::WARNING_SURFACE,
        forall|i: int|
            0 <= i < list.len() ==> {
                let row = #[trigger] view.rows@[i];
                &&& row.current@ == list[i].current
                &&& list[i].passed ==> row.heading@ == "PASS"@ + " · "@ + list[i].label && row.tint
                    == Theme::GREEN
                &&& !list[i].passed ==> row.heading@ == "BLOCKED"@ + " · "@ + list[i].label
                    && row.tint == Theme::AMBER
            },
{
    lemma_all_pass(list);
    assert forall|i: int| 0 <= i < list.len() implies {
        let row = #[trigger] view.rows@[i];
        &&& row.current@ == list[i].current
        &&& list[i].passed ==> row.heading@ == "PASS"@ + " · "@ + list[i].label && row.tint
            == Theme::GREEN
        &&& !list[i].passed ==> row.heading@ == "BLOCKED"@ + " · "@ + list[i].label && row.tint
            == Theme::AMBER
    } by {
        assert(shows_gate(view.rows@[i], list[i]));
    }
}

/// The gates on the held-out audit are named after what they ask for, show
/// where the held-out report stands, and pass where it meets them.
pub proof fn quality_gates_look_at_the_held_out_audit(
    fit: BinaryCalibrationReportV1,
    held_out: BinaryCalibrationReportV1,
)
    ensures
        gates(fit, held_out).len() == 5,
        gates(fit, held_out)[2].label == "Held-out coverage"@,
        gates(fit, held_out)[2].current == coverage_percent(held_out) + "% / 90%"@,
        gates(fit, held_out)[2].passed == coverage_suffices(held_out),
        gates(fit, held_out)[3].label == "Grouped confidence"@,
        gates(fit, held_out)[3].passed <==> held_out.macro_f1_lower_95 is Some
            && held_out.macro_f1_lower_95->0.exceeds(0x3fab_22d0_e560_4189),
        held_out.macro_f1_lower_95 is Some ==> gates(fit, held_out)[3].current
            == held_out.macro_f1_lower_95->0.shown@ + " / >0.053"@,
        gates(fit, held_out)[4].label == "Quality and calibration"@,
        gates(fit, held_out)[4].passed == metrics_suffice(held_out),
        held_out.macro_f1 is Some && held_out.matthews_correlation is Some
            && held_out.average_precision is Some && held_out.brier_score is Some
            && held_out.expected_calibration_error is Some ==> gates(fit, held_out)[4].current
            == "macro F1 "@ + held_out.macro_f1->0.shown@ + " · MCC "@
            + held_out.matthews_correlation->0.shown@ + " · AP "@
            + held_out.average_precision->0.shown@ + " · Brier "@ + held_out.brier_score->0.shown@
            + " · ECE "@ + held_out.expected_calibration_error->0.shown@,
{
}

/// Each count and rate of a report stands under its own name.
pub proof fn tiles_show_their_own_figures(report: BinaryCalibrationReportV1, agreement: AgreementReport)
    ensures
        confusion_tiles(report) == seq![
            TileContent {
                label: "True positive"@,
                value: text::decimal(report.confusion.true_positive as nat),
            },
            TileContent {
                label: "False positive"@,
                value: text::decimal(report.confusion.false_positive as nat),
            },
            TileContent {
                label: "True negative"@,
                value: text::decimal(report.confusion.true_negative as nat),
            },
            TileContent {
                label: "False negative"@,
                value: text::decimal(report.confusion.false_negative as nat),
            },
        ],
        rate_tiles(report)[0].label == "Precision · 95% CI"@,
        rate_tiles(report)[0].value == rate_text(report.precision, report.precision_interval),
        rate_tiles(report)[1].label == "Recall · 95% CI"@,
        rate_tiles(report)[1].value == rate_text(report.recall, report.recall_interval),
        rate_tiles(report)[2].label == "Specificity · 95% CI"@,
        rate_tiles(report)[2].value == rate_text(report.specificity, report.specificity_interval),
        rate_tiles(report).len() == 3,
        score_tiles(report).len() == 4,
        score_tiles(report)[0] == (TileContent { label: "F1"@, value: optional_value(report.f1) }),
        score_tiles(report)[1] == (TileContent {
            label: "MCC"@,
            value: optional_value(report.matthews_correlation),
        }),
        score_tiles(report)[2] == (TileContent {
            label: "AUPRC"@,
            value: optional_value(report.average_precision),
        }),
        score_tiles(report)[3] == (TileContent {
            label: "Denominator"@,
            value: text::decimal(report.attempted_count as nat),
        }),
        agreement_tiles(agreement) == seq![
            TileContent {
                label: "Krippendorff α"@,
                value: optional_value(agreement.krippendorff_alpha),
            },
            TileContent { label: "Cohen κ"@, value: optional_value(agreement.cohen_kappa) },
            TileContent {
                label: "Weighted κ"@,
                value: optional_value(agreement.quadratic_weighted_kappa),
            },
            TileContent { label: "Units"@, value: text::decimal(agreement.item_count as nat) },
            TileContent {
                label: "Disagreements"@,
                value: text::decimal(agreement.disagreement_item_count as nat),
            },
        ],
        calibration_tiles(report) == seq![
            TileContent { label: "Brier score"@, value: optional_value(report.brier_score) },
            TileContent { label: "ECE"@, value: optional_value(report.expected_calibration_error) },
            TileContent { label: "Bins"@, value: text::decimal(report.calibration_bins@.len()) },
        ],
        coverage_tiles(report) == seq![
            TileContent { label: "Attempted"@, value: text::decimal(report.attempted_count as nat) },
            TileContent { label: "Decided"@, value: text::decimal(report.decided_count as nat) },
            TileContent { label: "Abstained"@, value: text::decimal(report.abstained_count as nat) },
        ],
{
    assert(confusion_tiles(report)[0].label == "True positive"@);
}

/// A measure is shown as it was measured; a missing one is not available. A
/// rate needs its interval too, and shows it from the lower to the upper bound
/// with the successes among the trials.
pub proof fn missing_measures_are_not_available(
    value: Option<Measure>,
    interval: Option<RateInterval>,
)
    ensures
        value is None ==> optional_value(value) == "not available"@,
        value is Some ==> optional_value(value) == value->0.shown@,
        value is None || interval is None ==> rate_text(value, interval) == "not available"@,
        value is Some && interval is Some ==> rate_text(value, interval) == value->0.shown@ + " · "@
            + interval->0.lower_95.shown@ + "–"@ + interval->0.upper_95.shown@ + " · "@
            + text::decimal(interval->0.successes as nat) + "/"@ + text::decimal(
            interval->0.trials as nat,
        ),
{
}

/// A release asks for the releases of its own project, or shows none without a
/// project.
pub proof fn releases_are_those_of_the_project(
    before: CalibrationScreen,
    after: CalibrationScreen,
    request: Option<ReleaseListRequest>,
)
    requires
        reloads(before, after, request),
    ensures
        request is Some <==> before.project_id is Some,
        request is Some ==> request->0.project_id == before.project_id->0
            && request->0.generation == after.request_generation && after.busy,
        before.project_id is None ==> after.releases@.len() == 0,
        after.error is None,
        after.request_generation != before.request_generation,
{
}

/// The views are offered in a fixed order.
pub proof fn views_are_offered_in_order()
    ensures
        view_order().len() == 4,
        view_order()[0] == MetricView::Confusion,
        view_order()[1] == MetricView::Agreement,
        view_order()[2] == MetricView::Calibration,
        view_order()[3] == MetricView::RiskCoverage,
{
}

/// Reports are loaded for the selected release; without one none are shown.
pub proof fn reports_are_those_of_the_release(
    before: CalibrationScreen,
    after: CalibrationScreen,
    release_id: Option<String>,
)
    requires
        loads_reports(before, after, release_id),
    ensures
        release_id == before.selected_release_id,
        release_id is Some ==> after.busy && after.reports == before.reports,
        release_id is None ==> after.reports@.len() == 0 && after.busy == before.busy,
        after.selected_release_id == before.selected_release_id,
        after.proposed_policy == before.proposed_policy,
{
}

/// A policy is proposed for the evaluator of the selected release, in the
/// project.
pub proof fn policies_are_for_the_release(screen: CalibrationScreen)
    ensures
        screen.policy_request() is Some <==> screen.release() is Some && screen.project_id is Some,
        screen.policy_request() is Some ==> {
            &&& screen.policy_request()->0.project_id == screen.project_id->0
            &&& screen.policy_request()->0.evaluator_release_id == chosen_release(
                screen,
            ).evaluator_release_id
            &&& screen.policy_request()->0.calibration_release_id@
                == screen.selected_release_id->0@
        },
{
    match screen.selected_release_id {
        Some(release_id) => releases_are_found_by_identity(screen.releases@, release_id@),
        None => {},
    }
}

/// Identities are shown by their first twelve bytes.
pub proof fn identities_are_shown_by_twelve_bytes(value: Seq<char>)
    requires
        forall|i: int| 0 <= i < value.len() ==> (#[trigger] value[i]) as u32 <= 0x7f,
    ensures
        value.len() <= 12 ==> short(value) == value,
        value.len() > 12 ==> short(value) == value.take(12),
{
    offsets::plain_texts_are_cut_to_the_limit(value, 12);
}

/// A release is told by its identity, its fitted answers and its raters.
pub proof fn releases_are_told_by_answers_and_raters(
    view: ReleaseRowView,
    screen: CalibrationScreen,
    entry: (String, CalibrationReleaseV1),
)
    requires
        shows_release(view, screen, entry),
    ensures
        view.title@ == "Release "@ + short(entry.0@),
        view.summary@ == text::decimal(entry.1.fit_annotation_revision_ids@.len())
            + " fitted answers · "@ + text::decimal(
            entry.1.agreement_report.rater_count as nat,
        ) + " raters"@,
        view.label@ == "Open calibration release "@ + short(entry.0@) + "; "@ + text::decimal(
            entry.1.fit_annotation_revision_ids@.len(),
        ) + " fitted answers; "@ + text::decimal(entry.1.agreement_report.rater_count as nat)
            + " raters"@,
        view.selected <==> screen.selected_release_id is Some && screen.selected_release_id->0@
            == entry.0@,
{
}

/// A bin is told by its range, its size and what was predicted and observed in
/// it, and a point by its coverage, risk and size.
pub proof fn bins_and_points_show_their_size(
    line: PairedLine,
    bin: CalibrationBin,
    point: SelectiveRiskPoint,
)
    ensures
        shows_bin(line, bin) ==> line.left@ == bin.range@ && line.right@ == "n="@ + text::decimal(
            bin.count as nat,
        ) + " · predicted "@ + optional_value(bin.mean_predicted_failure) + " · observed "@
            + optional_value(bin.empirical_failure_rate),
        shows_point(line, point) ==> line.left@ == "Coverage "@ + point.coverage_percent@ + "%"@
            && line.right@ == "Risk "@ + optional_value(point.classification_risk) + " · n="@
            + text::decimal(point.decided_count as nat),
{
}

/// Each view shows its own measures; of the risk no more than twenty points.
pub proof fn views_show_their_own_measures(
    content: MetricContent,
    view: MetricView,
    report: BinaryCalibrationReportV1,
    agreement: AgreementReport,
)
    requires
        shows_metrics(content, view, report, agreement),
    ensures
        content is Confusion <==> view == MetricView::Confusion,
        content is Agreement <==> view == MetricView::Agreement,
        content is Calibration <==> view == MetricView::Calibration,
        content is RiskCoverage <==> view == MetricView::RiskCoverage,
        content is Confusion ==> content->positive_class@ == report.positive_class@
            && sorting::views(content->counts@) == confusion_tiles(report) && sorting::views(
            content->rates@,
        ) == rate_tiles(report) && sorting::views(content->scores@) == score_tiles(report),
        content is Agreement ==> content->rater_count@ == text::decimal(
            agreement.rater_count as nat,
        ) && sorting::views(content->Agreement_tiles@) == agreement_tiles(agreement),
        content is Calibration ==> content->bins@.len() == report.calibration_bins@.len(),
        content is RiskCoverage ==> content->points@.len() <= 20 && (
        report.selective_risk@.len() <= 20 ==> content->points@.len()
            == report.selective_risk@.len()) && (report.selective_risk@.len() > 20
            ==> content->points@.len() == 20),
{
}

/// A part of the answers shows its own measures.
pub proof fn parts_show_their_own_measures(row: SliceRow, slice: CalibrationSliceReportV1)
    requires
        shows_slice(row, slice),
    ensures
        row.dimension@ == slice.dimension@,
        row.value@ == slice.value@,
        row.count@ == text::decimal(slice.report.attempted_count as nat),
        row.f1@ == optional_value(slice.report.f1),
        row.matthews_correlation@ == optional_value(slice.report.matthews_correlation),
        row.brier_score@ == optional_value(slice.report.brier_score),
{
}

/// The workbench says whether the fit or the held-out test is looked at, and
/// shows the gates once both audits are there.
pub proof fn workbenches_tell_fit_from_test(
    view: WorkbenchView,
    screen: CalibrationScreen,
    release_id: String,
    release: CalibrationReleaseV1,
)
    requires
        shows_workbench(view, screen, release_id, release),
    ensures
        screen.reports@.len() > 0 ==> view.subtitle@ == "Release "@ + short(release_id@) + " · "@
            + "HELD-OUT TEST · frozen policy"@,
        screen.reports@.len() == 0 ==> view.subtitle@ == "Release "@ + short(release_id@) + " · "@
            + "CALIBRATION FIT · choose thresholds before test"@,
        view.positive_class@ == "Positive class: "@ + release.fit_report.positive_class@,
        view.gates is Some <==> screen.reports@.len() > 0 && random_audit(
            release.fit_slice_reports@,
        ) is Some && random_audit(screen.reports@[0].slice_reports@) is Some,
        view.gates is Some ==> shows_gates(
            view.gates->0,
            gates(
                random_audit(release.fit_slice_reports@)->0,
                random_audit(screen.reports@[0].slice_reports@)->0,
            ),
        ),
        view.scope@ == screen.shown_scope(),
        view.slices@.len() == screen.shown_slices().len(),
{
}

/// The gates are counted, and each is told with where it stands.
pub proof fn gates_are_counted_and_told(view: GateSummary, list: Seq<Gate>, gate: Gate)
    requires
        shows_gates(view, list),
    ensures
        passing(Seq::empty()) == 0,
        gate.passed ==> passing(list.push(gate)) == passing(list) + 1,
        !gate.passed ==> passing(list.push(gate)) == passing(list),
        view.count@ == text::decimal(passing(list)) + "/"@ + text::decimal(list.len())
            + " gates pass"@,
        view.ready ==> view.label@ == "Automation "@ + "ready"@ + ". "@ + text::decimal(
            passing(list),
        ) + " of "@ + text::decimal(list.len()) + " safety gates pass. "@ + text::joined(
            list.map_values(|gate: Gate| gate_line(gate)),
            "; "@,
        ),
        !view.ready ==> view.label@ == "Automation "@ + "blocked"@ + ". "@ + text::decimal(
            passing(list),
        ) + " of "@ + text::decimal(list.len()) + " safety gates pass. "@ + text::joined(
            list.map_values(|gate: Gate| gate_line(gate)),
            "; "@,
        ),
        gate.passed ==> gate_line(gate) == gate.label + ": "@ + gate.current + ", "@ + "passed"@,
        !gate.passed ==> gate_line(gate) == gate.label + ": "@ + gate.current + ", "@
            + "blocked"@,
        view.rows@.len() == list.len(),
{
    assert(list.push(gate).drop_last() =~= list);
}

} // verus!
