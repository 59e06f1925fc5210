//! Policies and how comparisons are rendered.
use micromeasure::comparison::engine::Change;
use micromeasure::policy::{classify_case, PolicyFinding};
use micromeasure::render::{escape_markdown, finding_description, format_percent, inline_text};
use micromeasure::{
    CaseNumbers, CaseStatistics, ChangeClassification, Changes, ComparisonAnalysis, ComparisonCaseIdentity,
    ComparisonCaseSnapshot, ComparisonExitStatus, ComparisonOptions, ComparisonReport,
    ComparisonSide, ComparisonStatistics, ComparisonSummary, DoubleBits, EnvironmentComparison,
    MatchedBenchmark, MeasurementDirection, MeasurementKind, NativeMeasurementProjection,
    NumberStyle, NumberTexts, OutlierFractions, PolicyError, PolicyEvaluation, PolicySummary,
    PrimaryMeasurement, RegressionPolicy, ReportContext, ReportDocumentType,
    ReportReference, SampleStatistics, SeriesCaseIdentity, SeriesReport, SeriesResult, TextMap,
    Validity,
    ANALYSIS_SCHEMA_VERSION, COMPARISON_SCHEMA_VERSION, DEFAULT_MAXIMUM_CV_PERCENT,
    DEFAULT_MAXIMUM_OUTLIER_FRACTION, DEFAULT_MINIMUM_CHANGE_PERCENT,
};

fn bits(value: f64) -> DoubleBits {
    DoubleBits::from_bits(value.to_bits())
}

fn number(value: DoubleBits) -> f64 {
    f64::from_bits(value.to_bits())
}

fn percentile(values: &[f64], at: f64) -> f64 {
    let mut sorted = values.to_vec();
    sorted.sort_by(|a, b| a.total_cmp(b));
    let position = at * (sorted.len() - 1) as f64;
    let lower = position.floor() as usize;
    let upper = position.ceil() as usize;
    let weight = position - lower as f64;
    sorted[lower] * (1.0 - weight) + sorted[upper] * weight
}

fn case_numbers(result: &SeriesResult) -> CaseNumbers {
    let all: Vec<f64> = result.samples.iter().map(|value| number(*value)).collect();
    let mean = all.iter().sum::<f64>() / all.len() as f64;
    let variance =
        all.iter().map(|value| (value - mean).powi(2)).sum::<f64>() / all.len() as f64;
    let median = percentile(&all, 0.5);
    let deviations: Vec<f64> = all.iter().map(|value| (value - median).abs()).collect();
    let q1 = percentile(&all, 0.25);
    let q3 = percentile(&all, 0.75);
    CaseNumbers {
        mean: bits(mean),
        median: bits(median),
        p95: bits(percentile(&all, 0.95)),
        mad: bits(percentile(&deviations, 0.5)),
        cv_percent: bits(variance.sqrt() / mean.abs() * 100.0),
        lower_fence: bits(q1 - 1.5 * (q3 - q1)),
        upper_fence: bits(q3 + 1.5 * (q3 - q1)),
        ..CaseNumbers::unknown()
    }
}

fn compare(
    current: &SeriesReport,
    baseline: &SeriesReport,
    options: &ComparisonOptions,
) -> ComparisonReport {
    let mut statistics = SampleStatistics::new();
    for result in current.results.iter().chain(&baseline.results) {
        statistics.record(CaseStatistics {
            samples: result.samples.clone(),
            latencies: Vec::new(),
            stated_median: bits(0.0),
            numbers: case_numbers(result),
        });
    }
    let mut changes = Changes::new();
    for x in &current.results {
        for y in &baseline.results {
            let (x, y) = (number(case_numbers(x).median), number(case_numbers(y).median));
            changes.record(Change {
                current: bits(x),
                baseline: bits(y),
                difference: bits(x - y),
                gain_percent: bits((x - y) / y * 100.0),
                drop_percent: bits((y - x) / y * 100.0),
            });
        }
    }
    let persisted = |report: &SeriesReport| report.timestamp.clone().into_bytes();
    current
        .compare(
            &persisted(current),
            baseline,
            &persisted(baseline),
            options,
            &statistics,
            &changes,
        )
        .unwrap()
}

fn texts(values: &[f64]) -> NumberTexts {
    let mut texts = NumberTexts::new();
    for value in values {
        for places in 0..7u8 {
            let digits = places as usize;
            texts.record(
                bits(*value),
                NumberStyle::Fixed { places },
                format!("{value:.digits$}"),
            );
            texts.record(
                bits(*value),
                NumberStyle::Signed { places },
                format!("{value:+.digits$}"),
            );
        }
        texts.record(bits(*value), NumberStyle::Hundredfold, format!("{:.2}", value * 100.0));
    }
    texts
}

fn fractions() -> OutlierFractions {
    let mut fractions = OutlierFractions::new();
    for samples in 1..=10usize {
        for outliers in 0..=samples {
            fractions.record(outliers, samples, bits(outliers as f64 / samples as f64));
        }
    }
    fractions
}

fn snapshot(
    direction: MeasurementDirection,
    value: Option<f64>,
    cv_percent: Option<f64>,
    outliers: usize,
    samples: usize,
) -> ComparisonCaseSnapshot {
    ComparisonCaseSnapshot {
        primary: PrimaryMeasurement {
            measurement: MeasurementKind::Custom,
            unit: "unit".to_string(),
            direction,
            samples: Vec::new(),
            value: value.map(bits),
        },
        statistics: ComparisonStatistics {
            cv_percent: cv_percent.map(bits),
            mad: Some(bits(1.0)),
            p95: value.map(bits),
            samples,
            outliers,
        },
        native: NativeMeasurementProjection::none(),
        validity: Validity::valid(),
        provenance: TextMap::new(),
    }
}

fn identity() -> ComparisonCaseIdentity {
    ComparisonCaseIdentity::Series(SeriesCaseIdentity {
        group: "group".to_string(),
        name: "case".to_string(),
        measurement: MeasurementKind::Custom,
        unit: "unit".to_string(),
        direction: MeasurementDirection::Higher,
        dimensions: TextMap::new(),
    })
}

fn reference() -> ReportReference {
    ReportReference {
        document_type: ReportDocumentType::Series,
        schema_version: 1,
        suite: Some("suite".to_string()),
        content_digest: "sha256:test".to_string(),
        capture_time: "now".to_string(),
        source_provenance: TextMap::new(),
        display_path: None,
    }
}

fn environment() -> EnvironmentComparison {
    EnvironmentComparison {
        exact_match: true,
        current_runner_id: String::new(),
        baseline_runner_id: String::new(),
        current_environment: TextMap::new(),
        baseline_environment: TextMap::new(),
        operator_override: None,
    }
}

fn comparison(
    current: ComparisonCaseSnapshot,
    baseline: ComparisonCaseSnapshot,
    percent_improvement: Option<f64>,
) -> ComparisonReport {
    ComparisonReport {
        schema_version: COMPARISON_SCHEMA_VERSION,
        current: reference(),
        baseline: reference(),
        suite: "suite".to_string(),
        environment: environment(),
        matched: vec![MatchedBenchmark {
            identity: identity(),
            current,
            baseline,
            absolute_change: None,
            percent_improvement: percent_improvement.map(bits),
            stability_warnings: Vec::new(),
            metric_changes: Vec::new(),
        }],
        added: Vec::new(),
        removed: Vec::new(),
        summary: ComparisonSummary { matched: 1, added: 0, removed: 0 },
    }
}

#[test]
fn advisory_and_gating_modes_classify_the_same_regression() {
    let comparison = comparison(
        snapshot(MeasurementDirection::Higher, Some(90.0), Some(1.0), 0, 10),
        snapshot(MeasurementDirection::Higher, Some(100.0), Some(1.0), 0, 10),
        Some(-10.0),
    );

    let advisory = RegressionPolicy::advisory().evaluate(&comparison, &fractions()).unwrap();
    assert_eq!(advisory.cases[0].classification, ChangeClassification::Regression);
    assert!(!advisory.gate_failed);
    assert_eq!(advisory.exit_status(), ComparisonExitStatus::Success);

    let gating = RegressionPolicy::gating().evaluate(&comparison, &fractions()).unwrap();
    assert!(gating.gate_failed);
    assert!(gating.cases[0].blocking);
    assert_eq!(gating.exit_status(), ComparisonExitStatus::RegressionGateFailed);
}

#[test]
fn threshold_is_material_but_not_statistical_significance() {
    let comparison = comparison(
        snapshot(MeasurementDirection::Lower, Some(95.0), Some(1.0), 0, 10),
        snapshot(MeasurementDirection::Lower, Some(100.0), Some(1.0), 0, 10),
        Some(5.0),
    );
    let evaluation = RegressionPolicy::default().evaluate(&comparison, &fractions()).unwrap();
    assert_eq!(
        evaluation.cases[0].classification,
        ChangeClassification::NoMaterialChange
    );
}

#[test]
fn stability_thresholds_report_both_sides() {
    let comparison = comparison(
        snapshot(MeasurementDirection::Higher, Some(100.0), Some(12.0), 2, 10),
        snapshot(MeasurementDirection::Higher, Some(100.0), Some(11.0), 0, 10),
        Some(0.0),
    );
    let evaluation = RegressionPolicy::default().evaluate(&comparison, &fractions()).unwrap();
    assert_eq!(evaluation.summary.unstable, 1);
    assert_eq!(evaluation.cases[0].findings.len(), 3);
    assert!(!evaluation.gate_failed);
}

fn invalid_snapshot() -> ComparisonCaseSnapshot {
    let mut invalid = snapshot(MeasurementDirection::Higher, None, None, 0, 0);
    invalid.validity = Validity::invalid("checksum mismatch".to_string());
    invalid
}

#[test]
fn invalid_and_informational_results_are_not_regressions() {
    let measured = || snapshot(MeasurementDirection::Higher, Some(100.0), None, 0, 1);
    let evaluation = RegressionPolicy::gating()
        .evaluate(&comparison(invalid_snapshot(), measured(), None), &fractions())
        .unwrap();
    assert_eq!(evaluation.cases[0].classification, ChangeClassification::Invalid);
    assert!(!evaluation.gate_failed);

    let invalid_gate = RegressionPolicy::advisory()
        .fail_on_invalid(true)
        .evaluate(&comparison(invalid_snapshot(), measured(), None), &fractions())
        .unwrap();
    assert!(invalid_gate.gate_failed);
    assert!(invalid_gate.cases[0].blocking);

    let informational = RegressionPolicy::gating()
        .evaluate(
            &comparison(
                snapshot(MeasurementDirection::Informational, Some(50.0), None, 0, 1),
                snapshot(MeasurementDirection::Informational, Some(100.0), None, 0, 1),
                None,
            ),
            &fractions(),
        )
        .unwrap();
    assert_eq!(
        informational.cases[0].classification,
        ChangeClassification::Informational
    );
    assert!(!informational.gate_failed);
}

#[test]
fn invalid_policy_configuration_is_explicit() {
    assert!(RegressionPolicy::default()
        .with_minimum_change_percent(bits(f64::NAN))
        .validate()
        .is_err());
    assert!(RegressionPolicy::default()
        .with_maximum_outlier_fraction(Some(bits(1.1)))
        .validate()
        .is_err());
    assert!(RegressionPolicy::default()
        .with_maximum_cv_percent(Some(bits(-1.0)))
        .validate()
        .is_err());
    assert!(RegressionPolicy::default().validate().is_ok());
}

#[test]
fn exit_status_codes_are_stable() {
    assert_eq!(ComparisonExitStatus::Success.code(), 0);
    assert_eq!(ComparisonExitStatus::RegressionGateFailed.code(), 1);
    assert_eq!(ComparisonExitStatus::Error.code(), 2);
}

#[test]
fn default_thresholds_are_the_documented_numbers() {
    assert_eq!(f64::from_bits(DEFAULT_MINIMUM_CHANGE_PERCENT), 5.0);
    assert_eq!(f64::from_bits(DEFAULT_MAXIMUM_CV_PERCENT), 10.0);
    assert_eq!(f64::from_bits(DEFAULT_MAXIMUM_OUTLIER_FRACTION), 0.1);
}

fn classify(matched: &MatchedBenchmark, minimum: DoubleBits) -> ChangeClassification {
    classify_case(&matched.current, &matched.baseline, matched.percent_improvement, minimum)
}

#[test]
fn improvements_mirror_regressions() {
    let policy = RegressionPolicy::default();
    for (change, expected) in [
        (-5.5, ChangeClassification::Regression),
        (5.5, ChangeClassification::Improvement),
        (-5.0, ChangeClassification::NoMaterialChange),
        (0.0, ChangeClassification::NoMaterialChange),
    ] {
        let measured = comparison(
            snapshot(MeasurementDirection::Higher, Some(1.0), None, 0, 1),
            snapshot(MeasurementDirection::Higher, Some(1.0), None, 0, 1),
            Some(change),
        );
        assert_eq!(
            classify(&measured.matched[0], policy.minimum_change_percent),
            expected
        );
    }
    let unknown = comparison(
        snapshot(MeasurementDirection::Higher, None, None, 0, 1),
        snapshot(MeasurementDirection::Higher, Some(1.0), None, 0, 1),
        None,
    );
    assert_eq!(
        classify(&unknown.matched[0], policy.minimum_change_percent),
        ChangeClassification::Inconclusive
    );
}

#[test]
fn markdown_escaping_protects_tables() {
    assert_eq!(escape_markdown("a|b\nc"), "a\\|b c");
    assert_eq!(
        escape_markdown("<a>`b` *c* [d]"),
        "&lt;a&gt;\\`b\\` \\*c\\* \\[d\\]"
    );
}

#[test]
fn terminal_values_stay_on_one_line() {
    assert_eq!(inline_text("a\nb\tc"), "a b c");
}

#[test]
fn exit_status_is_forwarded_from_policy() {
    let policy = PolicyEvaluation {
        policy: RegressionPolicy::gating(),
        cases: Vec::new(),
        summary: PolicySummary { blocking: 1, ..PolicySummary::default() },
        gate_failed: true,
    };
    let mut empty = comparison(invalid_snapshot(), invalid_snapshot(), None);
    empty.matched.clear();
    empty.summary.matched = 0;
    let analysis = ComparisonAnalysis {
        schema_version: ANALYSIS_SCHEMA_VERSION,
        comparison: empty,
        policy,
    };
    assert_eq!(analysis.exit_status(), ComparisonExitStatus::RegressionGateFailed);
}

fn hardware(commit: &str) -> ReportContext {
    ReportContext::new("runner-a".to_string())
        .with_environment("hardware".to_string(), "test-host".to_string())
        .with_provenance("commit".to_string(), commit.to_string())
}

fn latency(samples: &[f64], image: &str) -> SeriesResult {
    SeriesResult::new(
        "request|path".to_string(),
        "latency\np50".to_string(),
        MeasurementKind::Latency,
        "ms".to_string(),
        MeasurementDirection::Lower,
        samples.iter().map(|value| bits(*value)).collect(),
    )
    .with_provenance("image".to_string(), image.to_string())
}

fn regression_analysis() -> ComparisonAnalysis {
    let current = SeriesReport::new(
        "2026-07-27T14:00:00Z".to_string(),
        "render-suite".to_string(),
        hardware("current"),
        vec![latency(&[110.0, 115.0, 120.0], "sha256:current")],
    );
    let baseline = SeriesReport::new(
        "2026-07-26T14:00:00Z".to_string(),
        "render-suite".to_string(),
        hardware("baseline"),
        vec![latency(&[100.0, 100.0, 100.0], "sha256:baseline")],
    );
    let comparison = compare(&current, &baseline, &ComparisonOptions::default());
    comparison
        .analyze(
            &RegressionPolicy::gating()
                .with_maximum_cv_percent(Some(bits(2.0)))
                .with_maximum_outlier_fraction(None),
            &fractions(),
        )
        .unwrap()
}

#[test]
fn renderers_expose_the_same_gating_decision() {
    let analysis = regression_analysis();
    assert_eq!(analysis.exit_status(), ComparisonExitStatus::RegressionGateFailed);
    assert_eq!(analysis.exit_status().code(), 1);

    let matched = &analysis.comparison.matched[0];
    let percent = number(matched.percent_improvement.unwrap());
    assert_eq!(percent, -15.0);
    let cv = number(matched.current.statistics.cv_percent.unwrap());
    let texts = texts(&[115.0, 100.0, -15.0, 5.0, 2.0, cv, 0.0]);
    let terminal = analysis.render_terminal(&texts);
    assert!(terminal.contains("gate: FAIL (1 blocking regressions)"), "{terminal}");
    assert!(terminal.contains("REGRESSION"), "{terminal}");
    assert!(terminal.contains("latency p50"), "{terminal}");
    assert!(terminal.contains("-15.00%"), "{terminal}");

    let markdown = analysis.render_markdown(&texts);
    assert!(markdown.contains("request\\|path"), "{markdown}");
    assert!(markdown.contains("FAIL (1 blocking regressions)"), "{markdown}");
    assert!(markdown.contains("-15.00%"), "{markdown}");
    assert!(!markdown.contains("latency\np50"), "{markdown}");
}

fn items(name: &str) -> SeriesResult {
    SeriesResult::new(
        "group".to_string(),
        name.to_string(),
        MeasurementKind::Throughput,
        "items/s".to_string(),
        MeasurementDirection::Higher,
        vec![bits(10.0), bits(11.0), bits(12.0)],
    )
}

#[test]
fn renderers_include_partial_result_sets() {
    let context = || {
        ReportContext::new("runner-a".to_string())
            .with_environment("hardware".to_string(), "test-host".to_string())
    };
    let current = SeriesReport::new(
        "current".to_string(),
        "partial-suite".to_string(),
        context(),
        vec![items("shared"), items("added")],
    );
    let baseline = SeriesReport::new(
        "baseline".to_string(),
        "partial-suite".to_string(),
        context(),
        vec![items("shared"), items("removed")],
    );
    let comparison = compare(
        &current,
        &baseline,
        &ComparisonOptions::default().allow_partial_result_set(true),
    );
    let analysis = comparison.analyze(&RegressionPolicy::default(), &fractions()).unwrap();
    let texts = texts(&[11.0, 0.0, 5.0, 10.0, 0.1]);

    let terminal = analysis.render_terminal(&texts);
    assert!(terminal.contains("\nadded:\n  group/added"), "{terminal}");
    assert!(terminal.contains("\nremoved:\n  group/removed"), "{terminal}");

    let markdown = analysis.render_markdown(&texts);
    assert!(markdown.contains("\n### Added cases\n\n- group/added"), "{markdown}");
    assert!(markdown.contains("\n### Removed cases\n\n- group/removed"), "{markdown}");
}

#[test]
fn invalid_policies_are_refused_before_they_are_applied() {
    let measured = comparison(invalid_snapshot(), invalid_snapshot(), None);
    let error = measured
        .analyze(
            &RegressionPolicy::default().with_minimum_change_percent(bits(-1.0)),
            &fractions(),
        )
        .unwrap_err();
    let error: PolicyError = error;
    assert!(!error.message().is_empty());
}

#[test]
fn findings_and_percentages_are_written_out() {
    let texts = texts(&[12.0, 10.0, 3.5]);
    let finding = PolicyFinding::HighCoefficientOfVariation {
        side: ComparisonSide::Current,
        actual_percent: bits(12.0),
        maximum_percent: bits(10.0),
    };
    assert_eq!(
        finding_description(&finding, &texts),
        "current CV 12.00% exceeds 10.00%"
    );
    assert_eq!(format_percent(Some(bits(3.5)), &texts), "+3.50%");
    assert_eq!(format_percent(None, &texts), "n/a");
}
