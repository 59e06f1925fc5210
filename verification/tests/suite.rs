//! Directories of reports, and portable series reports.
use micromeasure::comparison::engine::Change;
use micromeasure::suite::compare::check_request;
use micromeasure::suite::load::{
    entry_use, load_report_input, validate_report_input, EntryKind, EntryUse, LoadedReportInput,
    ReadFile, ReportInputKind,
};
use micromeasure::{
    compare_report_inputs, compare_reports, BenchmarkKind, BenchmarkReport, BenchmarkResult,
    BenchmarkStats, CaseNumbers, CaseStatistics, Changes, ComparisonError, ComparisonExitStatus,
    ComparisonOptions, DoubleBits, MeasurementDirection, MeasurementDomain, MeasurementKind,
    NumberStyle, NumberTexts, OutlierFractions, PolicyError, RegressionPolicy, ReportContext,
    ReportDocument, ReportDocumentType, ReportError, ReportInputRole, SampleStatistics,
    SeriesReport, SeriesResult, SuiteComparisonAnalysis, SuiteComparisonError, TextMap,
    Throughput, Validity, ValidityStatus, REPORT_SCHEMA_VERSION,
};

fn bits(value: f64) -> DoubleBits {
    DoubleBits::from_bits(value.to_bits())
}

fn number(value: DoubleBits) -> f64 {
    f64::from_bits(value.to_bits())
}

fn percentile(values: &[f64], at: f64) -> f64 {
    if values.is_empty() {
        return 0.0;
    }
    let mut sorted = values.to_vec();
    sorted.sort_by(|a, b| a.total_cmp(b));
    let position = at * (sorted.len() - 1) as f64;
    let lower = position.floor() as usize;
    let upper = position.ceil() as usize;
    let weight = position - lower as f64;
    sorted[lower] * (1.0 - weight) + sorted[upper] * weight
}

fn numbers(values: &[f64]) -> Vec<DoubleBits> {
    values.iter().map(|value| bits(*value)).collect()
}

fn case_numbers(samples: &[DoubleBits]) -> CaseNumbers {
    let all: Vec<f64> = samples.iter().map(|value| number(*value)).collect();
    let mean = all.iter().sum::<f64>() / all.len() as f64;
    let q1 = percentile(&all, 0.25);
    let q3 = percentile(&all, 0.75);
    CaseNumbers {
        mean: bits(mean),
        median: bits(percentile(&all, 0.5)),
        p95: bits(percentile(&all, 0.95)),
        mad: bits(0.0),
        cv_percent: bits(0.0),
        lower_fence: bits(q1 - 1.5 * (q3 - q1)),
        upper_fence: bits(q3 + 1.5 * (q3 - q1)),
        ..CaseNumbers::unknown()
    }
}

fn record_series(report: &SeriesReport, statistics: &mut SampleStatistics) {
    for result in &report.results {
        statistics.record(CaseStatistics {
            samples: result.samples.clone(),
            latencies: Vec::new(),
            stated_median: bits(0.0),
            numbers: case_numbers(&result.samples),
        });
    }
}

fn record_native(report: &BenchmarkReport, statistics: &mut SampleStatistics) {
    for result in &report.results {
        let latencies = case_numbers(&result.stats.sample_latency_ns_per_op);
        statistics.record(CaseStatistics {
            samples: result.stats.sample_throughput_per_sec.clone(),
            latencies: result.stats.sample_latency_ns_per_op.clone(),
            stated_median: result.stats.median_throughput_per_sec,
            numbers: CaseNumbers {
                median_latency: latencies.median,
                p95_latency: latencies.p95,
                mad_latency: latencies.mad,
                ..case_numbers(&result.stats.sample_throughput_per_sec)
            },
        });
    }
}

fn statistics_of(inputs: &[&LoadedReportInput]) -> SampleStatistics {
    let mut statistics = SampleStatistics::new();
    for input in inputs {
        for loaded in &input.documents {
            match &loaded.document {
                ReportDocument::Native { report, .. } => record_native(report, &mut statistics),
                ReportDocument::Series { report, .. } => record_series(report, &mut statistics),
            }
        }
    }
    statistics
}

fn context() -> ReportContext {
    ReportContext::new("fixture-runner".to_string())
        .with_environment("hardware".to_string(), "test-node".to_string())
}

fn latency(group: &str, name: &str, samples: &[f64]) -> SeriesResult {
    SeriesResult::new(
        group.to_string(),
        name.to_string(),
        MeasurementKind::Latency,
        "ms".to_string(),
        MeasurementDirection::Lower,
        samples.iter().map(|value| bits(*value)).collect(),
    )
}

fn series(suite: &str, timestamp: &str, samples: &[f64]) -> SeriesReport {
    SeriesReport::new(
        timestamp.to_string(),
        suite.to_string(),
        context(),
        vec![latency("scenario", "latency", samples)],
    )
}

fn native(suite: &str, timestamp: &str) -> BenchmarkReport {
    BenchmarkReport {
        schema_version: REPORT_SCHEMA_VERSION,
        timestamp: timestamp.to_string(),
        hostname: "fixture-runner".to_string(),
        suite: Some(suite.to_string()),
        git_commit: None,
        context: context(),
        results: vec![result("group", "case", 50.0)],
    }
}

fn result(group: &str, name: &str, rate: f64) -> BenchmarkResult {
    let latency = 1_000_000_000.0 / rate;
    let zero = bits(0.0);
    BenchmarkResult {
        name: name.to_string(),
        group: group.to_string(),
        kind: BenchmarkKind::Standard,
        execution_index: 0,
        stats: BenchmarkStats {
            throughput: Throughput::ops(),
            throughput_per_sec: bits(rate),
            median_throughput_per_sec: bits(rate),
            ns_per_op: bits(latency),
            median_ns_per_op: bits(latency),
            p95_ns_per_op: bits(latency),
            mad_ns_per_op: zero,
            cycles_per_op: zero,
            instructions_per_op: zero,
            ipc: zero,
            cache_references_per_op: zero,
            l1i_misses_per_op: zero,
            branches_per_op: zero,
            branch_miss_rate: zero,
            branch_misses_per_op: zero,
            cache_misses_per_op: zero,
            cache_miss_percent: zero,
            frontend_stall_cycles_per_op: zero,
            frontend_stall_percent: zero,
            backend_stall_cycles_per_op: zero,
            backend_stall_percent: zero,
            cv_percent: bits(1.0),
            outlier_count: 0,
            samples: 3,
            operations: 3,
            total_duration_sec: bits(1.0),
            sample_throughput_per_sec: numbers(&[rate, rate, rate]),
            sample_latency_ns_per_op: numbers(&[latency, latency, latency]),
            has_cycles: false,
            has_instructions: false,
            has_cache_references: false,
            has_l1i_misses: false,
            has_branches: false,
            has_branch_misses: false,
            has_cache_misses: false,
            has_stalled_cycles_frontend: false,
            has_stalled_cycles_backend: false,
            pmu_time_enabled_ns: 0,
            pmu_time_running_ns: 0,
            measurement_domain: MeasurementDomain::Cpu,
            measurement_label: String::new(),
            emits_cpu_diagnostics: true,
            metrics: Vec::new(),
            sample_metrics: Vec::new(),
        },
        worker_summaries: Vec::new(),
        metadata: TextMap::new(),
    }
}

fn loaded(path: &str, report: SeriesReport) -> ReadFile {
    ReadFile {
        path: path.to_string(),
        outcome: ReportDocument::loaded_series(report, path.as_bytes(), Some(path.to_string())),
    }
}

fn loaded_native(path: &str, report: BenchmarkReport) -> ReadFile {
    ReadFile {
        path: path.to_string(),
        outcome: Ok(ReportDocument::loaded_native(
            report,
            path.as_bytes(),
            Some(path.to_string()),
        )),
    }
}

fn directory(role: ReportInputRole, files: Vec<ReadFile>) -> LoadedReportInput {
    load_report_input("root", role, ReportInputKind::Directory, files).unwrap()
}

/// Compares two inputs as they are given: the request, then what was read of
/// the current input, then of the baseline, then the reports.
fn compare_inputs(
    kind: ReportInputKind,
    current: Vec<ReadFile>,
    baseline: Vec<ReadFile>,
    options: &ComparisonOptions,
    policy: &RegressionPolicy,
) -> Result<SuiteComparisonAnalysis, SuiteComparisonError> {
    check_request(options, policy)?;
    let current = load_report_input("current", ReportInputRole::Current, kind, current)?;
    let baseline = load_report_input("baseline", ReportInputRole::Baseline, kind, baseline)?;
    compare_report_inputs(
        &current,
        &baseline,
        options,
        policy,
        &statistics_of(&[&current, &baseline]),
        &changes(&[1.0, 50.0, 90.0, 100.0, 120.0]),
        &fractions(),
    )
}

fn changes(values: &[f64]) -> Changes {
    let mut changes = Changes::new();
    for current in values {
        for baseline in values {
            changes.record(Change {
                current: bits(*current),
                baseline: bits(*baseline),
                difference: bits(current - baseline),
                gain_percent: bits((current - baseline) / baseline * 100.0),
                drop_percent: bits((baseline - current) / baseline * 100.0),
            });
        }
    }
    changes
}

fn fractions() -> OutlierFractions {
    let mut fractions = OutlierFractions::new();
    for samples in 1..=5usize {
        for outliers in 0..=samples {
            fractions.record(outliers, samples, bits(outliers as f64 / samples as f64));
        }
    }
    fractions
}

fn texts(values: &[f64]) -> NumberTexts {
    let mut texts = NumberTexts::new();
    for value in values {
        for places in 0..7u8 {
            let digits = places as usize;
            texts.record(
                bits(*value),
                NumberStyle::Fixed { places },
                format!("{value:.digits$}"),
            );
            texts.record(
                bits(*value),
                NumberStyle::Signed { places },
                format!("{value:+.digits$}"),
            );
        }
    }
    texts
}

#[test]
fn directory_comparison_combines_mixed_types_and_unmatched_suites() {
    let current = vec![
        loaded("current/added.json", series("added-suite", "current", &[1.0])),
        loaded_native("current/native.json", native("native-suite", "current")),
        loaded(
            "current/nested/series.json",
            series("series-suite", "current", &[80.0, 90.0, 100.0]),
        ),
    ];
    let baseline = vec![
        loaded_native("baseline/native.json", native("native-suite", "baseline")),
        loaded("baseline/removed.json", series("removed-suite", "baseline", &[1.0])),
        loaded(
            "baseline/series.json",
            series("series-suite", "baseline", &[90.0, 100.0, 110.0]),
        ),
    ];
    let analysis = compare_inputs(
        ReportInputKind::Directory,
        current,
        baseline,
        &ComparisonOptions::default().allow_partial_result_set(true),
        &RegressionPolicy::gating(),
    )
    .unwrap();

    assert_eq!(analysis.summary.matched_suites, 2);
    assert_eq!(analysis.summary.added_suites, 1);
    assert_eq!(analysis.summary.removed_suites, 1);
    assert_eq!(analysis.summary.matched_cases, 2);
    assert_eq!(analysis.summary.improvements, 1);
    assert_eq!(analysis.summary.blocking, 0);
    assert_eq!(analysis.added_suites[0].suite.as_deref(), Some("added-suite"));
    assert_eq!(analysis.removed_suites[0].suite.as_deref(), Some("removed-suite"));
    let kinds: Vec<ReportDocumentType> = analysis
        .comparisons
        .iter()
        .map(|suite| suite.comparison.current.document_type)
        .collect();
    assert_eq!(kinds, vec![ReportDocumentType::NativeBenchmark, ReportDocumentType::Series]);
    let numbers = texts(&[1.0, 50.0, 90.0, 100.0, 10.0, 0.0, 5.0]);
    assert!(analysis.render_markdown(&numbers).contains("## Added suites"));
    assert!(analysis.render_terminal(&numbers).contains("suites: 2 matched"));
    assert_eq!(analysis.exit_status(), ComparisonExitStatus::Success);
}

#[test]
fn one_blocking_suite_fails_the_whole_comparison() {
    let analysis = compare_inputs(
        ReportInputKind::Directory,
        vec![loaded("c.json", series("suite", "current", &[120.0]))],
        vec![loaded("b.json", series("suite", "baseline", &[100.0]))],
        &ComparisonOptions::default(),
        &RegressionPolicy::gating(),
    )
    .unwrap();
    assert_eq!(analysis.summary.regressions, 1);
    assert_eq!(analysis.summary.blocking, 1);
    assert_eq!(analysis.exit_status(), ComparisonExitStatus::RegressionGateFailed);
}

#[test]
fn duplicate_suites_are_rejected_in_lexical_path_order() {
    let error = validate_report_input(
        "root",
        ReportInputKind::Directory,
        vec![
            loaded("root/z-report.json", series("duplicate", "z", &[1.0])),
            loaded("root/a-report.json", series("duplicate", "a", &[1.0])),
        ],
    )
    .unwrap_err();
    match error {
        SuiteComparisonError::DuplicateSuite { first, second, .. } => {
            assert!(first.ends_with("a-report.json"));
            assert!(second.ends_with("z-report.json"));
        }
        other => panic!("unexpected error: {other:?}"),
    }
}

#[test]
fn duplicate_suites_are_named_in_the_order_of_path_parts() {
    let error = validate_report_input(
        "root",
        ReportInputKind::Directory,
        vec![
            loaded("root/a-b.json", series("duplicate", "z", &[1.0])),
            loaded("root/a/b.json", series("duplicate", "a", &[1.0])),
        ],
    )
    .unwrap_err();
    match error {
        SuiteComparisonError::DuplicateSuite { first, second, .. } => {
            assert_eq!(first, "root/a/b.json");
            assert_eq!(second, "root/a-b.json");
        }
        other => panic!("unexpected error: {other:?}"),
    }
}

#[test]
fn the_first_path_that_fails_is_named() {
    let unreadable = |path: &str| ReadFile {
        path: path.to_string(),
        outcome: Err(ReportError::Io {
            path: path.to_string(),
            message: "permission denied".to_string(),
        }),
    };
    let error = validate_report_input(
        "root",
        ReportInputKind::Directory,
        vec![unreadable("root/z.json"), unreadable("root/a.json")],
    )
    .unwrap_err();
    match error {
        SuiteComparisonError::Report(ReportError::Io { path, .. }) => {
            assert_eq!(path, "root/a.json");
        }
        other => panic!("unexpected error: {other:?}"),
    }
}

#[test]
fn duplicate_cases_are_rejected_even_without_a_matching_suite() {
    let duplicate = || {
        SeriesResult::new(
            "group".to_string(),
            "case".to_string(),
            MeasurementKind::Throughput,
            "items/s".to_string(),
            MeasurementDirection::Higher,
            numbers(&[1.0]),
        )
    };
    let report = SeriesReport::new(
        "current".to_string(),
        "current-only".to_string(),
        context(),
        vec![duplicate(), duplicate()],
    );
    let error = compare_inputs(
        ReportInputKind::Directory,
        vec![loaded("current/duplicate.json", report)],
        vec![loaded("baseline/other.json", series("baseline-only", "baseline", &[1.0]))],
        &ComparisonOptions::default(),
        &RegressionPolicy::default(),
    )
    .unwrap_err();
    match error {
        SuiteComparisonError::InvalidDocument { path, source } => {
            assert_eq!(path, "current/duplicate.json");
            assert!(matches!(*source, ComparisonError::DuplicateIdentity { .. }));
        }
        other => panic!("unexpected error: {other:?}"),
    }
}

#[test]
fn one_suite_cannot_change_document_type() {
    assert!(matches!(
        compare_inputs(
            ReportInputKind::File,
            vec![loaded("current.json", series("suite", "current", &[1.0]))],
            vec![loaded_native("baseline.json", native("suite", "baseline"))],
            &ComparisonOptions::default(),
            &RegressionPolicy::default(),
        ),
        Err(SuiteComparisonError::DocumentTypeMismatch { .. })
    ));
}

#[test]
fn comparison_validation_rejects_empty_native_reports() {
    let report = BenchmarkReport { results: Vec::new(), ..native("empty", "now") };
    let error = validate_report_input(
        "empty.json",
        ReportInputKind::File,
        vec![loaded_native("empty.json", report)],
    )
    .unwrap_err();
    match error {
        SuiteComparisonError::InvalidDocument { source, .. } => {
            assert!(matches!(*source, ComparisonError::EmptyResultSet { .. }));
        }
        other => panic!("unexpected error: {other:?}"),
    }
}

#[test]
fn strict_suite_sets_reject_added_and_removed_suites() {
    let error = compare_inputs(
        ReportInputKind::Directory,
        vec![
            loaded("current/added.json", series("added", "current", &[1.0])),
            loaded("current/shared.json", series("shared", "current", &[1.0])),
        ],
        vec![
            loaded("baseline/removed.json", series("removed", "baseline", &[1.0])),
            loaded("baseline/shared.json", series("shared", "baseline", &[1.0])),
        ],
        &ComparisonOptions::default().require_same_suite_set(true),
        &RegressionPolicy::default(),
    )
    .unwrap_err();
    match error {
        SuiteComparisonError::SuiteSetMismatch { added, removed } => {
            assert_eq!(added, vec!["added"]);
            assert_eq!(removed, vec!["removed"]);
        }
        other => panic!("unexpected error: {other:?}"),
    }
}

#[test]
fn inputs_that_cannot_be_read_are_refused() {
    assert!(matches!(
        validate_report_input("root", ReportInputKind::Directory, Vec::new()),
        Err(SuiteComparisonError::NoReports { .. })
    ));
    let unreadable = ReadFile {
        path: "root/a.json".to_string(),
        outcome: Err(ReportError::Io {
            path: "root/a.json".to_string(),
            message: "permission denied".to_string(),
        }),
    };
    let error =
        validate_report_input("root", ReportInputKind::Directory, vec![unreadable]).unwrap_err();
    assert!(matches!(&error, SuiteComparisonError::Report(ReportError::Io { .. })));
    assert!(error.message().contains("permission denied"), "{}", error.message());
}

#[test]
fn requests_are_checked_before_anything_is_read() {
    assert!(check_request(&ComparisonOptions::default(), &RegressionPolicy::default()).is_ok());
    let blank = ComparisonOptions::default().with_environment_override(" ".to_string());
    assert!(check_request(&blank, &RegressionPolicy::default()).is_err());
    let policy = RegressionPolicy::default().with_minimum_change_percent(bits(f64::NAN));
    match check_request(&ComparisonOptions::default(), &policy).unwrap_err() {
        SuiteComparisonError::Policy { source, .. } => {
            let source: PolicyError = source;
            assert!(!source.message().is_empty());
        }
        other => panic!("unexpected error: {other:?}"),
    }
}

#[test]
fn references_come_in_the_order_of_suites() {
    let references = validate_report_input(
        "root",
        ReportInputKind::Directory,
        vec![
            loaded("root/1.json", series("zeta", "t", &[1.0])),
            loaded("root/2.json", series("alpha", "t", &[1.0])),
        ],
    )
    .unwrap();
    let suites: Vec<Option<&str>> = references.iter().map(|r| r.suite.as_deref()).collect();
    assert_eq!(suites, vec![Some("alpha"), Some("zeta")]);
}

fn valid_report() -> SeriesReport {
    SeriesReport::new(
        "2026-07-27T15:10:00Z".to_string(),
        "container-lifecycle".to_string(),
        ReportContext::new("runner-a".to_string()),
        vec![latency("lifecycle", "create", &[10.0, 11.0, 12.0])],
    )
}

#[test]
fn valid_series_passes_semantic_validation() {
    assert!(valid_report().validate().is_ok());
}

#[test]
fn invalid_validity_requires_a_reason() {
    let mut report = valid_report();
    report.results[0].validity = Validity { status: ValidityStatus::Invalid, reason: None };
    let error = report.validate().unwrap_err();
    assert!(error.message.contains("non-empty reason"), "{}", error.message);
}

#[test]
fn invalid_results_may_have_no_timing_samples() {
    let mut report = valid_report();
    report.results[0].samples.clear();
    report.results[0].validity = Validity::invalid("checksum mismatch".to_string());
    assert!(report.validate().is_ok());
}

#[test]
fn valid_results_require_samples() {
    let mut report = valid_report();
    report.results[0].samples.clear();
    let error = report.validate().unwrap_err();
    assert!(error.message.contains("has no samples"), "{}", error.message);
}

#[test]
fn invalid_reports_may_have_no_results() {
    let mut report = valid_report();
    report.results.clear();
    assert!(report.validate().is_err());
    report.validity = Validity::invalid("shared setup failed".to_string());
    assert!(report.validate().is_ok());
}

#[test]
fn series_need_finite_samples_and_names() {
    let mut report = valid_report();
    report.results[0].samples.push(bits(f64::NAN));
    assert!(report.validate().is_err());
    let mut report = valid_report();
    report.suite = "  ".to_string();
    assert!(report.validate().is_err());
    let mut report = valid_report();
    report.results[0].dimensions =
        TextMap::new().inserted("model".to_string(), " ".to_string());
    assert!(report.validate().is_err());
}

fn five(offset: f64) -> SeriesReport {
    SeriesReport::new(
        "now".to_string(),
        "suite".to_string(),
        ReportContext::new("runner".to_string()),
        (0..5)
            .map(|index| latency("group", &format!("case-{index}"), &[offset + index as f64]))
            .collect(),
    )
}

#[test]
fn public_loader_compares_python_and_rust_series_documents() {
    let (current, baseline) = (five(1.0), five(2.0));
    let mut statistics = SampleStatistics::new();
    record_series(&current, &mut statistics);
    record_series(&baseline, &mut statistics);
    let current = ReportDocument::loaded_series(current, b"a", None).unwrap();
    let baseline = ReportDocument::loaded_series(baseline, b"b", None).unwrap();
    let comparison = compare_reports(
        &current,
        &baseline,
        &ComparisonOptions::default(),
        &statistics,
        &Changes::new(),
    )
    .unwrap();
    assert_eq!(comparison.current.document_type, ReportDocumentType::Series);
    assert_eq!(comparison.summary.matched, 5);
    assert_eq!(comparison.summary.added, 0);
    assert_eq!(comparison.summary.removed, 0);
}

#[test]
fn public_rust_builder_produces_valid_comparable_evidence() {
    let case = |samples: &[f64], image: &str| {
        latency("lifecycle", "create", samples)
            .with_dimension("cache_state".to_string(), "warm".to_string())
            .with_provenance("image_digest".to_string(), image.to_string())
            .with_validity(Validity::valid())
    };
    let report = |timestamp: &str, result: SeriesResult| {
        SeriesReport::new(
            timestamp.to_string(),
            "suite".to_string(),
            ReportContext::new("runner".to_string()),
            vec![result],
        )
    };
    let baseline = report("baseline", case(&[100.0, 110.0, 120.0], "sha256:baseline"));
    let current = report("current", case(&[90.0, 100.0, 110.0], "sha256:current"));
    assert!(current.validate().is_ok());

    let mut statistics = SampleStatistics::new();
    record_series(&current, &mut statistics);
    record_series(&baseline, &mut statistics);
    let comparison = current
        .compare(
            b"current",
            &baseline,
            b"baseline",
            &ComparisonOptions::default(),
            &statistics,
            &changes(&[100.0, 110.0]),
        )
        .unwrap();
    assert_eq!(comparison.matched[0].current.primary.value, Some(bits(100.0)));
    let improvement = number(comparison.matched[0].percent_improvement.unwrap());
    assert!((improvement - 9.090909090909092).abs() < 1e-9);
}

#[test]
fn directories_are_searched_for_json_files() {
    assert_eq!(entry_use(EntryKind::File, Some("json")), EntryUse::Read);
    assert_eq!(entry_use(EntryKind::File, Some("JSON")), EntryUse::Read);
    assert_eq!(entry_use(EntryKind::File, Some("txt")), EntryUse::Ignore);
    assert_eq!(entry_use(EntryKind::File, None), EntryUse::Ignore);
    assert_eq!(entry_use(EntryKind::Directory, Some("d")), EntryUse::Search);
    assert_eq!(entry_use(EntryKind::Link, Some("json")), EntryUse::Ignore);
    assert_eq!(entry_use(EntryKind::Other, Some("json")), EntryUse::Ignore);
}

#[test]
fn bad_requests_are_refused_whatever_the_suites() {
    let side = |role: ReportInputRole, suite: &str| {
        directory(role, vec![loaded("report.json", series(suite, "commit", &[1.0]))])
    };
    let current = side(ReportInputRole::Current, "suite");
    let blank = ComparisonOptions::default().with_environment_override(" ".to_string());
    let unusable = RegressionPolicy::default().with_minimum_change_percent(bits(f64::NAN));
    for suite in ["suite", "other"] {
        let baseline = side(ReportInputRole::Baseline, suite);
        let compare = |options: &ComparisonOptions, policy: &RegressionPolicy| {
            compare_report_inputs(
                &current,
                &baseline,
                options,
                policy,
                &statistics_of(&[&current, &baseline]),
                &changes(&[1.0]),
                &fractions(),
            )
            .unwrap_err()
        };
        match compare(&blank, &RegressionPolicy::default()) {
            SuiteComparisonError::Comparison { suite: None, source } => {
                assert!(matches!(*source, ComparisonError::InvalidEnvironmentOverride));
            }
            other => panic!("unexpected error: {other:?}"),
        }
        assert!(matches!(
            compare(&ComparisonOptions::default(), &unusable),
            SuiteComparisonError::Policy { suite: None, .. }
        ));
    }
}
