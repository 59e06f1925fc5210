//! Comparing reports: identities, obstacles, directions and statistics.
use micromeasure::comparison::document::{
    check_document, check_native, check_series, sha256_digest,
};
use micromeasure::comparison::engine::{improvement_percent, Change};
use micromeasure::{
    compare_reports, BenchmarkKind, BenchmarkReport, BenchmarkResult, BenchmarkStats, CaseNumbers,
    CaseStatistics, Changes, ComparisonCaseIdentity, ComparisonError, ComparisonOptions,
    ComparisonReport, ComparisonSide, ComparisonSummary, DoubleBits, MeasurementDirection,
    MeasurementDomain, MeasurementKind, MetricFormat, MetricSummary, ReportContext,
    ReportDocument, ReportDocumentType, ReportError, SampleStatistics, SeriesReport, SeriesResult,
    TextMap, Throughput, Validity, ValidityStatus, COMPARISON_SCHEMA_VERSION,
    REPORT_SCHEMA_VERSION,
};

fn bits(value: f64) -> DoubleBits {
    DoubleBits::from_bits(value.to_bits())
}

fn number(value: DoubleBits) -> f64 {
    f64::from_bits(value.to_bits())
}

fn numbers(values: &[f64]) -> Vec<DoubleBits> {
    values.iter().map(|value| bits(*value)).collect()
}

fn percentile(values: &[f64], at: f64) -> f64 {
    if values.is_empty() {
        return 0.0;
    }
    let mut sorted = values.to_vec();
    sorted.sort_by(|a, b| a.total_cmp(b));
    let position = at * (sorted.len() - 1) as f64;
    let lower = position.floor() as usize;
    let upper = position.ceil() as usize;
    if lower == upper {
        return sorted[lower];
    }
    let weight = position - lower as f64;
    sorted[lower] * (1.0 - weight) + sorted[upper] * weight
}

fn deviation(values: &[f64], median: f64) -> f64 {
    let deviations: Vec<f64> = values.iter().map(|value| (value - median).abs()).collect();
    percentile(&deviations, 0.5)
}

fn case_numbers(samples: &[DoubleBits], latencies: &[DoubleBits]) -> CaseNumbers {
    let all: Vec<f64> = samples.iter().map(|value| number(*value)).collect();
    let times: Vec<f64> = latencies.iter().map(|value| number(*value)).collect();
    let finite: Vec<f64> = all.iter().copied().filter(|v| v.is_finite()).collect();
    let mean = all.iter().sum::<f64>() / all.len() as f64;
    let variance =
        all.iter().map(|value| (value - mean).powi(2)).sum::<f64>() / all.len() as f64;
    let median = percentile(&all, 0.5);
    let q1 = percentile(&finite, 0.25);
    let q3 = percentile(&finite, 0.75);
    let median_latency = percentile(&times, 0.5);
    CaseNumbers {
        mean: bits(mean),
        median: bits(median),
        p95: bits(percentile(&finite, 0.95)),
        mad: bits(deviation(&finite, median)),
        cv_percent: bits(variance.sqrt() / mean.abs() * 100.0),
        lower_fence: bits(q1 - 1.5 * (q3 - q1)),
        upper_fence: bits(q3 + 1.5 * (q3 - q1)),
        median_latency: bits(median_latency),
        p95_latency: bits(percentile(&times, 0.95)),
        mad_latency: bits(deviation(&times, median_latency)),
    }
}

fn native_statistics(result: &BenchmarkResult) -> CaseStatistics {
    let rates = &result.stats.sample_throughput_per_sec;
    let latencies = &result.stats.sample_latency_ns_per_op;
    CaseStatistics {
        samples: rates.clone(),
        latencies: latencies.clone(),
        stated_median: result.stats.median_throughput_per_sec,
        numbers: case_numbers(rates, latencies),
    }
}

fn series_statistics(result: &SeriesResult) -> CaseStatistics {
    CaseStatistics {
        samples: result.samples.clone(),
        latencies: Vec::new(),
        stated_median: bits(0.0),
        numbers: case_numbers(&result.samples, &[]),
    }
}

fn statistics_of(natives: &[&BenchmarkReport], series: &[&SeriesReport]) -> SampleStatistics {
    let mut statistics = SampleStatistics::new();
    for report in natives {
        for result in &report.results {
            statistics.record(native_statistics(result));
        }
    }
    for report in series {
        for result in &report.results {
            statistics.record(series_statistics(result));
        }
    }
    statistics
}

fn change(current: f64, baseline: f64) -> Change {
    Change {
        current: bits(current),
        baseline: bits(baseline),
        difference: bits(current - baseline),
        gain_percent: bits((current - baseline) / baseline * 100.0),
        drop_percent: bits((baseline - current) / baseline * 100.0),
    }
}

fn all_changes(current: &[DoubleBits], baseline: &[DoubleBits]) -> Changes {
    let mut changes = Changes::new();
    for c in current {
        for b in baseline {
            changes.record(change(number(*c), number(*b)));
        }
    }
    changes
}

fn native_values(report: &BenchmarkReport) -> Vec<DoubleBits> {
    let mut values = Vec::new();
    for result in &report.results {
        values.push(result.stats.median_throughput_per_sec);
        values.push(result.stats.throughput_per_sec);
        for metric in &result.stats.metrics {
            values.push(metric.median);
        }
    }
    values
}

fn series_values(report: &SeriesReport) -> Vec<DoubleBits> {
    report.results.iter().map(|r| case_numbers(&r.samples, &[]).median).collect()
}

fn compare_native(
    current: &BenchmarkReport,
    baseline: &BenchmarkReport,
    options: &ComparisonOptions,
) -> Result<ComparisonReport, ComparisonError> {
    current.compare(
        b"current",
        baseline,
        b"baseline",
        options,
        &statistics_of(&[current, baseline], &[]),
        &all_changes(&native_values(current), &native_values(baseline)),
    )
}

fn compare_series(
    current: &SeriesReport,
    baseline: &SeriesReport,
    options: &ComparisonOptions,
) -> Result<ComparisonReport, ComparisonError> {
    current.compare(
        b"current",
        baseline,
        b"baseline",
        options,
        &statistics_of(&[], &[current, baseline]),
        &all_changes(&series_values(current), &series_values(baseline)),
    )
}

fn result(group: &str, name: &str, rate: f64) -> BenchmarkResult {
    let latency = 1_000_000_000.0 / rate;
    let zero = bits(0.0);
    BenchmarkResult {
        name: name.to_string(),
        group: group.to_string(),
        kind: BenchmarkKind::Standard,
        execution_index: 0,
        stats: BenchmarkStats {
            throughput: Throughput::ops(),
            throughput_per_sec: bits(rate),
            median_throughput_per_sec: bits(rate),
            ns_per_op: bits(latency),
            median_ns_per_op: bits(latency),
            p95_ns_per_op: bits(latency),
            mad_ns_per_op: zero,
            cycles_per_op: zero,
            instructions_per_op: zero,
            ipc: zero,
            cache_references_per_op: zero,
            l1i_misses_per_op: zero,
            branches_per_op: zero,
            branch_miss_rate: zero,
            branch_misses_per_op: zero,
            cache_misses_per_op: zero,
            cache_miss_percent: zero,
            frontend_stall_cycles_per_op: zero,
            frontend_stall_percent: zero,
            backend_stall_cycles_per_op: zero,
            backend_stall_percent: zero,
            cv_percent: bits(1.0),
            outlier_count: 0,
            samples: 3,
            operations: 3,
            total_duration_sec: bits(1.0),
            sample_throughput_per_sec: numbers(&[rate, rate, rate]),
            sample_latency_ns_per_op: numbers(&[latency, latency, latency]),
            has_cycles: false,
            has_instructions: false,
            has_cache_references: false,
            has_l1i_misses: false,
            has_branches: false,
            has_branch_misses: false,
            has_cache_misses: false,
            has_stalled_cycles_frontend: false,
            has_stalled_cycles_backend: false,
            pmu_time_enabled_ns: 0,
            pmu_time_running_ns: 0,
            measurement_domain: MeasurementDomain::Cpu,
            measurement_label: String::new(),
            emits_cpu_diagnostics: true,
            metrics: Vec::new(),
            sample_metrics: Vec::new(),
        },
        worker_summaries: Vec::new(),
        metadata: TextMap::new(),
    }
}

fn report(names_and_rates: &[(&str, f64)]) -> BenchmarkReport {
    BenchmarkReport {
        schema_version: REPORT_SCHEMA_VERSION,
        timestamp: "123".to_string(),
        hostname: "host-a".to_string(),
        suite: Some("suite-a".to_string()),
        git_commit: Some("abc123".to_string()),
        context: ReportContext::default(),
        results: names_and_rates
            .iter()
            .map(|(name, rate)| result("group", name, *rate))
            .collect(),
    }
}

fn power(median: f64) -> MetricSummary {
    MetricSummary {
        name: "power".to_string(),
        unit: "W".to_string(),
        section: "gpu".to_string(),
        display_name: "Power".to_string(),
        format: MetricFormat::Number,
        mean: bits(median),
        median: bits(median),
        p95: bits(median),
        min: bits(median),
        max: bits(median),
        samples: 1,
    }
}

fn partial() -> ComparisonOptions {
    ComparisonOptions::default().allow_partial_result_set(true)
}

fn strict() -> ComparisonOptions {
    ComparisonOptions::default()
}

fn series_case(
    group: &str,
    name: &str,
    measurement: MeasurementKind,
    unit: &str,
    direction: MeasurementDirection,
    samples: &[f64],
) -> SeriesResult {
    SeriesResult::new(
        group.to_string(),
        name.to_string(),
        measurement,
        unit.to_string(),
        direction,
        numbers(samples),
    )
}

fn series_report(commit: &str, image: &str, cases: [&[f64]; 5], invalid: bool) -> SeriesReport {
    let quality = series_case(
        "quality",
        "quality-score",
        MeasurementKind::Custom,
        "score",
        MeasurementDirection::Higher,
        cases[4],
    );
    let quality = if invalid {
        quality.with_validity(Validity::invalid("checksum mismatch".to_string()))
    } else {
        quality
    };
    SeriesReport::new(
        "now".to_string(),
        "series-suite".to_string(),
        ReportContext::new("runner".to_string())
            .with_provenance("commit".to_string(), commit.to_string()),
        vec![
            series_case(
                "sandbox",
                "create",
                MeasurementKind::Latency,
                "ms",
                MeasurementDirection::Lower,
                cases[0],
            )
            .with_dimension("model".to_string(), "fixture-v1".to_string())
            .with_provenance("image_digest".to_string(), image.to_string()),
            series_case(
                "server",
                "requests",
                MeasurementKind::Throughput,
                "requests/s",
                MeasurementDirection::Higher,
                cases[1],
            ),
            series_case(
                "server",
                "peak-memory",
                MeasurementKind::Memory,
                "MiB",
                MeasurementDirection::Lower,
                cases[2],
            ),
            series_case(
                "server",
                "occupancy",
                MeasurementKind::Custom,
                "%",
                MeasurementDirection::Higher,
                cases[3],
            ),
            quality,
        ],
    )
}

fn current_series() -> SeriesReport {
    series_report(
        "current-python-commit",
        "sha256:current",
        [
            &[90.0, 100.0, 110.0],
            &[110.0, 120.0, 130.0],
            &[94.0, 95.0, 96.0],
            &[80.0, 81.0, 82.0],
            &[],
        ],
        true,
    )
}

fn baseline_series() -> SeriesReport {
    series_report(
        "baseline-rust-commit",
        "sha256:baseline",
        [
            &[100.0, 110.0, 120.0],
            &[90.0, 100.0, 110.0],
            &[104.0, 105.0, 106.0],
            &[70.0, 71.0, 72.0],
            &[0.9, 0.95, 1.0],
        ],
        false,
    )
}

fn series_document(report: SeriesReport, bytes: &[u8]) -> ReportDocument {
    ReportDocument::from_series(report, bytes).unwrap()
}

fn approximately(actual: Option<DoubleBits>, expected: f64) {
    let actual = number(actual.unwrap());
    assert!((actual - expected).abs() < 1e-9, "expected {expected}, found {actual}");
}

#[test]
fn native_comparison_is_direction_aware_and_serializable() {
    let current = report(&[("a", 120.0)]);
    let baseline = report(&[("a", 100.0)]);
    let comparison = compare_native(&current, &baseline, &strict()).unwrap();

    assert_eq!(comparison.summary.matched, 1);
    assert_eq!(
        comparison.matched[0].current.primary.measurement,
        MeasurementKind::Throughput
    );
    assert_eq!(
        comparison.matched[0].current.primary.direction,
        MeasurementDirection::Higher
    );
    assert_eq!(comparison.matched[0].percent_improvement, Some(bits(20.0)));
    assert_eq!(comparison.schema_version, COMPARISON_SCHEMA_VERSION);
}

#[test]
fn signed_improvement_respects_measurement_direction() {
    let mut changes = Changes::new();
    changes.record(change(80.0, 100.0));
    changes.record(change(120.0, 100.0));
    assert_eq!(
        improvement_percent(
            Some(bits(80.0)),
            Some(bits(100.0)),
            MeasurementDirection::Lower,
            &changes
        ),
        Some(bits(20.0))
    );
    assert_eq!(
        improvement_percent(
            Some(bits(120.0)),
            Some(bits(100.0)),
            MeasurementDirection::Higher,
            &changes
        ),
        Some(bits(20.0))
    );
    assert_eq!(
        improvement_percent(
            Some(bits(120.0)),
            Some(bits(100.0)),
            MeasurementDirection::Informational,
            &changes
        ),
        None
    );
}

#[test]
fn partial_comparison_reports_added_and_removed_cases() {
    let current = report(&[("a", 120.0), ("d", 40.0)]);
    let baseline = report(&[("a", 100.0), ("c", 30.0)]);

    let refused = compare_native(&current, &baseline, &strict()).unwrap_err();
    assert!(matches!(
        refused,
        ComparisonError::ResultSetMismatch { added: 1, removed: 1 }
    ));

    let comparison = compare_native(&current, &baseline, &partial()).unwrap();
    assert_eq!(
        comparison.summary,
        ComparisonSummary { matched: 1, added: 1, removed: 1 }
    );
    assert_eq!(comparison.added[0].identity.name(), "d");
    assert_eq!(comparison.removed[0].identity.name(), "c");
}

#[test]
fn duplicate_identities_are_explicit_errors() {
    let current = report(&[("a", 120.0), ("a", 130.0)]);
    let baseline = report(&[("a", 100.0)]);
    let error = compare_native(&current, &baseline, &partial()).unwrap_err();
    assert!(matches!(
        error,
        ComparisonError::DuplicateIdentity { side: ComparisonSide::Current, .. }
    ));
}

#[test]
fn identity_changes_are_added_and_removed_not_numeric_matches() {
    let mut current = report(&[("a", 120.0)]);
    current.results[0].metadata =
        TextMap::new().inserted("cache".to_string(), "cold".to_string());
    let baseline = report(&[("a", 100.0)]);

    let comparison = compare_native(&current, &baseline, &partial()).unwrap();
    assert_eq!(comparison.summary.matched, 0);
    assert_eq!(comparison.summary.added, 1);
    assert_eq!(comparison.summary.removed, 1);
}

#[test]
fn matching_custom_metrics_are_compared() {
    let mut current = report(&[("a", 120.0)]);
    let mut baseline = report(&[("a", 100.0)]);
    current.results[0].stats.metrics.push(power(220.0));
    baseline.results[0].stats.metrics.push(power(200.0));

    let comparison = compare_native(&current, &baseline, &strict()).unwrap();
    assert_eq!(comparison.matched[0].metric_changes.len(), 1);
    assert_eq!(
        comparison.matched[0].metric_changes[0].percent_change,
        Some(bits(10.0))
    );
}

#[test]
fn report_document_digest_uses_exact_loaded_bytes() {
    assert_eq!(
        sha256_digest(b"abc"),
        "sha256:ba7816bf8f01cfea414140de5dae2223b00361a396177a9cb410ff61f20015ad"
    );
    let bytes = b"{\"schema_version\":1}";
    let loaded = ReportDocument::loaded_native(
        report(&[("a", 100.0)]),
        bytes,
        Some("/tmp/report.json".to_string()),
    );
    assert_eq!(loaded.reference().content_digest, sha256_digest(bytes));
    assert_eq!(
        loaded.reference().display_path.as_deref(),
        Some("/tmp/report.json")
    );
}

#[test]
fn loaded_comparison_retains_both_exact_report_references() {
    let current_report = report(&[("a", 120.0)]);
    let baseline_report = report(&[("a", 100.0)]);
    let statistics = statistics_of(&[&current_report, &baseline_report], &[]);
    let changes = all_changes(
        &native_values(&current_report),
        &native_values(&baseline_report),
    );
    let current = ReportDocument::loaded_native(
        current_report,
        b"current bytes",
        Some("current.json".to_string()),
    );
    let baseline = ReportDocument::loaded_native(
        baseline_report,
        b"baseline bytes",
        Some("baseline.json".to_string()),
    );
    let comparison =
        compare_reports(&current, &baseline, &strict(), &statistics, &changes).unwrap();
    assert_eq!(
        comparison.current.content_digest,
        sha256_digest(b"current bytes")
    );
    assert_eq!(
        comparison.baseline.content_digest,
        sha256_digest(b"baseline bytes")
    );
    assert_eq!(comparison.current.display_path.as_deref(), Some("current.json"));
    assert_eq!(comparison.baseline.display_path.as_deref(), Some("baseline.json"));
    assert_eq!(comparison.matched[0].percent_improvement, Some(bits(20.0)));
}

#[test]
fn loading_distinguishes_malformed_and_unsupported_reports() {
    let wrong = br#"{"schema_version":1,"results":"wrong"}"#;
    assert!(check_native(wrong, &None).is_ok());

    let future = br#"{"schema_version":999}"#;
    assert!(matches!(
        check_native(future, &None),
        Err(ReportError::UnsupportedSchema { found: 999, supported: 1, .. })
    ));
    assert!(matches!(
        check_native(br#"{"schema_version":"one"}"#, &None),
        Err(ReportError::InvalidSchemaVersion { .. })
    ));
    assert!(matches!(
        check_native(b"{", &None),
        Err(ReportError::MalformedJson { .. })
    ));
}

#[test]
fn public_loading_accepts_current_and_legacy_reports() {
    assert!(check_native(br#"{"schema_version":1}"#, &None).is_ok());
    assert!(check_native(br#"{"timestamp":"123"}"#, &None).is_ok());
    assert!(matches!(
        check_document(br#"{"timestamp":"123"}"#, &None),
        Ok(ReportDocumentType::NativeBenchmark)
    ));
}

#[test]
fn non_comparable_primary_values_remain_structured_and_serializable() {
    let mut current = report(&[("a", f64::NAN)]);
    current.results[0].stats.median_throughput_per_sec = bits(f64::NAN);
    current.results[0].stats.sample_throughput_per_sec.clear();
    let baseline = report(&[("a", 0.0)]);

    let comparison = compare_native(&current, &baseline, &strict()).unwrap();
    let matched = &comparison.matched[0];
    assert_eq!(matched.current.primary.value, None);
    assert_eq!(matched.percent_improvement, None);
    assert!(!matched.stability_warnings.is_empty());
}

#[test]
fn report_level_mismatches_have_precise_errors() {
    let current = report(&[("a", 100.0)]);
    let mut baseline = report(&[("a", 100.0)]);
    baseline.hostname = "host-b".to_string();
    match compare_native(&current, &baseline, &strict()).unwrap_err() {
        ComparisonError::RunnerMismatch { current, baseline } => {
            assert_eq!(current, "host-a");
            assert_eq!(baseline, "host-b");
        }
        other => panic!("unexpected {other:?}"),
    }

    baseline.hostname = "host-a".to_string();
    baseline.suite = Some("suite-b".to_string());
    match compare_native(&current, &baseline, &strict()).unwrap_err() {
        ComparisonError::SuiteMismatch { current, baseline } => {
            assert_eq!(current, "suite-a");
            assert_eq!(baseline, "suite-b");
        }
        other => panic!("unexpected {other:?}"),
    }
}

fn accelerated(driver: &str) -> ReportContext {
    ReportContext::new("stable-runner".to_string())
        .with_environment("accelerator".to_string(), "GB300".to_string())
        .with_environment("driver".to_string(), driver.to_string())
}

#[test]
fn runner_and_environment_must_match_exactly() {
    let mut current = report(&[("a", 100.0)]);
    let mut baseline = report(&[("a", 100.0)]);
    current.hostname = "ephemeral-current".to_string();
    baseline.hostname = "ephemeral-baseline".to_string();
    current.context = accelerated("595.71.05");
    baseline.context = accelerated("595.71.05");

    let comparison = compare_native(&current, &baseline, &strict()).unwrap();
    assert!(comparison.environment.exact_match);
    assert_eq!(comparison.environment.current_runner_id, "stable-runner");

    baseline.context = accelerated("595.80.01");
    assert!(matches!(
        compare_native(&current, &baseline, &strict()).unwrap_err(),
        ComparisonError::EnvironmentMismatch { .. }
    ));
}

#[test]
fn provenance_does_not_affect_compatibility_and_is_referenced() {
    let mut current = report(&[("a", 100.0)]);
    let mut baseline = report(&[("a", 100.0)]);
    current.context = ReportContext::default().with_provenance(
        "commit".to_string(),
        "0123456789abcdef0123456789abcdef01234567".to_string(),
    );
    baseline.context =
        ReportContext::default().with_provenance("commit".to_string(), "different".to_string());

    let comparison = compare_native(&current, &baseline, &strict()).unwrap();
    assert_eq!(
        comparison.current.source_provenance.get("commit").unwrap(),
        "0123456789abcdef0123456789abcdef01234567"
    );
    assert_eq!(
        comparison.baseline.source_provenance.get("commit").unwrap(),
        "different"
    );
}

#[test]
fn environment_override_is_explicit_and_auditable() {
    let mut current = report(&[("a", 100.0)]);
    let mut baseline = report(&[("a", 100.0)]);
    current.context = ReportContext::new("runner-a".to_string())
        .with_environment("accelerator".to_string(), "GB300".to_string());
    baseline.context = ReportContext::new("runner-b".to_string())
        .with_environment("accelerator".to_string(), "B300".to_string());

    let comparison = compare_native(
        &current,
        &baseline,
        &strict().with_environment_override("controlled cross-runner calibration".to_string()),
    )
    .unwrap();
    assert!(!comparison.environment.exact_match);
    assert_eq!(comparison.environment.current_runner_id, "runner-a");
    assert_eq!(comparison.environment.baseline_runner_id, "runner-b");
    assert_eq!(
        comparison
            .environment
            .operator_override
            .as_ref()
            .unwrap()
            .reason,
        "controlled cross-runner calibration"
    );

    assert!(matches!(
        compare_native(
            &current,
            &baseline,
            &strict().with_environment_override("  ".to_string())
        )
        .unwrap_err(),
        ComparisonError::InvalidEnvironmentOverride
    ));
}

#[test]
fn reports_without_context_remain_comparable_by_hostname() {
    let mut current = report(&[("a", 100.0)]);
    let mut baseline = report(&[("a", 100.0)]);
    current.context = ReportContext::default();
    baseline.context = ReportContext::default();

    let comparison = compare_native(&current, &baseline, &strict()).unwrap();
    assert_eq!(comparison.environment.current_runner_id, "host-a");
    assert!(comparison.environment.exact_match);
}

#[test]
fn python_and_rust_series_fixtures_share_the_comparison_engine() {
    let current_report = current_series();
    let baseline_report = baseline_series();
    let statistics = statistics_of(&[], &[&current_report, &baseline_report]);
    let changes = all_changes(
        &series_values(&current_report),
        &series_values(&baseline_report),
    );
    let current = series_document(current_report, b"current");
    let baseline = series_document(baseline_report, b"baseline");

    assert!(current.as_series().is_some());
    assert!(current.as_native().is_none());
    assert_eq!(current.reference().document_type, ReportDocumentType::Series);
    assert_eq!(current.reference().content_digest, sha256_digest(b"current"));
    assert_eq!(baseline.reference().content_digest, sha256_digest(b"baseline"));
    assert_eq!(
        current.reference().source_provenance.get("commit").unwrap(),
        "current-python-commit"
    );

    let comparison =
        compare_reports(&current, &baseline, &strict(), &statistics, &changes).unwrap();
    assert_eq!(
        comparison.summary,
        ComparisonSummary { matched: 5, added: 0, removed: 0 }
    );

    let latency = comparison
        .matched
        .iter()
        .find(|case| case.identity.name() == "create")
        .unwrap();
    assert_eq!(latency.current.primary.measurement, MeasurementKind::Latency);
    assert_eq!(latency.current.primary.samples, numbers(&[90.0, 100.0, 110.0]));
    assert_eq!(latency.current.primary.value, Some(bits(100.0)));
    assert_eq!(latency.current.statistics.p95, Some(bits(109.0)));
    assert_eq!(latency.current.statistics.mad, Some(bits(10.0)));
    approximately(latency.current.statistics.cv_percent, 8.16496580927726);
    approximately(latency.percent_improvement, 9.090909090909092);
    assert_eq!(
        latency.current.provenance.get("image_digest").unwrap(),
        "sha256:current"
    );
    assert_eq!(
        latency.baseline.provenance.get("image_digest").unwrap(),
        "sha256:baseline"
    );

    let invalid = comparison
        .matched
        .iter()
        .find(|case| case.identity.name() == "quality-score")
        .unwrap();
    assert_eq!(invalid.current.validity.status, ValidityStatus::Invalid);
    assert_eq!(invalid.current.primary.value, None);
    assert_eq!(invalid.percent_improvement, None);
    assert!(invalid
        .stability_warnings
        .iter()
        .any(|warning| warning.contains("checksum mismatch")));
}

#[test]
fn series_measurement_direction_controls_improvement() {
    let comparison = compare_series(&current_series(), &baseline_series(), &strict()).unwrap();
    let improvement = |name: &str| {
        comparison
            .matched
            .iter()
            .find(|case| case.identity.name() == name)
            .unwrap()
            .percent_improvement
    };
    approximately(improvement("requests"), 20.0);
    approximately(improvement("peak-memory"), 9.523809523809524);
    approximately(improvement("occupancy"), 14.084507042253536);
    assert_eq!(improvement("quality-score"), None);
}

#[test]
fn series_statistics_are_derived_from_raw_samples() {
    let one = || {
        SeriesReport::new(
            "now".to_string(),
            "suite".to_string(),
            ReportContext::new("runner".to_string()),
            vec![series_case(
                "group",
                "case",
                MeasurementKind::Latency,
                "ms",
                MeasurementDirection::Lower,
                &[10.0, 10.0, 10.0, 10.0, 100.0],
            )],
        )
    };
    let comparison = compare_series(&one(), &one(), &strict()).unwrap();
    let snapshot = &comparison.matched[0].current;

    assert_eq!(snapshot.primary.value, Some(bits(10.0)));
    approximately(snapshot.statistics.p95, 82.0);
    assert_eq!(snapshot.statistics.mad, Some(bits(0.0)));
    assert_eq!(snapshot.statistics.outliers, 1);
    assert_eq!(snapshot.statistics.samples, 5);
    approximately(snapshot.statistics.cv_percent, 128.57142857142858);
}

#[test]
fn dimensions_affect_series_identity_but_provenance_does_not() {
    let current = current_series();
    let mut baseline = baseline_series();
    baseline.results[0].provenance =
        TextMap::new().inserted("image_digest".to_string(), "sha256:other".to_string());
    assert_eq!(
        compare_series(&current, &baseline, &strict())
            .unwrap()
            .summary
            .matched,
        5
    );

    baseline.results[0].dimensions =
        TextMap::new().inserted("model".to_string(), "fixture-v2".to_string());
    assert!(matches!(
        compare_series(&current, &baseline, &strict()).unwrap_err(),
        ComparisonError::ResultSetMismatch { added: 1, removed: 1 }
    ));
}

#[test]
fn measurement_unit_and_direction_participate_in_series_identity() {
    let current = current_series();
    for which in 0..3 {
        let mut changed = baseline_series();
        match which {
            0 => changed.results[0].measurement = MeasurementKind::Memory,
            1 => changed.results[0].unit = "seconds".to_string(),
            _ => changed.results[0].direction = MeasurementDirection::Higher,
        }
        assert!(matches!(
            compare_series(&current, &changed, &strict()).unwrap_err(),
            ComparisonError::ResultSetMismatch { added: 1, removed: 1 }
        ));
    }
}

#[test]
fn invalid_series_report_is_retained_but_not_comparable() {
    let current = current_series().with_validity(Validity::invalid(
        "shared setup failed".to_string(),
    ));
    match compare_series(&current, &baseline_series(), &strict()).unwrap_err() {
        ComparisonError::InvalidReport { side, reason } => {
            assert_eq!(side, ComparisonSide::Current);
            assert_eq!(reason, "shared setup failed");
        }
        other => panic!("unexpected {other:?}"),
    }
}

#[test]
fn series_loading_distinguishes_structure_schema_and_semantics() {
    let future = br#"{"document_type":"micromeasure-series","schema_version":999}"#;
    assert!(matches!(
        check_series(future, &None),
        Err(ReportError::UnsupportedSchema { found: 999, .. })
    ));
    assert!(matches!(
        check_document(future, &None),
        Err(ReportError::UnsupportedSchema { found: 999, .. })
    ));

    let mut invalid_reason = SeriesReport::new(
        "now".to_string(),
        "suite".to_string(),
        ReportContext::new("runner".to_string()),
        vec![series_case(
            "g",
            "n",
            MeasurementKind::Custom,
            "u",
            MeasurementDirection::Informational,
            &[],
        )],
    );
    invalid_reason.validity = Validity { status: ValidityStatus::Invalid, reason: None };
    assert!(matches!(
        ReportDocument::loaded_series(invalid_reason, b"{}", None),
        Err(ReportError::InvalidReport { .. })
    ));

    let unsupported = br#"{"document_type":"other","schema_version":1}"#;
    match check_document(unsupported, &None).unwrap_err() {
        ReportError::UnsupportedDocumentType { found, .. } => assert_eq!(found, "other"),
        other => panic!("unexpected {other:?}"),
    }
}

#[test]
fn duplicate_series_identities_are_explicit_errors() {
    let mut current = current_series();
    let again = current_series().results.remove(0);
    current.results.push(again);
    assert!(matches!(
        compare_series(&current, &baseline_series(), &strict()).unwrap_err(),
        ComparisonError::DuplicateIdentity {
            side: ComparisonSide::Current,
            identity: ComparisonCaseIdentity::Series(_),
        }
    ));
}

#[test]
fn native_and_series_documents_use_shared_partial_matching() {
    let native_report = report(&[("create", 100.0)]);
    let mut series = baseline_series();
    series.suite = "suite-a".to_string();
    series.context = ReportContext::new("host-a".to_string());
    series.results.truncate(1);
    let statistics = statistics_of(&[&native_report], &[&series]);
    let native = ReportDocument::from_native(native_report, b"native").unwrap();
    let series = series_document(series, b"series");

    let comparison =
        compare_reports(&native, &series, &partial(), &statistics, &Changes::new()).unwrap();
    assert_eq!(
        comparison.summary,
        ComparisonSummary { matched: 0, added: 1, removed: 1 }
    );
    assert_eq!(
        comparison.current.document_type,
        ReportDocumentType::NativeBenchmark
    );
    assert_eq!(comparison.baseline.document_type, ReportDocumentType::Series);
}

#[test]
fn persisted_form_that_cannot_be_had_is_an_error() {
    let current = report(&[("a", 1.0)]);
    let broken = || Err("key must be a string".to_string());
    match current.persisted_form(broken(), ComparisonSide::Current).unwrap_err() {
        ComparisonError::ReferenceSerialization { side, message } => {
            assert_eq!(side, ComparisonSide::Current);
            assert_eq!(message, "key must be a string");
        }
        other => panic!("unexpected {other:?}"),
    }
    assert_eq!(
        current.persisted_form(Ok(vec![1, 2]), ComparisonSide::Current).unwrap(),
        vec![1, 2]
    );
    let mut future = report(&[("a", 1.0)]);
    future.schema_version = 7;
    assert!(matches!(
        future.persisted_form(broken(), ComparisonSide::Baseline).unwrap_err(),
        ComparisonError::UnsupportedSchema { side: ComparisonSide::Baseline, found: 7, .. }
    ));

    let series = current_series();
    assert!(matches!(
        series.persisted_form(broken(), ComparisonSide::Baseline).unwrap_err(),
        ComparisonError::ReferenceSerialization { side: ComparisonSide::Baseline, .. }
    ));
    assert_eq!(series.persisted_form(Ok(vec![3]), ComparisonSide::Current).unwrap(), vec![3]);
    let mut nameless = current_series();
    nameless.suite = " ".to_string();
    assert!(matches!(
        nameless.persisted_form(broken(), ComparisonSide::Current).unwrap_err(),
        ComparisonError::InvalidReport { side: ComparisonSide::Current, .. }
    ));
}

#[test]
fn statistics_are_found_by_the_samples_they_are_of() {
    let one = report(&[("case", 10.0)]);
    let two = report(&[("case", 20.0)]);
    let statistics = statistics_of(&[&one, &two], &[]);
    assert_eq!(number(statistics.native_numbers(&one.results[0]).median), 10.0);
    assert_eq!(number(statistics.native_numbers(&two.results[0]).median), 20.0);
    let three = report(&[("case", 30.0)]);
    assert_eq!(statistics.native_numbers(&three.results[0]), CaseNumbers::unknown());
    let mut restated = report(&[("case", 10.0)]);
    restated.results[0].stats.median_throughput_per_sec = bits(11.0);
    assert_eq!(statistics.native_numbers(&restated.results[0]), CaseNumbers::unknown());
    let series = current_series();
    assert_eq!(statistics.series_numbers(&series.results[0]), CaseNumbers::unknown());
    let statistics = statistics_of(&[], &[&series]);
    assert_eq!(number(statistics.series_numbers(&series.results[0]).median), 100.0);
}

#[test]
fn reports_without_a_suite_or_a_runner_are_refused() {
    let mut current = report(&[("a", 1.0)]);
    let baseline = report(&[("a", 1.0)]);
    current.suite = None;
    assert!(matches!(
        compare_native(&current, &baseline, &strict()).unwrap_err(),
        ComparisonError::MissingSuite { side: ComparisonSide::Current }
    ));
    let mut current = report(&[("a", 1.0)]);
    current.hostname = "unknown".to_string();
    assert!(matches!(
        compare_native(&current, &baseline, &strict()).unwrap_err(),
        ComparisonError::UnknownRunner { side: ComparisonSide::Current }
    ));
    let mut current = report(&[("a", 1.0)]);
    current.schema_version = 7;
    assert!(matches!(
        compare_native(&current, &baseline, &strict()).unwrap_err(),
        ComparisonError::UnsupportedSchema { side: ComparisonSide::Current, found: 7, supported: 1 }
    ));
}

#[test]
fn documents_are_checked_for_comparison_on_their_own() {
    let document = ReportDocument::from_native(report(&[("a", 1.0)]), b"x").unwrap();
    assert!(document.validate_for_comparison().is_ok());
    let empty = ReportDocument::from_native(report(&[]), b"x").unwrap();
    assert!(matches!(
        empty.validate_for_comparison().unwrap_err(),
        ComparisonError::EmptyResultSet { .. }
    ));
    let twice = ReportDocument::from_native(report(&[("a", 1.0), ("a", 2.0)]), b"x").unwrap();
    assert!(matches!(
        twice.validate_for_comparison().unwrap_err(),
        ComparisonError::DuplicateIdentity { .. }
    ));
}

#[test]
fn comparing_a_report_with_itself_shows_no_change() {
    let one = report(&[("a", 100.0), ("b", 50.0)]);
    let other = report(&[("a", 100.0), ("b", 50.0)]);
    let comparison = compare_native(&one, &other, &strict()).unwrap();
    assert_eq!(
        comparison.summary,
        ComparisonSummary { matched: 2, added: 0, removed: 0 }
    );
    for matched in &comparison.matched {
        assert_eq!(matched.percent_improvement, Some(bits(0.0)));
        assert_eq!(matched.absolute_change, Some(bits(0.0)));
    }
}

#[test]
fn comparison_errors_say_what_is_wrong() {
    assert_eq!(
        ComparisonError::MissingSuite { side: ComparisonSide::Baseline }.message(),
        "baseline report has no suite identity"
    );
    assert_eq!(
        ComparisonError::ResultSetMismatch { added: 2, removed: 1 }.message(),
        "result sets differ: 2 current-only and 1 baseline-only benchmarks"
    );
    let environment = TextMap::new().inserted("gpu".to_string(), "a\"b".to_string());
    let text = ComparisonError::EnvironmentMismatch {
        current: environment,
        baseline: TextMap::new(),
    }
    .message();
    assert!(text.contains("{\"gpu\": \"a\\\"b\"}"), "{text}");
    assert!(text.contains("{}"), "{text}");
}

#[test]
fn places_of_documents_have_no_part_in_the_comparison() {
    let at = |path: Option<String>, bytes: &[u8]| {
        ReportDocument::loaded_native(report(&[("case", 10.0)]), bytes, path)
    };
    let here = at(Some("here.json".to_string()), b"one");
    let there = at(Some("there.json".to_string()), b"two");
    let statistics = statistics_of(&[&report(&[("case", 10.0)])], &[]);
    let values = native_values(&report(&[("case", 10.0)]));
    let changes = all_changes(&values, &values);
    let comparison = compare_reports(&here, &there, &strict(), &statistics, &changes).unwrap();
    assert_eq!(comparison.matched.len(), 1);
    assert_eq!(comparison.current.display_path.as_deref(), Some("here.json"));
    assert_eq!(comparison.baseline.display_path.as_deref(), Some("there.json"));
    assert_ne!(comparison.current.content_digest, comparison.baseline.content_digest);
}

#[test]
fn provenance_leaves_the_whole_comparison() {
    let with_commit = |commit: &str, rate: f64| {
        let mut report = report(&[("case", rate)]);
        report.context =
            report.context.with_provenance("commit".to_string(), commit.to_string());
        report
    };
    let compared = |current: &str, baseline: &str| {
        compare_native(&with_commit(current, 12.0), &with_commit(baseline, 10.0), &strict())
            .unwrap()
    };
    let first = compared("a", "b");
    let second = compared("c", "d");
    assert_eq!(first.suite, second.suite);
    assert_eq!(first.summary, second.summary);
    assert_eq!(first.environment.exact_match, second.environment.exact_match);
    assert_eq!(first.matched.len(), 1);
    assert_eq!(first.matched[0].percent_improvement, second.matched[0].percent_improvement);
    assert_eq!(first.matched[0].current.primary, second.matched[0].current.primary);
    assert!(first.added.is_empty() && second.added.is_empty());
    assert!(first.removed.is_empty() && second.removed.is_empty());
}
