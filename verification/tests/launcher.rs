//! Contexts, arguments and settings of a benchmark program.
use micromeasure::launcher::{
    baseline_display_path, comparison_notice, filter_notice, report_destination, reporting_steps,
    requested_context, ReportDestination, ReportingStep,
};
use micromeasure::{
    benchmark_filter_from_args, benchmark_options_with_default_suite, BenchmarkMainOptions,
    BenchmarkReport, ComparisonPolicy, ComparisonSummary, ContextError, Nanos, ReportContext,
    ReportDocument, TextMap, BASELINE_PATH_ENVIRONMENT, CONTEXT_FILE_ENVIRONMENT,
    OUTPUT_PATH_ENVIRONMENT, REPORT_SCHEMA_VERSION,
};

fn args(list: &[&str]) -> Vec<String> {
    list.iter().map(|arg| arg.to_string()).collect()
}

fn report() -> BenchmarkReport {
    BenchmarkReport {
        schema_version: REPORT_SCHEMA_VERSION,
        timestamp: "123".to_string(),
        hostname: "host-a".to_string(),
        suite: Some("suite-a".to_string()),
        git_commit: None,
        context: ReportContext::new("runner-a".to_string()),
        results: Vec::new(),
    }
}

#[test]
fn explicit_output_takes_precedence_over_save_results() {
    match report_destination(Some("artifacts/report.json".to_string()), false) {
        ReportDestination::Explicit(path) => assert_eq!(path, "artifacts/report.json"),
        other => panic!("unexpected {other:?}"),
    }
}

#[test]
fn output_follows_save_results_without_an_explicit_path() {
    assert!(matches!(report_destination(None, true), ReportDestination::Default));
    assert!(matches!(report_destination(None, false), ReportDestination::Disabled));
}

#[test]
fn call_site_suite_is_stable_and_preserves_explicit_override() {
    let options = benchmark_options_with_default_suite(BenchmarkMainOptions::default(), "gpu");
    assert_eq!(options.suite.as_deref(), Some("gpu"));

    let explicit = BenchmarkMainOptions {
        suite: Some("nightly".to_string()),
        ..BenchmarkMainOptions::default()
    };
    let options = benchmark_options_with_default_suite(explicit, "gpu");
    assert_eq!(options.suite.as_deref(), Some("nightly"));
}

#[test]
fn default_options_save_and_compare_with_the_latest_session() {
    let options = BenchmarkMainOptions::default();
    assert!(options.save_results);
    assert_eq!(options.comparison_policy, ComparisonPolicy::LatestCompatible);
    assert!(options.explicit_comparison.allow_partial_result_set);
    assert_eq!(options.runtime.warm_up_duration, Nanos::from_secs(1));
    assert_eq!(options.runtime.benchmark_duration, Nanos::from_secs(5));
    assert_eq!(options.runtime.min_samples, 20);
    assert_eq!(options.runtime.max_samples, 100);
    assert_eq!(OUTPUT_PATH_ENVIRONMENT, "MICROMEASURE_OUTPUT");
    assert_eq!(CONTEXT_FILE_ENVIRONMENT, "MICROMEASURE_CONTEXT_FILE");
    assert_eq!(BASELINE_PATH_ENVIRONMENT, "MICROMEASURE_BASELINE");
}

#[test]
fn explicit_context_file_takes_precedence_over_programmatic_context() {
    let from_file = ReportContext::new("file-runner".to_string())
        .with_environment("gpu".to_string(), "GB300".to_string());
    let context = requested_context(
        Some(Ok(from_file)),
        Some(ReportContext::new("programmatic-runner".to_string())),
    )
    .unwrap()
    .unwrap();
    assert_eq!(context.runner_id, "file-runner");
    assert_eq!(context.environment.get("gpu").unwrap(), "GB300");
}

#[test]
fn invalid_programmatic_context_is_rejected_before_running() {
    let context =
        ReportContext::default().with_provenance("commit".to_string(), " ".to_string());
    assert!(requested_context(None, Some(context)).is_err());
    assert!(requested_context(None, None).unwrap().is_none());
}

#[test]
fn explicit_baseline_loads_the_exact_requested_report() {
    let baseline = ReportDocument::loaded_native(
        report(),
        b"{}",
        Some("/tmp/baseline.json".to_string()),
    );
    assert_eq!(
        baseline.reference().display_path.as_deref(),
        Some("/tmp/baseline.json")
    );
    assert_eq!(baseline_display_path(&baseline), "/tmp/baseline.json");
    let memory = ReportDocument::from_native(report(), b"{}").unwrap();
    assert_eq!(baseline_display_path(&memory), "<in-memory>");
}

#[test]
fn filters_come_from_the_arguments() {
    assert_eq!(benchmark_filter_from_args(&args(&[])), None);
    assert_eq!(benchmark_filter_from_args(&args(&["bench"])), None);
    assert_eq!(
        benchmark_filter_from_args(&args(&["bench", "--bench", "map"])).as_deref(),
        Some("map")
    );
    assert_eq!(
        benchmark_filter_from_args(&args(&["bench", "x", "--", "map", "y"])).as_deref(),
        Some("map")
    );
    assert_eq!(benchmark_filter_from_args(&args(&["bench", "x", "--"])), None);
    assert_eq!(
        benchmark_filter_from_args(&args(&["target/bench-1", "bench", "map"])).as_deref(),
        Some("map")
    );
}

#[test]
fn notices_say_what_runs_and_what_was_compared() {
    assert_eq!(
        filter_notice("map", &Some("map, list".to_string())),
        vec![
            "Running benchmarks matching filter: 'map'".to_string(),
            "Available filters: map, list".to_string(),
        ]
    );
    assert_eq!(filter_notice("map", &None).len(), 1);
    assert_eq!(
        comparison_notice(&ComparisonSummary { matched: 3, added: 0, removed: 12 }),
        "📋 Structured comparison: 3 matched, 0 added, 12 removed"
    );
}

#[test]
fn supplied_provenance_wins_over_local_defaults() {
    let defaults = TextMap::new()
        .inserted("commit".to_string(), "local".to_string())
        .inserted("rust_toolchain".to_string(), "rustc test".to_string());
    let context = ReportContext::new("runner".to_string())
        .with_provenance("commit".to_string(), "trusted".to_string())
        .resolved("fallback", &defaults);

    assert_eq!(context.provenance.get("commit").unwrap(), "trusted");
    assert_eq!(context.provenance.get("rust_toolchain").unwrap(), "rustc test");
    assert_eq!(context.runner_id, "runner");
}

#[test]
fn omitted_runner_resolves_to_the_local_hostname() {
    let context = ReportContext::default().resolved("physical-node", &TextMap::new());
    assert_eq!(context.runner_id, "physical-node");
}

#[test]
fn explicit_context_rejects_empty_map_values() {
    let context =
        ReportContext::default().with_environment("gpu".to_string(), String::new());
    let error = context.validate_at(Some("context.json")).unwrap_err();
    assert!(matches!(&error, ContextError::Invalid { .. }));
    assert!(error.message().contains("context.json"), "{}", error.message());
}

#[test]
fn explicit_context_may_use_the_default_runner() {
    let context = ReportContext::default()
        .with_environment("profile".to_string(), "release".to_string());
    assert!(context.validate().is_ok());
    assert!(context.runner_id.is_empty());
    assert_eq!(context.environment.get("profile").unwrap(), "release");
}

#[test]
fn reports_are_kept_before_a_named_comparison() {
    assert_eq!(
        reporting_steps(true),
        vec![ReportingStep::Persist, ReportingStep::Compare, ReportingStep::Summarize]
    );
    assert_eq!(
        reporting_steps(false),
        vec![ReportingStep::Summarize, ReportingStep::Persist]
    );
}
