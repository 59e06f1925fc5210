//! Sessions: what is collected, what is compatible, and what a summary says.
use micromeasure::bench::report::{
    format_metric_value, format_small_rate, pmu_byline, progress_bar, render_concurrent_results,
    render_custom_metrics, render_diagnostics, render_standard_results, shows_progress, PmuTimes,
};
use micromeasure::comparison::document::{built_target_directory, named_directory, JsonField};
use micromeasure::comparison::engine::Change;
use micromeasure::session::changes::{
    comparative_diagnosis, format_percent_change, measure_shifts, pmu_ipc, safe_improvement_percent,
    safe_percent_change,
};
use micromeasure::session::store::{
    commit_name, comparison_session, default_suite_name, is_report_file_name, machine_name,
    report_directory, report_file_name, KeptSession,
};
use micromeasure::session::summary::{
    counter_deltas, fastest_and_slowest, tally_changes, EarlierSession, Figures, SummaryInput,
};
use micromeasure::session::{
    finite_mops, matching_previous_result, session_is_compatible, BenchmarkSession,
};
use micromeasure::{
    BenchmarkKind, BenchmarkReport, BenchmarkResult, BenchmarkStats, Changes, ComparisonPolicy,
    DoubleBits, MeasurementDomain, MetricFormat, MetricSummary, NumberStyle, NumberTexts, ReportContext,
    TextMap, Throughput, WorkerCounterSummary, WorkerSummary, REPORT_SCHEMA_VERSION,
};

fn bits(value: f64) -> DoubleBits {
    DoubleBits::from_bits(value.to_bits())
}

fn change(current: f64, baseline: f64) -> Change {
    Change {
        current: bits(current),
        baseline: bits(baseline),
        difference: bits(current - baseline),
        gain_percent: bits((current - baseline) / baseline * 100.0),
        drop_percent: bits((baseline - current) / baseline * 100.0),
    }
}

fn changes(values: &[f64]) -> Changes {
    let mut changes = Changes::new();
    for current in values {
        for previous in values {
            changes.record(change(*current, *previous));
        }
    }
    changes
}

fn texts(values: &[f64]) -> NumberTexts {
    let mut texts = NumberTexts::new();
    for value in values {
        for places in 0..7u8 {
            let digits = places as usize;
            texts.record(
                bits(*value),
                NumberStyle::Fixed { places },
                format!("{value:.digits$}"),
            );
            texts.record(
                bits(*value),
                NumberStyle::Signed { places },
                format!("{value:+.digits$}"),
            );
        }
        texts.record(bits(*value), NumberStyle::Scientific, format!("{value:.3e}"));
        texts.record(bits(*value), NumberStyle::Whole, format!("{value:.0}"));
        texts.record(bits(*value), NumberStyle::Rate, format!("{value:.2}"));
    }
    texts
}

fn stats(mops: f64) -> BenchmarkStats {
    let (zero, one) = (bits(0.0), bits(1.0));
    BenchmarkStats {
        throughput: Throughput::ops(),
        throughput_per_sec: bits(mops * 1e6),
        median_throughput_per_sec: bits(mops * 1e6),
        ns_per_op: one,
        median_ns_per_op: one,
        p95_ns_per_op: one,
        mad_ns_per_op: zero,
        cycles_per_op: one,
        instructions_per_op: one,
        ipc: one,
        cache_references_per_op: one,
        l1i_misses_per_op: zero,
        branches_per_op: one,
        branch_miss_rate: zero,
        branch_misses_per_op: zero,
        cache_misses_per_op: zero,
        cache_miss_percent: zero,
        frontend_stall_cycles_per_op: zero,
        frontend_stall_percent: zero,
        backend_stall_cycles_per_op: zero,
        backend_stall_percent: zero,
        cv_percent: zero,
        outlier_count: 0,
        samples: 1,
        operations: 1,
        total_duration_sec: one,
        sample_throughput_per_sec: vec![bits(mops * 1e6)],
        sample_latency_ns_per_op: vec![one],
        has_cycles: false,
        has_instructions: false,
        has_cache_references: false,
        has_l1i_misses: false,
        has_branches: false,
        has_branch_misses: false,
        has_cache_misses: false,
        has_stalled_cycles_frontend: false,
        has_stalled_cycles_backend: false,
        pmu_time_enabled_ns: 0,
        pmu_time_running_ns: 0,
        measurement_domain: MeasurementDomain::Cpu,
        measurement_label: String::new(),
        emits_cpu_diagnostics: true,
        metrics: Vec::new(),
        sample_metrics: Vec::new(),
    }
}

fn make_result(name: &str, mops: f64) -> BenchmarkResult {
    BenchmarkResult {
        name: name.to_string(),
        group: "test".to_string(),
        kind: BenchmarkKind::Standard,
        execution_index: 0,
        stats: stats(mops),
        worker_summaries: Vec::new(),
        metadata: TextMap::new(),
    }
}

fn make_session(hostname: &str, suite: Option<&str>, names: &[&str]) -> BenchmarkReport {
    BenchmarkReport {
        schema_version: REPORT_SCHEMA_VERSION,
        timestamp: "123".to_string(),
        hostname: hostname.to_string(),
        suite: suite.map(str::to_string),
        git_commit: Some("abc123".to_string()),
        context: ReportContext::default(),
        results: names.iter().map(|name| make_result(name, 1.0)).collect(),
    }
}

fn figures(mops: f64) -> Figures {
    Figures {
        mops: bits(mops),
        sample_mean_mops: bits(mops),
        sample_median_latency: bits(1.0),
        sample_p95_latency: bits(1.0),
        sample_mad_latency: bits(0.0),
    }
}

#[test]
fn safe_percent_change_handles_invalid_input() {
    let known = changes(&[10.0, 12.0]);
    let percent = |current: f64, previous: f64| {
        safe_percent_change(bits(current), bits(previous), &known)
    };
    assert_eq!(percent(10.0, 0.0), None);
    assert_eq!(percent(f64::NAN, 10.0), None);
    assert_eq!(percent(10.0, f64::INFINITY), None);
    assert_eq!(percent(12.0, 10.0), Some(bits(20.0)));
}

#[test]
fn format_percent_change_handles_none_and_threshold() {
    let texts = texts(&[0.3, 3.2, -3.2]);
    assert_eq!(format_percent_change(false, None, &texts), "n/a");
    assert_eq!(format_percent_change(false, Some(bits(0.3)), &texts), "~0%");
    assert_eq!(format_percent_change(false, Some(bits(3.2)), &texts), "+3.2%");
    assert_eq!(format_percent_change(false, Some(bits(-3.2)), &texts), "-3.2%");
    assert_eq!(
        format_percent_change(true, Some(bits(3.2)), &texts),
        "\x1b[32m+3.2%\x1b[0m"
    );
}

#[test]
fn finite_mops_filters_out_non_finite_values() {
    assert_eq!(finite_mops(bits(1.0)), Some(bits(1.0)));
    assert_eq!(finite_mops(bits(f64::NAN)), None);
    assert_eq!(finite_mops(bits(-1.0)), None);
}

#[test]
fn session_clear_removes_collected_results() {
    let mut session = BenchmarkSession::new(
        "123".to_string(),
        "host-a".to_string(),
        "suite-a".to_string(),
        None,
        ReportContext::default(),
    );
    session.add_result(make_result("bench_a", 1.0));
    assert_eq!(session.get_results().len(), 1);

    session.clear();
    assert!(session.get_results().is_empty());
    let report = session.report();
    assert_eq!(report.suite.as_deref(), Some("suite-a"));
    assert_eq!(report.schema_version, REPORT_SCHEMA_VERSION);
}

#[test]
fn session_compatibility_requires_same_host_suite_and_benchmark_set() {
    let current = vec![make_result("bench_a", 1.0), make_result("bench_b", 2.0)];
    let compatible = |report: BenchmarkReport| {
        session_is_compatible(&report, "host-a", "suite-a", &current)
    };
    assert!(compatible(make_session("host-a", Some("suite-a"), &["bench_b", "bench_a"])));
    assert!(!compatible(make_session("host-b", Some("suite-a"), &["bench_a", "bench_b"])));
    assert!(!compatible(make_session("host-a", Some("suite-b"), &["bench_a", "bench_b"])));
    assert!(!compatible(make_session("host-a", None, &["bench_a", "bench_b"])));
    assert!(!compatible(make_session("host-a", Some("suite-a"), &["bench_a"])));
}

#[test]
fn earlier_results_are_found_by_name_and_kind() {
    let previous = make_session("host-a", Some("suite-a"), &["bench_a", "bench_b"]);
    let found = matching_previous_result(&previous, &make_result("bench_b", 9.0)).unwrap();
    assert_eq!(found, 1);
    let mut concurrent = make_result("bench_b", 9.0);
    concurrent.kind = BenchmarkKind::Concurrent;
    assert!(matching_previous_result(&previous, &concurrent).is_none());
}

#[test]
fn improvements_follow_the_better_direction() {
    let known = changes(&[8.0, 10.0]);
    assert_eq!(
        safe_improvement_percent(bits(8.0), bits(10.0), true, &known),
        Some(bits(20.0))
    );
    assert_eq!(
        safe_improvement_percent(bits(8.0), bits(10.0), false, &known),
        Some(bits(-20.0))
    );
}

#[test]
fn extremes_and_tallies_are_counted() {
    let list = vec![figures(2.0), figures(f64::NAN), figures(5.0), figures(5.0), figures(1.0)];
    assert_eq!(fastest_and_slowest(&list), Some((3, 4)));
    assert_eq!(fastest_and_slowest(&vec![figures(f64::NAN)]), None);

    let earlier = EarlierSession {
        report: make_session("host-a", Some("suite-a"), &["a", "b", "c"]),
        figures: vec![figures(1.0), figures(2.0), figures(4.0)],
    };
    let results =
        vec![make_result("a", 2.0), make_result("b", 1.0), make_result("c", 4.0), make_result("d", 1.0)];
    let now = vec![figures(2.0), figures(1.0), figures(4.0), figures(1.0)];
    let tally = tally_changes(&results, &now, &earlier, &changes(&[1.0, 2.0, 4.0]));
    assert_eq!(tally.changes, vec![bits(100.0), bits(-50.0), bits(0.0)]);
    assert_eq!(tally.improvements, 1);
    assert_eq!(tally.regressions, 1);
}

#[test]
fn counters_are_compared_where_both_have_them() {
    let mut now = stats(1.0);
    let mut before = stats(1.0);
    assert_eq!(pmu_ipc(&now), None);
    for side in [&mut now, &mut before] {
        side.has_cycles = true;
        side.has_instructions = true;
    }
    now.ipc = bits(2.0);
    let known = changes(&[1.0, 2.0]);
    let deltas = counter_deltas(&now, &before, &known);
    assert_eq!(deltas.ipc, Some(bits(100.0)));
    assert_eq!(deltas.branch, None);
    let steady = measure_shifts(&before, bits(1.0), &before, bits(1.0), &known);
    assert_eq!(comparative_diagnosis(steady, &texts(&[0.0])), "");
    let faster = measure_shifts(&now, bits(2.0), &before, bits(1.0), &known);
    assert!(!comparative_diagnosis(faster, &texts(&[0.0, 100.0])).is_empty());
}

#[test]
fn summaries_name_results_and_changes() {
    let results = vec![make_result("alpha", 2.0), make_result("beta", 1.0)];
    let now = vec![figures(2.0), figures(1.0)];
    let earlier = EarlierSession {
        report: make_session("host-a", Some("suite-a"), &["alpha", "beta"]),
        figures: vec![figures(1.0), figures(1.0)],
    };
    let known = changes(&[0.0, 1.0, 2.0]);
    let numbers = texts(&[0.0, 1.0, 2.0, 50.0, 100.0]);
    let with = SummaryInput {
        results: &results,
        figures: &now,
        earlier: Some(&earlier),
        changes: &known,
        numbers: &numbers,
        terminal: false,
        speed_ratio: bits(2.0),
        average_change: bits(50.0),
    }
    .render();
    assert!(with.contains("alpha"), "{with}");
    assert!(with.contains("beta"), "{with}");
    assert!(with.contains("+100.0%"), "{with}");
    let alone = SummaryInput {
        results: &results,
        figures: &now,
        earlier: None,
        changes: &known,
        numbers: &numbers,
        terminal: false,
        speed_ratio: bits(2.0),
        average_change: bits(0.0),
    }
    .render();
    assert!(alone.contains("alpha"), "{alone}");
    assert!(!alone.contains("Per-stat comparison"), "{alone}");
}

fn no_times() -> PmuTimes {
    let zero = bits(0.0);
    PmuTimes {
        coverage_percent: zero,
        average_running: zero,
        average_enabled: zero,
        total_running: zero,
        total_enabled: zero,
    }
}

#[test]
fn results_are_rendered_as_tables() {
    let numbers = texts(&[0.0, 1.0, 1e6]);
    let shown = render_standard_results(false, &stats(1.0), no_times(), &numbers);
    assert!(shown.starts_with("  results:\n"), "{shown}");
    assert!(shown.contains('│'), "{shown}");
    assert!(!shown.contains('\x1b'), "{shown}");

    let worker = WorkerSummary {
        name: "reader".to_string(),
        threads: 2,
        stats: stats(1.0),
        counters: vec![WorkerCounterSummary {
            name: "retries".to_string(),
            total: 30,
            per_op: bits(1.0),
            per_sec: bits(1.0),
        }],
    };
    let shown = render_concurrent_results(
        false,
        &stats(1.0),
        no_times(),
        &vec![worker],
        &vec![no_times()],
        &numbers,
    );
    assert!(shown.contains("worker: reader (2 threads)"), "{shown}");
    assert!(shown.contains("retries"), "{shown}");
    assert!(pmu_byline(false, &stats(1.0), no_times(), &numbers).is_none());
    let mut counted = stats(1.0);
    counted.has_cycles = true;
    let line = pmu_byline(false, &counted, no_times(), &numbers).unwrap();
    assert!(line.starts_with("  PMU: coverage=0.0%"), "{line}");
    assert_eq!(render_diagnostics(false, &stats(1.0), &numbers).contains("[host]"), false);
}

#[test]
fn metrics_are_rendered_by_section() {
    let numbers = texts(&[72.0, 1.0]);
    let metric = |name: &str, section: &str| MetricSummary {
        name: name.to_string(),
        unit: "%".to_string(),
        section: section.to_string(),
        display_name: String::new(),
        format: MetricFormat::Number,
        mean: bits(72.0),
        median: bits(72.0),
        p95: bits(72.0),
        min: bits(72.0),
        max: bits(72.0),
        samples: 1,
    };
    let shown = render_custom_metrics(
        false,
        &vec![metric("dram_pct", "gpu counters"), metric("hits", "")],
        &numbers,
    );
    assert!(shown.contains("dram_pct"), "{shown}");
    assert!(shown.contains("gpu counters"), "{shown}");
    assert!(shown.contains("72.000"), "{shown}");
    assert_eq!(render_custom_metrics(false, &Vec::new(), &numbers), "");
}

#[test]
fn numbers_are_formatted_by_size() {
    let numbers = texts(&[0.0001, 12.5, 5000.0, 0.25]);
    let shown = |value: f64| format_metric_value(bits(value), MetricFormat::Number, &numbers);
    assert_eq!(shown(0.0), "0");
    assert_eq!(shown(12.5), "12.500");
    assert_eq!(shown(5000.0), "5.000e3");
    assert_eq!(shown(0.0001), "1.000e-4");
    assert_eq!(shown(f64::NAN), "n/a");
    assert_eq!(
        format_metric_value(bits(5000.0), MetricFormat::Integer, &numbers),
        "5000"
    );
    assert_eq!(format_small_rate(bits(0.25), &numbers), "0.2500");
    assert_eq!(format_small_rate(bits(0.0001), &numbers), "1.000e-4");
}

#[test]
fn progress_is_shown_in_a_bar_of_fixed_width() {
    let bar = progress_bar(5, 10, "1.00 Mops/s");
    assert!(bar.contains("50%"), "{bar}");
    assert!(bar.contains("1.00 Mops/s"), "{bar}");
    assert!(shows_progress(0, 10));
    assert!(!shows_progress(1, 10));
    assert!(shows_progress(9, 10));
}

#[test]
fn kept_reports_have_names_that_are_found_again() {
    let mut report = make_session("host-a", Some("suite-a"), &["alpha"]);
    report.timestamp = "1700000000".to_string();
    let name = report_file_name(&report).unwrap();
    assert_eq!(name, "benchmark_results_1700000000.json");
    assert!(is_report_file_name(&name));
    assert!(!is_report_file_name("benchmark_results_1700000000.txt"));
    assert!(!is_report_file_name("results_1700000000.json"));
    report.results.clear();
    assert_eq!(report_file_name(&report).unwrap_err(), "no benchmark results to save");
}

#[test]
fn places_and_names_have_defaults() {
    let named = |name: &str| Some(name.to_string());
    assert_eq!(report_directory(named("here"), named("there")), "here");
    assert_eq!(report_directory(None, named("there")), "there");
    assert_eq!(report_directory(None, None), "target");
    assert_eq!(machine_name(named("a"), named("b")), "a");
    assert_eq!(machine_name(None, named("b")), "b");
    assert_eq!(machine_name(None, None), "unknown");
    assert_eq!(default_suite_name(named("basic")), "basic");
    assert_eq!(default_suite_name(named("")), "benchmark");
    assert_eq!(default_suite_name(None), "benchmark");
}

#[test]
fn the_last_compatible_session_is_compared() {
    let kept = |modified_ns: i128, host: &str, names: &[&str]| KeptSession {
        modified_ns,
        report: make_session(host, Some("suite-a"), names),
    };
    let current = make_session("host-a", Some("suite-a"), &["alpha", "beta"]);
    let sessions = vec![
        kept(10, "host-a", &["beta", "alpha"]),
        kept(30, "host-a", &["alpha", "beta"]),
        kept(-5, "host-a", &["alpha", "beta"]),
        kept(40, "host-b", &["alpha", "beta"]),
        kept(30, "host-a", &["alpha", "beta"]),
        kept(50, "host-a", &["alpha"]),
    ];
    let latest = ComparisonPolicy::LatestCompatible;
    assert_eq!(comparison_session(latest, &current, &sessions), Some(4));
    assert_eq!(comparison_session(ComparisonPolicy::NoComparison, &current, &sessions), None);
    assert_eq!(comparison_session(latest, &current, &Vec::new()), None);
    let unnamed = make_session("host-a", None, &["alpha", "beta"]);
    assert_eq!(comparison_session(latest, &unnamed, &sessions), None);
    let other = make_session("host-c", Some("suite-a"), &["alpha", "beta"]);
    assert_eq!(comparison_session(latest, &other, &sessions), None);
}

#[test]
fn the_directory_of_a_build_is_read_from_its_metadata() {
    let found = |metadata: &str| built_target_directory(metadata.as_bytes());
    assert_eq!(
        found(r#"{"packages": [], "target_directory": "/work/target"}"#),
        Some("/work/target".to_string())
    );
    assert_eq!(found(r#"{"target_directory": 3}"#), None);
    assert_eq!(found(r#"{"target_directory": null}"#), None);
    assert_eq!(found(r#"{"packages": []}"#), None);
    assert_eq!(found("[]"), None);
    assert_eq!(found("no metadata"), None);
    let text = JsonField::Text { content: "/work".to_string() };
    assert_eq!(named_directory(Ok(text)), Some("/work".to_string()));
    assert_eq!(named_directory(Ok(JsonField::Object)), None);
    assert_eq!(named_directory(Err("no metadata".to_string())), None);
}

#[test]
fn commits_are_named_without_the_space_round_them() {
    assert_eq!(commit_name("abc123\n"), "abc123");
    assert_eq!(commit_name(" \n"), "");
}
