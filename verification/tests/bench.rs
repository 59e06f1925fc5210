//! Running benchmarks: statistics, diagnostics, calibration and metrics.
use micromeasure::bench::backend::DiagnosticPass;
use micromeasure::bench::calibration::{
    target_sample_count, Calibration, RuntimeOptionError, WarmUp, CALIBRATION_PASSES,
};
use micromeasure::bench::concurrent::{
    aggregate_sample, thread_plan, total_worker_threads, ConcurrentWorkerMeasurement,
    ThreadMeasurement,
};
use micromeasure::bench::diagnosis::diagnose_stats;
use micromeasure::bench::metrics::{
    aggregate_metrics, sample_metric_sets, summarize_metrics, MetricAverages, MetricGroup,
};
use micromeasure::bench::report::progress_rate;
use micromeasure::bench::results::{has_full_perf_counters, has_perf_counters, Results};
use micromeasure::bench::run::{with_diagnostics, ConcurrentRun, StandardRun};
use micromeasure::bench::stats::{
    benchmark_stats_from_samples, counter_per_operation, effective_measurement_label,
    stat_ratios, summarize_worker_counters, ComputedStats, CounterRates, Ratio, SampleFigures,
    StatsLabels,
};
use micromeasure::bench::{
    check_concurrent_case, chunk_operations, ConcurrentCaseError, ConcurrentGroupOptions,
};
use micromeasure::double::tukey_outlier_count;
use micromeasure::{
    BenchSampleResult, BenchmarkCaseOrder, BenchmarkRunner, BenchmarkRuntimeOptions,
    BenchmarkStats, ConcurrentBenchControl, ConcurrentWorker, ConcurrentWorkerResult,
    CounterValue, DiagnosticError, DiagnosticResult, DoubleBits, MeasurementBackend,
    MeasurementDomain, MetricFormat, MetricSummary, MetricValue, Nanos, NumberStyle, NumberTexts,
    Throughput, WallClockBackend,
};

fn bits(value: f64) -> DoubleBits {
    DoubleBits::from_bits(value.to_bits())
}

fn number(value: DoubleBits) -> f64 {
    f64::from_bits(value.to_bits())
}

fn numbers(values: &[f64]) -> Vec<DoubleBits> {
    values.iter().map(|value| bits(*value)).collect()
}

fn percentile(values: &[f64], at: f64) -> f64 {
    let mut sorted = values.to_vec();
    sorted.sort_by(|a, b| a.total_cmp(b));
    let position = at * (sorted.len() - 1) as f64;
    let lower = position.floor() as usize;
    let upper = position.ceil() as usize;
    let weight = position - lower as f64;
    sorted[lower] * (1.0 - weight) + sorted[upper] * weight
}

fn averages_of(group: &MetricGroup) -> MetricAverages {
    let values: Vec<f64> = group.values.iter().map(|value| number(*value)).collect();
    MetricAverages {
        mean: bits(values.iter().sum::<f64>() / values.len() as f64),
        median: bits(percentile(&values, 0.5)),
        p95: bits(percentile(&values, 0.95)),
    }
}

fn averages(per_sample: &Vec<Vec<MetricValue>>) -> Vec<MetricAverages> {
    aggregate_metrics(per_sample).iter().map(averages_of).collect()
}

fn summaries(per_sample: Vec<Vec<MetricValue>>) -> Vec<MetricSummary> {
    summarize_metrics(&per_sample, &averages(&per_sample))
}

fn metric(name: &'static str, value: f64, unit: &'static str) -> MetricValue {
    MetricValue::new(name, bits(value), unit)
}

fn figures(list: &[(f64, f64)]) -> Vec<SampleFigures> {
    list.iter().map(|f| SampleFigures { rate: bits(f.0), latency: bits(f.1) }).collect()
}

fn computed() -> ComputedStats {
    let zero = bits(0.0);
    ComputedStats {
        throughput_per_sec: bits(1.0),
        median_throughput_per_sec: bits(1.0),
        median_ns_per_op: bits(100.0),
        p95_ns_per_op: bits(110.0),
        mad_ns_per_op: bits(1.0),
        ns_per_op: bits(100.0),
        cycles_per_op: zero,
        instructions_per_op: zero,
        ipc: zero,
        cache_references_per_op: zero,
        l1i_misses_per_op: zero,
        branches_per_op: zero,
        branch_miss_rate: zero,
        branch_misses_per_op: zero,
        cache_misses_per_op: zero,
        cache_miss_percent: zero,
        frontend_stall_cycles_per_op: zero,
        frontend_stall_percent: zero,
        backend_stall_cycles_per_op: zero,
        backend_stall_percent: zero,
        cv_percent: bits(1.0),
        total_duration_sec: bits(1.0),
        lower_fence: bits(f64::NEG_INFINITY),
        upper_fence: bits(f64::INFINITY),
    }
}

fn stats_with_domain(domain: MeasurementDomain) -> BenchmarkStats {
    BenchmarkStats {
        throughput: Throughput::ops(),
        throughput_per_sec: bits(1.0),
        median_throughput_per_sec: bits(1.0),
        ns_per_op: bits(100.0),
        median_ns_per_op: bits(100.0),
        p95_ns_per_op: bits(110.0),
        mad_ns_per_op: bits(1.0),
        cycles_per_op: bits(1000.0),
        instructions_per_op: bits(100.0),
        ipc: bits(0.1),
        cache_references_per_op: bits(10.0),
        l1i_misses_per_op: bits(0.5),
        branches_per_op: bits(50.0),
        branch_miss_rate: bits(10.0),
        branch_misses_per_op: bits(5.0),
        cache_misses_per_op: bits(5.0),
        cache_miss_percent: bits(50.0),
        frontend_stall_cycles_per_op: bits(50.0),
        frontend_stall_percent: bits(50.0),
        backend_stall_cycles_per_op: bits(50.0),
        backend_stall_percent: bits(50.0),
        cv_percent: bits(1.0),
        outlier_count: 0,
        samples: 30,
        operations: 1000,
        total_duration_sec: bits(1.0),
        sample_throughput_per_sec: numbers(&[1.0]),
        sample_latency_ns_per_op: numbers(&[100.0]),
        has_cycles: true,
        has_instructions: true,
        has_cache_references: true,
        has_l1i_misses: true,
        has_branches: true,
        has_branch_misses: true,
        has_cache_misses: true,
        has_stalled_cycles_frontend: true,
        has_stalled_cycles_backend: true,
        pmu_time_enabled_ns: 1_000_000_000,
        pmu_time_running_ns: 1_000_000_000,
        measurement_domain: domain,
        measurement_label: String::new(),
        emits_cpu_diagnostics: true,
        metrics: Vec::new(),
        sample_metrics: Vec::new(),
    }
}

fn is_cpu_pmu(diagnostic: &str) -> bool {
    diagnostic.contains("memory latency")
        || diagnostic.contains("branch predictor")
        || diagnostic.contains("instruction-cache")
        || diagnostic.contains("Low IPC")
}

fn diagnostics(stats: &BenchmarkStats) -> Vec<String> {
    diagnose_stats(stats, &NumberTexts::new())
}

#[test]
fn diagnose_stats_emits_cpu_pmu_bottlenecks_for_cpu_domain() {
    let found = diagnostics(&stats_with_domain(MeasurementDomain::Cpu));
    assert!(found.iter().any(|d| is_cpu_pmu(d)), "got: {found:?}");
}

#[test]
fn diagnose_stats_suppresses_cpu_pmu_bottlenecks_for_gpu_domain() {
    for diagnostic in diagnostics(&stats_with_domain(MeasurementDomain::Gpu)) {
        assert!(!is_cpu_pmu(&diagnostic), "{diagnostic}");
    }
}

#[test]
fn diagnose_stats_suppresses_cpu_pmu_bottlenecks_for_io_domain() {
    let found = diagnostics(&stats_with_domain(MeasurementDomain::Io));
    assert!(found.iter().all(|d| !is_cpu_pmu(d)));
}

#[test]
fn diagnose_stats_prefixes_cpu_pmu_bottlenecks_for_mixed_domain() {
    let found = diagnostics(&stats_with_domain(MeasurementDomain::Mixed));
    assert!(
        found.iter().any(|d| d.starts_with("[host] ") && is_cpu_pmu(d)),
        "got: {found:?}"
    );
}

#[test]
fn diagnose_stats_keeps_stability_warnings_for_gpu_domain() {
    let mut stats = stats_with_domain(MeasurementDomain::Gpu);
    stats.cv_percent = bits(25.0);
    stats.outlier_count = 10;
    stats.samples = 30;
    let found = diagnostics(&stats);
    assert!(
        found.iter().any(|d| d.contains("Run stability is weak")),
        "got: {found:?}"
    );
}

#[test]
fn concurrent_counter_per_op_uses_total_operations() {
    let counters = vec![CounterValue::new("retries", 30)];
    let ratio = counter_per_operation(&counters[0], 6);
    assert_eq!(ratio, Ratio { numerator: 30, denominator: 6, percent: false });
    let rates = vec![CounterRates {
        per_op: bits(ratio.numerator as f64 / ratio.denominator as f64),
        per_sec: bits(30.0 / 2.0),
    }];
    let summarized = summarize_worker_counters(&counters, &rates);
    assert_eq!(summarized[0].total, 30);
    assert_eq!(summarized[0].per_op, bits(5.0));
    assert_eq!(summarized[0].per_sec, bits(15.0));
}

#[test]
fn concurrent_lifecycle_backend_metrics_and_metadata_are_persisted() {
    let options = ConcurrentGroupOptions::new()
        .with_domain(MeasurementDomain::Io)
        .with_metadata("filesystem".to_string(), "ext4".to_string());
    assert_eq!(options.metadata.get("filesystem").unwrap(), "ext4");
    assert_eq!(options.measurement_domain, MeasurementDomain::Io);

    let mut run = ConcurrentRun::start(1);
    for index in 0..2 {
        let measured = Results {
            duration: Nanos::from_millis(1),
            iterations: 10,
            chunks_executed: 1,
            ..Results::default()
        };
        let sample = aggregate_sample(
            1,
            vec![ThreadMeasurement {
                worker_index: 0,
                measurement: ConcurrentWorkerMeasurement {
                    results: measured,
                    counters: Vec::new(),
                },
            }],
            Nanos::from_millis(12),
        )
        .unwrap();
        let metrics = vec![
            metric("queue_depth", index as f64, "requests"),
            metric("service_window", index as f64, "samples"),
        ];
        assert!(run.record(sample, Some(measured), metrics));
    }
    assert_eq!(run.samples.len(), 2);
    assert_eq!(run.summed.duration, Nanos::from_millis(2));

    let sets = sample_metric_sets(&run.metrics);
    assert_eq!(sets.len(), 2);
    for (index, set) in sets.iter().enumerate() {
        assert_eq!(set.sample_index, index);
        assert_eq!(set.metrics.len(), 2);
        let queue = set.metrics.iter().find(|m| m.name == "queue_depth").unwrap();
        assert_eq!(queue.section, "scenario");
        assert_eq!(queue.value, bits(index as f64));
    }

    let mut stats = stats_with_domain(MeasurementDomain::Io);
    stats.measurement_label = "service window".to_string();
    assert_eq!(effective_measurement_label(&stats, true), "service window");
}

#[test]
fn case_cooldown_has_a_mutable_setter() {
    let mut runner = BenchmarkRunner::new();
    runner.set_case_cooldown(Nanos::from_millis(25));
    assert_eq!(runner.case_cooldown, Nanos::from_millis(25));
}

#[test]
fn tukey_outlier_count_flags_far_values() {
    let values = [10.0, 10.0, 11.0, 11.0, 12.0, 100.0];
    let q1 = percentile(&values, 0.25);
    let q3 = percentile(&values, 0.75);
    let lower = bits(q1 - 1.5 * (q3 - q1));
    let upper = bits(q3 + 1.5 * (q3 - q1));
    assert_eq!(tukey_outlier_count(&numbers(&values), lower, upper), 1);
    assert_eq!(
        tukey_outlier_count(&numbers(&[1.0, 2.0, 100.0]), bits(0.0), bits(3.0)),
        0
    );
}

#[test]
fn throughput_format_scales_custom_units() {
    let throughput = Throughput::per_operation(1000, "lines".to_string());
    let mut texts = NumberTexts::new();
    texts.record(
        bits(12_500.0),
        NumberStyle::Rate,
        format!("{:.2}", 12_500.0 / 1_000.0),
    );
    assert_eq!(throughput.format_rate(bits(12_500.0), &texts), "12.50 klines/s");
    assert_eq!(throughput.format_rate(bits(f64::NAN), &texts), "n/a");
}

#[test]
fn automatic_calibration_can_select_small_chunks_for_expensive_operations() {
    let mut calibration = Calibration::start();
    while !calibration.finished {
        let taken = Nanos::from_millis(calibration.chunk_size as u64);
        let scaled =
            (calibration.chunk_size as f64 * 50_000_000.0 / taken.count as f64).round() as u64;
        assert!(calibration.record(taken, scaled));
    }
    assert!(
        (10..=100).contains(&calibration.best_chunk_size),
        "expected a roughly 50 ms chunk, got {}",
        calibration.best_chunk_size
    );
    assert!(calibration.passes <= CALIBRATION_PASSES);
}

#[test]
fn calibration_grows_chunks_that_are_too_short_to_measure() {
    let mut calibration = Calibration::start();
    assert!(!calibration.record(Nanos::from_nanos(10), 0));
    assert_eq!(calibration.chunk_size, 10);
    assert!(!calibration.finished);
    assert!(calibration.record(Nanos::from_millis(50), 10));
    assert!(calibration.finished);
    assert_eq!(calibration.best_chunk_size, 10);
}

#[test]
fn fixed_chunk_sample_count_uses_measured_warm_up_duration() {
    let runtime = BenchmarkRuntimeOptions {
        warm_up_duration: Nanos::from_millis(5),
        benchmark_duration: Nanos::from_millis(20),
        min_samples: 2,
        max_samples: 20,
    };
    assert!(runtime.validate().is_ok());
    let mut warm_up = WarmUp::start();
    for _ in 0..5 {
        assert!(warm_up.record(Nanos::from_millis(4), Nanos::from_millis(1)));
    }
    let mean = warm_up.measured.count as f64 / warm_up.count as f64;
    let seconds = mean / 1e9;
    let in_time = (runtime.benchmark_duration.count as f64 / 1e9 / seconds) as usize;
    assert_eq!(chunk_operations(None, 1), 1);
    assert_eq!(target_sample_count(&runtime, bits(seconds), in_time), 5);
    assert_eq!(target_sample_count(&runtime, bits(f64::NAN), 3), 20);
    assert_eq!(target_sample_count(&runtime, bits(1.0), 1), 2);
}

#[test]
fn bench_sample_populates_custom_metrics() {
    let mut run = StandardRun::start();
    for _ in 0..3 {
        let sampled = BenchSampleResult::operations(1_000)
            .with_metric("cuda_event_ms", bits(0.5), "ms")
            .with_metric("tflops", bits(10.0), "TFLOP/s");
        let sample = Results {
            iterations: sampled.operations,
            chunks_executed: 1,
            ..Results::default()
        };
        assert!(run.record(sample, Nanos::from_millis(10), sampled.metrics));
    }
    assert_eq!(run.summed.duration, Nanos::from_millis(30));
    let throughput = Throughput::ops();
    let stats = benchmark_stats_from_samples(
        &run.summed,
        &run.samples,
        run.samples.len(),
        StatsLabels {
            throughput: &throughput,
            measurement_domain: MeasurementDomain::Cpu,
            measurement_label: "timing only",
            emits_cpu_diagnostics: false,
        },
        &figures(&[(3.0, 100.0), (1.0, 120.0), (2.0, 110.0)]),
        computed(),
        &averages(&run.metrics),
        &run.metrics,
    );
    assert!(!stats.metrics.is_empty());
    let names: Vec<&str> = stats.metrics.iter().map(|m| m.name.as_str()).collect();
    assert!(names.contains(&"cuda_event_ms"), "{names:?}");
    assert!(names.contains(&"tflops"), "{names:?}");
    assert_eq!(stats.samples, 3);
    assert_eq!(stats.operations, 1_000);
    assert_eq!(stats.sample_throughput_per_sec, numbers(&[1.0, 2.0, 3.0]));
    assert_eq!(stats.sample_latency_ns_per_op, numbers(&[100.0, 110.0, 120.0]));
    assert_eq!(stats.sample_metrics.len(), 3);
}

#[test]
fn diagnostic_pass_populates_metrics_without_timing_samples() {
    let mut run = StandardRun::start();
    for _ in 0..3 {
        let sample = Results { iterations: 1_000, chunks_executed: 1, ..Results::default() };
        assert!(run.record(sample, Nanos::from_millis(1), Vec::new()));
    }
    let mut pass = DiagnosticPass::start(1);
    pass.record(Ok(DiagnosticResult::new("gpu counters")
        .push_metric(metric("dram_pct", 72.0, "%").with_display_name("DRAM %"))));
    assert_eq!(pass.remaining, 0);
    let samples = run.samples.len();
    let all = with_diagnostics(run.metrics, pass.metrics);
    let found = summaries(all);
    assert_eq!(samples, 3);
    let dram = found.iter().find(|m| m.name == "dram_pct").unwrap();
    assert_eq!(dram.samples, 1);
    assert_eq!(dram.median, bits(72.0));
    assert_eq!(dram.section, "gpu counters");
}

#[test]
fn failed_diagnostic_pass_is_reported_and_ends() {
    let mut pass = DiagnosticPass::start(5);
    pass.record(Err(DiagnosticError::new("no device".to_string())));
    assert_eq!(pass.remaining, 0);
    assert_eq!(pass.metrics.len(), 1);
    let failed = &pass.metrics[0][0];
    assert_eq!(failed.name, "diagnostic_pass_failed");
    assert_eq!(failed.value, bits(1.0));
    assert_eq!(failed.section, "diagnostic");
    assert_eq!(failed.format, MetricFormat::Integer);
}

#[test]
fn wall_clock_backend_records_host_elapsed_and_ops() {
    let mut backend = WallClockBackend::new();
    backend.begin();
    backend.end();
    let mut results = Results::default();
    let mut metrics = Vec::new();
    backend.collect(Nanos::from_millis(5), 42, 7, &mut results, &mut metrics);

    assert_eq!(results.duration, Nanos::from_millis(5));
    assert_eq!(results.iterations, 42);
    assert_eq!(results.chunks_executed, 1);
    assert!(metrics.is_empty());
    assert!(!results.has_cycles);
    assert_eq!(backend.measurement_label(), "timing only");
    assert!(!backend.emits_cpu_diagnostics());
}

#[test]
fn metric_value_default_is_zero_empty() {
    let m = MetricValue::default();
    assert_eq!(m.value, bits(0.0));
    assert_eq!(m.name, "");
    assert_eq!(m.unit, "");
}

#[test]
fn diagnostic_result_section_is_default_not_override() {
    let result = DiagnosticResult::new("diagnostic")
        .push_metric(metric("defaulted", 1.0, "u"))
        .push_metric(metric("explicit", 2.0, "u").with_section("profiler"));
    assert_eq!(result.metrics[0].section, "diagnostic");
    assert_eq!(result.metrics[1].section, "profiler");
}

#[test]
fn aggregate_metrics_handles_empty_input() {
    assert!(aggregate_metrics(&Vec::new()).is_empty());
    assert!(aggregate_metrics(&vec![Vec::new(), Vec::new()]).is_empty());
}

#[test]
fn aggregate_metrics_groups_by_name_and_unit() {
    let found = summaries(vec![
        vec![metric("cuda_event_ms", 1.0, "ms"), metric("tflops", 10.0, "TFLOP/s")],
        vec![metric("cuda_event_ms", 3.0, "ms"), metric("tflops", 20.0, "TFLOP/s")],
    ]);
    assert_eq!(found.len(), 2);
    assert_eq!(found[0].name, "cuda_event_ms");
    assert_eq!(found[0].unit, "ms");
    assert_eq!(found[0].samples, 2);
    assert_eq!(found[0].mean, bits(2.0));
    assert_eq!(found[0].min, bits(1.0));
    assert_eq!(found[0].max, bits(3.0));
    assert_eq!(found[1].name, "tflops");
    assert_eq!(found[1].unit, "TFLOP/s");
    assert_eq!(found[1].mean, bits(15.0));
}

#[test]
fn aggregate_metrics_treats_distinct_units_as_distinct() {
    let found = summaries(vec![vec![
        metric("time", 1.0, "ms"),
        metric("time", 1000.0, "us"),
    ]]);
    assert_eq!(found.len(), 2);
    assert!(found.iter().any(|m| m.unit == "ms" && m.mean == bits(1.0)));
    assert!(found.iter().any(|m| m.unit == "us" && m.mean == bits(1000.0)));
}

#[test]
fn aggregate_metrics_handles_intermittent_reports() {
    let found = summaries(vec![
        vec![metric("cuda_event_ms", 1.0, "ms")],
        Vec::new(),
        vec![metric("cuda_event_ms", 3.0, "ms")],
    ]);
    assert_eq!(found.len(), 1);
    assert_eq!(found[0].samples, 2);
    assert_eq!(found[0].mean, bits(2.0));
}

#[test]
fn aggregate_metrics_drops_non_finite_values() {
    let found = summaries(vec![vec![
        metric("x", 1.0, "u"),
        metric("x", f64::NAN, "u"),
        metric("x", f64::INFINITY, "u"),
    ]]);
    assert_eq!(found.len(), 1);
    assert_eq!(found[0].samples, 1);
    assert_eq!(found[0].mean, bits(1.0));
}

#[test]
fn aggregate_metrics_last_writer_wins_within_sample() {
    let found = summaries(vec![vec![metric("x", 1.0, "u"), metric("x", 5.0, "u")]]);
    assert_eq!(found.len(), 1);
    assert_eq!(found[0].samples, 1);
    assert_eq!(found[0].mean, bits(5.0));
}

#[test]
fn aggregate_metrics_preserves_push_order_not_lexicographic() {
    let found = summaries(vec![vec![metric("zeta", 1.0, "u"), metric("alpha", 2.0, "u")]]);
    assert_eq!(found.len(), 2);
    assert_eq!(found[0].name, "zeta");
    assert_eq!(found[1].name, "alpha");
}

#[test]
fn runtime_options_name_the_rule_they_break() {
    let good = || BenchmarkRuntimeOptions::default();
    let mut options = good();
    options.warm_up_duration = Nanos::zero();
    assert_eq!(options.validate(), Err(RuntimeOptionError::NoWarmUp));
    let mut options = good();
    options.benchmark_duration = Nanos::zero();
    assert_eq!(options.validate(), Err(RuntimeOptionError::NoBenchmarkTime));
    let mut options = good();
    options.min_samples = 0;
    assert_eq!(options.validate(), Err(RuntimeOptionError::NoMinimum));
    let mut options = good();
    options.max_samples = 0;
    assert_eq!(options.validate(), Err(RuntimeOptionError::NoMaximum));
    let mut options = good();
    options.min_samples = 101;
    assert_eq!(options.validate(), Err(RuntimeOptionError::MinimumAboveMaximum));
    assert_eq!(
        RuntimeOptionError::NoWarmUp.message(),
        "warm_up_duration must be > 0"
    );
}

fn idle(_context: &u8, _control: &ConcurrentBenchControl) -> u64 {
    0
}

#[test]
fn concurrent_cases_need_time_and_threads() {
    let run: fn(&u8, &ConcurrentBenchControl) -> u64 = idle;
    let none = [ConcurrentWorker { name: "reader", threads: 0, run }];
    let two = [
        ConcurrentWorker { name: "reader", threads: 2, run },
        ConcurrentWorker { name: "writer", threads: 1, run },
    ];
    assert_eq!(
        check_concurrent_case(Nanos::zero(), &two),
        Err(ConcurrentCaseError::NoSampleTime)
    );
    assert_eq!(
        check_concurrent_case(Nanos::from_millis(1), &none),
        Err(ConcurrentCaseError::NoThreads)
    );
    assert_eq!(check_concurrent_case(Nanos::from_millis(1), &two), Ok(()));
    assert_eq!(total_worker_threads(&two), Some(3));
    let plan = thread_plan(&two);
    let slots: Vec<(usize, usize, usize)> = plan
        .iter()
        .map(|slot| (slot.worker_index, slot.thread_index, slot.role_thread_index))
        .collect();
    assert_eq!(slots, vec![(0, 0, 0), (0, 1, 1), (1, 2, 0)]);
}

#[test]
fn samples_of_threads_add_up_to_their_workers() {
    let thread = |worker_index: usize, operations: u64, retries: u64| ThreadMeasurement {
        worker_index,
        measurement: ConcurrentWorkerMeasurement {
            results: Results {
                iterations: operations,
                duration: Nanos::from_millis(5),
                chunks_executed: 1,
                ..Results::default()
            },
            counters: vec![CounterValue::new("retries", retries)],
        },
    };
    let sample = aggregate_sample(
        2,
        vec![thread(0, 10, 1), thread(0, 20, 2), thread(1, 5, 4)],
        Nanos::from_millis(7),
    )
    .unwrap();
    assert_eq!(sample.results.iterations, 35);
    assert_eq!(sample.results.duration, Nanos::from_millis(7));
    assert_eq!(sample.worker_summaries[0].results.iterations, 30);
    assert_eq!(sample.worker_summaries[1].results.iterations, 5);
    assert_eq!(sample.worker_summaries[0].counters[0].value, 3);
}

#[test]
fn filters_select_by_name_and_group() {
    let runner = BenchmarkRunner::new().with_filter(Some("map"));
    assert!(runner.should_run("map_insert", "containers"));
    assert!(runner.should_run("insert", "maps"));
    assert!(!runner.should_run("insert", "lists"));
    assert!(BenchmarkRunner::new().should_run("anything", "group"));
    assert!(BenchmarkRunner::new().with_filter(Some("all")).should_run("x", "y"));
}

#[test]
fn cooldown_comes_between_cases_only() {
    let mut runner = BenchmarkRunner::new().with_case_cooldown(Nanos::from_millis(3));
    assert_eq!(runner.begin_case(), None);
    assert_eq!(runner.begin_case(), Some(Nanos::from_millis(3)));
    assert_eq!(runner.cases_started, 2);
}

#[test]
fn case_orders_are_permutations() {
    let runner = BenchmarkRunner::new();
    assert_eq!(
        runner.ordered_case_indices(4, BenchmarkCaseOrder::Declared),
        vec![0, 1, 2, 3]
    );
    let shuffled = runner.ordered_case_indices(50, BenchmarkCaseOrder::Randomized { seed: 7 });
    let again = runner.ordered_case_indices(50, BenchmarkCaseOrder::Randomized { seed: 7 });
    assert_eq!(shuffled, again);
    let mut sorted = shuffled.clone();
    sorted.sort_unstable();
    assert_eq!(sorted, (0..50).collect::<Vec<usize>>());
    assert_ne!(shuffled, sorted);
}

#[test]
fn counters_are_told_apart() {
    let mut results = Results::default();
    assert!(!has_perf_counters(&results));
    results.has_cycles = true;
    assert!(has_perf_counters(&results));
    assert!(!has_full_perf_counters(&results));
    results.iterations = 4;
    results.cycles = 10;
    assert_eq!(
        stat_ratios(&results).cycles_per_op,
        Ratio { numerator: 10, denominator: 4, percent: false }
    );
}

#[test]
fn worker_results_carry_their_counters() {
    let result = ConcurrentWorkerResult::operations(9).with_counter("retries", 2);
    assert_eq!(result.operations, 9);
    assert_eq!(result.counters[0].name, "retries");
    assert_eq!(result.counters[0].value, 2);
}

#[test]
fn progress_shows_no_rate_before_there_is_one() {
    let throughput = Throughput::per_operation(1000, "lines".to_string());
    let mut texts = NumberTexts::new();
    texts.record(bits(12_500.0), NumberStyle::Rate, "12.50".to_string());
    assert_eq!(progress_rate(&throughput, bits(12_500.0), &texts), "12.50 klines/s");
    assert_eq!(progress_rate(&throughput, bits(0.0), &texts), "Calculating...");
    assert_eq!(progress_rate(&throughput, bits(-1.0), &texts), "Calculating...");
    assert_eq!(progress_rate(&throughput, bits(f64::INFINITY), &texts), "Calculating...");
}

#[test]
fn diagnostics_leave_the_statistics_alone() {
    let throughput = Throughput::ops();
    let sample = Results {
        duration: Nanos::from_millis(10),
        iterations: 100,
        chunks_executed: 1,
        ..Results::default()
    };
    let samples = vec![sample, sample, sample];
    let summed = Results { iterations: 300, chunks_executed: 3, ..Results::default() };
    let make = |metrics: &Vec<Vec<MetricValue>>| {
        benchmark_stats_from_samples(
            &summed,
            &samples,
            3,
            StatsLabels {
                throughput: &throughput,
                measurement_domain: MeasurementDomain::Gpu,
                measurement_label: "",
                emits_cpu_diagnostics: false,
            },
            &figures(&[(3.0, 100.0), (1.0, 120.0), (2.0, 110.0)]),
            computed(),
            &averages(metrics),
            metrics,
        )
    };
    let plain = make(&vec![Vec::new(), Vec::new(), Vec::new()]);
    let diagnosed =
        make(&vec![Vec::new(), Vec::new(), Vec::new(), vec![metric("dram_pct", 72.0, "%")]]);
    assert!(plain.metrics.is_empty());
    assert_eq!(diagnosed.metrics.len(), 1);
    assert_eq!(diagnosed.sample_metrics[0].sample_index, 3);
    assert_eq!(plain.samples, diagnosed.samples);
    assert_eq!(plain.operations, diagnosed.operations);
    assert_eq!(plain.throughput_per_sec, diagnosed.throughput_per_sec);
    assert_eq!(plain.sample_latency_ns_per_op, diagnosed.sample_latency_ns_per_op);
    assert_eq!(plain.outlier_count, diagnosed.outlier_count);
}

#[test]
fn display_names_do_not_part_metrics() {
    let plain = metric("gpu_gib_s", 1.0, "GiB/s");
    let named = metric("gpu_gib_s", 2.0, "GiB/s").with_display_name("GPU bandwidth");
    let groups = aggregate_metrics(&vec![vec![plain], vec![named]]);
    assert_eq!(groups.len(), 1);
    assert_eq!(groups[0].values, numbers(&[1.0, 2.0]));
    assert_eq!(groups[0].head.display_name, plain.display_name);
}

#[test]
fn counts_and_texts_are_converted() {
    let sample: BenchSampleResult = 1024_u64.into();
    assert_eq!(sample.operations, 1024);
    assert!(sample.metrics.is_empty());
    let worker: ConcurrentWorkerResult = 7_u64.into();
    assert_eq!(worker.operations, 7);
    assert!(worker.counters.is_empty());
    assert_eq!(DiagnosticError::from("no device").message, "no device");
    assert_eq!(DiagnosticError::from("no device".to_string()).message, "no device");
}

#[test]
fn only_samples_that_have_figures_lend_them() {
    let throughput = Throughput::ops();
    let sample = |millis: u64, iterations: u64| Results {
        duration: Nanos::from_millis(millis),
        iterations,
        chunks_executed: 1,
        ..Results::default()
    };
    let stats = benchmark_stats_from_samples(
        &sample(20, 200),
        &vec![sample(10, 100), sample(10, 0), sample(0, 100)],
        3,
        StatsLabels {
            throughput: &throughput,
            measurement_domain: MeasurementDomain::Cpu,
            measurement_label: "",
            emits_cpu_diagnostics: true,
        },
        &figures(&[(3.0, 100.0), (1.0, 120.0), (2.0, 0.0)]),
        computed(),
        &Vec::new(),
        &Vec::new(),
    );
    assert_eq!(stats.sample_throughput_per_sec, numbers(&[3.0]));
    assert_eq!(stats.sample_latency_ns_per_op, numbers(&[0.0, 100.0]));
}

#[test]
fn samples_without_operations_have_no_rate() {
    let throughput = Throughput::ops();
    let summed = Results {
        duration: Nanos::from_millis(30),
        chunks_executed: 3,
        ..Results::default()
    };
    let sample = Results {
        duration: Nanos::from_millis(10),
        chunks_executed: 1,
        ..Results::default()
    };
    let stats = benchmark_stats_from_samples(
        &summed,
        &vec![sample, sample, sample],
        3,
        StatsLabels {
            throughput: &throughput,
            measurement_domain: MeasurementDomain::Cpu,
            measurement_label: "",
            emits_cpu_diagnostics: true,
        },
        &figures(&[(3.0, 100.0), (1.0, 120.0), (2.0, 110.0)]),
        ComputedStats { cycles_per_op: bits(7.0), ..computed() },
        &Vec::new(),
        &Vec::new(),
    );
    assert_eq!(stats.operations, 0);
    assert!(stats.sample_throughput_per_sec.is_empty());
    assert_eq!(stats.median_throughput_per_sec, bits(0.0));
    assert_eq!(stats.median_ns_per_op, bits(0.0));
    assert_eq!(stats.cv_percent, bits(0.0));
    assert_eq!(stats.cycles_per_op, bits(0.0));
    assert!(stats.sample_latency_ns_per_op.is_empty());
    assert_eq!(number(stats.ns_per_op), f64::INFINITY);
    assert_eq!(throughput.format_rate(stats.throughput_per_sec, &NumberTexts::new()), "n/a");
}

#[test]
fn concurrent_sums_are_those_of_the_samples() {
    let mut run = ConcurrentRun::start(2);
    for operations in [3_u64, 4] {
        let thread = |worker_index: usize, iterations: u64| ThreadMeasurement {
            worker_index,
            measurement: ConcurrentWorkerMeasurement {
                results: Results { iterations, ..Results::default() },
                counters: Vec::new(),
            },
        };
        let threads = vec![thread(0, operations), thread(1, 10 * operations)];
        let sample = aggregate_sample(2, threads, Nanos::from_millis(5)).unwrap();
        assert!(run.record(sample, None, Vec::new()));
    }
    assert_eq!(run.summed.iterations, 77);
    assert_eq!(run.summed.duration, Nanos::from_millis(10));
    assert_eq!(run.samples.iter().map(|sample| sample.iterations).sum::<u64>(), 77);
    assert_eq!(run.metrics.len(), 2);
    assert_eq!(run.workers[0].summed.iterations, 7);
    assert_eq!(run.workers[1].summed.iterations, 70);
    assert_eq!(run.workers[1].samples.len(), 2);
}
