//! Processor and memory counters, pinning and the choice of cores.
use micromeasure::bench::affinity::{
    affinity_warning, candidate_pin_cores, capture_warning, choose_concurrent_pin_cores,
    choose_default_pin_core, core_ids_from_mask, counts, current_allowed_core_ids,
    no_core_warning, pin_warning, requested_pin_core, restore_warning, selected_pin_core,
    worker_pin_warning,
};
use micromeasure::bench::perf::{
    collect, collect_group, collect_individual, counter_mode, enforce_pmu_quality,
    linux_perf_hint, scale_multiplexed_count, thread_ids, timing_window, warn_perf_status,
    CounterMode, CounterRead, CounterStep, GroupCounts, GroupRead, IndividualReads, PerfIssues, PerfWarning,
    ThreadRead,
};
use micromeasure::bench::perf_memory::{
    byte_multiplier, check_byte_scale, collect_memory_bandwidth, discover_memory_bandwidth,
    event_multiplier, imc_devices, is_imc_pmu_name, memory_bandwidth_metrics, note_opening,
    note_start, partial_warning, quality_warning, unavailable_warning, ImcDevice, ImcTarget,
    MemoryBandwidthSample, PairRead, PairStart, Reading, METRIC_SECTION,
};
use micromeasure::bench::results::Results;
use micromeasure::parse::{parse_cpu_list, parse_setting, parse_u32, parse_usize};
use micromeasure::threading::{
    cpu_path, detect_performance_cores, logical_processor_id, physical_cores, LogicalProcessor,
    PhysicalCoreMetrics,
};
use micromeasure::{
    DetectionResult, DoubleBits, LinuxPerfThreadSet, MemoryBandwidthScope, Nanos, NumberStyle,
    NumberTexts, PerformanceCoreSelection, PmuScope,
};

fn bits(value: f64) -> DoubleBits {
    DoubleBits::from_bits(value.to_bits())
}

fn closed() -> IndividualReads {
    IndividualReads {
        cycles: CounterRead::Closed,
        instructions: CounterRead::Closed,
        cache_references: CounterRead::Closed,
        l1i_misses: CounterRead::Closed,
        branches: CounterRead::Closed,
        branch_misses: CounterRead::Closed,
        cache_misses: CounterRead::Closed,
        stalled_cycles_frontend: CounterRead::Closed,
        stalled_cycles_backend: CounterRead::Closed,
    }
}

fn no_counts() -> GroupCounts {
    GroupCounts {
        time_enabled: None,
        time_running: None,
        cycles: None,
        instructions: None,
        cache_references: None,
        l1i_misses: None,
        branches: None,
        branch_misses: None,
        cache_misses: None,
        stalled_cycles_frontend: None,
        stalled_cycles_backend: None,
    }
}

#[test]
fn prepared_activation_failure_attempts_individual_fallback() {
    assert!(CounterMode::Idle.needs_fallback(true));
    assert!(CounterMode::Group.needs_fallback(false));
    assert!(!CounterMode::Group.needs_fallback(true));
    let mut issues = PerfIssues::new();
    for any_opened in [false, true] {
        let mode = counter_mode(true, true, any_opened, &mut issues);
        assert!(matches!(mode, CounterMode::Individual | CounterMode::TimingOnly));
        assert!(!mode.needs_fallback(false));
    }
    assert_eq!(issues.list, vec!["using ungrouped perf counters fallback".to_string()]);
    assert_eq!(counter_mode(false, true, true, &mut issues), CounterMode::Group);
}

#[test]
fn timing_window_reports_least_scheduled_counter() {
    assert_eq!(
        timing_window(&[(1_000, 800), (1_000, 250), (1_000, 600)]),
        (1_000, 250)
    );
    assert_eq!(timing_window(&[(0, 0), (500, 0)]), (500, 0));
    assert_eq!(timing_window(&[]), (0, 0));
}

#[test]
fn registered_thread_set_is_idempotent() {
    let mut threads = LinuxPerfThreadSet::new();
    assert!(threads.is_empty());
    threads.register(41);
    threads.register(7);
    threads.register(41);
    assert_eq!(threads.len(), 2);
    assert_eq!(threads.snapshot(), vec![7, 41]);
    assert!(threads.unregister(41));
    assert!(!threads.unregister(41));
    assert!(threads.unregister(7));
    assert!(threads.is_empty());
}

#[test]
fn process_thread_snapshot_contains_caller() {
    let names: Vec<String> =
        ["30", "self", "4", "30", "-1x"].iter().map(|name| name.to_string()).collect();
    assert_eq!(thread_ids(&names), vec![4, 30]);
}

#[test]
fn public_scopes_have_distinct_persisted_identity() {
    let current = PmuScope::CallingThread;
    let process = PmuScope::ProcessThreads;
    let registered = PmuScope::RegisteredThreads;
    assert_ne!(current.measurement_label(), process.measurement_label());
    assert_ne!(process.measurement_label(), registered.measurement_label());
    assert!(!current.starts_individual());
    assert!(process.starts_individual());
}

#[test]
fn scaling_extends_counts_to_the_enabled_time() {
    assert_eq!(scale_multiplexed_count(50, 1_000, 500), 100);
    assert_eq!(scale_multiplexed_count(0, 1_000, 500), 0);
    assert_eq!(scale_multiplexed_count(50, 0, 500), 50);
    assert_eq!(scale_multiplexed_count(50, 500, 1_000), 50);
    assert_eq!(scale_multiplexed_count(u64::MAX, u64::MAX, 1), u64::MAX);
}

#[test]
fn individual_counters_are_scaled_and_noted() {
    let mut issues = PerfIssues::new();
    let mut reads = closed();
    reads.cycles = CounterRead::Count { count: 10, enabled_ns: 100, running_ns: 50 };
    reads.branches = CounterRead::Count { count: 3, enabled_ns: 100, running_ns: 0 };
    reads.cache_misses = CounterRead::Failed { message: "gone".to_string() };
    let results = collect_individual(&reads, Nanos::from_millis(1), 8, &mut issues);
    assert_eq!(results.cycles, 20);
    assert!(results.has_cycles);
    assert!(!results.has_branches);
    assert!(!results.has_cache_misses);
    assert_eq!(results.pmu_time_enabled_ns, 100);
    assert_eq!(results.pmu_time_running_ns, 0);
    assert_eq!(results.iterations, 8);
    assert_eq!(
        issues.list,
        vec![
            "perf event 'branches' has no usable scheduled window; omitting it".to_string(),
            "perf event 'cache-misses' read failed: gone".to_string(),
        ]
    );
}

#[test]
fn group_counters_fall_back_when_they_run_too_little() {
    let mut issues = PerfIssues::new();
    let mut counts = no_counts();
    counts.time_enabled = Some(Nanos::from_nanos(200));
    counts.time_running = Some(Nanos::from_nanos(100));
    counts.instructions = Some(7);
    let read = GroupRead::Counts(counts);
    let (results, again) = collect_group(&read, bits(50.0), Nanos::zero(), 1, &mut issues);
    assert_eq!(results.instructions, 14);
    assert!(results.has_instructions);
    assert!(!results.has_cycles);
    assert!(again);
    let (_, again) = collect_group(&read, bits(95.0), Nanos::zero(), 1, &mut issues);
    assert!(!again);
    assert!(issues.list.is_empty());

    let idle = GroupRead::Counts(no_counts());
    let (results, again) = collect_group(&idle, bits(0.0), Nanos::zero(), 1, &mut issues);
    assert!(again);
    assert!(!results.has_instructions);
    let failed = GroupRead::Failed { message: "no fd".to_string() };
    let (_, again) = collect_group(&failed, bits(100.0), Nanos::zero(), 1, &mut issues);
    assert!(again);
    assert_eq!(
        issues.list,
        vec![
            "perf group was opened but never scheduled; switching to ungrouped counters"
                .to_string(),
            "perf group read failed: no fd".to_string(),
        ]
    );
}

#[test]
fn threads_are_summed_under_the_time_of_the_sample() {
    let mut issues = PerfIssues::new();
    let thread = |count: u64| {
        let mut reads = closed();
        reads.instructions = CounterRead::Count { count, enabled_ns: 10, running_ns: 10 };
        ThreadRead::Individual(reads)
    };
    let (sum, prefer) = collect(
        &vec![thread(5), ThreadRead::TimingOnly, thread(6)],
        false,
        Nanos::from_millis(3),
        9,
        &mut issues,
    );
    let sum = sum.unwrap();
    assert_eq!(sum.instructions, 11);
    assert_eq!(sum.duration, Nanos::from_millis(3));
    assert_eq!(sum.iterations, 9);
    assert_eq!(sum.chunks_executed, 1);
    assert!(!prefer);
    let (none, _) =
        collect(&vec![thread(u64::MAX), thread(1)], false, Nanos::zero(), 0, &mut issues);
    assert!(none.is_none());
}

#[test]
fn issues_are_kept_once_and_few() {
    let mut issues = PerfIssues::new();
    for index in 0..10 {
        issues.record_perf_issue(format!("issue {}", index / 2));
    }
    assert_eq!(issues.list.len(), 5);
    for index in 10..20 {
        issues.record_perf_issue(format!("issue {index}"));
    }
    assert_eq!(issues.list.len(), 6);
    issues.clear_perf_issues();
    assert!(issues.list.is_empty());
}

#[test]
fn hints_name_the_kernel_setting() {
    let denied = vec!["perf event 'cycles' unavailable: Permission denied".to_string()];
    assert_eq!(linux_perf_hint(true, &denied, Some(3)), None);
    assert_eq!(linux_perf_hint(false, &vec!["other".to_string()], Some(3)), None);
    assert_eq!(
        linux_perf_hint(false, &denied, Some(4)).unwrap(),
        "kernel.perf_event_paranoid=4; lower it to 2 or less (or grant CAP_PERFMON/CAP_SYS_ADMIN) to enable PMU counters"
    );
    assert!(linux_perf_hint(false, &denied, Some(-1))
        .unwrap()
        .starts_with("kernel.perf_event_paranoid=-1; PMU still unavailable"));
    assert!(linux_perf_hint(false, &denied, None).unwrap().starts_with("PMU still"));
    assert_eq!(parse_setting(" 4\n"), Some(4));
    assert_eq!(parse_setting("-1\n"), Some(-1));
    assert_eq!(parse_setting("x"), None);
}

#[test]
fn poor_scheduling_is_warned_about() {
    let mut results = Results::default();
    results.pmu_time_enabled_ns = 100;
    results.pmu_time_running_ns = 50;
    let mut texts = NumberTexts::new();
    texts.record(bits(50.0), NumberStyle::Fixed { places: 1 }, "50.0".to_string());
    assert_eq!(
        enforce_pmu_quality("case", true, &results, bits(50.0), &texts).unwrap(),
        "⚠️ PMU counters were scheduled too little for benchmark 'case': 50.0% < 90.0%; scaled values may be unreliable"
    );
    assert_eq!(enforce_pmu_quality("case", true, &results, bits(90.0), &texts), None);
    assert_eq!(enforce_pmu_quality("case", false, &results, bits(50.0), &texts), None);
    assert_eq!(warn_perf_status(false, false), Some(PerfWarning::Unavailable));
    assert_eq!(warn_perf_status(true, false), Some(PerfWarning::Partial));
    assert_eq!(warn_perf_status(true, true), None);
    assert!(PerfWarning::Partial.message().contains("Some PMU counters"));
}

#[test]
fn normalizes_kernel_units_to_bytes() {
    assert_eq!(byte_multiplier("bytes"), Some(1));
    assert_eq!(byte_multiplier("KiB"), Some(1024));
    assert_eq!(byte_multiplier("MiB"), Some(1024 * 1024));
    assert_eq!(byte_multiplier("GB"), Some(1_000_000_000));
    assert_eq!(byte_multiplier("transactions"), None);
    assert_eq!(byte_multiplier(" mib\n"), Some(1024 * 1024));
}

#[test]
fn recognizes_only_numbered_imc_pmus() {
    assert!(is_imc_pmu_name("uncore_imc_0"));
    assert!(is_imc_pmu_name("uncore_imc_12"));
    assert!(!is_imc_pmu_name("uncore_imc_free_running_0"));
    assert!(!is_imc_pmu_name("uncore_imc_"));
}

fn bandwidth(scope: MemoryBandwidthScope) -> MemoryBandwidthSample {
    let gib = 1024.0 * 1024.0 * 1024.0;
    let (read, write) = (3.0 * gib, 1.0 * gib);
    MemoryBandwidthSample {
        scheduled_percent: bits(80.0),
        least_running_ns: 20_000_000,
        coverage_percent: bits(100.0),
        scope,
        read_bytes_per_op: bits(read / 1024.0),
        write_bytes_per_op: bits(write / 1024.0),
        total_bytes_per_op: bits((read + write) / 1024.0),
        read_gib_s: bits(read / gib / 2.0),
        write_gib_s: bits(write / gib / 2.0),
        total_gib_s: bits((read + write) / gib / 2.0),
    }
}

#[test]
fn complete_samples_emit_bytes_and_bandwidth() {
    let sample = bandwidth(MemoryBandwidthScope::SystemComplete);
    let (metrics, low) = memory_bandwidth_metrics(&sample, 1024, Nanos::from_secs(2));
    let value = |name: &str| {
        metrics.iter().find(|metric| metric.name == name).map(|metric| metric.value).unwrap()
    };
    assert_eq!(value("dram_read_gib_s"), bits(1.5));
    assert_eq!(value("dram_write_gib_s"), bits(0.5));
    assert_eq!(value("dram_total_gib_s"), bits(2.0));
    assert_eq!(value("dram_imc_coverage_percent"), bits(100.0));
    assert!(metrics.iter().all(|metric| metric.section == METRIC_SECTION));
    assert_eq!(metrics.len(), 8);
    assert!(!low);
    let (no_time, _) = memory_bandwidth_metrics(&sample, 1024, Nanos::zero());
    assert_eq!(no_time.len(), 5);
    let (no_operations, _) = memory_bandwidth_metrics(&sample, 0, Nanos::from_secs(2));
    assert_eq!(no_operations.len(), 5);
}

#[test]
fn multiplex_scaling_aggregates_across_imc_targets() {
    let bytes = scale_multiplexed_count(100, 1_000, 1_000) as f64 * 64.0
        + scale_multiplexed_count(50, 1_000, 500) as f64 * 64.0;
    assert_eq!(bytes, 12_800.0);
}

#[test]
fn partial_samples_do_not_manufacture_whole_system_bandwidth() {
    let sample = bandwidth(MemoryBandwidthScope::SystemPartial);
    let (metrics, _) = memory_bandwidth_metrics(&sample, 1, Nanos::from_secs(1));
    assert_eq!(metrics.len(), 2);
    assert!(metrics
        .iter()
        .all(|metric| !metric.name.ends_with("_gib_s") && !metric.name.contains("bytes")));
}

#[test]
fn unavailable_samples_emit_no_zero_bandwidth_metrics() {
    let sample = bandwidth(MemoryBandwidthScope::SystemUnavailable);
    let (metrics, low) = memory_bandwidth_metrics(&sample, 1, Nanos::from_secs(1));
    assert!(metrics.is_empty());
    assert!(!low);
}

fn device(name: &str, cpumask: &str, write: Result<f64, &str>) -> ImcDevice {
    ImcDevice {
        name: name.to_string(),
        cpumask: Ok(cpumask.to_string()),
        read_scale: Ok(bits(64.0)),
        write_scale: write.map(bits).map_err(|error| error.to_string()),
    }
}

#[test]
fn fixture_discovery_parses_event_scale_unit_and_cpumask() {
    let mut issues = PerfIssues::new();
    let names: Vec<String> = ["power", "uncore_imc_1", "uncore_imc_0", "uncore_imc_x"]
        .iter()
        .map(|name| name.to_string())
        .collect();
    assert_eq!(
        imc_devices(&names),
        vec!["uncore_imc_0".to_string(), "uncore_imc_1".to_string()]
    );
    let multiplier = event_multiplier(Some(bits(6.103515625e-5)), Some("MiB\n")).unwrap();
    let scale = check_byte_scale(bits(6.103515625e-5 * multiplier as f64)).unwrap();
    assert_eq!(scale, bits(64.0));

    let discovery = discover_memory_bandwidth(
        &vec![device("uncore_imc_0", "0,12\n", Ok(64.0))],
        &mut issues,
    );
    assert!(discovery.complete);
    assert_eq!(discovery.expected_targets, 2);
    assert_eq!(discovery.configs.len(), 1);
    assert_eq!(discovery.configs[0].cpus, vec![0, 12]);
    assert_eq!(discovery.configs[0].read_scale_bytes, bits(64.0));
    assert_eq!(discovery.configs[0].write_scale_bytes, bits(64.0));
    assert!(issues.list.is_empty());
}

#[test]
fn fixture_discovery_marks_missing_event_as_partial() {
    let mut issues = PerfIssues::new();
    let discovery = discover_memory_bandwidth(
        &vec![device("uncore_imc_0", "0\n", Err("no such event"))],
        &mut issues,
    );
    assert!(!discovery.complete);
    assert_eq!(discovery.expected_targets, 1);
    assert!(discovery.configs.is_empty());
    assert_eq!(
        issues.list,
        vec!["IMC PMU 'uncore_imc_0/cas_count_write' unavailable: no such event".to_string()]
    );
}

#[test]
fn unreadable_scopes_are_never_complete() {
    let mut issues = PerfIssues::new();
    let discovery = discover_memory_bandwidth(
        &vec![device("uncore_imc_0", "0-\n", Ok(64.0))],
        &mut issues,
    );
    assert!(!discovery.complete);
    assert_eq!(discovery.expected_targets, 1);
    assert_eq!(
        issues.list,
        vec!["IMC PMU 'uncore_imc_0' CPU scope unavailable: invalid CPU list \"0-\\n\"".to_string()]
    );
    let none = discover_memory_bandwidth(&Vec::new(), &mut issues);
    assert!(!none.complete);
    let warning = unavailable_warning(&issues);
    assert_eq!(warning.len(), 3);
    assert!(warning[2].starts_with("   IMC PMU 'uncore_imc_0'"));
}

#[test]
fn events_without_a_usable_scale_are_refused() {
    assert_eq!(event_multiplier(None, Some("MiB")).unwrap_err(), "event has no usable scale");
    assert_eq!(
        event_multiplier(Some(bits(-1.0)), Some("MiB")).unwrap_err(),
        "event has no usable scale"
    );
    assert_eq!(event_multiplier(Some(bits(1.0)), None).unwrap_err(), "event has no unit");
    assert_eq!(
        event_multiplier(Some(bits(1.0)), Some("pages")).unwrap_err(),
        "unsupported event unit \"pages\""
    );
    assert!(check_byte_scale(bits(f64::INFINITY)).is_err());
}

fn target(cpu: usize) -> ImcTarget {
    ImcTarget { name: "uncore_imc_0".to_string(), cpu }
}

fn reading(count: u64, enabled_ns: u64, running_ns: u64) -> Result<Reading, String> {
    Ok(Reading { count, enabled_ns, running_ns })
}

#[test]
fn memory_counters_are_collected_by_target() {
    let mut issues = PerfIssues::new();
    let pairs = vec![
        PairRead {
            target: target(0),
            read: reading(100, 1_000, 1_000),
            write: reading(50, 1_000, 500),
        },
        PairRead {
            target: target(12),
            read: reading(1, 0, 0),
            write: reading(1, 1, 1),
        },
        PairRead {
            target: target(13),
            read: Err("closed".to_string()),
            write: reading(1, 1, 1),
        },
    ];
    let collected = collect_memory_bandwidth(&pairs, 3, true, &mut issues);
    assert_eq!(collected.scope, MemoryBandwidthScope::SystemPartial);
    assert_eq!(collected.counts.len(), 1);
    assert_eq!(collected.counts[0].index, 0);
    assert_eq!(collected.counts[0].read, 100);
    assert_eq!(collected.counts[0].write, 100);
    assert_eq!(collected.least_scheduled, Some((1_000, 500)));
    assert_eq!(
        issues.list,
        vec![
            "IMC counter pair 'uncore_imc_0' on CPU 12 has no usable scheduled window"
                .to_string(),
            "IMC read counter 'uncore_imc_0' on CPU 13 read failed: closed".to_string(),
        ]
    );
    let none = collect_memory_bandwidth(&Vec::new(), 0, true, &mut issues);
    assert_eq!(none.scope, MemoryBandwidthScope::SystemUnavailable);
    let whole = collect_memory_bandwidth(
        &vec![PairRead { target: target(0), read: reading(1, 1, 1), write: reading(1, 1, 1) }],
        1,
        true,
        &mut issues,
    );
    assert_eq!(whole.scope, MemoryBandwidthScope::SystemComplete);
}

#[test]
fn memory_counters_that_do_not_start_are_left_out() {
    let mut issues = PerfIssues::new();
    assert!(note_start(&target(0), &PairStart::Started, &mut issues));
    assert!(!note_start(
        &target(0),
        &PairStart::WriteFailed { error: "busy".to_string() },
        &mut issues
    ));
    assert!(!note_opening(&target(1), &(Some("denied".to_string()), None), &mut issues));
    assert!(note_opening(&target(1), &(None, None), &mut issues));
    assert_eq!(
        issues.list,
        vec![
            "IMC write counter 'uncore_imc_0' on CPU 0 enable failed: busy".to_string(),
            "IMC read counter 'uncore_imc_0' on CPU 1 unavailable: denied".to_string(),
        ]
    );
    let mut texts = NumberTexts::new();
    texts.record(bits(10.0), NumberStyle::Fixed { places: 1 }, "10.0".to_string());
    texts.record(bits(2.5), NumberStyle::Fixed { places: 1 }, "2.5".to_string());
    assert_eq!(
        quality_warning(bits(10.0), bits(2.5), &texts),
        "⚠️  Uncore memory bandwidth scheduling quality is low: 10.0% scheduled, 2.5 ms least-event running time; scaled bandwidth may be unreliable."
    );
}

#[test]
fn processor_lists_are_read() {
    assert_eq!(parse_cpu_list("0-3,8").unwrap(), vec![0, 1, 2, 3, 8]);
    assert_eq!(parse_cpu_list(" 5 \n").unwrap(), vec![5]);
    assert!(parse_cpu_list("").is_err());
    assert!(parse_cpu_list("3-1").is_err());
    assert!(parse_cpu_list("1,,2").is_err());
    assert_eq!(parse_usize("+12"), Some(12));
    assert_eq!(parse_usize("-12"), None);
    assert_eq!(parse_usize("99999999999999999999"), None);
    assert_eq!(parse_u32(" 4294967295\n"), Some(u32::MAX));
    assert_eq!(parse_u32("4294967296"), None);
}

#[test]
fn pinning_prefers_fast_allowed_cores() {
    let detected = Some(DetectionResult::PerformanceCores(PerformanceCoreSelection {
        logical_processor_ids: vec![4, 9, 4],
    }));
    let allowed = vec![0, 1, 4];
    let candidates = candidate_pin_cores(&detected, &allowed);
    assert_eq!(candidates, vec![4, 0, 1]);
    assert_eq!(candidate_pin_cores(&None, &allowed), allowed);
    assert_eq!(choose_default_pin_core(&candidates, &vec![false, false, true]), Some(1));
    assert_eq!(choose_default_pin_core(&candidates, &vec![false, false, false]), Some(4));
    assert_eq!(choose_default_pin_core(&Vec::new(), &Vec::new()), None);
    assert_eq!(
        choose_concurrent_pin_cores(&candidates, &vec![false, true, true], 2),
        vec![0, 1]
    );
    assert_eq!(
        choose_concurrent_pin_cores(&candidates, &vec![false, false, true], 2),
        vec![1, 4]
    );
    assert_eq!(
        choose_concurrent_pin_cores(&candidates, &vec![true, true, true], 9),
        vec![4, 0, 1]
    );
    assert_eq!(selected_pin_core(Some(1), &allowed, Some(4)), Some(1));
    assert_eq!(selected_pin_core(Some(7), &allowed, Some(4)), Some(4));
    assert_eq!(requested_pin_core(&Some("3".to_string())), Some(3));
    assert_eq!(requested_pin_core(&Some("three".to_string())), None);
    assert_eq!(core_ids_from_mask(&vec![true, false, true]), vec![0, 2]);
    assert_eq!(current_allowed_core_ids(&Some(vec![false]), 2), vec![0, 1]);
    assert_eq!(
        pin_warning("benchmark thread", 3, "denied"),
        "Could not pin benchmark thread to core 3: denied. Continuing without pinning"
    );
}

#[test]
fn warnings_about_pinning_say_what_failed() {
    assert_eq!(
        worker_pin_warning(2, 13, "denied"),
        "Could not pin concurrent benchmark worker 2 to core 13: denied. Continuing without worker pinning"
    );
    assert_eq!(
        capture_warning("denied"),
        "Could not capture existing benchmark thread affinity: denied. Continuing with best effort pinning"
    );
    assert_eq!(
        no_core_warning(),
        "No logical cores detected for pinning; benchmark will run without CPU pinning"
    );
    assert_eq!(
        restore_warning("denied"),
        "Could not restore benchmark thread affinity after run: denied"
    );
    assert_eq!(affinity_warning("careful"), "⚠️  careful");
    assert_eq!(
        partial_warning(),
        "⚠️  Uncore memory-controller coverage is partial; whole-system DRAM bandwidth metrics will be omitted."
    );
}

fn core_of(ids: &[usize], capacity: Option<u32>, frequency: Option<u32>) -> PhysicalCoreMetrics {
    PhysicalCoreMetrics {
        logical_processor_ids: ids.to_vec(),
        capacity,
        max_freq_khz: frequency,
    }
}

fn selected(cores: &Vec<PhysicalCoreMetrics>) -> Option<Vec<usize>> {
    match detect_performance_cores(cores) {
        DetectionResult::PerformanceCores(selection) => Some(selection.logical_processor_ids),
        DetectionResult::NoSelection => None,
    }
}

#[test]
fn fast_cores_are_told_apart_by_capacity_then_frequency() {
    let mixed = vec![
        core_of(&[1, 0], Some(1024), None),
        core_of(&[2], Some(921), None),
        core_of(&[3], Some(922), None),
    ];
    assert_eq!(selected(&mixed), Some(vec![0, 1, 3]));
    let close = vec![core_of(&[0], Some(100), None), core_of(&[1], Some(91), None)];
    assert_eq!(selected(&close), None);
    let tenth = vec![core_of(&[0], Some(100), None), core_of(&[1], Some(90), None)];
    assert_eq!(selected(&tenth), None);
    let by_frequency = vec![
        core_of(&[0], Some(5), Some(3_000_000)),
        core_of(&[1], Some(5), Some(1_000_000)),
    ];
    assert_eq!(selected(&by_frequency), Some(vec![0]));
    assert_eq!(selected(&Vec::new()), None);
    let alike = vec![core_of(&[0], Some(5), Some(7)), core_of(&[1], Some(5), Some(7))];
    assert_eq!(selected(&alike), None);
}

#[test]
fn thresholds_match_floating_point_arithmetic() {
    for max in [1u32, 5, 10, 15, 99, 1024, 3_700_000, 4_294_967_295] {
        for min in [0, max / 2, max - max / 10, max - max / 10 - max / 100, max] {
            let cores = vec![core_of(&[0], Some(max), None), core_of(&[1], Some(min), None)];
            let expected = if min == max || ((max - min) as f64 / max as f64) < 0.10 {
                None
            } else {
                let threshold = (max as f64 * 0.90).round() as u32;
                if min >= threshold {
                    None
                } else {
                    Some(vec![0])
                }
            };
            assert_eq!(selected(&cores), expected, "{max} {min}");
        }
    }
}

#[test]
fn logical_processors_are_grouped_by_core() {
    let processor = |id: usize, core: Option<u32>, capacity: Option<u32>| LogicalProcessor {
        id,
        package_id: Some(0),
        core_id: core,
        capacity,
        max_freq_khz: None,
    };
    let cores = physical_cores(&vec![
        processor(0, Some(0), Some(10)),
        processor(1, Some(1), None),
        processor(2, Some(0), Some(12)),
        processor(3, None, None),
    ]);
    assert_eq!(cores.len(), 3);
    assert_eq!(cores[0].logical_processor_ids, vec![0, 2]);
    assert_eq!(cores[0].capacity, Some(12));
    assert_eq!(cores[1].logical_processor_ids, vec![1]);
    assert_eq!(cores[2].logical_processor_ids, vec![3]);
    assert_eq!(logical_processor_id("cpu17"), Some(17));
    assert_eq!(logical_processor_id("cpufreq"), None);
    assert_eq!(logical_processor_id("node0"), None);
    assert_eq!(cpu_path(3), "/sys/devices/system/cpu/cpu3");
}

#[test]
fn samples_without_counters_keep_their_time() {
    let mut issues = PerfIssues::new();
    let threads = vec![ThreadRead::TimingOnly, ThreadRead::TimingOnly];
    let (sum, prefer) = collect(&threads, false, Nanos::from_millis(4), 12, &mut issues);
    let sum = sum.unwrap();
    assert_eq!(sum.duration, Nanos::from_millis(4));
    assert_eq!(sum.iterations, 12);
    assert_eq!(sum.instructions, 0);
    assert_eq!(sum.cycles, 0);
    assert!(!prefer);
    assert!(issues.list.is_empty());
}

#[test]
fn failed_steps_are_noted_by_name() {
    let mut issues = PerfIssues::new();
    issues.note_event("cycles", CounterStep::Open, "no such device");
    issues.note_event("cycles", CounterStep::Enable, "busy");
    issues.note_event("cycles", CounterStep::Disable, "gone");
    issues.note_group(CounterStep::Open, "denied");
    issues.note_group(CounterStep::Disable, "denied");
    assert_eq!(
        issues.list,
        vec![
            "perf event 'cycles' unavailable: no such device".to_string(),
            "perf event 'cycles' enable failed: busy".to_string(),
            "perf event 'cycles' disable failed: gone".to_string(),
            "perf group unavailable: denied".to_string(),
            "perf group disable failed: denied".to_string(),
        ]
    );
}

#[test]
fn empty_groups_and_scopes_are_noted() {
    let mut issues = PerfIssues::new();
    assert!(issues.check_group(&vec![false, true]));
    assert!(issues.check_scope(1, None));
    assert!(issues.list.is_empty());
    assert!(!issues.check_group(&vec![false, false]));
    assert!(!issues.check_scope(0, Some("denied")));
    assert_eq!(
        issues.list,
        vec![
            "no perf events could be added to perf group".to_string(),
            "could not enumerate process threads: denied".to_string(),
            "PMU scope contains no live threads".to_string(),
        ]
    );
}

#[test]
fn counters_count_when_they_saw_something_or_ran() {
    assert!(counts(1, 0));
    assert!(counts(0, 1));
    assert!(!counts(0, 0));
}
