//! The course of a benchmark case, from its calibration to its last sample.
use micromeasure::bench::backend::{DiagnosticError, DiagnosticResult, MetricValue};
use micromeasure::bench::calibration::{BenchmarkRuntimeOptions, MAX_CHUNK_SIZE};
use micromeasure::bench::concurrent::{ConcurrentSampleResult, WorkerSampleSummary};
use micromeasure::bench::engine::{
    calibrated_notice, concurrent_calibrated_notice, concurrent_warm_up_notice, pass_notice,
    pinning_notice, warm_up_notice, CasePhase, ConcurrentCase, ConcurrentPhase, StandardCase,
    Step,
};
use micromeasure::bench::results::Results;
use micromeasure::{
    ConcurrentSampleInfo, ConcurrentSamplePhase, CounterValue, DoubleBits, Nanos,
};

fn bits(value: f64) -> DoubleBits {
    DoubleBits::from_bits(value.to_bits())
}

fn runtime(min_samples: usize, max_samples: usize) -> BenchmarkRuntimeOptions {
    BenchmarkRuntimeOptions {
        warm_up_duration: Nanos::from_millis(10),
        benchmark_duration: Nanos::from_secs(1),
        min_samples,
        max_samples,
    }
}

fn sample(iterations: u64, nanos: u64) -> Results {
    Results { duration: Nanos::from_nanos(nanos), iterations, ..Results::default() }
}

#[test]
fn calibration_grows_an_unmeasurable_chunk_tenfold() {
    let mut case = StandardCase::start(runtime(2, 5), None, 0);
    assert_eq!(case.next_step(), Step::Pass { chunk_size: 1 });
    assert!(!case.pass_taken(Nanos::from_nanos(99_999), 0));
    assert_eq!(case.next_step(), Step::Pass { chunk_size: 10 });
    assert!(case.pass_taken(Nanos::from_millis(1), 500));
    assert_eq!(case.next_step(), Step::Pass { chunk_size: 500 });
    assert!(case.pass_taken(Nanos::from_millis(50), 500));
    assert_eq!(case.next_step(), Step::WarmUp { chunk_size: 500, index: 0 });
}

#[test]
fn calibration_ends_at_the_largest_chunk() {
    let mut case = StandardCase::start(runtime(2, 5), None, 0);
    assert!(case.pass_taken(Nanos::from_millis(1), u64::MAX));
    assert_eq!(case.next_step(), Step::Pass { chunk_size: MAX_CHUNK_SIZE });
    assert!(case.pass_taken(Nanos::from_millis(1), u64::MAX));
    assert_eq!(case.next_step(), Step::WarmUp { chunk_size: MAX_CHUNK_SIZE, index: 0 });
}

#[test]
fn calibration_takes_no_more_than_fifteen_passes() {
    let mut case = StandardCase::start(runtime(2, 5), None, 0);
    let mut passes = 0;
    while let Step::Pass { chunk_size } = case.next_step() {
        passes += 1;
        let next = if chunk_size == 7 { 8 } else { 7 };
        case.pass_taken(Nanos::from_millis(200), next);
    }
    assert_eq!(passes, 15);
}

#[test]
fn fixed_chunks_are_not_calibrated() {
    let mut case = StandardCase::start(runtime(2, 5), Some(64), 0);
    assert_eq!(case.next_step(), Step::WarmUp { chunk_size: 64, index: 0 });
    assert!(case.warms_up(Nanos::from_nanos(9_999_999)));
    assert!(!case.warms_up(Nanos::from_millis(10)));
    assert!(case.warmed_up(Nanos::zero(), Nanos::from_millis(3)));
    assert!(case.warmed_up(Nanos::from_millis(2), Nanos::from_millis(3)));
    assert_eq!(case.next_step(), Step::WarmUp { chunk_size: 64, index: 2 });
    match case.phase {
        CasePhase::WarmingUp { warm_up, .. } => {
            assert_eq!(warm_up.measured, Nanos::from_millis(5));
        }
        _ => panic!("the case has left its warm-up"),
    }
}

#[test]
fn samples_are_taken_in_order_and_diagnosed_after() {
    let mut case = StandardCase::start(runtime(2, 3), Some(8), 2);
    case.start_measuring(bits(0.25), 4);
    assert_eq!(case.next_step(), Step::Sample { chunk_size: 8, index: 0 });
    assert!(case.sample_taken(sample(8, 100), Nanos::from_nanos(150), Vec::new()));
    assert_eq!(case.next_step(), Step::Sample { chunk_size: 8, index: 1 });
    assert!(case.sample_taken(sample(8, 0), Nanos::from_nanos(150), Vec::new()));
    assert_eq!(case.next_step(), Step::Sample { chunk_size: 8, index: 2 });
    assert!(case.sample_taken(sample(8, 50), Nanos::from_nanos(150), Vec::new()));
    assert_eq!(case.next_step(), Step::Diagnose { chunk_size: 8, index: 0 });
    let result = DiagnosticResult::new("gpu")
        .push_metric(MetricValue::new("occupancy", bits(0.5), "%"));
    case.diagnosed(Ok(result));
    assert_eq!(case.next_step(), Step::Diagnose { chunk_size: 8, index: 1 });
    case.diagnosed(Err(DiagnosticError::new("lost".to_string())));
    assert_eq!(case.next_step(), Step::Done);
    assert_eq!(case.run.samples.len(), 3);
    assert_eq!(case.run.summed.iterations, 24);
    assert_eq!(case.run.summed.duration, Nanos::from_nanos(300));
    assert_eq!(case.diagnostic.metrics.len(), 2);
    assert_eq!(case.diagnostic.metrics[0][0].section, "gpu");
    assert_eq!(case.diagnostic.metrics[1][0].name, "diagnostic_pass_failed");
}

#[test]
fn a_failed_diagnostic_pass_ends_the_case() {
    let mut case = StandardCase::start(runtime(1, 1), Some(8), 5);
    case.start_measuring(bits(1.0), 1);
    assert!(case.sample_taken(sample(8, 100), Nanos::from_nanos(150), Vec::new()));
    case.diagnosed(Err(DiagnosticError::new("denied".to_string())));
    assert_eq!(case.next_step(), Step::Done);
    assert_eq!(case.run.samples.len(), 1);
}

#[test]
fn sample_counts_stay_within_their_limits() {
    for (seconds, in_time, expected) in
        [(0.5, 2, 5), (0.1, 10, 10), (0.0001, 10_000, 20), (0.0, 0, 20)]
    {
        let mut case = StandardCase::start(runtime(5, 20), Some(8), 0);
        case.start_measuring(bits(seconds), in_time);
        match case.phase {
            CasePhase::Measuring { target_samples, .. } => assert_eq!(target_samples, expected),
            _ => panic!("the case does not measure"),
        }
    }
}

#[test]
fn sums_that_cannot_be_held_are_refused() {
    let mut case = StandardCase::start(runtime(2, 2), Some(8), 0);
    case.start_measuring(bits(1.0), 1);
    assert!(case.sample_taken(sample(u64::MAX, 1), Nanos::from_nanos(1), Vec::new()));
    assert!(!case.sample_taken(sample(1, 1), Nanos::from_nanos(1), Vec::new()));
    assert_eq!(case.run.samples.len(), 1);
    assert_eq!(case.next_step(), Step::Sample { chunk_size: 8, index: 1 });
}

#[test]
fn concurrent_cases_count_their_warm_up_and_then_their_samples() {
    let mut case = ConcurrentCase::start(runtime(2, 4), 1);
    let warm_up = |sample_index: usize| {
        Some(ConcurrentSampleInfo { phase: ConcurrentSamplePhase::WarmUp, sample_index })
    };
    assert_eq!(case.next_sample(), warm_up(0));
    case.warmed_up();
    assert_eq!(case.next_sample(), warm_up(1));
    assert!(!case.warms_up(Nanos::from_millis(11)));
    case.start_measuring(bits(0.5), 2);
    assert_eq!(case.phase, ConcurrentPhase::Measuring { target_samples: 2 });
    for index in 0..2 {
        assert_eq!(
            case.next_sample(),
            Some(ConcurrentSampleInfo {
                phase: ConcurrentSamplePhase::Measurement,
                sample_index: index,
            })
        );
        let taken = ConcurrentSampleResult {
            results: sample(10, 100),
            worker_summaries: vec![WorkerSampleSummary {
                results: sample(10, 90),
                counters: vec![CounterValue::new("retries", 3)],
            }],
        };
        let metrics = vec![MetricValue::new("depth", bits(4.0), "items")];
        assert!(case.sample_taken(taken, None, metrics));
    }
    assert_eq!(case.next_sample(), None);
    assert_eq!(case.run.summed.iterations, 20);
    assert_eq!(case.run.workers[0].summed.duration, Nanos::from_nanos(180));
    assert_eq!(case.run.workers[0].counters[0].value, 6);
    assert_eq!(case.run.metrics[1][0].section, "scenario");
}

#[test]
fn notices_name_what_was_chosen() {
    assert_eq!(
        pass_notice(3, 500, "2.00 Mops/s"),
        "🔥 calibrating benchmark  pass:  3/15  chunk:       500  est: 2.00 Mops/s"
    );
    assert_eq!(
        warm_up_notice(75, 500, false),
        "🔥 calibrating benchmark  warmup remaining:   75 ms  chunk:       500"
    );
    assert_eq!(
        warm_up_notice(12_345, 500, true),
        "🔥 calibrating benchmark  warmup remaining: 12345 ms  chunk: 500"
    );
    assert_eq!(
        calibrated_notice(500, 40, "2.00 Mops/s"),
        "  calibrated: chunk=500 samples=40 estimate=2.00 Mops/s"
    );
    assert_eq!(
        concurrent_warm_up_notice(75, 250, "n/a"),
        "🔥 calibrating benchmark  warmup remaining:   75 ms  sample:  250 ms  est: n/a"
    );
    assert_eq!(
        concurrent_calibrated_notice(250, 40, "n/a"),
        "  calibrated: sample=250ms samples=40 estimate=n/a"
    );
    assert_eq!(pinning_notice(4, 4), None);
    assert_eq!(
        pinning_notice(8, 4).unwrap(),
        "Concurrent benchmark requested 8 worker threads but only 4 distinct candidate cores were available for pinning; PMU multiplexing may still occur"
    );
}
