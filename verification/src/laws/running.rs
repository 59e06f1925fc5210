//! How a benchmark is run: its calibration, its warm-up and its samples.
use crate::bench::backend;
use crate::bench::backend::{
    default_section, default_sections, execute_timing_only, measured_or_host, DiagnosticError,
    DiagnosticPass, DiagnosticResult, MetricFormat, MetricValue,
};
use crate::bench::calibration::{
    target_sample_count, BenchmarkRuntimeOptions, Calibration, RuntimeOptionError, WarmUp,
};
use crate::bench::concurrent::{
    ConcurrentSampleInfo, ConcurrentSampleResult, WorkerSampleSummary,
};
use crate::bench::engine::{
    pinning_notice, CasePhase, ConcurrentCase, ConcurrentPhase, StandardCase, Step,
};
use crate::bench::results::Results;
use crate::bench::run;
use crate::bench::run::{with_diagnostics, ConcurrentRun, StandardRun, WorkerRun};
use crate::double::DoubleBits;
use crate::laws::results::sums_add_each_count;
use crate::time::Nanos;
use vstd::prelude::*;

verus! {

/// Options are valid exactly where warm-up and measurement take time and the
/// least number of samples is neither zero nor above the greatest. What is
/// reported of others is what is wrong with them.
pub proof fn options_need_time_and_samples(
    options: BenchmarkRuntimeOptions,
    r: Result<(), RuntimeOptionError>,
)
    requires
        call_ensures(BenchmarkRuntimeOptions::validate, (&options,), r),
    ensures
        r is Ok <==> options.warm_up_duration.count > 0 && options.benchmark_duration.count > 0 && 0
            < options.min_samples <= options.max_samples,
        r matches Err(RuntimeOptionError::NoWarmUp) ==> options.warm_up_duration.count == 0,
        r matches Err(RuntimeOptionError::NoBenchmarkTime) ==> options.benchmark_duration.count
            == 0,
        r matches Err(RuntimeOptionError::NoMinimum) ==> options.min_samples == 0,
        r matches Err(RuntimeOptionError::NoMaximum) ==> options.max_samples == 0,
        r matches Err(RuntimeOptionError::MinimumAboveMaximum) ==> options.min_samples
            > options.max_samples,
{
}

/// The options that a benchmark starts from: a second of warm-up, five seconds
/// of samples, twenty to a hundred of them. They are valid.
pub proof fn options_start_from_known_values(
    options: BenchmarkRuntimeOptions,
    r: Result<(), RuntimeOptionError>,
)
    requires
        call_ensures(<BenchmarkRuntimeOptions as Default>::default, (), options),
        call_ensures(BenchmarkRuntimeOptions::validate, (&options,), r),
    ensures
        options.warm_up_duration.count == 1_000_000_000,
        options.benchmark_duration.count == 5_000_000_000,
        options.min_samples == 20,
        options.max_samples == 100,
        r is Ok,
{
}

/// As many samples are taken as fit into the time, but no fewer than the least
/// and no more than the greatest number. Where the length of a sample is
/// unknown or not above zero, the greatest number is taken.
pub proof fn samples_fill_the_time(
    options: BenchmarkRuntimeOptions,
    seconds: DoubleBits,
    in_time: usize,
    r: usize,
)
    requires
        options.min_samples <= options.max_samples,
        call_ensures(target_sample_count, (&options, seconds, in_time), r),
    ensures
        options.min_samples <= r <= options.max_samples,
        r == in_time || r == options.min_samples || r == options.max_samples,
        0 < seconds.bits < 0x7ff0_0000_0000_0000 ==> {
            &&& options.min_samples <= in_time <= options.max_samples ==> r == in_time
            &&& in_time < options.min_samples ==> r == options.min_samples
            &&& in_time > options.max_samples ==> r == options.max_samples
        },
        seconds.bits == 0 || seconds.bits >= 0x7ff0_0000_0000_0000 ==> r == options.max_samples,
{
}

/// A longer measurement never takes fewer samples.
pub proof fn more_time_takes_no_fewer_samples(
    options: BenchmarkRuntimeOptions,
    seconds: DoubleBits,
    few: usize,
    many: usize,
    fewer: usize,
    more: usize,
)
    requires
        options.min_samples <= options.max_samples,
        few <= many,
        call_ensures(target_sample_count, (&options, seconds, few), fewer),
        call_ensures(target_sample_count, (&options, seconds, many), more),
    ensures
        fewer <= more,
{
}

/// The search for a chunk size starts at one operation.
pub proof fn calibration_starts_small(c: Calibration)
    requires
        call_ensures(Calibration::start, (), c),
    ensures
        c.chunk_size == 1,
        c.best_chunk_size == 1,
        c.passes == 0,
        !c.finished,
{
}

/// A pass too short to be measured makes the next chunk ten times as large, one
/// that took from 40 to 60 milliseconds ends the search with its chunk, and any
/// other pass goes on with the chunk that its time suggests. Chunks stay within
/// one and fifty million operations, and the last chunk tried is the best.
pub proof fn calibration_looks_for_fifty_milliseconds(
    c: Calibration,
    duration: Nanos,
    suggested: u64,
)
    requires
        1 <= c.chunk_size <= 50_000_000,
        c.passes < 15,
    ensures
        ({
            let next = c.after_pass(duration, suggested);
            &&& next.passes == c.passes + 1
            &&& next.best_chunk_size == next.chunk_size
            &&& 1 <= next.chunk_size <= 50_000_000
            &&& duration.count < 100_000 ==> {
                &&& c.chunk_size <= 5_000_000 ==> next.chunk_size == 10 * c.chunk_size
                &&& c.chunk_size > 5_000_000 ==> next.chunk_size == 50_000_000
            }
            &&& 40_000_000 <= duration.count <= 60_000_000 ==> next.finished && next.chunk_size
                == c.chunk_size
            &&& (100_000 <= duration.count < 40_000_000 || duration.count > 60_000_000) ==> {
                &&& 1 <= suggested <= 50_000_000 ==> next.chunk_size == suggested
                &&& suggested == 0 ==> next.chunk_size == 1
                &&& suggested > 50_000_000 ==> next.chunk_size == 50_000_000
            }
            &&& next.finished <==> (40_000_000 <= duration.count <= 60_000_000 || next.chunk_size
                == c.chunk_size || next.passes == 15)
        }),
{
}

/// The warm-up begins with the chunk that the search ended with, and the search
/// goes on until it has ended.
pub proof fn warm_up_follows_calibration(c: Calibration, duration: Nanos, suggested: u64)
    ensures
        ({
            let next = c.after_pass(duration, suggested);
            match StandardCase::phase_after_pass(c, duration, suggested) {
                CasePhase::Calibrating(search) => !next.finished && search == next,
                CasePhase::WarmingUp { chunk_size, warm_up } => next.finished && chunk_size
                    == next.best_chunk_size && warm_up.count == 0 && warm_up.measured.count == 0,
                CasePhase::Measuring { .. } => false,
            }
        }),
{
}

/// A case starts its search at one operation, or its warm-up with the chunk that
/// it is told to use, and has measured nothing.
pub proof fn cases_start_empty(
    options: BenchmarkRuntimeOptions,
    fixed: Option<usize>,
    diagnostics: usize,
    case: StandardCase,
)
    requires
        call_ensures(StandardCase::start, (options, fixed, diagnostics), case),
    ensures
        case.runtime == options,
        case.run.samples@.len() == 0,
        case.run.metrics@.len() == 0,
        case.run.summed.iterations == 0,
        case.run.summed.duration.count == 0,
        case.diagnostic.metrics@.len() == 0,
        case.diagnostic.remaining == diagnostics,
        fixed matches Some(size) ==> (case.phase matches CasePhase::WarmingUp {
            chunk_size,
            warm_up,
        } && chunk_size == size && warm_up.count == 0 && warm_up.measured.count == 0),
        fixed is None ==> (case.phase matches CasePhase::Calibrating(c) && c.chunk_size == 1
            && c.passes == 0 && !c.finished),
{
}

/// What is done next: passes until the chunk is found, warm-up runs until
/// measuring begins, samples until there are enough, and diagnostic samples
/// until none is left.
pub proof fn steps_follow_the_phases(case: StandardCase, step: Step)
    requires
        call_ensures(StandardCase::next_step, (&case,), step),
    ensures
        step is Pass <==> case.phase is Calibrating,
        step is WarmUp <==> case.phase is WarmingUp,
        case.phase matches CasePhase::Calibrating(c) ==> step == (Step::Pass {
            chunk_size: c.chunk_size,
        }),
        case.phase matches CasePhase::WarmingUp { chunk_size, warm_up } ==> step == (Step::WarmUp {
            chunk_size,
            index: warm_up.count,
        }),
        case.phase matches CasePhase::Measuring { chunk_size, target_samples } ==> {
            let taken = case.run.samples@.len();
            &&& step is Sample <==> taken < target_samples
            &&& step is Diagnose <==> taken >= target_samples && case.diagnostic.remaining > 0
            &&& step is Done <==> taken >= target_samples && case.diagnostic.remaining == 0
            &&& step matches Step::Sample { chunk_size: size, index } ==> size == chunk_size
                && index == taken
            &&& step matches Step::Diagnose { chunk_size: size, index } ==> size == chunk_size
                && index == case.diagnostic.metrics@.len()
        },
{
    assert(case.run.samples@.len() == case.run.samples.len());
    assert(case.diagnostic.metrics@.len() == case.diagnostic.metrics.len());
}

/// A concurrent case warms up until measuring begins, and then takes samples
/// until there are enough.
pub proof fn concurrent_samples_follow_the_phases(
    case: ConcurrentCase,
    r: Option<ConcurrentSampleInfo>,
)
    requires
        call_ensures(ConcurrentCase::next_sample, (&case,), r),
    ensures
        case.phase matches ConcurrentPhase::WarmingUp { count } ==> (r matches Some(info)
            && info.phase is WarmUp && info.sample_index == count),
        case.phase matches ConcurrentPhase::Measuring { target_samples } ==> {
            let taken = case.run.samples@.len();
            &&& r is Some <==> taken < target_samples
            &&& r matches Some(info) ==> info.phase is Measurement && info.sample_index == taken
        },
{
    assert(case.run.samples@.len() == case.run.samples.len());
}

/// A notice is given where there are fewer cores than threads to pin.
pub proof fn too_few_cores_are_noticed(threads: usize, cores: usize, r: Option<String>)
    requires
        call_ensures(pinning_notice, (threads, cores), r),
    ensures
        r is Some <==> cores < threads,
{
}

/// Warming up goes on while less time has passed than the options ask for.
pub proof fn warm_up_takes_its_time(case: StandardCase, elapsed: Nanos, r: bool)
    requires
        call_ensures(StandardCase::warms_up, (&case, elapsed), r),
    ensures
        r <==> elapsed.count < case.runtime.warm_up_duration.count,
{
}

/// The time of a sample is the one that was measured; the host's time stands in
/// only where none was.
pub proof fn measured_time_comes_first(measured: Nanos, host: Nanos, r: Nanos)
    requires
        call_ensures(measured_or_host, (measured, host), r),
    ensures
        measured.count > 0 ==> r == measured,
        measured.count == 0 ==> r == host,
{
}

/// A sample is kept as it was measured, with the host's time where it has none.
pub proof fn samples_are_kept_as_measured(sample: Results, host: Nanos)
    ensures
        run::timed(sample, host).duration == (if sample.duration.count > 0 {
            sample.duration
        } else {
            host
        }),
        run::timed(sample, host) == (Results {
            duration: run::timed(sample, host).duration,
            ..sample
        }),
{
}

/// A warm-up run that was counted adds its time, and there is room for it unless
/// a total would be too large.
pub proof fn warm_up_runs_have_room(w: WarmUp, measured: Nanos, host: Nanos)
    ensures
        w.count < usize::MAX && measured.count > 0 ==> (w.has_room(measured, host)
            <==> w.measured.count + measured.count
            <= 18_446_744_073_709_551_615_999_999_999),
        w.count < usize::MAX && measured.count == 0 ==> (w.has_room(measured, host)
            <==> w.measured.count + host.count <= 18_446_744_073_709_551_615_999_999_999),
        w.count == usize::MAX ==> !w.has_room(measured, host),
{
}

/// Where nothing but the time is taken, the sample holds its time and its
/// operations, and no counter.
pub proof fn timing_only_counts_nothing_else(duration: Nanos, operations: u64, r: Results)
    requires
        call_ensures(execute_timing_only, (duration, operations), r),
    ensures
        r.duration == duration,
        r.iterations == operations,
        r.chunks_executed == 1,
        r.cycles == 0,
        r.instructions == 0,
        r.branches == 0,
        r.branch_misses == 0,
        r.cache_misses == 0,
{
}

/// The results of a scenario are those summed over its threads, or what the
/// scenario's own backend measured where there is one.
pub proof fn scenarios_without_backend_keep_their_sums(sample: Results)
    ensures
        run::scenario_results(sample, None) == sample,
{
}

/// One more concurrent sample adds one entry everywhere and changes none of the
/// earlier ones.
pub proof fn concurrent_samples_are_appended(
    before: ConcurrentRun,
    sample: ConcurrentSampleResult,
    measured: Option<Results>,
    metrics: Seq<MetricValue>,
    after: ConcurrentRun,
)
    requires
        ConcurrentRun::extended(before, sample, measured, metrics, after),
    ensures
        after.samples@.len() == before.samples@.len() + 1,
        forall|i: int| 0 <= i < before.samples@.len() ==> after.samples@[i] == before.samples@[i],
        measured is None ==> after.samples@.last() == sample.results,
        after.metrics@.len() == before.metrics@.len() + 1,
        after.metrics@.last()@.len() == metrics.len(),
        forall|i: int|
            #![trigger metrics[i]]
            0 <= i < metrics.len() ==> {
                let kept = after.metrics@.last()@[i];
                &&& kept.name == metrics[i].name
                &&& kept.value == metrics[i].value
                &&& kept.unit == metrics[i].unit
                &&& metrics[i].section@.len() > 0 ==> kept.section == metrics[i].section
                &&& metrics[i].section@.len() == 0 ==> kept.section@ == "scenario"@
            },
        after.workers@.len() == before.workers@.len(),
        forall|w: int|
            #![trigger after.workers@[w]]
            0 <= w < before.workers@.len() ==> {
                &&& after.workers@[w].samples@.len() == before.workers@[w].samples@.len() + 1
                &&& after.workers@[w].samples@.last() == sample.worker_summaries@[w].results
                &&& after.workers@[w].samples@.drop_last() == before.workers@[w].samples@
            },
{
    assert forall|w: int| 0 <= w < before.workers@.len() implies (#[trigger] after.workers@[w]).samples@.len()
        == before.workers@[w].samples@.len() + 1 && after.workers@[w].samples@.last()
        == sample.worker_summaries@[w].results && after.workers@[w].samples@.drop_last()
        == before.workers@[w].samples@ by {
        assert(run::worker_extended(
            before.workers@[w],
            sample.worker_summaries@[w],
            after.workers@[w],
        ));
        assert(after.workers@[w].samples@.drop_last() =~= before.workers@[w].samples@);
    }
}

/// A concurrent sample adds its counts to the sums, those of the scenario to the
/// scenario's and those of each worker to that worker's; a count that the backend
/// measured of the scenario stands for the one summed over the threads.
pub proof fn concurrent_sums_grow_by_the_sample(
    before: ConcurrentRun,
    sample: ConcurrentSampleResult,
    measured: Option<Results>,
    metrics: Seq<MetricValue>,
    after: ConcurrentRun,
)
    requires
        ConcurrentRun::extended(before, sample, measured, metrics, after),
        before.has_room(sample, measured),
    ensures
        ({
            let last = after.samples@.last();
            &&& after.summed.iterations == before.summed.iterations + last.iterations
            &&& after.summed.duration.count == before.summed.duration.count + last.duration.count
            &&& after.summed.cycles == before.summed.cycles + last.cycles
            &&& after.summed.instructions == before.summed.instructions + last.instructions
            &&& last.cycles == match measured {
                Some(m) => if m.has_cycles {
                    m.cycles
                } else {
                    sample.results.cycles
                },
                None => sample.results.cycles,
            }
            &&& last.instructions == match measured {
                Some(m) => if m.has_instructions {
                    m.instructions
                } else {
                    sample.results.instructions
                },
                None => sample.results.instructions,
            }
            &&& last.branch_misses == match measured {
                Some(m) => if m.has_branch_misses {
                    m.branch_misses
                } else {
                    sample.results.branch_misses
                },
                None => sample.results.branch_misses,
            }
            &&& last.cache_misses == match measured {
                Some(m) => if m.has_cache_misses {
                    m.cache_misses
                } else {
                    sample.results.cache_misses
                },
                None => sample.results.cache_misses,
            }
        }),
        forall|w: int|
            #![trigger after.workers@[w]]
            0 <= w < before.workers@.len() ==> {
                let own = sample.worker_summaries@[w].results;
                let earlier = before.workers@[w].summed;
                let later = after.workers@[w].summed;
                &&& later.iterations == earlier.iterations + own.iterations
                &&& later.duration.count == earlier.duration.count + own.duration.count
                &&& later.cycles == earlier.cycles + own.cycles
                &&& later.instructions == earlier.instructions + own.instructions
                &&& later.branches == earlier.branches + own.branches
                &&& later.branch_misses == earlier.branch_misses + own.branch_misses
                &&& later.cache_misses == earlier.cache_misses + own.cache_misses
            },
{
    let last = run::scenario_results(sample.results, measured);
    assert(after.samples@.last() == last);
    sums_add_each_count(before.summed, last);
    assert forall|w: int|
        #![trigger after.workers@[w]]
        0 <= w < before.workers@.len() implies {
        let own = sample.worker_summaries@[w].results;
        let earlier = before.workers@[w].summed;
        let later = after.workers@[w].summed;
        &&& later.iterations == earlier.iterations + own.iterations
        &&& later.duration.count == earlier.duration.count + own.duration.count
        &&& later.cycles == earlier.cycles + own.cycles
        &&& later.instructions == earlier.instructions + own.instructions
        &&& later.branches == earlier.branches + own.branches
        &&& later.branch_misses == earlier.branch_misses + own.branch_misses
        &&& later.cache_misses == earlier.cache_misses + own.cache_misses
    } by {
        assert(before.workers@[w].summed.fits(sample.worker_summaries@[w].results));
        assert(run::worker_extended(
            before.workers@[w],
            sample.worker_summaries@[w],
            after.workers@[w],
        ));
        sums_add_each_count(before.workers@[w].summed, sample.worker_summaries@[w].results);
    }
}

/// The metrics of the diagnostic samples stand behind those of the samples.
pub proof fn diagnostics_stand_behind_the_samples(
    metrics: Vec<Vec<MetricValue>>,
    diagnostics: Vec<Vec<MetricValue>>,
    r: Vec<Vec<MetricValue>>,
)
    requires
        call_ensures(with_diagnostics, (metrics, diagnostics), r),
    ensures
        r@.len() == metrics@.len() + diagnostics@.len(),
        forall|i: int| 0 <= i < metrics@.len() ==> r@[i] == metrics@[i],
        forall|i: int|
            0 <= i < diagnostics@.len() ==> r@[metrics@.len() + i] == #[trigger] diagnostics@[i],
{
}

/// A metric stays in its section, and one without a section comes into the one
/// given; nothing else of it changes.
pub proof fn metrics_stay_in_their_section(metric: MetricValue, section: &'static str, r: MetricValue)
    requires
        call_ensures(default_section, (metric, section), r),
    ensures
        metric.section@.len() > 0 ==> r == metric,
        metric.section@.len() == 0 ==> r == (MetricValue { section, ..metric }),
{
}

/// The same of many metrics, in their order.
pub proof fn all_metrics_stay_in_their_section(
    metrics: Vec<MetricValue>,
    section: &'static str,
    r: Vec<MetricValue>,
)
    requires
        call_ensures(default_sections, (metrics, section), r),
    ensures
        r@.len() == metrics@.len(),
        forall|i: int|
            #![trigger r@[i]]
            0 <= i < metrics@.len() ==> {
                &&& metrics@[i].section@.len() > 0 ==> r@[i] == metrics@[i]
                &&& metrics@[i].section@.len() == 0 ==> r@[i] == (MetricValue {
                    section,
                    ..metrics@[i]
                })
            },
{
}

/// A diagnostic sample that failed leaves one metric that says so, one that
/// worked leaves its own metrics.
pub proof fn failed_diagnostics_are_reported(
    outcome: Result<DiagnosticResult, DiagnosticError>,
    one: DoubleBits,
    r: Seq<MetricValue>,
)
    requires
        backend::pass_metrics(outcome, one, r),
    ensures
        outcome is Err ==> r.len() == 1 && r[0].name@ == "diagnostic_pass_failed"@ && r[0].value
            == one && r[0].unit@ == "errors"@ && r[0].section@ == "diagnostic"@,
        outcome matches Ok(result) ==> r.len() == result.metrics@.len() && forall|i: int|
            0 <= i < r.len() ==> (#[trigger] r[i]).name == result.metrics@[i].name && r[i].value
                == result.metrics@[i].value,
{
}

} // verus!
