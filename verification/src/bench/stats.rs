//! The statistics of a benchmark, made of its samples.
use crate::bench::backend::{MeasurementDomain, MetricValue};
use crate::bench::counters::CounterValue;
use crate::bench::metrics;
use crate::bench::metrics::{sample_metric_sets, summarize_metrics, MetricAverages};
use crate::bench::results;
use crate::bench::results::Results;
use crate::bench::throughput::Throughput;
use crate::double;
use crate::double::{sort_numbers, tukey_outlier_count, DoubleBits};
use crate::numbers::NumberTexts;
use crate::session::{BenchmarkStats, WorkerCounterSummary};
use vstd::prelude::*;

verus! {

/// The bit pattern of infinity.
pub const INFINITY_BITS: u64 = 0x7ff0_0000_0000_0000;

/// Two counts whose quotient is a statistic. Where the denominator is zero the
/// statistic is zero, but for the time per operation, which is infinite.
#[derive(Clone, Copy, Debug, PartialEq, Eq, Structural)]
pub struct Ratio {
    pub numerator: u128,
    pub denominator: u64,
    /// The statistic is one hundred times the quotient.
    pub percent: bool,
}

/// The quotients that make up the statistics of a benchmark.
#[derive(Clone, Copy, Debug, PartialEq, Eq, Structural)]
pub struct StatRatios {
    pub ns_per_op: Ratio,
    pub cycles_per_op: Ratio,
    pub instructions_per_op: Ratio,
    pub ipc: Ratio,
    pub cache_references_per_op: Ratio,
    pub l1i_misses_per_op: Ratio,
    pub branches_per_op: Ratio,
    pub branch_miss_rate: Ratio,
    pub branch_misses_per_op: Ratio,
    pub cache_misses_per_op: Ratio,
    pub cache_miss_percent: Ratio,
    pub frontend_stall_cycles_per_op: Ratio,
    pub frontend_stall_percent: Ratio,
    pub backend_stall_cycles_per_op: Ratio,
    pub backend_stall_percent: Ratio,
}

/// Each statistic over the counts of an average sample.
pub open spec fn ratios_of(results: Results) -> StatRatios {
    StatRatios {
        ns_per_op: Ratio {
            numerator: results.duration.count as u128,
            denominator: results.iterations,
            percent: false,
        },
        cycles_per_op: Ratio {
            numerator: results.cycles as u128,
            denominator: results.iterations,
            percent: false,
        },
        instructions_per_op: Ratio {
            numerator: results.instructions as u128,
            denominator: results.iterations,
            percent: false,
        },
        ipc: Ratio {
            numerator: results.instructions as u128,
            denominator: results.cycles,
            percent: false,
        },
        cache_references_per_op: Ratio {
            numerator: results.cache_references as u128,
            denominator: results.iterations,
            percent: false,
        },
        l1i_misses_per_op: Ratio {
            numerator: results.l1i_misses as u128,
            denominator: results.iterations,
            percent: false,
        },
        branches_per_op: Ratio {
            numerator: results.branches as u128,
            denominator: results.iterations,
            percent: false,
        },
        branch_miss_rate: Ratio {
            numerator: results.branch_misses as u128,
            denominator: results.branches,
            percent: true,
        },
        branch_misses_per_op: Ratio {
            numerator: results.branch_misses as u128,
            denominator: results.iterations,
            percent: false,
        },
        cache_misses_per_op: Ratio {
            numerator: results.cache_misses as u128,
            denominator: results.iterations,
            percent: false,
        },
        cache_miss_percent: Ratio {
            numerator: results.cache_misses as u128,
            denominator: results.cache_references,
            percent: true,
        },
        frontend_stall_cycles_per_op: Ratio {
            numerator: results.stalled_cycles_frontend as u128,
            denominator: results.iterations,
            percent: false,
        },
        frontend_stall_percent: Ratio {
            numerator: results.stalled_cycles_frontend as u128,
            denominator: results.cycles,
            percent: true,
        },
        backend_stall_cycles_per_op: Ratio {
            numerator: results.stalled_cycles_backend as u128,
            denominator: results.iterations,
            percent: false,
        },
        backend_stall_percent: Ratio {
            numerator: results.stalled_cycles_backend as u128,
            denominator: results.cycles,
            percent: true,
        },
    }
}

pub fn stat_ratios(results: &Results) -> (r: StatRatios)
    ensures
        r == ratios_of(*results),
{
    StatRatios {
        ns_per_op: Ratio {
            numerator: results.duration.count,
            denominator: results.iterations,
            percent: false,
        },
        cycles_per_op: Ratio {
            numerator: results.cycles as u128,
            denominator: results.iterations,
            percent: false,
        },
        instructions_per_op: Ratio {
            numerator: results.instructions as u128,
            denominator: results.iterations,
            percent: false,
        },
        ipc: Ratio {
            numerator: results.instructions as u128,
            denominator: results.cycles,
            percent: false,
        },
        cache_references_per_op: Ratio {
            numerator: results.cache_references as u128,
            denominator: results.iterations,
            percent: false,
        },
        l1i_misses_per_op: Ratio {
            numerator: results.l1i_misses as u128,
            denominator: results.iterations,
            percent: false,
        },
        branches_per_op: Ratio {
            numerator: results.branches as u128,
            denominator: results.iterations,
            percent: false,
        },
        branch_miss_rate: Ratio {
            numerator: results.branch_misses as u128,
            denominator: results.branches,
            percent: true,
        },
        branch_misses_per_op: Ratio {
            numerator: results.branch_misses as u128,
            denominator: results.iterations,
            percent: false,
        },
        cache_misses_per_op: Ratio {
            numerator: results.cache_misses as u128,
            denominator: results.iterations,
            percent: false,
        },
        cache_miss_percent: Ratio {
            numerator: results.cache_misses as u128,
            denominator: results.cache_references,
            percent: true,
        },
        frontend_stall_cycles_per_op: Ratio {
            numerator: results.stalled_cycles_frontend as u128,
            denominator: results.iterations,
            percent: false,
        },
        frontend_stall_percent: Ratio {
            numerator: results.stalled_cycles_frontend as u128,
            denominator: results.cycles,
            percent: true,
        },
        backend_stall_cycles_per_op: Ratio {
            numerator: results.stalled_cycles_backend as u128,
            denominator: results.iterations,
            percent: false,
        },
        backend_stall_percent: Ratio {
            numerator: results.stalled_cycles_backend as u128,
            denominator: results.cycles,
            percent: true,
        },
    }
}

/// An average sample: the sum of the samples over their number.
pub open spec fn average(summed: Results, sample_count: usize) -> Results {
    if sample_count == 0 {
        summed
    } else {
        summed.over(sample_count as u64)
    }
}

pub fn average_sample(summed: &Results, sample_count: usize) -> (r: Results)
    requires
        sample_count == 0 || (sample_count as u64) as u32 != 0,
    ensures
        r == average(*summed, sample_count),
{
    let mut r = *summed;
    r.divide(sample_count as u64);
    r
}

/// A sample from which a rate can be taken.
pub open spec fn has_rate(sample: Results) -> bool {
    sample.duration.count > 0 && sample.iterations > 0
}

/// A sample from which a time per operation can be taken.
pub open spec fn has_latency(sample: Results) -> bool {
    sample.iterations > 0
}

/// The samples from which a rate can be taken.
pub fn rated_samples(samples: &Vec<Results>) -> (r: Vec<Results>)
    ensures
        r@ == samples@.filter(|s: Results| has_rate(s)),
{
    reveal(Seq::filter);
    let mut r: Vec<Results> = Vec::new();
    let mut i: usize = 0;
    while i < samples.len()
        invariant
            i <= samples.len(),
            r@ == samples@.take(i as int).filter(|s: Results| has_rate(s)),
        decreases samples.len() - i,
    {
        reveal(Seq::filter);
        assert(samples@.take(i + 1).drop_last() =~= samples@.take(i as int));
        if !samples[i].duration.is_zero() && samples[i].iterations > 0 {
            r.push(samples[i]);
        }
        i += 1;
    }
    assert(samples@.take(samples@.len() as int) =~= samples@);
    r
}

/// The samples from which a time per operation can be taken.
pub fn timed_samples(samples: &Vec<Results>) -> (r: Vec<Results>)
    ensures
        r@ == samples@.filter(|s: Results| has_latency(s)),
{
    reveal(Seq::filter);
    let mut r: Vec<Results> = Vec::new();
    let mut i: usize = 0;
    while i < samples.len()
        invariant
            i <= samples.len(),
            r@ == samples@.take(i as int).filter(|s: Results| has_latency(s)),
        decreases samples.len() - i,
    {
        reveal(Seq::filter);
        assert(samples@.take(i + 1).drop_last() =~= samples@.take(i as int));
        if samples[i].iterations > 0 {
            r.push(samples[i]);
        }
        i += 1;
    }
    assert(samples@.take(samples@.len() as int) =~= samples@);
    r
}

/// The rate and the time per operation of one sample. Each counts only where
/// the sample has one.
#[derive(Clone, Copy, Debug, PartialEq, Eq, Structural)]
pub struct SampleFigures {
    pub rate: DoubleBits,
    pub latency: DoubleBits,
}

/// The rates of the samples that have one.
pub open spec fn rates_of(samples: Seq<Results>, figures: Seq<SampleFigures>) -> Seq<DoubleBits>
    decreases samples.len(),
{
    if samples.len() == 0 {
        Seq::empty()
    } else {
        let front = rates_of(samples.drop_last(), figures.drop_last());
        if has_rate(samples.last()) {
            front.push(figures.last().rate)
        } else {
            front
        }
    }
}

/// The times per operation of the samples that have one.
pub open spec fn latencies_of(samples: Seq<Results>, figures: Seq<SampleFigures>) -> Seq<DoubleBits>
    decreases samples.len(),
{
    if samples.len() == 0 {
        Seq::empty()
    } else {
        let front = latencies_of(samples.drop_last(), figures.drop_last());
        if has_latency(samples.last()) {
            front.push(figures.last().latency)
        } else {
            front
        }
    }
}

fn sample_rates(samples: &Vec<Results>, figures: &Vec<SampleFigures>) -> (r: Vec<DoubleBits>)
    requires
        samples@.len() == figures@.len(),
    ensures
        r@ == rates_of(samples@, figures@),
{
    let mut r: Vec<DoubleBits> = Vec::new();
    let mut i: usize = 0;
    while i < samples.len()
        invariant
            i <= samples@.len(),
            samples@.len() == figures@.len(),
            r@ == rates_of(samples@.take(i as int), figures@.take(i as int)),
        decreases samples@.len() - i,
    {
        assert(samples@.take(i + 1).drop_last() =~= samples@.take(i as int));
        assert(figures@.take(i + 1).drop_last() =~= figures@.take(i as int));
        if !samples[i].duration.is_zero() && samples[i].iterations > 0 {
            r.push(figures[i].rate);
        }
        i += 1;
    }
    assert(samples@.take(samples@.len() as int) =~= samples@);
    assert(figures@.take(figures@.len() as int) =~= figures@);
    r
}

fn sample_latencies(samples: &Vec<Results>, figures: &Vec<SampleFigures>) -> (r: Vec<DoubleBits>)
    requires
        samples@.len() == figures@.len(),
    ensures
        r@ == latencies_of(samples@, figures@),
{
    let mut r: Vec<DoubleBits> = Vec::new();
    let mut i: usize = 0;
    while i < samples.len()
        invariant
            i <= samples@.len(),
            samples@.len() == figures@.len(),
            r@ == latencies_of(samples@.take(i as int), figures@.take(i as int)),
        decreases samples@.len() - i,
    {
        assert(samples@.take(i + 1).drop_last() =~= samples@.take(i as int));
        assert(figures@.take(i + 1).drop_last() =~= figures@.take(i as int));
        if samples[i].iterations > 0 {
            r.push(figures[i].latency);
        }
        i += 1;
    }
    assert(samples@.take(samples@.len() as int) =~= samples@);
    assert(figures@.take(figures@.len() as int) =~= figures@);
    r
}

/// There are as many rates and times per operation as there are samples that
/// have one.
pub proof fn figures_are_those_of_the_samples(samples: Seq<Results>, figures: Seq<SampleFigures>)
    requires
        samples.len() == figures.len(),
    ensures
        rates_of(samples, figures).len() == samples.filter(|s: Results| has_rate(s)).len(),
        latencies_of(samples, figures).len() == samples.filter(|s: Results| has_latency(s)).len(),
    decreases samples.len(),
{
    reveal(Seq::filter);
    if samples.len() > 0 {
        figures_are_those_of_the_samples(samples.drop_last(), figures.drop_last());
    }
}

/// The numbers of a benchmark that come out of divisions and averages.
#[derive(Clone, Copy, Debug, PartialEq, Eq, Structural)]
pub struct ComputedStats {
    pub throughput_per_sec: DoubleBits,
    pub median_throughput_per_sec: DoubleBits,
    pub median_ns_per_op: DoubleBits,
    pub p95_ns_per_op: DoubleBits,
    pub mad_ns_per_op: DoubleBits,
    pub ns_per_op: DoubleBits,
    pub cycles_per_op: DoubleBits,
    pub instructions_per_op: DoubleBits,
    pub ipc: DoubleBits,
    pub cache_references_per_op: DoubleBits,
    pub l1i_misses_per_op: DoubleBits,
    pub branches_per_op: DoubleBits,
    pub branch_miss_rate: DoubleBits,
    pub branch_misses_per_op: DoubleBits,
    pub cache_misses_per_op: DoubleBits,
    pub cache_miss_percent: DoubleBits,
    pub frontend_stall_cycles_per_op: DoubleBits,
    pub frontend_stall_percent: DoubleBits,
    pub backend_stall_cycles_per_op: DoubleBits,
    pub backend_stall_percent: DoubleBits,
    pub cv_percent: DoubleBits,
    pub total_duration_sec: DoubleBits,
    /// The fences outside which a latency is an outlier.
    pub lower_fence: DoubleBits,
    pub upper_fence: DoubleBits,
}

/// A quotient: zero where there is nothing to divide by.
pub open spec fn quotient_of(ratio: Ratio, value: DoubleBits) -> DoubleBits {
    if ratio.denominator == 0 {
        DoubleBits { bits: 0 }
    } else {
        value
    }
}

fn quotient_or_zero(ratio: Ratio, value: DoubleBits) -> (r: DoubleBits)
    ensures
        r == quotient_of(ratio, value),
{
    if ratio.denominator == 0 {
        DoubleBits::from_bits(0)
    } else {
        value
    }
}

/// What is computed from a list: zero where the list is empty.
pub open spec fn summary_of(list: Seq<DoubleBits>, value: DoubleBits) -> DoubleBits {
    if list.len() == 0 {
        DoubleBits { bits: 0 }
    } else {
        value
    }
}

fn summary_or_zero(list: &Vec<DoubleBits>, value: DoubleBits) -> (r: DoubleBits)
    ensures
        r == summary_of(list@, value),
{
    if list.len() == 0 {
        DoubleBits::from_bits(0)
    } else {
        value
    }
}

/// The rate of an average sample: zero without operations or without time.
pub open spec fn rate_of(averaged: Results, computed: ComputedStats) -> DoubleBits {
    if averaged.iterations == 0 || averaged.duration.count == 0 {
        DoubleBits { bits: 0 }
    } else {
        computed.throughput_per_sec
    }
}

/// The time per operation of an average sample: infinite without operations.
pub open spec fn latency_of(averaged: Results, computed: ComputedStats) -> DoubleBits {
    if averaged.iterations == 0 {
        DoubleBits { bits: INFINITY_BITS }
    } else {
        computed.ns_per_op
    }
}

/// The statistics agree with the numbers computed, with the counters of the
/// average sample, and with what the benchmark declares.
pub open spec fn stats_match(
    stats: BenchmarkStats,
    averaged: Results,
    computed: ComputedStats,
) -> bool {
    let ratios = ratios_of(averaged);
    &&& stats.throughput_per_sec == rate_of(averaged, computed)
    &&& stats.ns_per_op == latency_of(averaged, computed)
    &&& stats.cycles_per_op == quotient_of(ratios.cycles_per_op, computed.cycles_per_op)
    &&& stats.instructions_per_op == quotient_of(ratios.instructions_per_op, computed.instructions_per_op)
    &&& stats.ipc == quotient_of(ratios.ipc, computed.ipc)
    &&& stats.cache_references_per_op == quotient_of(ratios.cache_references_per_op, computed.cache_references_per_op)
    &&& stats.l1i_misses_per_op == quotient_of(ratios.l1i_misses_per_op, computed.l1i_misses_per_op)
    &&& stats.branches_per_op == quotient_of(ratios.branches_per_op, computed.branches_per_op)
    &&& stats.branch_miss_rate == quotient_of(ratios.branch_miss_rate, computed.branch_miss_rate)
    &&& stats.branch_misses_per_op == quotient_of(ratios.branch_misses_per_op, computed.branch_misses_per_op)
    &&& stats.cache_misses_per_op == quotient_of(ratios.cache_misses_per_op, computed.cache_misses_per_op)
    &&& stats.cache_miss_percent == quotient_of(ratios.cache_miss_percent, computed.cache_miss_percent)
    &&& stats.frontend_stall_cycles_per_op == quotient_of(ratios.frontend_stall_cycles_per_op, computed.frontend_stall_cycles_per_op)
    &&& stats.frontend_stall_percent == quotient_of(ratios.frontend_stall_percent, computed.frontend_stall_percent)
    &&& stats.backend_stall_cycles_per_op == quotient_of(ratios.backend_stall_cycles_per_op, computed.backend_stall_cycles_per_op)
    &&& stats.backend_stall_percent == quotient_of(ratios.backend_stall_percent, computed.backend_stall_percent)
    &&& stats.total_duration_sec == computed.total_duration_sec
    &&& stats.has_cycles == averaged.has_cycles
    &&& stats.has_instructions == averaged.has_instructions
    &&& stats.has_cache_references == averaged.has_cache_references
    &&& stats.has_l1i_misses == averaged.has_l1i_misses
    &&& stats.has_branches == averaged.has_branches
    &&& stats.has_branch_misses == averaged.has_branch_misses
    &&& stats.has_cache_misses == averaged.has_cache_misses
    &&& stats.has_stalled_cycles_frontend == averaged.has_stalled_cycles_frontend
    &&& stats.has_stalled_cycles_backend == averaged.has_stalled_cycles_backend
    &&& stats.pmu_time_enabled_ns == averaged.pmu_time_enabled_ns
    &&& stats.pmu_time_running_ns == averaged.pmu_time_running_ns
    &&& stats.operations == averaged.iterations
}

/// What a benchmark declares of its measurement.
pub struct StatsLabels<'a> {
    pub throughput: &'a Throughput,
    pub measurement_domain: MeasurementDomain,
    pub measurement_label: &'a str,
    pub emits_cpu_diagnostics: bool,
}

/// The statistics that samples have, whatever metrics they report.
pub open spec fn stats_of_samples(
    stats: BenchmarkStats,
    summed: Results,
    sample_count: usize,
    samples: Seq<Results>,
    figures: Seq<SampleFigures>,
    computed: ComputedStats,
) -> bool {
    let rates = double::ordered(rates_of(samples, figures));
    let latencies = double::ordered(latencies_of(samples, figures));
    &&& stats_match(stats, average(summed, sample_count), computed)
    &&& stats.samples == sample_count
    &&& stats.median_throughput_per_sec == summary_of(rates, computed.median_throughput_per_sec)
    &&& stats.cv_percent == summary_of(rates, computed.cv_percent)
    &&& stats.median_ns_per_op == summary_of(latencies, computed.median_ns_per_op)
    &&& stats.p95_ns_per_op == summary_of(latencies, computed.p95_ns_per_op)
    &&& stats.mad_ns_per_op == summary_of(latencies, computed.mad_ns_per_op)
    &&& stats.sample_throughput_per_sec@ == rates
    &&& stats.sample_latency_ns_per_op@ == latencies
    &&& stats.outlier_count == double::outliers(
        latencies,
        computed.lower_fence,
        computed.upper_fence,
    )
}

/// Puts the statistics of a benchmark together. `figures` holds the rate and
/// the time per operation of each sample, and `averages` what comes of the
/// values of each metric.
pub fn benchmark_stats_from_samples(
    summed_results: &Results,
    all_results: &Vec<Results>,
    sample_count: usize,
    labels: StatsLabels<'_>,
    figures: &Vec<SampleFigures>,
    computed: ComputedStats,
    averages: &Vec<MetricAverages>,
    per_sample_metrics: &Vec<Vec<MetricValue>>,
) -> (stats: BenchmarkStats)
    requires
        sample_count == 0 || (sample_count as u64) as u32 != 0,
        figures@.len() == all_results@.len(),
        averages@.len() == metrics::metric_groups(per_sample_metrics@).len(),
    ensures
        stats_of_samples(
            stats,
            *summed_results,
            sample_count,
            all_results@,
            figures@,
            computed,
        ),
        stats.throughput == *labels.throughput,
        stats.measurement_domain == labels.measurement_domain,
        stats.measurement_label@ == labels.measurement_label@,
        stats.emits_cpu_diagnostics == labels.emits_cpu_diagnostics,
        metrics::summarize_all(stats.metrics@, per_sample_metrics@, averages@),
        metrics::are_sample_sets(
            stats.sample_metrics@,
            per_sample_metrics@,
            per_sample_metrics@.len() as int,
        ),
{
    let averaged = average_sample(summed_results, sample_count);
    let rates = sort_numbers(&sample_rates(all_results, figures));
    let latencies = sort_numbers(&sample_latencies(all_results, figures));
    let outlier_count: usize = tukey_outlier_count(
        &latencies,
        computed.lower_fence,
        computed.upper_fence,
    );
    let ratios = stat_ratios(&averaged);
    let idle = averaged.iterations == 0;
    BenchmarkStats {
        throughput: labels.throughput.duplicate(),
        throughput_per_sec: if idle || averaged.duration.is_zero() {
            DoubleBits::from_bits(0)
        } else {
            computed.throughput_per_sec
        },
        median_throughput_per_sec: summary_or_zero(&rates, computed.median_throughput_per_sec),
        ns_per_op: if idle {
            DoubleBits::from_bits(INFINITY_BITS)
        } else {
            computed.ns_per_op
        },
        median_ns_per_op: summary_or_zero(&latencies, computed.median_ns_per_op),
        p95_ns_per_op: summary_or_zero(&latencies, computed.p95_ns_per_op),
        mad_ns_per_op: summary_or_zero(&latencies, computed.mad_ns_per_op),
        cycles_per_op: quotient_or_zero(ratios.cycles_per_op, computed.cycles_per_op),
        instructions_per_op: quotient_or_zero(ratios.instructions_per_op, computed.instructions_per_op),
        ipc: quotient_or_zero(ratios.ipc, computed.ipc),
        cache_references_per_op: quotient_or_zero(ratios.cache_references_per_op, computed.cache_references_per_op),
        l1i_misses_per_op: quotient_or_zero(ratios.l1i_misses_per_op, computed.l1i_misses_per_op),
        branches_per_op: quotient_or_zero(ratios.branches_per_op, computed.branches_per_op),
        branch_miss_rate: quotient_or_zero(ratios.branch_miss_rate, computed.branch_miss_rate),
        branch_misses_per_op: quotient_or_zero(ratios.branch_misses_per_op, computed.branch_misses_per_op),
        cache_misses_per_op: quotient_or_zero(ratios.cache_misses_per_op, computed.cache_misses_per_op),
        cache_miss_percent: quotient_or_zero(ratios.cache_miss_percent, computed.cache_miss_percent),
        frontend_stall_cycles_per_op: quotient_or_zero(ratios.frontend_stall_cycles_per_op, computed.frontend_stall_cycles_per_op),
        frontend_stall_percent: quotient_or_zero(ratios.frontend_stall_percent, computed.frontend_stall_percent),
        backend_stall_cycles_per_op: quotient_or_zero(ratios.backend_stall_cycles_per_op, computed.backend_stall_cycles_per_op),
        backend_stall_percent: quotient_or_zero(ratios.backend_stall_percent, computed.backend_stall_percent),
        cv_percent: summary_or_zero(&rates, computed.cv_percent),
        outlier_count,
        samples: sample_count,
        operations: averaged.iterations,
        total_duration_sec: computed.total_duration_sec,
        sample_throughput_per_sec: rates,
        sample_latency_ns_per_op: latencies,
        has_cycles: averaged.has_cycles,
        has_instructions: averaged.has_instructions,
        has_cache_references: averaged.has_cache_references,
        has_l1i_misses: averaged.has_l1i_misses,
        has_branches: averaged.has_branches,
        has_branch_misses: averaged.has_branch_misses,
        has_cache_misses: averaged.has_cache_misses,
        has_stalled_cycles_frontend: averaged.has_stalled_cycles_frontend,
        has_stalled_cycles_backend: averaged.has_stalled_cycles_backend,
        pmu_time_enabled_ns: averaged.pmu_time_enabled_ns,
        pmu_time_running_ns: averaged.pmu_time_running_ns,
        measurement_domain: labels.measurement_domain,
        measurement_label: labels.measurement_label.to_owned(),
        emits_cpu_diagnostics: labels.emits_cpu_diagnostics,
        metrics: summarize_metrics(per_sample_metrics, averages),
        sample_metrics: sample_metric_sets(per_sample_metrics),
    }
}

/// Which counters the statistics have, and how long they ran.
pub open spec fn counters_of(stats: BenchmarkStats) -> Results {
    Results {
        has_cycles: stats.has_cycles,
        has_instructions: stats.has_instructions,
        has_cache_references: stats.has_cache_references,
        has_l1i_misses: stats.has_l1i_misses,
        has_branches: stats.has_branches,
        has_branch_misses: stats.has_branch_misses,
        has_cache_misses: stats.has_cache_misses,
        has_stalled_cycles_frontend: stats.has_stalled_cycles_frontend,
        has_stalled_cycles_backend: stats.has_stalled_cycles_backend,
        pmu_time_enabled_ns: stats.pmu_time_enabled_ns,
        pmu_time_running_ns: stats.pmu_time_running_ns,
        ..Results::none()
    }
}

pub fn measurement_results_from_stats(stats: &BenchmarkStats) -> (r: Results)
    ensures
        r == counters_of(*stats),
{
    let none = Results::default();
    Results {
        has_cycles: stats.has_cycles,
        has_instructions: stats.has_instructions,
        has_cache_references: stats.has_cache_references,
        has_l1i_misses: stats.has_l1i_misses,
        has_branches: stats.has_branches,
        has_branch_misses: stats.has_branch_misses,
        has_cache_misses: stats.has_cache_misses,
        has_stalled_cycles_frontend: stats.has_stalled_cycles_frontend,
        has_stalled_cycles_backend: stats.has_stalled_cycles_backend,
        pmu_time_enabled_ns: stats.pmu_time_enabled_ns,
        pmu_time_running_ns: stats.pmu_time_running_ns,
        ..none
    }
}

/// The label of a measurement with or without processor counters.
pub open spec fn default_label(has_perf: bool) -> Seq<char> {
    if has_perf {
        "timing + PMU"@
    } else {
        "timing only"@
    }
}

pub fn measurement_label(has_perf: bool) -> (r: &'static str)
    ensures
        r@ == default_label(has_perf),
{
    if has_perf {
        "timing + PMU"
    } else {
        "timing only"
    }
}

/// The label that a measurement gives itself, or else the default one.
pub open spec fn label_of(stats: BenchmarkStats, has_perf: bool) -> Seq<char> {
    if stats.measurement_label@.len() > 0 {
        stats.measurement_label@
    } else {
        default_label(has_perf)
    }
}

pub fn effective_measurement_label(stats: &BenchmarkStats, has_perf: bool) -> (r: String)
    ensures
        r@ == label_of(*stats, has_perf),
{
    if !stats.measurement_label.as_str().is_empty() {
        stats.measurement_label.clone()
    } else {
        measurement_label(has_perf).to_owned()
    }
}

/// A counter's rates, which are computed from its total.
#[derive(Clone, Copy, Debug, PartialEq, Eq, Structural)]
pub struct CounterRates {
    pub per_op: DoubleBits,
    pub per_sec: DoubleBits,
}

/// What the total of a counter is divided by for its rate per operation: the
/// operations of all threads together. There is no rate without operations.
pub open spec fn per_operation_ratio(total: u64, operations: u64) -> Ratio {
    Ratio { numerator: total as u128, denominator: operations, percent: false }
}

pub fn counter_per_operation(counter: &CounterValue, operations: u64) -> (r: Ratio)
    ensures
        r == per_operation_ratio(counter.value, operations),
{
    Ratio { numerator: counter.value as u128, denominator: operations, percent: false }
}

/// The counters of a worker with their rates, in the order of the counters.
pub fn summarize_worker_counters(counters: &Vec<CounterValue>, rates: &Vec<CounterRates>) -> (r: Vec<
    WorkerCounterSummary,
>)
    requires
        counters@.len() == rates@.len(),
    ensures
        r@.len() == counters@.len(),
        forall|i: int|
            0 <= i < r@.len() ==> {
                &&& (#[trigger] r@[i]).name@ == counters@[i].name@
                &&& r@[i].total == counters@[i].value
                &&& r@[i].per_op == rates@[i].per_op
                &&& r@[i].per_sec == rates@[i].per_sec
            },
{
    let mut r: Vec<WorkerCounterSummary> = Vec::new();
    let mut i: usize = 0;
    while i < counters.len()
        invariant
            i <= counters.len(),
            counters@.len() == rates@.len(),
            r@.len() == i,
            forall|j: int|
                0 <= j < i ==> {
                    &&& (#[trigger] r@[j]).name@ == counters@[j].name@
                    &&& r@[j].total == counters@[j].value
                    &&& r@[j].per_op == rates@[j].per_op
                    &&& r@[j].per_sec == rates@[j].per_sec
                },
        decreases counters.len() - i,
    {
        r.push(
            WorkerCounterSummary {
                name: counters[i].name.to_owned(),
                total: counters[i].value,
                per_op: rates[i].per_op,
                per_sec: rates[i].per_sec,
            },
        );
        i += 1;
    }
    r
}

/// The statistics have a counter exactly where some sample had it.
pub proof fn stats_keep_counters(a: Results, b: Results, sample_count: usize)
    ensures
        average(a.plus(b), sample_count).any_counter() == (a.any_counter() || b.any_counter()),
{
}

/// What is reported beside the samples, as by a diagnostic pass, has no part in
/// the rates, the latencies or the stability of a benchmark.
pub proof fn metrics_leave_the_statistics(
    a: BenchmarkStats,
    b: BenchmarkStats,
    summed: Results,
    sample_count: usize,
    samples: Seq<Results>,
    figures: Seq<SampleFigures>,
    computed: ComputedStats,
)
    requires
        stats_of_samples(a, summed, sample_count, samples, figures, computed),
        stats_of_samples(b, summed, sample_count, samples, figures, computed),
    ensures
        a.throughput_per_sec == b.throughput_per_sec,
        a.median_throughput_per_sec == b.median_throughput_per_sec,
        a.ns_per_op == b.ns_per_op,
        a.median_ns_per_op == b.median_ns_per_op,
        a.p95_ns_per_op == b.p95_ns_per_op,
        a.mad_ns_per_op == b.mad_ns_per_op,
        a.cv_percent == b.cv_percent,
        a.outlier_count == b.outlier_count,
        a.samples == b.samples,
        a.operations == b.operations,
        a.sample_throughput_per_sec@ == b.sample_throughput_per_sec@,
        a.sample_latency_ns_per_op@ == b.sample_latency_ns_per_op@,
        counters_of(a) == counters_of(b),
{
}

/// Samples without operations have no rate that could be shown, and take
/// infinitely long for an operation.
pub proof fn idle_samples_have_no_rate(
    stats: BenchmarkStats,
    summed: Results,
    sample_count: usize,
    samples: Seq<Results>,
    figures: Seq<SampleFigures>,
    computed: ComputedStats,
    throughput: Throughput,
    numbers: &NumberTexts,
)
    requires
        stats_of_samples(stats, summed, sample_count, samples, figures, computed),
        average(summed, sample_count).iterations == 0,
    ensures
        throughput.rate_form(stats.throughput_per_sec, numbers) == "n/a"@,
        stats.ns_per_op.bits == INFINITY_BITS,
{
}

} // verus!
