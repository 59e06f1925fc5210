//! What the statistics of a benchmark say of its samples.
use crate::bench::counters::CounterValue;
use crate::bench::metrics::MetricAverages;
use crate::bench::backend::MetricValue;
use crate::bench::results::Results;
use crate::bench::stats;
use crate::bench::stats::{
    average_sample, benchmark_stats_from_samples, counter_per_operation,
    effective_measurement_label, measurement_label, measurement_results_from_stats, rated_samples,
    stat_ratios, summarize_worker_counters, timed_samples, ComputedStats, CounterRates, Ratio,
    SampleFigures, StatRatios, StatsLabels,
};
use crate::double;
use crate::double::DoubleBits;
use crate::laws::numbers;
use crate::session::{BenchmarkStats, WorkerCounterSummary};
use vstd::prelude::*;

verus! {

/// Every ratio names what it counts and what it counts it by: what is given for
/// an operation is divided by the operations, instructions and stalls by the
/// cycles, mispredictions by the branches, and misses of the cache by the
/// references to it. Rates of misses and shares of stalls are percentages.
pub proof fn ratios_name_their_counts(results: &Results, ratios: StatRatios)
    requires
        call_ensures(stat_ratios, (results,), ratios),
    ensures
        ratios.ns_per_op.numerator == results.duration.count,
        ratios.ns_per_op.denominator == results.iterations,
        !ratios.ns_per_op.percent,
        ratios.cycles_per_op.numerator == results.cycles,
        ratios.cycles_per_op.denominator == results.iterations,
        !ratios.cycles_per_op.percent,
        ratios.instructions_per_op.numerator == results.instructions,
        ratios.instructions_per_op.denominator == results.iterations,
        !ratios.instructions_per_op.percent,
        ratios.ipc.numerator == results.instructions,
        ratios.ipc.denominator == results.cycles,
        !ratios.ipc.percent,
        ratios.cache_references_per_op.numerator == results.cache_references,
        ratios.cache_references_per_op.denominator == results.iterations,
        !ratios.cache_references_per_op.percent,
        ratios.l1i_misses_per_op.numerator == results.l1i_misses,
        ratios.l1i_misses_per_op.denominator == results.iterations,
        !ratios.l1i_misses_per_op.percent,
        ratios.branches_per_op.numerator == results.branches,
        ratios.branches_per_op.denominator == results.iterations,
        !ratios.branches_per_op.percent,
        ratios.branch_miss_rate.numerator == results.branch_misses,
        ratios.branch_miss_rate.denominator == results.branches,
        ratios.branch_miss_rate.percent,
        ratios.branch_misses_per_op.numerator == results.branch_misses,
        ratios.branch_misses_per_op.denominator == results.iterations,
        !ratios.branch_misses_per_op.percent,
        ratios.cache_misses_per_op.numerator == results.cache_misses,
        ratios.cache_misses_per_op.denominator == results.iterations,
        !ratios.cache_misses_per_op.percent,
        ratios.cache_miss_percent.numerator == results.cache_misses,
        ratios.cache_miss_percent.denominator == results.cache_references,
        ratios.cache_miss_percent.percent,
        ratios.frontend_stall_cycles_per_op.numerator == results.stalled_cycles_frontend,
        ratios.frontend_stall_cycles_per_op.denominator == results.iterations,
        !ratios.frontend_stall_cycles_per_op.percent,
        ratios.frontend_stall_percent.numerator == results.stalled_cycles_frontend,
        ratios.frontend_stall_percent.denominator == results.cycles,
        ratios.frontend_stall_percent.percent,
        ratios.backend_stall_cycles_per_op.numerator == results.stalled_cycles_backend,
        ratios.backend_stall_cycles_per_op.denominator == results.iterations,
        !ratios.backend_stall_cycles_per_op.percent,
        ratios.backend_stall_percent.numerator == results.stalled_cycles_backend,
        ratios.backend_stall_percent.denominator == results.cycles,
        ratios.backend_stall_percent.percent,
{
}

/// Ratios over the same counts belong together: instructions per cycle times
/// cycles per operation are instructions per operation, the share of stalled
/// cycles times the cycles per operation are the stalled cycles per operation,
/// and rates of misses times what can be missed are the misses.
pub proof fn ratios_belong_together(results: &Results, ratios: StatRatios)
    requires
        call_ensures(stat_ratios, (results,), ratios),
    ensures
        ratios.ipc.numerator == ratios.instructions_per_op.numerator,
        ratios.ipc.denominator == ratios.cycles_per_op.numerator,
        ratios.frontend_stall_percent.numerator == ratios.frontend_stall_cycles_per_op.numerator,
        ratios.frontend_stall_percent.denominator == ratios.cycles_per_op.numerator,
        ratios.backend_stall_percent.numerator == ratios.backend_stall_cycles_per_op.numerator,
        ratios.backend_stall_percent.denominator == ratios.cycles_per_op.numerator,
        ratios.branch_miss_rate.numerator == ratios.branch_misses_per_op.numerator,
        ratios.branch_miss_rate.denominator == ratios.branches_per_op.numerator,
        ratios.cache_miss_percent.numerator == ratios.cache_misses_per_op.numerator,
        ratios.cache_miss_percent.denominator == ratios.cache_references_per_op.numerator,
        ratios.cycles_per_op.denominator == ratios.instructions_per_op.denominator,
        ratios.ns_per_op.denominator == ratios.cycles_per_op.denominator,
{
}

/// The statistics hold each number where it belongs: those of the average sample
/// that cannot be computed are zero, but for the time of an operation, which is
/// then infinite; the counters and times are those of the average sample.
pub proof fn statistics_hold_their_numbers(
    summed: &Results,
    samples: &Vec<Results>,
    sample_count: usize,
    labels: StatsLabels<'_>,
    figures: &Vec<SampleFigures>,
    computed: ComputedStats,
    averages: &Vec<MetricAverages>,
    per_sample: &Vec<Vec<MetricValue>>,
    average: Results,
    stats: BenchmarkStats,
)
    requires
        call_ensures(average_sample, (summed, sample_count), average),
        call_ensures(
            benchmark_stats_from_samples,
            (
                summed,
                samples,
                sample_count,
                labels,
                figures,
                computed,
                averages,
                per_sample,
            ),
            stats,
        ),
    ensures
        ({
            &&& average.iterations == 0 ==> stats.cycles_per_op.bits == 0
            &&& average.iterations > 0 ==> stats.cycles_per_op == computed.cycles_per_op
            &&& average.iterations == 0 ==> stats.instructions_per_op.bits == 0
            &&& average.iterations > 0 ==> stats.instructions_per_op == computed.instructions_per_op
            &&& average.cycles == 0 ==> stats.ipc.bits == 0
            &&& average.cycles > 0 ==> stats.ipc == computed.ipc
            &&& average.iterations == 0 ==> stats.cache_references_per_op.bits == 0
            &&& average.iterations > 0 ==> stats.cache_references_per_op == computed.cache_references_per_op
            &&& average.iterations == 0 ==> stats.l1i_misses_per_op.bits == 0
            &&& average.iterations > 0 ==> stats.l1i_misses_per_op == computed.l1i_misses_per_op
            &&& average.iterations == 0 ==> stats.branches_per_op.bits == 0
            &&& average.iterations > 0 ==> stats.branches_per_op == computed.branches_per_op
            &&& average.branches == 0 ==> stats.branch_miss_rate.bits == 0
            &&& average.branches > 0 ==> stats.branch_miss_rate == computed.branch_miss_rate
            &&& average.iterations == 0 ==> stats.branch_misses_per_op.bits == 0
            &&& average.iterations > 0 ==> stats.branch_misses_per_op == computed.branch_misses_per_op
            &&& average.iterations == 0 ==> stats.cache_misses_per_op.bits == 0
            &&& average.iterations > 0 ==> stats.cache_misses_per_op == computed.cache_misses_per_op
            &&& average.cache_references == 0 ==> stats.cache_miss_percent.bits == 0
            &&& average.cache_references > 0 ==> stats.cache_miss_percent == computed.cache_miss_percent
            &&& average.iterations == 0 ==> stats.frontend_stall_cycles_per_op.bits == 0
            &&& average.iterations > 0 ==> stats.frontend_stall_cycles_per_op == computed.frontend_stall_cycles_per_op
            &&& average.cycles == 0 ==> stats.frontend_stall_percent.bits == 0
            &&& average.cycles > 0 ==> stats.frontend_stall_percent == computed.frontend_stall_percent
            &&& average.iterations == 0 ==> stats.backend_stall_cycles_per_op.bits == 0
            &&& average.iterations > 0 ==> stats.backend_stall_cycles_per_op == computed.backend_stall_cycles_per_op
            &&& average.cycles == 0 ==> stats.backend_stall_percent.bits == 0
            &&& average.cycles > 0 ==> stats.backend_stall_percent == computed.backend_stall_percent
            &&& average.iterations == 0 ==> stats.ns_per_op.bits == 0x7ff0_0000_0000_0000
            &&& average.iterations > 0 ==> stats.ns_per_op == computed.ns_per_op
            &&& average.iterations == 0 || average.duration.count == 0
                ==> stats.throughput_per_sec.bits == 0
            &&& average.iterations > 0 && average.duration.count > 0 ==> stats.throughput_per_sec
                == computed.throughput_per_sec
            &&& stats.samples == sample_count
            &&& stats.operations == average.iterations
            &&& stats.total_duration_sec == computed.total_duration_sec
            &&& stats.has_cycles == summed.has_cycles
            &&& stats.has_instructions == summed.has_instructions
            &&& stats.has_cache_references == summed.has_cache_references
            &&& stats.has_l1i_misses == summed.has_l1i_misses
            &&& stats.has_branches == summed.has_branches
            &&& stats.has_branch_misses == summed.has_branch_misses
            &&& stats.has_cache_misses == summed.has_cache_misses
            &&& stats.has_stalled_cycles_frontend == summed.has_stalled_cycles_frontend
            &&& stats.has_stalled_cycles_backend == summed.has_stalled_cycles_backend
            &&& stats.pmu_time_enabled_ns == average.pmu_time_enabled_ns
            &&& stats.pmu_time_running_ns == average.pmu_time_running_ns
            &&& stats.throughput == *labels.throughput
            &&& stats.measurement_domain == labels.measurement_domain
            &&& stats.measurement_label@ == labels.measurement_label@
            &&& stats.emits_cpu_diagnostics == labels.emits_cpu_diagnostics
        }),
{
}

/// The first `n` places that have a property.
pub open spec fn places(n: nat, property: spec_fn(int) -> bool) -> Seq<int> {
    Seq::new(n, |i: int| i).filter(property)
}

proof fn rates_stand_at_places(samples: Seq<Results>, figures: Seq<SampleFigures>, n: nat)
    requires
        n <= samples.len() == figures.len(),
    ensures
        stats::rates_of(samples.take(n as int), figures.take(n as int)) == places(
            n,
            |i: int| samples[i].duration.count > 0 && samples[i].iterations > 0,
        ).map_values(|i: int| figures[i].rate),
        stats::latencies_of(samples.take(n as int), figures.take(n as int)) == places(
            n,
            |i: int| samples[i].iterations > 0,
        ).map_values(|i: int| figures[i].latency),
    decreases n,
{
    reveal(Seq::filter);
    let rated = |i: int| samples[i].duration.count > 0 && samples[i].iterations > 0;
    let timed = |i: int| samples[i].iterations > 0;
    if n > 0 {
        let m = (n - 1) as nat;
        rates_stand_at_places(samples, figures, m);
        assert(samples.take(n as int).drop_last() =~= samples.take(m as int));
        assert(figures.take(n as int).drop_last() =~= figures.take(m as int));
        let all = Seq::new(n, |i: int| i);
        assert(all.drop_last() =~= Seq::new(m, |i: int| i));
        assert(all.last() == m);
        assert(samples.take(n as int).last() == samples[m as int]);
        assert(figures.take(n as int).last() == figures[m as int]);
        let r = places(m, rated);
        let t = places(m, timed);
        assert(r.push(m as int).map_values(|i: int| figures[i].rate) =~= r.map_values(
            |i: int| figures[i].rate,
        ).push(figures[m as int].rate));
        assert(t.push(m as int).map_values(|i: int| figures[i].latency) =~= t.map_values(
            |i: int| figures[i].latency,
        ).push(figures[m as int].latency));
    } else {
        assert(Seq::new(0, |i: int| i) =~= Seq::<int>::empty());
        assert(places(0, rated).map_values(|i: int| figures[i].rate) =~= Seq::<
            DoubleBits,
        >::empty());
        assert(places(0, timed).map_values(|i: int| figures[i].latency) =~= Seq::<
            DoubleBits,
        >::empty());
    }
}

/// The rates of a benchmark are those of the samples that took time and did
/// work, its latencies those of the samples that did work, each once and in
/// order; without any their medians and spreads are zero; and its outliers are
/// the latencies outside the fences, where there are at least four.
pub proof fn statistics_hold_their_samples(
    summed: &Results,
    samples: &Vec<Results>,
    sample_count: usize,
    labels: StatsLabels<'_>,
    figures: &Vec<SampleFigures>,
    computed: ComputedStats,
    averages: &Vec<MetricAverages>,
    per_sample: &Vec<Vec<MetricValue>>,
    stats: BenchmarkStats,
)
    requires
        samples@.len() == figures@.len(),
        call_ensures(
            benchmark_stats_from_samples,
            (
                summed,
                samples,
                sample_count,
                labels,
                figures,
                computed,
                averages,
                per_sample,
            ),
            stats,
        ),
    ensures
        ({
            let rates = stats.sample_throughput_per_sec@;
            let latencies = stats.sample_latency_ns_per_op@;
            &&& rates.to_multiset() == places(
                samples@.len(),
                |i: int| samples@[i].duration.count > 0 && samples@[i].iterations > 0,
            ).map_values(|i: int| figures@[i].rate).to_multiset()
            &&& latencies.to_multiset() == places(
                samples@.len(),
                |i: int| samples@[i].iterations > 0,
            ).map_values(|i: int| figures@[i].latency).to_multiset()
            &&& forall|i: int, j: int|
                0 <= i < j < rates.len() ==> !(#[trigger] rates[j]).below(#[trigger] rates[i])
            &&& forall|i: int, j: int|
                0 <= i < j < latencies.len() ==> !(#[trigger] latencies[j]).below(
                    #[trigger] latencies[i],
                )
            &&& rates.len() == 0 ==> stats.median_throughput_per_sec.bits == 0
                && stats.cv_percent.bits == 0
            &&& rates.len() > 0 ==> stats.median_throughput_per_sec
                == computed.median_throughput_per_sec && stats.cv_percent == computed.cv_percent
            &&& latencies.len() == 0 ==> stats.median_ns_per_op.bits == 0
                && stats.p95_ns_per_op.bits == 0 && stats.mad_ns_per_op.bits == 0
            &&& latencies.len() > 0 ==> stats.median_ns_per_op == computed.median_ns_per_op
                && stats.p95_ns_per_op == computed.p95_ns_per_op && stats.mad_ns_per_op
                == computed.mad_ns_per_op
            &&& latencies.len() < 4 ==> stats.outlier_count == 0
            &&& latencies.len() >= 4 ==> stats.outlier_count == latencies.filter(
                |v: DoubleBits| v.below(computed.lower_fence) || computed.upper_fence.below(v),
            ).len()
        }),
{
    let rates = stats.sample_throughput_per_sec@;
    let latencies = stats.sample_latency_ns_per_op@;
    let n = samples@.len();
    rates_stand_at_places(samples@, figures@, n);
    assert(samples@.take(n as int) =~= samples@);
    assert(figures@.take(n as int) =~= figures@);
    let r = stats::rates_of(samples@, figures@);
    let l = stats::latencies_of(samples@, figures@);
    double::ordered_is_sorted(r);
    double::ordered_is_sorted(l);
    assert forall|i: int, j: int| 0 <= i < j < rates.len() implies !(#[trigger] rates[j]).below(
        #[trigger] rates[i],
    ) by {
        assert(rates[i].total_rank() <= rates[j].total_rank());
    }
    assert forall|i: int, j: int| 0 <= i < j < latencies.len() implies !(
    #[trigger] latencies[j]).below(#[trigger] latencies[i]) by {
        assert(latencies[i].total_rank() <= latencies[j].total_rank());
    }
    outside_is_filtered(latencies, computed.lower_fence, computed.upper_fence);
}

proof fn outside_is_filtered(s: Seq<DoubleBits>, lower: DoubleBits, upper: DoubleBits)
    ensures
        double::outside(s, lower, upper) == s.filter(
            |v: DoubleBits| v.below(lower) || upper.below(v),
        ).len(),
    decreases s.len(),
{
    reveal(Seq::filter);
    if s.len() > 0 {
        outside_is_filtered(s.drop_last(), lower, upper);
    }
}

/// A rate is taken of the samples that took time and did work, a time per
/// operation of those that did work.
pub proof fn figures_need_work(
    samples: &Vec<Results>,
    rated: Vec<Results>,
    timed: Vec<Results>,
)
    requires
        call_ensures(rated_samples, (samples,), rated),
        call_ensures(timed_samples, (samples,), timed),
    ensures
        rated@ == samples@.filter(|s: Results| s.duration.count > 0 && s.iterations > 0),
        timed@ == samples@.filter(|s: Results| s.iterations > 0),
{
    assert((|s: Results| stats::has_rate(s)) =~= (|s: Results|
        s.duration.count > 0 && s.iterations > 0));
    assert((|s: Results| stats::has_latency(s)) =~= (|s: Results| s.iterations > 0));
}

/// Statistics have the counters of their samples and no counts.
pub proof fn statistics_give_their_counters_back(held: &BenchmarkStats, results: Results)
    requires
        call_ensures(measurement_results_from_stats, (held,), results),
    ensures
        results.has_cycles == held.has_cycles,
        results.has_instructions == held.has_instructions,
        results.has_cache_references == held.has_cache_references,
        results.has_l1i_misses == held.has_l1i_misses,
        results.has_branches == held.has_branches,
        results.has_branch_misses == held.has_branch_misses,
        results.has_cache_misses == held.has_cache_misses,
        results.has_stalled_cycles_frontend == held.has_stalled_cycles_frontend,
        results.has_stalled_cycles_backend == held.has_stalled_cycles_backend,
        results.pmu_time_enabled_ns == held.pmu_time_enabled_ns,
        results.pmu_time_running_ns == held.pmu_time_running_ns,
        results.cycles == 0,
        results.instructions == 0,
        results.iterations == 0,
        results.duration.count == 0,
{
}

/// A measurement is called what it calls itself, or else by whether it had
/// counters.
pub proof fn measurements_have_a_label(held: &BenchmarkStats, has_perf: bool, label: String)
    requires
        call_ensures(effective_measurement_label, (held, has_perf), label),
    ensures
        held.measurement_label@.len() > 0 ==> label@ == held.measurement_label@,
        held.measurement_label@.len() == 0 && has_perf ==> label@ == "timing + PMU"@,
        held.measurement_label@.len() == 0 && !has_perf ==> label@ == "timing only"@,
{
}

/// The counters of a worker keep their names, totals and order, each with its own
/// rates; its rate per operation is its total over the operations.
pub proof fn worker_counters_keep_their_totals(
    counters: &Vec<CounterValue>,
    rates: &Vec<CounterRates>,
    list: Vec<WorkerCounterSummary>,
    i: int,
    operations: u64,
    ratio: Ratio,
)
    requires
        call_ensures(summarize_worker_counters, (counters, rates), list),
        0 <= i < counters@.len(),
        call_ensures(counter_per_operation, (&counters@[i], operations), ratio),
    ensures
        list@.len() == counters@.len(),
        list@[i].name@ == counters@[i].name@,
        list@[i].total == counters@[i].value,
        list@[i].per_op == rates@[i].per_op,
        list@[i].per_sec == rates@[i].per_sec,
        ratio.numerator == counters@[i].value,
        ratio.denominator == operations,
        !ratio.percent,
{
}

} // verus!
