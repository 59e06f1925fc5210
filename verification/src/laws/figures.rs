//! Which figures of a case are compared, and how entries are kept by name.
use crate::comparison::normalize;
use crate::comparison::normalize::{
    coefficient_of_variation_percent, effective_runner_id, median_throughput,
    normalize_native_case, CaseNumbers, CaseSamples, CaseStatistics, NormalizedCase,
    SampleStatistics,
};
use crate::comparison::{MeasurementDirection, MeasurementKind};
use crate::context::ReportContext;
use crate::double::DoubleBits;
use crate::series::SeriesResult;
use crate::session::{BenchmarkReport, BenchmarkResult};
use crate::text;
use crate::text_map::TextMap;
use vstd::prelude::*;

verus! {

/// Whether numbers were recorded for samples.
pub open spec fn records(
    entry: CaseStatistics,
    samples: Seq<DoubleBits>,
    latencies: Seq<DoubleBits>,
    median: DoubleBits,
) -> bool {
    entry.samples@ == samples && entry.latencies@ == latencies && entry.stated_median == median
}

proof fn last_numbers_are_found(
    list: Seq<CaseStatistics>,
    samples: Seq<DoubleBits>,
    latencies: Seq<DoubleBits>,
    median: DoubleBits,
    i: int,
)
    requires
        0 <= i < list.len(),
        records(list[i], samples, latencies, median),
        forall|j: int|
            i < j < list.len() ==> !records(#[trigger] list[j], samples, latencies, median),
    ensures
        normalize::recorded_numbers(
            list,
            CaseSamples { samples, latencies, stated_median: median },
        ) == list[i].numbers,
    decreases list.len(),
{
    let front = list.drop_last();
    let last = list.len() - 1;
    if i < last {
        assert(!records(list[last], samples, latencies, median));
        assert forall|j: int| i < j < front.len() implies !records(
            #[trigger] front[j],
            samples,
            latencies,
            median,
        ) by {
            assert(front[j] == list[j]);
        }
        last_numbers_are_found(front, samples, latencies, median, i);
    }
}

/// The numbers of a case are those recorded last for its samples: of a native
/// case its rates and latencies, of a series its samples alone.
pub proof fn numbers_belong_to_their_samples(
    statistics: SampleStatistics,
    native: BenchmarkResult,
    n: CaseNumbers,
    series: SeriesResult,
    s: CaseNumbers,
    i: int,
)
    requires
        call_ensures(SampleStatistics::native_numbers, (&statistics, &native), n),
        call_ensures(SampleStatistics::series_numbers, (&statistics, &series), s),
        0 <= i < statistics.list@.len(),
    ensures
        records(
            statistics.list@[i],
            native.stats.sample_throughput_per_sec@,
            native.stats.sample_latency_ns_per_op@,
            native.stats.median_throughput_per_sec,
        ) && (forall|j: int|
            i < j < statistics.list@.len() ==> !records(
                #[trigger] statistics.list@[j],
                native.stats.sample_throughput_per_sec@,
                native.stats.sample_latency_ns_per_op@,
                native.stats.median_throughput_per_sec,
            )) ==> n == statistics.list@[i].numbers,
        records(
            statistics.list@[i],
            series.samples@,
            Seq::<DoubleBits>::empty(),
            DoubleBits { bits: 0 },
        ) && (forall|j: int|
            i < j < statistics.list@.len() ==> !records(
                #[trigger] statistics.list@[j],
                series.samples@,
                Seq::<DoubleBits>::empty(),
                DoubleBits { bits: 0 },
            )) ==> s == statistics.list@[i].numbers,
{
    let list = statistics.list@;
    if records(
        list[i],
        native.stats.sample_throughput_per_sec@,
        native.stats.sample_latency_ns_per_op@,
        native.stats.median_throughput_per_sec,
    ) && (forall|j: int|
        i < j < list.len() ==> !records(
            #[trigger] list[j],
            native.stats.sample_throughput_per_sec@,
            native.stats.sample_latency_ns_per_op@,
            native.stats.median_throughput_per_sec,
        )) {
        last_numbers_are_found(
            list,
            native.stats.sample_throughput_per_sec@,
            native.stats.sample_latency_ns_per_op@,
            native.stats.median_throughput_per_sec,
            i,
        );
    }
    if records(list[i], series.samples@, Seq::<DoubleBits>::empty(), DoubleBits { bits: 0 }) && (
    forall|j: int|
        i < j < list.len() ==> !records(
            #[trigger] list[j],
            series.samples@,
            Seq::<DoubleBits>::empty(),
            DoubleBits { bits: 0 },
        )) {
        last_numbers_are_found(
            list,
            series.samples@,
            Seq::<DoubleBits>::empty(),
            DoubleBits { bits: 0 },
            i,
        );
    }
}

/// The median rate is the one that was stated where it is above zero. Otherwise
/// it is that of the samples, or the mean rate where there are none.
pub proof fn stated_medians_come_first(
    result: BenchmarkResult,
    sample_median: DoubleBits,
    r: DoubleBits,
)
    requires
        call_ensures(median_throughput, (&result, sample_median), r),
    ensures
        ({
            let stated = result.stats.median_throughput_per_sec;
            let above = 0 < stated.bits < 0x7ff0_0000_0000_0000;
            &&& above ==> r == stated
            &&& !above && result.stats.sample_throughput_per_sec@.len() > 0 ==> r == sample_median
            &&& !above && result.stats.sample_throughput_per_sec@.len() == 0 ==> r
                == result.stats.throughput_per_sec
        }),
{
}

/// Variation is told where there are samples and their mean is a number that is
/// not next to zero.
pub proof fn variation_needs_a_mean(
    samples: Vec<DoubleBits>,
    numbers: CaseNumbers,
    r: Option<DoubleBits>,
)
    requires
        call_ensures(coefficient_of_variation_percent, (&samples, &numbers), r),
    ensures
        ({
            let size = if numbers.mean.bits >= 0x8000_0000_0000_0000 {
                numbers.mean.bits - 0x8000_0000_0000_0000
            } else {
                numbers.mean.bits as int
            };
            &&& samples@.len() == 0 ==> r is None
            &&& size <= 0x3cb0_0000_0000_0000 ==> r is None
            &&& size >= 0x7ff0_0000_0000_0000 ==> r is None
            &&& samples@.len() > 0 && 0x3cb0_0000_0000_0000 < size < 0x7ff0_0000_0000_0000
                && numbers.cv_percent.bits < 0x7ff0_0000_0000_0000 ==> r == Some(numbers.cv_percent)
        }),
{
}

/// The runner of a report is the one that its context names, or else its host.
pub proof fn runners_are_named_by_their_context(report: BenchmarkReport, r: &str)
    requires
        call_ensures(effective_runner_id, (&report,), r),
    ensures
        !text::blank(report.context.runner_id@) ==> r@ == report.context.runner_id@,
        text::blank(report.context.runner_id@) ==> r@ == report.hostname@,
{
}

/// What is put into a map under a key is found there, and nothing else changes.
/// Putting it in only where it is missing keeps what is there.
pub proof fn maps_keep_their_entries(
    map: TextMap,
    key: String,
    value: String,
    put: TextMap,
    kept: TextMap,
    name: &str,
    before: bool,
    found: Option<&String>,
    still: Option<&String>,
    was: Option<&String>,
)
    requires
        call_ensures(TextMap::inserted, (map, key, value), put),
        call_ensures(TextMap::inserted_if_absent, (map, key, value), kept),
        call_ensures(TextMap::contains_key, (&map, name), before),
        call_ensures(TextMap::get, (&put, name), found),
        call_ensures(TextMap::get, (&kept, name), still),
        call_ensures(TextMap::get, (&map, name), was),
    ensures
        before == was is Some,
        name@ == key@ ==> (found matches Some(v) && v@ == value@),
        name@ == key@ && before ==> (still matches Some(v) && v@ == was->0@),
        name@ == key@ && !before ==> (still matches Some(v) && v@ == value@),
        name@ != key@ ==> found is Some == was is Some && still is Some == was is Some,
        name@ != key@ && was is Some ==> found->0@ == was->0@ && still->0@ == was->0@,
{
}

/// A new map is empty, and two maps are the same where every key has the same
/// value in both.
pub proof fn maps_are_the_same_by_their_entries(
    empty: TextMap,
    name: &str,
    nothing: Option<&String>,
    a: TextMap,
    b: TextMap,
    same: bool,
    in_a: Option<&String>,
    in_b: Option<&String>,
)
    requires
        call_ensures(TextMap::new, (), empty),
        call_ensures(TextMap::get, (&empty, name), nothing),
        call_ensures(TextMap::same, (&a, &b), same),
        call_ensures(TextMap::get, (&a, name), in_a),
        call_ensures(TextMap::get, (&b, name), in_b),
    ensures
        nothing is None,
        same ==> in_a is Some == in_b is Some,
        same && in_a is Some ==> in_a->0@ == in_b->0@,
        in_a is Some && in_b is None ==> !same,
        in_a is Some && in_b is Some && in_a->0@ != in_b->0@ ==> !same,
{
}

/// A context keeps its runner, and what is added to its environment or its
/// provenance goes there alone.
pub proof fn contexts_keep_their_parts(
    runner: String,
    fresh: ReportContext,
    context: ReportContext,
    key: String,
    value: String,
    placed: ReportContext,
    traced: ReportContext,
)
    requires
        call_ensures(ReportContext::new, (runner,), fresh),
        call_ensures(ReportContext::with_environment, (context, key, value), placed),
        call_ensures(ReportContext::with_provenance, (context, key, value), traced),
    ensures
        fresh.runner_id@ == runner@,
        fresh.environment@.dom() =~= Set::<Seq<char>>::empty(),
        fresh.provenance@.dom() =~= Set::<Seq<char>>::empty(),
        placed.runner_id@ == context.runner_id@ && placed.provenance@ == context.provenance@,
        placed.environment@.contains_key(key@) && placed.environment@[key@] == value@,
        traced.runner_id@ == context.runner_id@ && traced.environment@ == context.environment@,
        traced.provenance@.contains_key(key@) && traced.provenance@[key@] == value@,
        forall|k: Seq<char>|
            k != key@ ==> (#[trigger] placed.environment@.contains_key(k)
                == context.environment@.contains_key(k)),
        forall|k: Seq<char>|
            k != key@ ==> (#[trigger] traced.provenance@.contains_key(k)
                == context.provenance@.contains_key(k)),
{
}

} // verus!
