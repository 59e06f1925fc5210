//! What native and series reports have in common, so that both are compared
//! by the same rules.
use crate::bench::backend::MetricFormat;
use crate::comparison;
use crate::comparison::document::ReportDocument;
use crate::comparison::error::{ComparisonError, Obstacle};
use crate::comparison::{
    BenchmarkCaseIdentity, ComparisonCaseIdentity, ComparisonSide, ComparisonStatistics,
    MeasurementDirection, MeasurementKind, NativeMeasurementProjection, PrimaryMeasurement,
    SeriesCaseIdentity,
};
use crate::double;
use crate::double::DoubleBits;
use crate::series::{SeriesReport, SeriesResult, Validity, ValidityStatus, SERIES_SCHEMA_VERSION};
use crate::session::{BenchmarkReport, BenchmarkResult, MetricSummary, REPORT_SCHEMA_VERSION};
use crate::text;
use crate::text_map::TextMap;
use vstd::prelude::*;

verus! {

/// A difference no larger than this is taken for none.
pub const EPSILON_BITS: u64 = 0x3cb0_0000_0000_0000;

/// The statistics of the samples of one case. They count only where there are
/// samples to have them of.
#[derive(Clone, Copy, Debug, PartialEq)]
pub struct CaseNumbers {
    /// The mean of the samples.
    pub mean: DoubleBits,
    /// The median of the samples.
    pub median: DoubleBits,
    /// The 95th percentile of the finite samples.
    pub p95: DoubleBits,
    /// The median absolute deviation of the finite samples from the median.
    pub mad: DoubleBits,
    /// The standard deviation of the samples in percent of their mean.
    pub cv_percent: DoubleBits,
    /// The bounds outside which a finite sample is an outlier.
    pub lower_fence: DoubleBits,
    pub upper_fence: DoubleBits,
    /// The median, 95th percentile and median absolute deviation of the
    /// latencies of a native result.
    pub median_latency: DoubleBits,
    pub p95_latency: DoubleBits,
    pub mad_latency: DoubleBits,
}

/// The bit pattern of a value that is no number.
pub const NAN_BITS: u64 = 0x7ff8_0000_0000_0000;

impl CaseNumbers {
    /// The numbers of a case of which none are known: none of them is a number.
    pub open spec fn spec_unknown() -> CaseNumbers {
        let none = DoubleBits { bits: NAN_BITS };
        CaseNumbers {
            mean: none,
            median: none,
            p95: none,
            mad: none,
            cv_percent: none,
            lower_fence: none,
            upper_fence: none,
            median_latency: none,
            p95_latency: none,
            mad_latency: none,
        }
    }

    pub fn unknown() -> (r: CaseNumbers)
        ensures
            r == CaseNumbers::spec_unknown(),
    {
        let none = DoubleBits { bits: NAN_BITS };
        CaseNumbers {
            mean: none,
            median: none,
            p95: none,
            mad: none,
            cv_percent: none,
            lower_fence: none,
            upper_fence: none,
            median_latency: none,
            p95_latency: none,
            mad_latency: none,
        }
    }
}

/// What the statistics of a case are computed from: its samples, the latencies
/// of a native result, and the median that such a result states.
pub ghost struct CaseSamples {
    pub samples: Seq<DoubleBits>,
    pub latencies: Seq<DoubleBits>,
    pub stated_median: DoubleBits,
}

/// The statistics of some samples.
#[derive(Debug)]
pub struct CaseStatistics {
    pub samples: Vec<DoubleBits>,
    pub latencies: Vec<DoubleBits>,
    pub stated_median: DoubleBits,
    pub numbers: CaseNumbers,
}

impl CaseStatistics {
    /// What the statistics are of.
    pub open spec fn of(&self) -> CaseSamples {
        CaseSamples {
            samples: self.samples@,
            latencies: self.latencies@,
            stated_median: self.stated_median,
        }
    }
}

/// The statistics of the samples of all cases that are compared. They are found
/// by the samples that they are of, so that equal samples have equal statistics.
#[derive(Debug)]
pub struct SampleStatistics {
    pub list: Vec<CaseStatistics>,
}

/// The statistics last recorded for some samples; unknown where none were.
pub open spec fn recorded_numbers(list: Seq<CaseStatistics>, samples: CaseSamples) -> CaseNumbers
    decreases list.len(),
{
    if list.len() == 0 {
        CaseNumbers::spec_unknown()
    } else if list.last().of() == samples {
        list.last().numbers
    } else {
        recorded_numbers(list.drop_last(), samples)
    }
}

impl SampleStatistics {
    pub open spec fn numbers_of(&self, samples: CaseSamples) -> CaseNumbers {
        recorded_numbers(self.list@, samples)
    }

    pub fn new() -> (r: SampleStatistics)
        ensures
            r.list@.len() == 0,
    {
        SampleStatistics { list: Vec::new() }
    }

    /// Records the statistics of some samples.
    pub fn record(&mut self, entry: CaseStatistics)
        ensures
            final(self).list@ == old(self).list@.push(entry),
            final(self).numbers_of(entry.of()) == entry.numbers,
            forall|samples: CaseSamples|
                samples != entry.of() ==> #[trigger] final(self).numbers_of(samples) == old(
                    self,
                ).numbers_of(samples),
    {
        self.list.push(entry);
        assert(self.list@.drop_last() =~= old(self).list@);
    }

    fn find(
        &self,
        samples: &Vec<DoubleBits>,
        latencies: &Vec<DoubleBits>,
        stated_median: DoubleBits,
    ) -> (r: CaseNumbers)
        ensures
            r == self.numbers_of(
                CaseSamples { samples: samples@, latencies: latencies@, stated_median },
            ),
    {
        let ghost wanted = CaseSamples {
            samples: samples@,
            latencies: latencies@,
            stated_median,
        };
        let mut count: usize = self.list.len();
        assert(self.list@.take(count as int) =~= self.list@);
        while count > 0
            invariant
                count <= self.list.len(),
                wanted == (CaseSamples {
                    samples: samples@,
                    latencies: latencies@,
                    stated_median,
                }),
                self.numbers_of(wanted) == recorded_numbers(
                    self.list@.take(count as int),
                    wanted,
                ),
            decreases count,
        {
            let entry = &self.list[count - 1];
            assert(self.list@.take(count as int).last() == self.list@[count - 1]);
            assert(self.list@.take(count as int).drop_last() =~= self.list@.take(count - 1));
            if double::same_numbers(&entry.samples, samples) && double::same_numbers(
                &entry.latencies,
                latencies,
            ) && entry.stated_median == stated_median {
                return entry.numbers;
            }
            count -= 1;
        }
        CaseNumbers::unknown()
    }

    /// The statistics of a native result.
    pub open spec fn of_native(&self, result: BenchmarkResult) -> CaseNumbers {
        self.numbers_of(
            CaseSamples {
                samples: result.stats.sample_throughput_per_sec@,
                latencies: result.stats.sample_latency_ns_per_op@,
                stated_median: result.stats.median_throughput_per_sec,
            },
        )
    }

    pub fn native_numbers(&self, result: &BenchmarkResult) -> (r: CaseNumbers)
        ensures
            r == self.of_native(*result),
    {
        self.find(
            &result.stats.sample_throughput_per_sec,
            &result.stats.sample_latency_ns_per_op,
            result.stats.median_throughput_per_sec,
        )
    }

    /// The statistics of a result of a series.
    pub open spec fn of_series(&self, result: SeriesResult) -> CaseNumbers {
        self.numbers_of(
            CaseSamples {
                samples: result.samples@,
                latencies: Seq::empty(),
                stated_median: DoubleBits { bits: 0 },
            },
        )
    }

    pub fn series_numbers(&self, result: &SeriesResult) -> (r: CaseNumbers)
        ensures
            r == self.of_series(*result),
    {
        let none: Vec<DoubleBits> = Vec::new();
        assert(none@ =~= Seq::empty());
        self.find(&result.samples, &none, DoubleBits { bits: 0 })
    }
}

/// A custom metric of a case.
#[derive(Debug)]
pub struct NormalizedMetric {
    pub name: String,
    pub unit: String,
    pub section: String,
    pub display_name: String,
    pub format: MetricFormat,
    pub median: Option<DoubleBits>,
}

/// A case of either kind of report.
#[derive(Debug)]
pub struct NormalizedCase {
    pub identity: ComparisonCaseIdentity,
    pub primary: PrimaryMeasurement,
    pub statistics: ComparisonStatistics,
    pub native: NativeMeasurementProjection,
    pub validity: Validity,
    pub provenance: TextMap,
    pub metrics: Vec<NormalizedMetric>,
}

/// A report of either kind.
#[derive(Debug)]
pub struct NormalizedReport {
    pub suite: String,
    pub runner_id: String,
    pub environment: TextMap,
    pub validity: Validity,
    pub cases: Vec<NormalizedCase>,
}

/// The number for a list: a stored one where the list is empty.
pub open spec fn unless_empty(samples: Seq<DoubleBits>, stored: DoubleBits, number: DoubleBits) -> DoubleBits {
    if samples.len() == 0 {
        stored
    } else {
        number
    }
}

fn number_or_stored(samples: &Vec<DoubleBits>, stored: DoubleBits, number: DoubleBits) -> (r:
    DoubleBits)
    ensures
        r == unless_empty(samples@, stored, number),
{
    if samples.len() == 0 {
        stored
    } else {
        number
    }
}

/// The median throughput of a native result: the stored one if it is a
/// positive number, else that of the samples, else the stored mean.
pub open spec fn median_of(result: BenchmarkResult, sample_median: DoubleBits) -> DoubleBits {
    let stored = result.stats.median_throughput_per_sec;
    if stored.finite() && stored.rank() > 0 {
        stored
    } else {
        unless_empty(
            result.stats.sample_throughput_per_sec@,
            result.stats.throughput_per_sec,
            sample_median,
        )
    }
}

pub fn median_throughput(result: &BenchmarkResult, sample_median: DoubleBits) -> (r: DoubleBits)
    ensures
        r == median_of(*result, sample_median),
{
    let stored = result.stats.median_throughput_per_sec;
    if stored.is_finite() && stored.gt(DoubleBits { bits: 0 }) {
        return stored;
    }
    number_or_stored(
        &result.stats.sample_throughput_per_sec,
        result.stats.throughput_per_sec,
        sample_median,
    )
}

/// The primary measurement of a native result.
pub open spec fn native_primary(
    primary: PrimaryMeasurement,
    result: BenchmarkResult,
    numbers: CaseNumbers,
) -> bool {
    &&& primary.measurement == MeasurementKind::Throughput
    &&& primary.unit@ == result.stats.throughput.unit_text() + "/s"@
    &&& primary.direction == MeasurementDirection::Higher
    &&& primary.samples@ == double::finite_only(result.stats.sample_throughput_per_sec@)
    &&& primary.value == double::finite_nonnegative_or_none(median_of(result, numbers.median))
}

/// The statistics of a native result.
pub open spec fn native_statistics(result: BenchmarkResult, numbers: CaseNumbers) -> ComparisonStatistics {
    let finite = double::finite_only(result.stats.sample_throughput_per_sec@);
    ComparisonStatistics {
        cv_percent: double::finite_nonnegative_or_none(result.stats.cv_percent),
        mad: if finite.len() == 0 || !median_of(result, numbers.median).finite() {
            None
        } else {
            double::finite_or_none(numbers.mad)
        },
        p95: if finite.len() == 0 {
            None
        } else {
            double::finite_or_none(numbers.p95)
        },
        samples: result.stats.samples,
        outliers: double::outliers(finite, numbers.lower_fence, numbers.upper_fence) as usize,
    }
}

/// What only a native result measures.
pub open spec fn native_projection(result: BenchmarkResult, numbers: CaseNumbers) -> NativeMeasurementProjection {
    let rates = result.stats.sample_throughput_per_sec@;
    let latencies = result.stats.sample_latency_ns_per_op@;
    NativeMeasurementProjection {
        mean_throughput_per_sec: double::finite_nonnegative_or_none(
            unless_empty(rates, result.stats.throughput_per_sec, numbers.mean),
        ),
        median_throughput_per_sec: double::finite_nonnegative_or_none(
            median_of(result, numbers.median),
        ),
        median_ns_per_op: double::finite_nonnegative_or_none(
            unless_empty(latencies, result.stats.median_ns_per_op, numbers.median_latency),
        ),
        p95_ns_per_op: double::finite_nonnegative_or_none(
            unless_empty(latencies, result.stats.p95_ns_per_op, numbers.p95_latency),
        ),
        mad_ns_per_op: double::finite_nonnegative_or_none(
            unless_empty(latencies, result.stats.mad_ns_per_op, numbers.mad_latency),
        ),
    }
}

/// A metric as comparisons see it.
pub open spec fn metric_of(metric: NormalizedMetric, summary: MetricSummary) -> bool {
    &&& metric.name@ == summary.name@
    &&& metric.unit@ == summary.unit@
    &&& metric.section@ == summary.section@
    &&& metric.display_name@ == summary.display_name@
    &&& metric.format == summary.format
    &&& metric.median == double::finite_or_none(summary.median)
}

/// The metrics of a case, one for each metric of its result.
pub open spec fn metrics_of(metrics: Seq<NormalizedMetric>, summaries: Seq<MetricSummary>) -> bool {
    &&& metrics.len() == summaries.len()
    &&& forall|i: int| 0 <= i < metrics.len() ==> metric_of(#[trigger] metrics[i], summaries[i])
}

/// The case that a native result is.
pub open spec fn native_case(case: NormalizedCase, result: BenchmarkResult, numbers: CaseNumbers) -> bool {
    &&& case.identity is Native
    &&& case.identity.key() == comparison::native_key(result)
    &&& native_primary(case.primary, result, numbers)
    &&& case.statistics == native_statistics(result, numbers)
    &&& case.native == native_projection(result, numbers)
    &&& case.validity.status == ValidityStatus::Valid
    &&& case.validity.reason is None
    &&& case.provenance@ == Map::<Seq<char>, Seq<char>>::empty()
    &&& metrics_of(case.metrics@, result.stats.metrics@)
}

fn normalize_metrics(summaries: &Vec<MetricSummary>) -> (r: Vec<NormalizedMetric>)
    ensures
        metrics_of(r@, summaries@),
{
    let mut r: Vec<NormalizedMetric> = Vec::new();
    let mut i: usize = 0;
    while i < summaries.len()
        invariant
            i <= summaries.len(),
            r@.len() == i,
            forall|j: int| 0 <= j < i ==> metric_of(#[trigger] r@[j], summaries@[j]),
        decreases summaries.len() - i,
    {
        let summary = &summaries[i];
        r.push(
            NormalizedMetric {
                name: summary.name.clone(),
                unit: summary.unit.clone(),
                section: summary.section.clone(),
                display_name: summary.display_name.clone(),
                format: summary.format,
                median: double::finite(summary.median),
            },
        );
        i += 1;
    }
    r
}

pub fn normalize_native_case(result: &BenchmarkResult, numbers: &CaseNumbers) -> (r: NormalizedCase)
    ensures
        native_case(r, *result, *numbers),
{
    let median = median_throughput(result, numbers.median);
    let samples = double::keep_finite(&result.stats.sample_throughput_per_sec);
    let mut unit = result.stats.throughput.unit().to_owned();
    unit.append("/s");
    proof {
        double::outliers_are_bounded(samples@, numbers.lower_fence, numbers.upper_fence);
    }
    let statistics = ComparisonStatistics {
        cv_percent: double::finite_nonnegative(result.stats.cv_percent),
        mad: if samples.len() == 0 || !median.is_finite() {
            None
        } else {
            double::finite(numbers.mad)
        },
        p95: if samples.len() == 0 {
            None
        } else {
            double::finite(numbers.p95)
        },
        samples: result.stats.samples,
        outliers: double::tukey_outlier_count(&samples, numbers.lower_fence, numbers.upper_fence),
    };
    let native = NativeMeasurementProjection {
        mean_throughput_per_sec: double::finite_nonnegative(
            number_or_stored(
                &result.stats.sample_throughput_per_sec,
                result.stats.throughput_per_sec,
                numbers.mean,
            ),
        ),
        median_throughput_per_sec: double::finite_nonnegative(median),
        median_ns_per_op: double::finite_nonnegative(
            number_or_stored(
                &result.stats.sample_latency_ns_per_op,
                result.stats.median_ns_per_op,
                numbers.median_latency,
            ),
        ),
        p95_ns_per_op: double::finite_nonnegative(
            number_or_stored(
                &result.stats.sample_latency_ns_per_op,
                result.stats.p95_ns_per_op,
                numbers.p95_latency,
            ),
        ),
        mad_ns_per_op: double::finite_nonnegative(
            number_or_stored(
                &result.stats.sample_latency_ns_per_op,
                result.stats.mad_ns_per_op,
                numbers.mad_latency,
            ),
        ),
    };
    NormalizedCase {
        identity: ComparisonCaseIdentity::Native(BenchmarkCaseIdentity::from_result(result)),
        primary: PrimaryMeasurement {
            measurement: MeasurementKind::Throughput,
            unit,
            direction: MeasurementDirection::Higher,
            samples,
            value: double::finite_nonnegative(median),
        },
        statistics,
        native,
        validity: Validity::valid(),
        provenance: TextMap::new(),
        metrics: normalize_metrics(&result.stats.metrics),
    }
}

/// The coefficient of variation of some samples, unless they have none or
/// their mean is next to zero.
pub open spec fn variation(samples: Seq<DoubleBits>, numbers: CaseNumbers) -> Option<DoubleBits> {
    if samples.len() == 0 || !numbers.mean.finite() || numbers.mean.absolute().at_most(
        DoubleBits { bits: EPSILON_BITS },
    ) {
        None
    } else {
        double::finite_or_none(numbers.cv_percent)
    }
}

pub fn coefficient_of_variation_percent(samples: &Vec<DoubleBits>, numbers: &CaseNumbers) -> (r:
    Option<DoubleBits>)
    ensures
        r == variation(samples@, *numbers),
{
    if samples.len() == 0 {
        return None;
    }
    if !numbers.mean.is_finite() || numbers.mean.abs().le(DoubleBits { bits: EPSILON_BITS }) {
        return None;
    }
    double::finite(numbers.cv_percent)
}

/// A number that is there only if the samples are.
pub open spec fn if_sampled(samples: Seq<DoubleBits>, number: DoubleBits) -> Option<DoubleBits> {
    if samples.len() == 0 {
        None
    } else {
        Some(number)
    }
}

/// The primary measurement of a result of a series.
pub open spec fn series_primary(
    primary: PrimaryMeasurement,
    result: SeriesResult,
    numbers: CaseNumbers,
) -> bool {
    &&& primary.measurement == result.measurement
    &&& primary.unit@ == result.unit@
    &&& primary.direction == result.direction
    &&& primary.samples@ == result.samples@
    &&& primary.value == if result.validity.status == ValidityStatus::Valid {
        if_sampled(result.samples@, numbers.median)
    } else {
        None
    }
}

/// The statistics of a result of a series.
pub open spec fn series_statistics(result: SeriesResult, numbers: CaseNumbers) -> ComparisonStatistics {
    ComparisonStatistics {
        cv_percent: variation(result.samples@, numbers),
        mad: if_sampled(result.samples@, numbers.mad),
        p95: if_sampled(result.samples@, numbers.p95),
        samples: result.samples@.len() as usize,
        outliers: double::outliers(
            result.samples@,
            numbers.lower_fence,
            numbers.upper_fence,
        ) as usize,
    }
}

/// The case that a result of a series is.
pub open spec fn series_case(case: NormalizedCase, result: SeriesResult, numbers: CaseNumbers) -> bool {
    &&& case.identity is Series
    &&& case.identity.key() == comparison::series_key(result)
    &&& series_primary(case.primary, result, numbers)
    &&& case.statistics == series_statistics(result, numbers)
    &&& case.native.mean_throughput_per_sec is None
    &&& case.native.median_throughput_per_sec is None
    &&& case.native.median_ns_per_op is None
    &&& case.native.p95_ns_per_op is None
    &&& case.native.mad_ns_per_op is None
    &&& case.validity == result.validity
    &&& case.provenance@ == result.provenance@
    &&& case.metrics@.len() == 0
}

pub fn normalize_series_case(result: &SeriesResult, numbers: &CaseNumbers) -> (r: NormalizedCase)
    ensures
        series_case(r, *result, *numbers),
{
    let sampled = result.samples.len() > 0;
    proof {
        double::outliers_are_bounded(result.samples@, numbers.lower_fence, numbers.upper_fence);
    }
    let median = if sampled {
        Some(numbers.median)
    } else {
        None
    };
    let value = if result.validity.is_valid() {
        median
    } else {
        None
    };
    let statistics = ComparisonStatistics {
        cv_percent: coefficient_of_variation_percent(&result.samples, numbers),
        mad: if sampled {
            Some(numbers.mad)
        } else {
            None
        },
        p95: if sampled {
            Some(numbers.p95)
        } else {
            None
        },
        samples: result.samples.len(),
        outliers: double::tukey_outlier_count(
            &result.samples,
            numbers.lower_fence,
            numbers.upper_fence,
        ),
    };
    NormalizedCase {
        identity: ComparisonCaseIdentity::Series(SeriesCaseIdentity::from_result(result)),
        primary: PrimaryMeasurement {
            measurement: result.measurement,
            unit: result.unit.clone(),
            direction: result.direction,
            samples: double::clone_numbers(&result.samples),
            value,
        },
        statistics,
        native: NativeMeasurementProjection::none(),
        validity: result.validity.duplicate(),
        provenance: result.provenance.duplicate(),
        metrics: Vec::new(),
    }
}

/// Who measured a native report: the runner of its context, or else its host.
pub open spec fn runner_of(report: BenchmarkReport) -> Seq<char> {
    if text::blank(report.context.runner_id@) {
        report.hostname@
    } else {
        report.context.runner_id@
    }
}

pub fn effective_runner_id(report: &BenchmarkReport) -> (r: &str)
    ensures
        r@ == runner_of(*report),
{
    if text::is_blank(report.context.runner_id.as_str()) {
        report.hostname.as_str()
    } else {
        report.context.runner_id.as_str()
    }
}

/// Why a native report cannot be compared.
pub open spec fn native_obstacle(report: BenchmarkReport, side: ComparisonSide) -> Option<Obstacle> {
    if report.schema_version != REPORT_SCHEMA_VERSION {
        Some(
            Obstacle::Schema {
                side,
                found: report.schema_version,
                supported: REPORT_SCHEMA_VERSION,
            },
        )
    } else if report.suite is None || text::blank(report.suite->0@) {
        Some(Obstacle::NoSuite { side })
    } else {
        None
    }
}

/// Why a series report cannot be compared.
pub open spec fn series_obstacle(report: SeriesReport, side: ComparisonSide) -> Option<Obstacle> {
    if report.schema_version != SERIES_SCHEMA_VERSION {
        Some(
            Obstacle::Schema {
                side,
                found: report.schema_version,
                supported: SERIES_SCHEMA_VERSION,
            },
        )
    } else {
        match report.problem() {
            Some(reason) => Some(Obstacle::Invalid { side, reason }),
            None => None,
        }
    }
}

/// Whether a normalized report is that of a native one.
pub open spec fn native_report(
    normalized: NormalizedReport,
    report: BenchmarkReport,
    statistics: SampleStatistics,
) -> bool {
    &&& normalized.suite@ == report.suite->0@
    &&& normalized.runner_id@ == runner_of(report)
    &&& normalized.environment@ == report.context.environment@
    &&& normalized.validity.status == ValidityStatus::Valid
    &&& normalized.validity.reason is None
    &&& normalized.cases@.len() == report.results@.len()
    &&& forall|i: int|
        0 <= i < report.results@.len() ==> native_case(
            #[trigger] normalized.cases@[i],
            report.results@[i],
            statistics.of_native(report.results@[i]),
        )
}

/// Whether a normalized report is that of a series report.
pub open spec fn series_report(
    normalized: NormalizedReport,
    report: SeriesReport,
    statistics: SampleStatistics,
) -> bool {
    &&& normalized.suite@ == report.suite@
    &&& normalized.runner_id@ == report.context.runner_id@
    &&& normalized.environment@ == report.context.environment@
    &&& normalized.validity == report.validity
    &&& normalized.cases@.len() == report.results@.len()
    &&& forall|i: int|
        0 <= i < report.results@.len() ==> series_case(
            #[trigger] normalized.cases@[i],
            report.results@[i],
            statistics.of_series(report.results@[i]),
        )
}

pub fn normalize_native_report(
    report: &BenchmarkReport,
    statistics: &SampleStatistics,
    side: ComparisonSide,
) -> (r: Result<NormalizedReport, ComparisonError>)
    ensures
        r is Ok == native_obstacle(*report, side) is None,
        r matches Ok(normalized) ==> native_report(normalized, *report, *statistics),
        r matches Err(e) ==> e@ == native_obstacle(*report, side)->0,
{
    if report.schema_version != REPORT_SCHEMA_VERSION {
        return Err(
            ComparisonError::UnsupportedSchema {
                side,
                found: report.schema_version,
                supported: REPORT_SCHEMA_VERSION,
            },
        );
    }
    let suite = match &report.suite {
        Some(suite) => {
            if text::is_blank(suite.as_str()) {
                return Err(ComparisonError::MissingSuite { side });
            }
            suite.clone()
        },
        None => {
            return Err(ComparisonError::MissingSuite { side });
        },
    };
    let mut cases: Vec<NormalizedCase> = Vec::new();
    let mut i: usize = 0;
    while i < report.results.len()
        invariant
            i <= report.results.len(),
            cases@.len() == i,
            forall|j: int|
                0 <= j < i ==> native_case(
                    #[trigger] cases@[j],
                    report.results@[j],
                    statistics.of_native(report.results@[j]),
                ),
        decreases report.results.len() - i,
    {
        let numbers = statistics.native_numbers(&report.results[i]);
        cases.push(normalize_native_case(&report.results[i], &numbers));
        i += 1;
    }
    Ok(
        NormalizedReport {
            suite,
            runner_id: effective_runner_id(report).to_owned(),
            environment: report.context.environment.duplicate(),
            validity: Validity::valid(),
            cases,
        },
    )
}

pub fn normalize_series_report(
    report: &SeriesReport,
    statistics: &SampleStatistics,
    side: ComparisonSide,
) -> (r: Result<NormalizedReport, ComparisonError>)
    ensures
        r is Ok == series_obstacle(*report, side) is None,
        r matches Ok(normalized) ==> series_report(normalized, *report, *statistics),
        r matches Err(e) ==> e@ == series_obstacle(*report, side)->0,
{
    if report.schema_version != SERIES_SCHEMA_VERSION {
        return Err(
            ComparisonError::UnsupportedSchema {
                side,
                found: report.schema_version,
                supported: SERIES_SCHEMA_VERSION,
            },
        );
    }
    match report.validate() {
        Ok(()) => {},
        Err(error) => {
            return Err(ComparisonError::InvalidReport { side, reason: error.message });
        },
    }
    let mut cases: Vec<NormalizedCase> = Vec::new();
    let mut i: usize = 0;
    while i < report.results.len()
        invariant
            i <= report.results.len(),
            cases@.len() == i,
            forall|j: int|
                0 <= j < i ==> series_case(
                    #[trigger] cases@[j],
                    report.results@[j],
                    statistics.of_series(report.results@[j]),
                ),
        decreases report.results.len() - i,
    {
        let numbers = statistics.series_numbers(&report.results[i]);
        cases.push(normalize_series_case(&report.results[i], &numbers));
        i += 1;
    }
    Ok(
        NormalizedReport {
            suite: report.suite.clone(),
            runner_id: report.context.runner_id.clone(),
            environment: report.context.environment.duplicate(),
            validity: report.validity.duplicate(),
            cases,
        },
    )
}

impl ReportDocument {
    pub open spec fn spec_case_count(&self) -> nat {
        match self {
            ReportDocument::Native { report, .. } => report.results@.len(),
            ReportDocument::Series { report, .. } => report.results@.len(),
        }
    }

    /// The number of cases in the document.
    pub fn case_count(&self) -> (r: usize)
        ensures
            r == self.spec_case_count(),
    {
        match self {
            ReportDocument::Native { report, .. } => report.results.len(),
            ReportDocument::Series { report, .. } => report.results.len(),
        }
    }

    /// Why the document cannot be compared, whatever it is compared with.
    pub open spec fn obstacle(&self, side: ComparisonSide) -> Option<Obstacle> {
        match self {
            ReportDocument::Native { report, .. } => native_obstacle(*report, side),
            ReportDocument::Series { report, .. } => series_obstacle(*report, side),
        }
    }

    /// Whether a normalized report is that of the document.
    pub open spec fn normalizes_to(&self, normalized: NormalizedReport, statistics: SampleStatistics) -> bool {
        match self {
            ReportDocument::Native { report, .. } => native_report(normalized, *report, statistics),
            ReportDocument::Series { report, .. } => series_report(normalized, *report, statistics),
        }
    }
}

pub fn normalize_document(
    document: &ReportDocument,
    statistics: &SampleStatistics,
    side: ComparisonSide,
) -> (r: Result<NormalizedReport, ComparisonError>)
    ensures
        r is Ok == document.obstacle(side) is None,
        r matches Ok(normalized) ==> document.normalizes_to(normalized, *statistics),
        r matches Err(e) ==> e@ == document.obstacle(side)->0,
{
    match document {
        ReportDocument::Native { report, .. } => normalize_native_report(report, statistics, side),
        ReportDocument::Series { report, .. } => normalize_series_report(report, statistics, side),
    }
}

} // verus!
