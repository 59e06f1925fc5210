//! What a comparison of two reports says.
use crate::comparison;
use crate::comparison::compare;
use crate::comparison::compare::compare_reports;
use crate::comparison::document::ReportDocument;
use crate::comparison::engine;
use crate::comparison::engine::{
    finite_difference, improvement_percent, raw_percent_change, Change, Changes, Standing,
};
use crate::comparison::error::{ComparisonError, Obstacle};
use crate::comparison::normalize;
use crate::comparison::normalize::{
    CaseNumbers, CaseStatistics, NormalizedCase, NormalizedReport, SampleStatistics,
};
use crate::comparison::pairing;
use crate::comparison::{
    ComparisonCaseSnapshot, ComparisonOptions, ComparisonReport, ComparisonSide, MatchedBenchmark,
    MeasurementDirection, MeasurementKind, MetricComparison, ReportReference,
};
use crate::double::DoubleBits;
use crate::series::{SeriesReport, SeriesResult, ValidityStatus};
use crate::session::{BenchmarkReport, BenchmarkResult};
use crate::text;
use vstd::prelude::*;

verus! {

/// The change between two values is the one recorded last for just those two.
pub proof fn changes_are_those_recorded(
    changes: &Changes,
    current: DoubleBits,
    baseline: DoubleBits,
    found: Option<Change>,
)
    requires
        call_ensures(Changes::between, (changes, current, baseline), found),
    ensures
        found == changes.spec_between(current, baseline),
        found matches Some(change) ==> change.current == current && change.baseline == baseline
            && changes.list@.contains(change),
        found is None ==> forall|k: int|
            0 <= k < changes.list@.len() ==> (#[trigger] changes.list@[k]).current != current
                || changes.list@[k].baseline != baseline,
        changes.list@.len() > 0 && changes.list@.last().current == current
            && changes.list@.last().baseline == baseline ==> found == Some(changes.list@.last()),
{
    recorded_change_is_found(changes.list@, current, baseline);
}

proof fn recorded_change_is_found(list: Seq<Change>, current: DoubleBits, baseline: DoubleBits)
    ensures
        engine::recorded_change(list, current, baseline) matches Some(change) ==> change.current
            == current && change.baseline == baseline && list.contains(change),
        engine::recorded_change(list, current, baseline) is None ==> forall|k: int|
            0 <= k < list.len() ==> (#[trigger] list[k]).current != current || list[k].baseline
                != baseline,
    decreases list.len(),
{
    if list.len() > 0 {
        let front = list.drop_last();
        recorded_change_is_found(front, current, baseline);
        if list.last().current == current && list.last().baseline == baseline {
            assert(list[list.len() - 1] == list.last());
        } else {
            assert forall|k: int| 0 <= k < front.len() implies list[k] == #[trigger] front[k] by {}
            if engine::recorded_change(list, current, baseline) is Some {
                let change = engine::recorded_change(front, current, baseline)->0;
                let k = choose|k: int| 0 <= k < front.len() && front[k] == change;
                assert(list[k] == change);
            } else {
                assert forall|k: int| 0 <= k < list.len() implies (#[trigger] list[k]).current
                    != current || list[k].baseline != baseline by {
                    if k < front.len() {
                        assert(front[k] == list[k]);
                    }
                }
            }
        }
    }
}

/// A value next to zero: its pattern, without the sign, is at most that of the
/// distance from one to the next number.
pub open spec fn next_to_zero(value: DoubleBits) -> bool {
    value.bits <= 0x3cb0_0000_0000_0000 || 0x8000_0000_0000_0000 <= value.bits
        <= 0xbcb0_0000_0000_0000
}

/// The difference of two values is the recorded one where it is finite, whatever
/// the percentages are.
pub open spec fn difference_holds(
    difference: Option<DoubleBits>,
    current: Option<DoubleBits>,
    baseline: Option<DoubleBits>,
    changes: Changes,
) -> bool {
    match (current, baseline) {
        (Some(c), Some(b)) => match changes.spec_between(c, b) {
            Some(change) => {
                &&& change.difference.finite() ==> difference == Some(change.difference)
                &&& !change.difference.finite() ==> difference is None
            },
            None => difference is None,
        },
        _ => difference is None,
    }
}

/// A percentage is the recorded one where it is finite and the baseline is not
/// next to zero.
pub open spec fn percent_holds(
    percent: Option<DoubleBits>,
    gain: bool,
    current: Option<DoubleBits>,
    baseline: Option<DoubleBits>,
    changes: Changes,
) -> bool {
    match (current, baseline) {
        (Some(c), Some(b)) => match changes.spec_between(c, b) {
            Some(change) => {
                let recorded = if gain {
                    change.gain_percent
                } else {
                    change.drop_percent
                };
                &&& next_to_zero(b) || !recorded.finite() ==> percent is None
                &&& !next_to_zero(b) && recorded.finite() ==> percent == Some(recorded)
            },
            None => percent is None,
        },
        _ => percent is None,
    }
}

/// A gain is better where more is better, a loss where less is; where neither is,
/// there is no improvement.
pub open spec fn improvement_holds(
    percent: Option<DoubleBits>,
    direction: MeasurementDirection,
    current: Option<DoubleBits>,
    baseline: Option<DoubleBits>,
    changes: Changes,
) -> bool {
    match direction {
        MeasurementDirection::Higher => percent_holds(percent, true, current, baseline, changes),
        MeasurementDirection::Lower => percent_holds(percent, false, current, baseline, changes),
        MeasurementDirection::Informational => percent is None,
    }
}

/// The difference, the percentage and the improvement of two values come from
/// the change recorded for them, each from its own number.
pub proof fn each_number_of_a_change_has_its_use(
    current: Option<DoubleBits>,
    baseline: Option<DoubleBits>,
    direction: MeasurementDirection,
    changes: &Changes,
    difference: Option<DoubleBits>,
    percent: Option<DoubleBits>,
    improvement: Option<DoubleBits>,
)
    requires
        call_ensures(finite_difference, (current, baseline, changes), difference),
        call_ensures(raw_percent_change, (current, baseline, changes), percent),
        call_ensures(improvement_percent, (current, baseline, direction, changes), improvement),
    ensures
        difference_holds(difference, current, baseline, *changes),
        percent_holds(percent, true, current, baseline, *changes),
        improvement_holds(improvement, direction, current, baseline, *changes),
{
    if current is Some && baseline is Some {
        recorded_change_is_found(changes.list@, current->0, baseline->0);
    }
}

/// Whether the changes of a matched case, and of each of its metrics, are those
/// recorded for the values it shows.
pub open spec fn changes_hold(matched: MatchedBenchmark, changes: Changes) -> bool {
    &&& difference_holds(
        matched.absolute_change,
        matched.current.primary.value,
        matched.baseline.primary.value,
        changes,
    )
    &&& improvement_holds(
        matched.percent_improvement,
        matched.current.primary.direction,
        matched.current.primary.value,
        matched.baseline.primary.value,
        changes,
    )
    &&& forall|m: int|
        0 <= m < matched.metric_changes@.len() ==> metric_holds(
            #[trigger] matched.metric_changes@[m],
            changes,
        )
}

/// Whether the changes of a metric are those recorded for the medians it shows.
pub open spec fn metric_holds(metric: MetricComparison, changes: Changes) -> bool {
    &&& difference_holds(
        metric.absolute_change,
        metric.current_median,
        metric.baseline_median,
        changes,
    )
    &&& percent_holds(
        metric.percent_change,
        true,
        metric.current_median,
        metric.baseline_median,
        changes,
    )
}

proof fn recorded_changes_hold(
    current: Option<DoubleBits>,
    baseline: Option<DoubleBits>,
    direction: MeasurementDirection,
    changes: Changes,
)
    ensures
        ({
            let change = engine::change_between(current, baseline, changes);
            &&& difference_holds(engine::difference_of(change), current, baseline, changes)
            &&& percent_holds(engine::percent_of(change), true, current, baseline, changes)
            &&& improvement_holds(
                engine::improvement_of(change, direction),
                direction,
                current,
                baseline,
                changes,
            )
        }),
{
    if current is Some && baseline is Some {
        recorded_change_is_found(changes.list@, current->0, baseline->0);
    }
}

proof fn matched_changes_hold(
    matched: MatchedBenchmark,
    current: NormalizedCase,
    baseline: NormalizedCase,
    changes: Changes,
)
    requires
        engine::matched_of(matched, current, baseline, changes),
    ensures
        changes_hold(matched, changes),
{
    recorded_changes_hold(
        current.primary.value,
        baseline.primary.value,
        current.primary.direction,
        changes,
    );
    let pairs = engine::metric_pairs(current, baseline);
    assert forall|m: int| 0 <= m < matched.metric_changes@.len() implies metric_holds(
        #[trigger] matched.metric_changes@[m],
        changes,
    ) by {
        let a = current.metrics@[pairs[m].0];
        let b = baseline.metrics@[pairs[m].1];
        assert(engine::metric_change_of(matched.metric_changes@[m], a, b, changes));
        recorded_changes_hold(a.median, b.median, MeasurementDirection::Higher, changes);
    }
}

/// What a comparison of two normalized reports comes to.
proof fn comparisons_hold(
    report: ComparisonReport,
    c: NormalizedReport,
    cr: ReportReference,
    b: NormalizedReport,
    br: ReportReference,
    options: ComparisonOptions,
    changes: Changes,
)
    requires
        engine::comparison_of(report, c, cr, b, br, options, changes),
    ensures
        forall|k: int|
            0 <= k < report.matched@.len() ==> changes_hold(#[trigger] report.matched@[k], changes),
        report.matched@.len() + report.added@.len() == c.cases@.len(),
        report.matched@.len() + report.removed@.len() == b.cases@.len(),
        report.summary.matched == report.matched@.len(),
        report.summary.added == report.added@.len(),
        report.summary.removed == report.removed@.len(),
{
    let pairs = engine::case_pairs(c.standing(), b.standing());
    assert forall|k: int| 0 <= k < report.matched@.len() implies changes_hold(
        #[trigger] report.matched@[k],
        changes,
    ) by {
        matched_changes_hold(
            report.matched@[k],
            c.cases@[pairs[k].0],
            b.cases@[pairs[k].1],
            changes,
        );
    }
    pairing::pairing_is_a_partition(c.standing().keys, b.standing().keys);
}

/// The number of cases of a document.
pub open spec fn case_count(document: ReportDocument) -> nat {
    match document {
        ReportDocument::Native { report, .. } => report.results@.len(),
        ReportDocument::Series { report, .. } => report.results@.len(),
    }
}

/// In every comparison of two documents the absolute change of a matched case
/// and of each of its metrics is the recorded difference of the two values
/// shown, the improvement the recorded gain or loss in the direction of the
/// measurement, and every case of either side is matched or counted once.
pub proof fn compared_documents_show_their_changes(
    current: &ReportDocument,
    baseline: &ReportDocument,
    options: &ComparisonOptions,
    statistics: &SampleStatistics,
    changes: &Changes,
    result: Result<ComparisonReport, ComparisonError>,
)
    requires
        call_ensures(compare_reports, (current, baseline, options, statistics, changes), result),
        result is Ok,
    ensures
        ({
            let report = result->Ok_0;
            &&& forall|k: int|
                0 <= k < report.matched@.len() ==> changes_hold(
                    #[trigger] report.matched@[k],
                    *changes,
                )
            &&& report.matched@.len() + report.added@.len() == case_count(*current)
            &&& report.matched@.len() + report.removed@.len() == case_count(*baseline)
            &&& report.summary.matched == report.matched@.len()
            &&& report.summary.added == report.added@.len()
            &&& report.summary.removed == report.removed@.len()
        }),
{
    let (c, b) = choose|c: NormalizedReport, b: NormalizedReport| #[trigger]
        current.normalizes_to(c, *statistics) && #[trigger] baseline.normalizes_to(b, *statistics)
            && engine::comparison_of(
            result->Ok_0,
            c,
            current.spec_reference(),
            b,
            baseline.spec_reference(),
            *options,
            *changes,
        );
    comparisons_hold(
        result->Ok_0,
        c,
        current.spec_reference(),
        b,
        baseline.spec_reference(),
        *options,
        *changes,
    );
}

/// Two sets of changes that agree on the differences give the same absolute
/// changes, whatever their percentages.
pub proof fn absolute_changes_need_no_percentages(
    matched: MatchedBenchmark,
    other: MatchedBenchmark,
    changes: Changes,
    other_changes: Changes,
)
    requires
        changes_hold(matched, changes),
        changes_hold(other, other_changes),
        matched.current.primary.value == other.current.primary.value,
        matched.baseline.primary.value == other.baseline.primary.value,
        forall|c: DoubleBits, b: DoubleBits|
            {
                let x = #[trigger] changes.spec_between(c, b);
                let y = other_changes.spec_between(c, b);
                &&& x is Some == y is Some
                &&& x is Some ==> x->0.difference == y->0.difference
            },
    ensures
        matched.absolute_change == other.absolute_change,
{
    if matched.current.primary.value is Some && matched.baseline.primary.value is Some {
        let x = changes.spec_between(
            matched.current.primary.value->0,
            matched.baseline.primary.value->0,
        );
    }
}

/// Whether two native results are of the same case.
pub open spec fn same_native(a: BenchmarkResult, b: BenchmarkResult) -> bool {
    &&& a.group@ == b.group@
    &&& a.name@ == b.name@
    &&& a.kind == b.kind
    &&& a.stats.throughput.amount() == b.stats.throughput.amount()
    &&& a.stats.throughput.unit_text() == b.stats.throughput.unit_text()
    &&& a.stats.measurement_domain == b.stats.measurement_domain
    &&& a.metadata@ == b.metadata@
}

/// Whether two series results are of the same case.
pub open spec fn same_series(a: SeriesResult, b: SeriesResult) -> bool {
    &&& a.group@ == b.group@
    &&& a.name@ == b.name@
    &&& a.measurement == b.measurement
    &&& a.unit@ == b.unit@
    &&& a.direction == b.direction
    &&& a.dimensions@ == b.dimensions@
}

/// Whether two cases of two documents are the same.
pub open spec fn same_case(a: ReportDocument, i: int, b: ReportDocument, j: int) -> bool {
    match (a, b) {
        (ReportDocument::Native { report: x, .. }, ReportDocument::Native { report: y, .. }) =>
            same_native(x.results@[i], y.results@[j]),
        (ReportDocument::Series { report: x, .. }, ReportDocument::Series { report: y, .. }) =>
            same_series(x.results@[i], y.results@[j]),
        _ => false,
    }
}

proof fn keys_tell_cases_apart(a: ReportDocument, i: int, b: ReportDocument, j: int)
    requires
        0 <= i < case_count(a),
        0 <= j < case_count(b),
    ensures
        a.standing().keys[i] == b.standing().keys[j] <==> same_case(a, i, b, j),
        a.standing().keys.len() == case_count(a),
        b.standing().keys.len() == case_count(b),
{
}

/// A number as it is shown: itself where it is finite and not negative.
pub open spec fn shown_if_sensible(shown: Option<DoubleBits>, number: DoubleBits) -> bool {
    &&& shown is Some <==> number.finite() && !number.below(DoubleBits { bits: 0 })
    &&& shown is Some ==> shown->0 == number
}

/// Whether evidence shows a native result: its throughput, of which more is
/// better; the median that the result states where that is a positive number,
/// else that of its rates, else its mean; and the statistics of its rates and
/// latencies, each where it belongs.
pub open spec fn shows_native(
    shot: ComparisonCaseSnapshot,
    result: BenchmarkResult,
    numbers: CaseNumbers,
) -> bool {
    let stats = result.stats;
    let stated = stats.median_throughput_per_sec;
    let sampled = stats.sample_throughput_per_sec@.len() > 0;
    let timed = stats.sample_latency_ns_per_op@.len() > 0;
    let median = if 0 < stated.bits < 0x7ff0_0000_0000_0000 {
        stated
    } else if sampled {
        numbers.median
    } else {
        stats.throughput_per_sec
    };
    let finite = stats.sample_throughput_per_sec@.filter(|v: DoubleBits| v.finite());
    &&& shot.primary.measurement == MeasurementKind::Throughput
    &&& shot.primary.direction == MeasurementDirection::Higher
    &&& shot.primary.unit@ == stats.throughput.unit_text() + "/s"@
    &&& shot.primary.samples@ == finite
    &&& shown_if_sensible(shot.primary.value, median)
    &&& shown_if_sensible(shot.native.median_throughput_per_sec, median)
    &&& sampled ==> shown_if_sensible(shot.native.mean_throughput_per_sec, numbers.mean)
    &&& !sampled ==> shown_if_sensible(
        shot.native.mean_throughput_per_sec,
        stats.throughput_per_sec,
    )
    &&& timed ==> shown_if_sensible(shot.native.median_ns_per_op, numbers.median_latency)
    &&& !timed ==> shown_if_sensible(shot.native.median_ns_per_op, stats.median_ns_per_op)
    &&& timed ==> shown_if_sensible(shot.native.p95_ns_per_op, numbers.p95_latency)
    &&& !timed ==> shown_if_sensible(shot.native.p95_ns_per_op, stats.p95_ns_per_op)
    &&& timed ==> shown_if_sensible(shot.native.mad_ns_per_op, numbers.mad_latency)
    &&& !timed ==> shown_if_sensible(shot.native.mad_ns_per_op, stats.mad_ns_per_op)
    &&& shown_if_sensible(shot.statistics.cv_percent, stats.cv_percent)
    &&& shot.statistics.samples == stats.samples
    &&& shot.statistics.mad is Some <==> finite.len() > 0 && median.finite()
        && numbers.mad.finite()
    &&& shot.statistics.mad is Some ==> shot.statistics.mad->0 == numbers.mad
    &&& shot.statistics.p95 is Some <==> finite.len() > 0 && numbers.p95.finite()
    &&& shot.statistics.p95 is Some ==> shot.statistics.p95->0 == numbers.p95
    &&& finite.len() < 4 ==> shot.statistics.outliers == 0
    &&& finite.len() >= 4 ==> shot.statistics.outliers == finite.filter(
        |v: DoubleBits| v.below(numbers.lower_fence) || numbers.upper_fence.below(v),
    ).len()
    &&& shot.validity.status == ValidityStatus::Valid
}

/// Whether evidence shows a series result: what it measured as it was measured,
/// the median of its samples where it is valid and has any, and their
/// statistics.
pub open spec fn shows_series(
    shot: ComparisonCaseSnapshot,
    result: SeriesResult,
    numbers: CaseNumbers,
) -> bool {
    let samples = result.samples@;
    &&& shot.primary.measurement == result.measurement
    &&& shot.primary.direction == result.direction
    &&& shot.primary.unit@ == result.unit@
    &&& shot.primary.samples@ == samples
    &&& shot.primary.value is Some <==> samples.len() > 0 && result.validity.status
        == ValidityStatus::Valid
    &&& shot.primary.value is Some ==> shot.primary.value->0 == numbers.median
    &&& shot.statistics.samples == samples.len()
    &&& shot.statistics.mad is Some <==> samples.len() > 0
    &&& shot.statistics.mad is Some ==> shot.statistics.mad->0 == numbers.mad
    &&& shot.statistics.p95 is Some <==> samples.len() > 0
    &&& shot.statistics.p95 is Some ==> shot.statistics.p95->0 == numbers.p95
    &&& shot.statistics.cv_percent is Some <==> samples.len() > 0 && numbers.mean.finite()
        && !next_to_zero(numbers.mean) && numbers.cv_percent.finite()
    &&& shot.statistics.cv_percent is Some ==> shot.statistics.cv_percent->0 == numbers.cv_percent
    &&& samples.len() < 4 ==> shot.statistics.outliers == 0
    &&& samples.len() >= 4 ==> shot.statistics.outliers == samples.filter(
        |v: DoubleBits| v.below(numbers.lower_fence) || numbers.upper_fence.below(v),
    ).len()
    &&& shot.native.mean_throughput_per_sec is None
    &&& shot.native.median_throughput_per_sec is None
    &&& shot.native.median_ns_per_op is None
    &&& shot.native.p95_ns_per_op is None
    &&& shot.native.mad_ns_per_op is None
    &&& shot.validity == result.validity
    &&& shot.provenance@ == result.provenance@
}

/// Whether evidence shows a case of a document.
pub open spec fn shows_case(
    shot: ComparisonCaseSnapshot,
    document: ReportDocument,
    i: int,
    statistics: SampleStatistics,
) -> bool {
    match document {
        ReportDocument::Native { report, .. } => shows_native(
            shot,
            report.results@[i],
            statistics.of_native(report.results@[i]),
        ),
        ReportDocument::Series { report, .. } => shows_series(
            shot,
            report.results@[i],
            statistics.of_series(report.results@[i]),
        ),
    }
}

proof fn outside_is_filtered(s: Seq<DoubleBits>, lower: DoubleBits, upper: DoubleBits)
    ensures
        crate::double::outside(s, lower, upper) == s.filter(
            |v: DoubleBits| v.below(lower) || upper.below(v),
        ).len(),
        crate::double::outside(s, lower, upper) <= s.len(),
    decreases s.len(),
{
    reveal(Seq::filter);
    if s.len() > 0 {
        outside_is_filtered(s.drop_last(), lower, upper);
    }
}

proof fn snapshots_show_their_case(
    shot: ComparisonCaseSnapshot,
    normalized: NormalizedReport,
    document: ReportDocument,
    statistics: SampleStatistics,
    i: int,
)
    requires
        document.normalizes_to(normalized, statistics),
        0 <= i < case_count(document),
        engine::snapshot_of(shot, normalized.cases@[i]),
    ensures
        shows_case(shot, document, i, statistics),
{
    let case = normalized.cases@[i];
    match document {
        ReportDocument::Native { report, .. } => {
            let result = report.results@[i];
            let numbers = statistics.of_native(result);
            assert(normalize::native_case(case, result, numbers));
            let finite = crate::double::finite_only(result.stats.sample_throughput_per_sec@);
            outside_is_filtered(finite, numbers.lower_fence, numbers.upper_fence);
            result.stats.sample_throughput_per_sec@.lemma_filter_len(
                |v: DoubleBits| v.finite(),
            );
            assert(result.stats.sample_throughput_per_sec@.len()
                == result.stats.sample_throughput_per_sec.len());
        },
        ReportDocument::Series { report, .. } => {
            let result = report.results@[i];
            let numbers = statistics.of_series(result);
            assert(normalize::series_case(case, result, numbers));
            assert(result.samples@.len() == result.samples.len());
            outside_is_filtered(result.samples@, numbers.lower_fence, numbers.upper_fence);
        },
    }
}

/// A matched case is one that both documents have, and shows it from both sides;
/// an added one only the current document has, and a removed one only the
/// baseline.
pub proof fn compared_documents_show_their_cases(
    current: &ReportDocument,
    baseline: &ReportDocument,
    options: &ComparisonOptions,
    statistics: &SampleStatistics,
    changes: &Changes,
    result: Result<ComparisonReport, ComparisonError>,
    k: int,
)
    requires
        call_ensures(compare_reports, (current, baseline, options, statistics, changes), result),
        result is Ok,
    ensures
        0 <= k < result->Ok_0.matched@.len() ==> exists|i: int, j: int|
            {
                &&& 0 <= i < case_count(*current)
                &&& 0 <= j < case_count(*baseline)
                &&& #[trigger] same_case(*current, i, *baseline, j)
                &&& shows_case(result->Ok_0.matched@[k].current, *current, i, *statistics)
                &&& shows_case(result->Ok_0.matched@[k].baseline, *baseline, j, *statistics)
            },
        0 <= k < result->Ok_0.added@.len() ==> exists|i: int|
            {
                &&& 0 <= i < case_count(*current)
                &&& #[trigger] shows_case(
                    result->Ok_0.added@[k].measurement,
                    *current,
                    i,
                    *statistics,
                )
                &&& forall|j: int|
                    0 <= j < case_count(*baseline) ==> !#[trigger] same_case(
                        *current,
                        i,
                        *baseline,
                        j,
                    )
            },
        0 <= k < result->Ok_0.removed@.len() ==> exists|j: int|
            {
                &&& 0 <= j < case_count(*baseline)
                &&& #[trigger] shows_case(
                    result->Ok_0.removed@[k].measurement,
                    *baseline,
                    j,
                    *statistics,
                )
                &&& forall|i: int|
                    0 <= i < case_count(*current) ==> !#[trigger] same_case(
                        *current,
                        i,
                        *baseline,
                        j,
                    )
            },
{
    let report = result->Ok_0;
    let (c, b) = choose|c: NormalizedReport, b: NormalizedReport| #[trigger]
        current.normalizes_to(c, *statistics) && #[trigger] baseline.normalizes_to(b, *statistics)
            && engine::comparison_of(
            report,
            c,
            current.spec_reference(),
            b,
            baseline.spec_reference(),
            *options,
            *changes,
        );
    compare::normalizing_keeps_standing(*current, c, *statistics);
    compare::normalizing_keeps_standing(*baseline, b, *statistics);
    let x = current.standing();
    let y = baseline.standing();
    let pairs = engine::case_pairs(x, y);
    engine::no_repeat_means_distinct(x.keys);
    engine::no_repeat_means_distinct(y.keys);
    engine::places_in_range(x, y);
    if 0 <= k < report.matched@.len() {
        let i = pairs[k].0;
        let j = pairs[k].1;
        pairing::pairs_share_keys(x.keys, y.keys, k);
        keys_tell_cases_apart(*current, i, *baseline, j);
        assert(engine::matched_of(report.matched@[k], c.cases@[i], b.cases@[j], *changes));
        snapshots_show_their_case(report.matched@[k].current, c, *current, *statistics, i);
        snapshots_show_their_case(report.matched@[k].baseline, b, *baseline, *statistics, j);
        assert(same_case(*current, i, *baseline, j));
    }
    if 0 <= k < report.added@.len() {
        let i = engine::added_cases(x, y)[k];
        assert(engine::unmatched_of(report.added@[k], c.cases@[i]));
        snapshots_show_their_case(report.added@[k].measurement, c, *current, *statistics, i);
        pairing::left_over_is_unpaired(pairs, x.keys.len() as int, k);
        pairing::distinct_keys_decide(x.keys, y.keys, i);
        assert forall|j: int| 0 <= j < case_count(*baseline) implies !#[trigger] same_case(
            *current,
            i,
            *baseline,
            j,
        ) by {
            keys_tell_cases_apart(*current, i, *baseline, j);
            if same_case(*current, i, *baseline, j) {
                assert(y.keys.contains(x.keys[i]));
            }
        }
    }
    if 0 <= k < report.removed@.len() {
        let j = engine::removed_cases(x, y)[k];
        assert(engine::unmatched_of(report.removed@[k], b.cases@[j]));
        snapshots_show_their_case(report.removed@[k].measurement, b, *baseline, *statistics, j);
        pairing::left_over_is_unpaired(pairs, y.keys.len() as int, k);
        assert forall|i: int| 0 <= i < case_count(*current) implies !#[trigger] same_case(
            *current,
            i,
            *baseline,
            j,
        ) by {
            keys_tell_cases_apart(*current, i, *baseline, j);
            if same_case(*current, i, *baseline, j) {
                assert(y.keys.contains(x.keys[i]));
                pairing::distinct_keys_decide(x.keys, y.keys, i);
                let m = choose|m: int| 0 <= m < pairs.len() && (#[trigger] pairs[m]).0 == i;
                pairing::pairs_share_keys(x.keys, y.keys, m);
                if pairs[m].1 != j {
                    let p = pairs[m].1;
                    assert(y.keys[p] == y.keys[j]);
                    if p < j {
                        assert(y.keys[p] != y.keys[j]);
                    } else {
                        assert(y.keys[j] != y.keys[p]);
                    }
                }
                assert(pairing::paired_baseline(pairs, j));
            }
        }
    }
}

/// Who measured a document: of a native report the runner of its context, or
/// else its host.
pub open spec fn runner(document: ReportDocument) -> Seq<char> {
    match document {
        ReportDocument::Native { report, .. } => if text::blank(report.context.runner_id@) {
            report.hostname@
        } else {
            report.context.runner_id@
        },
        ReportDocument::Series { report, .. } => report.context.runner_id@,
    }
}

/// Where a document was measured.
pub open spec fn environment(document: ReportDocument) -> Map<Seq<char>, Seq<char>> {
    match document {
        ReportDocument::Native { report, .. } => report.context.environment@,
        ReportDocument::Series { report, .. } => report.context.environment@,
    }
}

/// The suite of a document, where it has one.
pub open spec fn suite(document: ReportDocument) -> Option<Seq<char>> {
    match document {
        ReportDocument::Native { report, .. } => match report.suite {
            Some(suite) => Some(suite@),
            None => None,
        },
        ReportDocument::Series { report, .. } => Some(report.suite@),
    }
}

/// A document that can be compared: of the supported schema, with a suite, valid
/// as a whole, by a runner that is known, and with no case twice.
pub open spec fn sound(document: ReportDocument) -> bool {
    &&& match document {
        ReportDocument::Native { report, .. } => report.schema_version == 1 && report.suite is Some
            && !text::blank(report.suite->0@),
        ReportDocument::Series { report, .. } => report.schema_version == 1 && report.problem()
            is None && report.validity.status == ValidityStatus::Valid,
    }
    &&& !text::blank(runner(document))
    &&& text::ascii_lower_all(runner(document)) != text::ascii_lower_all("unknown"@)
    &&& forall|i: int, j: int|
        0 <= i < j < case_count(document) ==> !#[trigger] same_case(document, i, document, j)
}

/// Two documents are compared exactly where both can be, they are of one suite,
/// their runners and environments agree or there is a reason given why they need
/// not, and neither has a case that the other lacks or that is permitted.
pub proof fn documents_are_compared_when_comparable(
    current: &ReportDocument,
    baseline: &ReportDocument,
    options: &ComparisonOptions,
    statistics: &SampleStatistics,
    changes: &Changes,
    result: Result<ComparisonReport, ComparisonError>,
)
    requires
        call_ensures(compare_reports, (current, baseline, options, statistics, changes), result),
    ensures
        result is Ok ==> {
            &&& sound(*current)
            &&& sound(*baseline)
            &&& suite(*current) == suite(*baseline)
            &&& options.environment_override is None ==> runner(*current) == runner(*baseline)
                && environment(*current) == environment(*baseline)
            &&& options.environment_override matches Some(given) ==> !text::blank(given.reason@)
            &&& !options.allow_partial_result_set ==> every_case_in(*current, *baseline)
                && every_case_in(*baseline, *current)
        },
        sound(*current) && sound(*baseline) && suite(*current) == suite(*baseline) && (
        match options.environment_override {
            None => runner(*current) == runner(*baseline) && environment(*current) == environment(
                *baseline,
            ),
            Some(given) => !text::blank(given.reason@),
        }) && (options.allow_partial_result_set || (every_case_in(*current, *baseline)
            && every_case_in(*baseline, *current))) ==> result is Ok,
{
    let x = current.standing();
    let y = baseline.standing();
    soundness_is_the_lack_of_obstacles(*current, ComparisonSide::Current);
    soundness_is_the_lack_of_obstacles(*baseline, ComparisonSide::Baseline);
    engine::no_repeat_means_distinct(x.keys);
    engine::no_repeat_means_distinct(y.keys);
    pairing::pairing_is_a_partition(x.keys, y.keys);
    let pairs = engine::case_pairs(x, y);
    if result is Ok && !options.allow_partial_result_set {
        pairing::complete_pairing_shares_keys(x.keys, y.keys);
        shared_keys_are_shared_cases(*current, *baseline);
        shared_keys_are_shared_cases(*baseline, *current);
    }
    if sound(*current) && sound(*baseline) && every_case_in(*current, *baseline) && every_case_in(
        *baseline,
        *current,
    ) {
        if engine::added_cases(x, y).len() > 0 {
            let i = engine::added_cases(x, y)[0];
            pairing::left_over_is_unpaired(pairs, x.keys.len() as int, 0);
            pairing::distinct_keys_decide(x.keys, y.keys, i);
            assert(has_case(*current, i, *baseline));
            let j = choose|j: int|
                0 <= j < case_count(*baseline) && #[trigger] same_case(*current, i, *baseline, j);
            keys_tell_cases_apart(*current, i, *baseline, j);
            assert(y.keys[j] == x.keys[i]);
        }
        if engine::removed_cases(x, y).len() > 0 {
            let j = engine::removed_cases(x, y)[0];
            pairing::left_over_is_unpaired(pairs, y.keys.len() as int, 0);
            assert(has_case(*baseline, j, *current));
            let i = choose|i: int|
                0 <= i < case_count(*current) && #[trigger] same_case(*baseline, j, *current, i);
            keys_tell_cases_apart(*baseline, j, *current, i);
            assert(x.keys[i] == y.keys[j]);
            assert(y.keys.contains(x.keys[i]));
            pairing::distinct_keys_decide(x.keys, y.keys, i);
            let m = choose|m: int| 0 <= m < pairs.len() && (#[trigger] pairs[m]).0 == i;
            pairing::pairs_share_keys(x.keys, y.keys, m);
            let p = pairs[m].1;
            if p < j {
                assert(y.keys[p] != y.keys[j]);
            } else if p > j {
                assert(y.keys[j] != y.keys[p]);
            }
            assert(pairing::paired_baseline(pairs, j));
        }
    }
}

/// Whether a document has a case of another.
pub open spec fn has_case(a: ReportDocument, i: int, b: ReportDocument) -> bool {
    exists|j: int| 0 <= j < case_count(b) && #[trigger] same_case(a, i, b, j)
}

/// Whether a document has every case of another.
pub open spec fn every_case_in(a: ReportDocument, b: ReportDocument) -> bool {
    forall|i: int| 0 <= i < case_count(a) ==> #[trigger] has_case(a, i, b)
}

proof fn shared_keys_are_shared_cases(a: ReportDocument, b: ReportDocument)
    requires
        forall|key| #[trigger] a.standing().keys.contains(key) ==> b.standing().keys.contains(key),
    ensures
        every_case_in(a, b),
{
    let x = a.standing().keys;
    let y = b.standing().keys;
    assert forall|i: int| 0 <= i < case_count(a) implies #[trigger] has_case(a, i, b) by {
        assert(x.contains(x[i]));
        let j = choose|j: int| 0 <= j < y.len() && y[j] == x[i];
        keys_tell_cases_apart(a, i, b, j);
        assert(same_case(a, i, b, j));
    }
}

/// A document can be compared where nothing stands in its way.
pub proof fn soundness_is_the_lack_of_obstacles(document: ReportDocument, side: ComparisonSide)
    ensures
        sound(document) <==> {
            &&& document.obstacle(side) is None
            &&& document.standing().invalid is None
            &&& !engine::unknown_runner(document.standing().runner)
            &&& pairing::distinct(document.standing().keys)
        },
        document.obstacle(side) is None ==> suite(document) == Some(document.standing().suite),
        document.standing().runner == runner(document),
        document.standing().environment == environment(document),
{
    let keys = document.standing().keys;
    if pairing::distinct(keys) {
        assert forall|i: int, j: int| 0 <= i < j < case_count(document) implies !#[trigger] same_case(
            document,
            i,
            document,
            j,
        ) by {
            keys_tell_cases_apart(document, i, document, j);
            assert(keys[i] != keys[j]);
        }
    }
    if forall|i: int, j: int|
        0 <= i < j < case_count(document) ==> !#[trigger] same_case(document, i, document, j) {
        assert forall|i: int, j: int| 0 <= i < j < keys.len() implies #[trigger] keys[i]
            != #[trigger] keys[j] by {
            keys_tell_cases_apart(document, i, document, j);
            assert(!same_case(document, i, document, j));
        }
    }
}

/// A refusal names what is wrong: the side, and the two names or counts that do
/// not agree.
pub proof fn refusals_are_true(
    current: &ReportDocument,
    baseline: &ReportDocument,
    options: &ComparisonOptions,
    statistics: &SampleStatistics,
    changes: &Changes,
    result: Result<ComparisonReport, ComparisonError>,
)
    requires
        call_ensures(compare_reports, (current, baseline, options, statistics, changes), result),
        result is Err,
    ensures
        match result->Err_0 {
            ComparisonError::UnsupportedSchema { side, found, supported } => supported == 1
                && found != 1 && found == schema(of_side(*current, *baseline, side)),
            ComparisonError::MissingSuite { side } => match suite(
                of_side(*current, *baseline, side),
            ) {
                Some(name) => text::blank(name),
                None => true,
            },
            ComparisonError::SuiteMismatch { current: a, baseline: b } => a@ != b@ && suite(
                *current,
            ) == Some(a@) && suite(*baseline) == Some(b@),
            ComparisonError::UnknownRunner { side } => {
                let name = runner(of_side(*current, *baseline, side));
                text::blank(name) || text::ascii_lower_all(name) == text::ascii_lower_all(
                    "unknown"@,
                )
            },
            ComparisonError::RunnerMismatch { current: a, baseline: b } => a@ != b@ && runner(
                *current,
            ) == a@ && runner(*baseline) == b@ && options.environment_override is None,
            ComparisonError::EnvironmentMismatch { current: a, baseline: b } => a@ != b@
                && environment(*current) == a@ && environment(*baseline) == b@
                && options.environment_override is None,
            ComparisonError::InvalidEnvironmentOverride => options.environment_override is Some
                && text::blank(options.environment_override->0.reason@),
            ComparisonError::DuplicateIdentity { side, .. } => {
                let document = of_side(*current, *baseline, side);
                exists|i: int, j: int|
                    0 <= i < j < case_count(document) && #[trigger] same_case(
                        document,
                        i,
                        document,
                        j,
                    )
            },
            ComparisonError::EmptyResultSet { .. } => false,
            ComparisonError::InvalidReport { side, .. } => of_side(*current, *baseline, side)
                is Series,
            ComparisonError::ResultSetMismatch { added, removed } => {
                &&& !options.allow_partial_result_set
                &&& added > 0 || removed > 0
                &&& case_count(*current) + removed == case_count(*baseline) + added
            },
            ComparisonError::ReferenceSerialization { .. } => false,
        },
{
    let x = current.standing();
    let y = baseline.standing();
    soundness_is_the_lack_of_obstacles(*current, ComparisonSide::Current);
    soundness_is_the_lack_of_obstacles(*baseline, ComparisonSide::Baseline);
    pairing::pairing_is_a_partition(x.keys, y.keys);
    assert(x.keys.len() == case_count(*current));
    assert(y.keys.len() == case_count(*baseline));
    repeated_keys_are_repeated_cases(*current);
    repeated_keys_are_repeated_cases(*baseline);
}

/// The document on one side.
pub open spec fn of_side(
    current: ReportDocument,
    baseline: ReportDocument,
    side: ComparisonSide,
) -> ReportDocument {
    if side == ComparisonSide::Current {
        current
    } else {
        baseline
    }
}

/// The schema that a document states.
pub open spec fn schema(document: ReportDocument) -> u32 {
    match document {
        ReportDocument::Native { report, .. } => report.schema_version,
        ReportDocument::Series { report, .. } => report.schema_version,
    }
}

proof fn repeated_keys_are_repeated_cases(document: ReportDocument)
    ensures
        engine::first_repeat(document.standing().keys, 0) is Some ==> exists|i: int, j: int|
            0 <= i < j < case_count(document) && #[trigger] same_case(document, i, document, j),
{
    let keys = document.standing().keys;
    engine::no_repeat_means_distinct(keys);
    if engine::first_repeat(keys, 0) is Some {
        let (i, j) = choose|i: int, j: int|
            0 <= i < j < keys.len() && #[trigger] keys[i] == #[trigger] keys[j];
        keys_tell_cases_apart(document, i, document, j);
        assert(same_case(document, i, document, j));
    }
}

} // verus!
