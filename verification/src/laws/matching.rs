//! Which metrics of two cases are compared, and when a comparison warns.
use crate::comparison::engine;
use crate::comparison::engine::{compare_metrics, matched_benchmark, Changes};
use crate::comparison::normalize;
use crate::comparison::normalize::{
    normalize_native_case, CaseNumbers, NormalizedCase, NormalizedMetric,
};
use crate::comparison::pairing;
use crate::comparison::pairing::Matchable;
use crate::comparison::{MatchedBenchmark, MetricComparison};
use crate::series::ValidityStatus;
use crate::session::BenchmarkResult;
use crate::text;
use vstd::prelude::*;

verus! {

/// Whether two metrics have their name, their unit and their section in common.
pub open spec fn same_metric(a: NormalizedMetric, b: NormalizedMetric) -> bool {
    &&& a.name@ == b.name@
    &&& a.unit@ == b.unit@
    &&& a.section@ == b.section@
}

/// Whether a change is that of a metric of one case against one of another.
pub open spec fn is_change_of(
    change: MetricComparison,
    current: NormalizedMetric,
    baseline: NormalizedMetric,
) -> bool {
    &&& change.name@ == current.name@
    &&& change.unit@ == current.unit@
    &&& change.section@ == current.section@
    &&& change.display_name@ == current.display_name@
    &&& change.format == current.format
    &&& change.current_median == current.median
    &&& change.baseline_median == baseline.median
}

/// Whether a change is that of a metric that two cases have in common.
pub open spec fn is_of_both(
    change: MetricComparison,
    current: Seq<NormalizedMetric>,
    baseline: Seq<NormalizedMetric>,
) -> bool {
    exists|i: int, j: int|
        0 <= i < current.len() && 0 <= j < baseline.len() && same_metric(
            #[trigger] current[i],
            #[trigger] baseline[j],
        ) && is_change_of(change, current[i], baseline[j])
}

/// Metrics are compared where name, unit and section agree, with the median of
/// each on its own side, and a metric that both cases have is compared.
pub proof fn shared_metrics_are_compared(
    current: &NormalizedCase,
    baseline: &NormalizedCase,
    changes: &Changes,
    r: Vec<MetricComparison>,
)
    requires
        call_ensures(compare_metrics, (current, baseline, changes), r),
    ensures
        forall|k: int|
            0 <= k < r@.len() ==> is_of_both(
                #[trigger] r@[k],
                current.metrics@,
                baseline.metrics@,
            ),
        forall|i: int, j: int|
            0 <= i < current.metrics@.len() && 0 <= j < baseline.metrics@.len() && same_metric(
                #[trigger] current.metrics@[i],
                #[trigger] baseline.metrics@[j],
            ) ==> exists|k: int|
                0 <= k < r@.len() && (#[trigger] r@[k]).name@ == current.metrics@[i].name@
                    && r@[k].unit@ == current.metrics@[i].unit@ && r@[k].section@
                    == current.metrics@[i].section@,
        r@.len() <= current.metrics@.len(),
        r@.len() <= baseline.metrics@.len(),
{
    let x = pairing::keys_of(current.metrics@);
    let y = pairing::keys_of(baseline.metrics@);
    let pairs = pairing::pairs_between(x, y);
    assert(r@.len() == r.len());
    pairing::pairing_is_a_partition(x, y);
    assert forall|k: int| 0 <= k < r@.len() implies is_of_both(
        #[trigger] r@[k],
        current.metrics@,
        baseline.metrics@,
    ) by {
        pairing::pairs_share_keys(x, y, k);
        let i = pairs[k].0;
        let j = pairs[k].1;
        assert(x[i] == current.metrics@[i].match_key());
        assert(y[j] == baseline.metrics@[j].match_key());
        assert(engine::metric_change_of(
            r@[k],
            current.metrics@[i],
            baseline.metrics@[j],
            *changes,
        ));
        assert(same_metric(current.metrics@[i], baseline.metrics@[j]));
    }
    assert forall|i: int, j: int|
        0 <= i < current.metrics@.len() && 0 <= j < baseline.metrics@.len() && same_metric(
            #[trigger] current.metrics@[i],
            #[trigger] baseline.metrics@[j],
        ) implies exists|k: int|
        0 <= k < r@.len() && (#[trigger] r@[k]).name@ == current.metrics@[i].name@ && r@[k].unit@
            == current.metrics@[i].unit@ && r@[k].section@ == current.metrics@[i].section@ by {
        assert(x[i] == current.metrics@[i].match_key());
        assert(y[j] == baseline.metrics@[j].match_key());
        pairing::pairing_is_maximal(x, y, i, j);
        let k = if pairing::paired_current(pairs, i) {
            choose|k: int| 0 <= k < pairs.len() && (#[trigger] pairs[k]).0 == i
        } else {
            choose|k: int| 0 <= k < pairs.len() && (#[trigger] pairs[k]).1 == j
        };
        pairing::pairs_share_keys(x, y, k);
        let p = pairs[k].0;
        let q = pairs[k].1;
        assert(x[p] == current.metrics@[p].match_key());
        assert(y[q] == baseline.metrics@[q].match_key());
        assert(engine::metric_change_of(
            r@[k],
            current.metrics@[p],
            baseline.metrics@[q],
            *changes,
        ));
        assert(r@[k].name@ == current.metrics@[i].name@);
    }
}

/// A case of a native report has the metrics of its result in their order, each
/// with its median where that is finite.
pub proof fn cases_keep_their_metrics(
    result: &BenchmarkResult,
    numbers: &CaseNumbers,
    case: NormalizedCase,
)
    requires
        call_ensures(normalize_native_case, (result, numbers), case),
    ensures
        case.metrics@.len() == result.stats.metrics@.len(),
        forall|i: int|
            0 <= i < case.metrics@.len() ==> {
                let metric = #[trigger] case.metrics@[i];
                let summary = result.stats.metrics@[i];
                &&& metric.name@ == summary.name@
                &&& metric.unit@ == summary.unit@
                &&& metric.section@ == summary.section@
                &&& metric.display_name@ == summary.display_name@
                &&& metric.format == summary.format
                &&& summary.median.finite() ==> metric.median == Some(summary.median)
                &&& !summary.median.finite() ==> metric.median is None
            },
{
    assert(case.metrics@.len() == case.metrics.len());
    assert(normalize::native_case(case, *result, *numbers));
    assert forall|i: int| 0 <= i < case.metrics@.len() implies normalize::metric_of(
        #[trigger] case.metrics@[i],
        result.stats.metrics@[i],
    ) by {}
}

/// Whether a case has no number to compare: it is not valid, or what was measured
/// is not finite.
pub open spec fn unsound(case: NormalizedCase) -> bool {
    case.validity.status != ValidityStatus::Valid || case.primary.value is None
}

/// What is said of a case of one side that has no number to compare.
pub open spec fn complaint(side: Seq<char>, case: NormalizedCase) -> Seq<char> {
    if case.validity.status == ValidityStatus::Valid {
        side + " primary measurement is not finite"@
    } else {
        side + " result is invalid: "@ + match case.validity.reason {
            Some(reason) => reason@,
            None => "no reason supplied"@,
        }
    }
}

/// A match warns of each side that has no number to compare, of the current one
/// first and of each under its own name, and of nothing else.
pub proof fn matches_warn_of_unsound_sides(
    current: &NormalizedCase,
    baseline: &NormalizedCase,
    changes: &Changes,
    r: MatchedBenchmark,
)
    requires
        call_ensures(matched_benchmark, (current, baseline, changes), r),
    ensures
        !unsound(*current) && !unsound(*baseline) ==> r.stability_warnings@.len() == 0,
        unsound(*current) && !unsound(*baseline) ==> r.stability_warnings@.len() == 1
            && r.stability_warnings@[0]@ == complaint("current"@, *current),
        !unsound(*current) && unsound(*baseline) ==> r.stability_warnings@.len() == 1
            && r.stability_warnings@[0]@ == complaint("baseline"@, *baseline),
        unsound(*current) && unsound(*baseline) ==> r.stability_warnings@.len() == 2
            && r.stability_warnings@[0]@ == complaint("current"@, *current)
            && r.stability_warnings@[1]@ == complaint("baseline"@, *baseline),
{
    let warnings = text::texts(r.stability_warnings@);
    assert(warnings.len() == r.stability_warnings@.len());
    assert(r.stability_warnings@.len() == r.stability_warnings.len());
    if warnings.len() > 0 {
        assert(warnings[0] == r.stability_warnings@[0]@);
    }
    if warnings.len() > 1 {
        assert(warnings[1] == r.stability_warnings@[1]@);
    }
}

/// A match is of the case that both sides have and shows each side's own numbers:
/// the current case's as current and the baseline's as baseline.
pub proof fn matches_keep_their_sides(
    current: &NormalizedCase,
    baseline: &NormalizedCase,
    changes: &Changes,
    r: MatchedBenchmark,
)
    requires
        call_ensures(matched_benchmark, (current, baseline, changes), r),
    ensures
        r.current.primary.value == current.primary.value,
        r.baseline.primary.value == baseline.primary.value,
        r.current.primary.direction == current.primary.direction,
        r.current.statistics == current.statistics,
        r.baseline.statistics == baseline.statistics,
        r.current.validity == current.validity,
        r.baseline.validity == baseline.validity,
        r.current.provenance@ == current.provenance@,
        r.baseline.provenance@ == baseline.provenance@,
        forall|k: int|
            0 <= k < r.metric_changes@.len() ==> is_of_both(
                #[trigger] r.metric_changes@[k],
                current.metrics@,
                baseline.metrics@,
            ),
{
    let x = pairing::keys_of(current.metrics@);
    let y = pairing::keys_of(baseline.metrics@);
    let pairs = pairing::pairs_between(x, y);
    assert forall|k: int| 0 <= k < r.metric_changes@.len() implies is_of_both(
        #[trigger] r.metric_changes@[k],
        current.metrics@,
        baseline.metrics@,
    ) by {
        pairing::pairs_share_keys(x, y, k);
        let i = pairs[k].0;
        let j = pairs[k].1;
        assert(x[i] == current.metrics@[i].match_key());
        assert(y[j] == baseline.metrics@[j].match_key());
        assert(engine::metric_change_of(
            r.metric_changes@[k],
            current.metrics@[i],
            baseline.metrics@[j],
            *changes,
        ));
        assert(same_metric(current.metrics@[i], baseline.metrics@[j]));
    }
}

} // verus!
