//! How the metrics of many samples become one summary of each.
use crate::bench::backend::MetricValue;
use crate::bench::metrics;
use crate::bench::metrics::{
    aggregate_metrics, sample_metric_sets, summarize_metric, MetricAverages, MetricGroup,
};
use crate::double;
use crate::double::DoubleBits;
use crate::session::{MetricSummary, SampleMetricSet};
use vstd::prelude::*;

verus! {

/// Two values of one metric: they share section, name and unit.
pub open spec fn alike(a: MetricValue, b: MetricValue) -> bool {
    a.section@ == b.section@ && a.name@ == b.name@ && a.unit@ == b.unit@
}

/// Whether a value is a finite number.
pub open spec fn usable(value: DoubleBits) -> bool {
    value.bits < 0x7ff0_0000_0000_0000 || 0x8000_0000_0000_0000 <= value.bits
        < 0xfff0_0000_0000_0000
}

/// What a sample reports of a metric: its last finite value.
pub open spec fn reported(sample: Seq<MetricValue>, metric: MetricValue) -> Option<DoubleBits>
    decreases sample.len(),
{
    if sample.len() == 0 {
        None
    } else if alike(sample.last(), metric) && usable(sample.last().value) {
        Some(sample.last().value)
    } else {
        reported(sample.drop_last(), metric)
    }
}

/// What the first samples report of a metric, one value of each that reports it.
pub open spec fn all_reported(
    samples: Seq<Vec<MetricValue>>,
    metric: MetricValue,
    count: int,
) -> Seq<DoubleBits>
    decreases count,
{
    if count <= 0 {
        Seq::empty()
    } else {
        let before = all_reported(samples, metric, count - 1);
        match reported(samples[count - 1]@, metric) {
            Some(value) => before.push(value),
            None => before,
        }
    }
}

spec fn values_of(kept: Seq<MetricValue>, metric: MetricValue) -> Seq<DoubleBits>
    decreases kept.len(),
{
    if kept.len() == 0 {
        Seq::empty()
    } else if alike(kept.last(), metric) {
        values_of(kept.drop_last(), metric).push(kept.last().value)
    } else {
        values_of(kept.drop_last(), metric)
    }
}

proof fn no_values_without_the_metric(kept: Seq<MetricValue>, metric: MetricValue)
    requires
        forall|i: int| 0 <= i < kept.len() ==> !alike(#[trigger] kept[i], metric),
    ensures
        values_of(kept, metric).len() == 0,
    decreases kept.len(),
{
    if kept.len() > 0 {
        let front = kept.drop_last();
        assert forall|i: int| 0 <= i < front.len() implies !alike(#[trigger] front[i], metric) by {
            assert(front[i] == kept[i]);
        }
        no_values_without_the_metric(front, metric);
        assert(!alike(kept[kept.len() - 1], metric));
    }
}

proof fn one_place_gives_one_value(kept: Seq<MetricValue>, at: int, metric: MetricValue)
    requires
        0 <= at < kept.len(),
        alike(kept[at], metric),
        forall|i: int| 0 <= i < kept.len() && i != at ==> !alike(#[trigger] kept[i], metric),
    ensures
        values_of(kept, metric) == seq![kept[at].value],
    decreases kept.len(),
{
    let front = kept.drop_last();
    let last = kept.len() - 1;
    if at == last {
        assert forall|i: int| 0 <= i < front.len() implies !alike(#[trigger] front[i], metric) by {
            assert(front[i] == kept[i]);
        }
        no_values_without_the_metric(front, metric);
        assert(values_of(kept, metric) =~= seq![kept[at].value]);
    } else {
        assert forall|i: int| 0 <= i < front.len() && i != at implies !alike(
            #[trigger] front[i],
            metric,
        ) by {
            assert(front[i] == kept[i]);
        }
        assert(!alike(kept[last], metric));
        one_place_gives_one_value(front, at, metric);
    }
}

proof fn other_metrics_are_not_touched(
    kept: Seq<MetricValue>,
    at: int,
    value: MetricValue,
    metric: MetricValue,
)
    requires
        0 <= at < kept.len(),
        alike(kept[at], value),
        !alike(value, metric),
    ensures
        values_of(kept.update(at, value), metric) == values_of(kept, metric),
    decreases kept.len(),
{
    let changed = kept.update(at, value);
    if at == kept.len() - 1 {
        assert(changed.drop_last() =~= kept.drop_last());
    } else {
        other_metrics_are_not_touched(kept.drop_last(), at, value, metric);
        assert(changed.drop_last() =~= kept.drop_last().update(at, value));
        assert(changed.last() == kept.last());
    }
}

proof fn places_are_found(s: Seq<MetricValue>, m: MetricValue, from: int)
    requires
        0 <= from <= s.len(),
    ensures
        from <= metrics::metric_place(s, m, from) <= s.len(),
        metrics::metric_place(s, m, from) < s.len() ==> alike(
            s[metrics::metric_place(s, m, from)],
            m,
        ),
        forall|i: int|
            from <= i < metrics::metric_place(s, m, from) ==> !alike(#[trigger] s[i], m),
    decreases s.len() - from,
{
    if from < s.len() && !alike(s[from], m) {
        places_are_found(s, m, from + 1);
    }
}

proof fn samples_keep_their_last_values(sample: Seq<MetricValue>, metric: MetricValue)
    ensures
        values_of(metrics::kept_of(sample), metric) == (match reported(sample, metric) {
            Some(value) => seq![value],
            None => Seq::empty(),
        }),
    decreases sample.len(),
{
    if sample.len() > 0 {
        let x = sample.last();
        let front = sample.drop_last();
        let kept = metrics::kept_of(front);
        samples_keep_their_last_values(front, metric);
        metrics::kept_metrics_are_distinct(front);
        assert(x.value.finite() == usable(x.value));
        if usable(x.value) {
            places_are_found(kept, x, 0);
            let at = metrics::metric_place(kept, x, 0);
            if at < kept.len() {
                let y = MetricValue {
                    value: x.value,
                    display_name: x.display_name,
                    format: x.format,
                    ..kept[at]
                };
                let changed = kept.update(at, y);
                if alike(x, metric) {
                    assert forall|i: int| 0 <= i < changed.len() && i != at implies !alike(
                        #[trigger] changed[i],
                        metric,
                    ) by {
                        assert(changed[i] == kept[i]);
                        if i < at {
                            assert(!metrics::same_metric(kept[i], kept[at]));
                        } else {
                            assert(!metrics::same_metric(kept[at], kept[i]));
                        }
                    }
                    one_place_gives_one_value(changed, at, metric);
                } else {
                    other_metrics_are_not_touched(kept, at, y, metric);
                }
            } else {
                let pushed = kept.push(x);
                assert(pushed.drop_last() =~= kept);
                if alike(x, metric) {
                    assert forall|i: int| 0 <= i < kept.len() implies !alike(
                        #[trigger] kept[i],
                        metric,
                    ) by {
                        assert(!alike(kept[i], x));
                    }
                    no_values_without_the_metric(kept, metric);
                    assert(values_of(pushed, metric) =~= seq![x.value]);
                }
            }
        }
    }
}

proof fn values_are_appended(a: Seq<MetricValue>, b: Seq<MetricValue>, metric: MetricValue)
    ensures
        values_of(a + b, metric) == values_of(a, metric) + values_of(b, metric),
    decreases b.len(),
{
    if b.len() == 0 {
        assert(a + b =~= a);
        assert(values_of(a, metric) + values_of(b, metric) =~= values_of(a, metric));
    } else {
        values_are_appended(a, b.drop_last(), metric);
        assert((a + b).drop_last() =~= a + b.drop_last());
        assert((a + b).last() == b.last());
        assert(values_of(a + b, metric) =~= values_of(a, metric) + values_of(b, metric));
    }
}

proof fn all_samples_keep_their_last_values(
    samples: Seq<Vec<MetricValue>>,
    metric: MetricValue,
    count: int,
)
    ensures
        values_of(metrics::kept_of_all(samples, count), metric) == all_reported(
            samples,
            metric,
            count,
        ),
    decreases count,
{
    if count > 0 {
        all_samples_keep_their_last_values(samples, metric, count - 1);
        samples_keep_their_last_values(samples[count - 1]@, metric);
        values_are_appended(
            metrics::kept_of_all(samples, count - 1),
            metrics::kept_of(samples[count - 1]@),
            metric,
        );
        assert(values_of(metrics::kept_of_all(samples, count), metric) =~= all_reported(
            samples,
            metric,
            count,
        ));
    }
}

proof fn groups_hold_their_values(kept: Seq<MetricValue>)
    ensures
        forall|i: int|
            0 <= i < metrics::grouped(kept).len() ==> (#[trigger] metrics::grouped(kept)[i]).1
                == values_of(kept, metrics::grouped(kept)[i].0),
        forall|m: MetricValue|
            (forall|i: int|
                0 <= i < metrics::grouped(kept).len() ==> !alike(
                    (#[trigger] metrics::grouped(kept)[i]).0,
                    m,
                )) ==> (#[trigger] values_of(kept, m)).len() == 0,
    decreases kept.len(),
{
    if kept.len() > 0 {
        let front = kept.drop_last();
        let x = kept.last();
        groups_hold_their_values(front);
        metrics::groups_are_complete(front);
        let groups = metrics::grouped(front);
        let whole = metrics::grouped(kept);
        let heads = metrics::heads(groups);
        places_are_found(heads, x, 0);
        let at = metrics::metric_place(heads, x, 0);
        assert forall|i: int| 0 <= i < whole.len() implies (#[trigger] whole[i]).1 == values_of(
            kept,
            whole[i].0,
        ) by {
            if at < groups.len() {
                assert(heads[at] == groups[at].0);
                if i == at {
                    assert(groups[at].1 == values_of(front, groups[at].0));
                } else {
                    assert(whole[i] == groups[i]);
                    assert(groups[i].1 == values_of(front, groups[i].0));
                    assert(heads[i] == groups[i].0);
                    if i < at {
                        assert(!metrics::same_metric(heads[i], heads[at]));
                    } else {
                        assert(!metrics::same_metric(heads[at], heads[i]));
                    }
                }
            } else if i < groups.len() {
                assert(whole[i] == groups[i]);
                assert(groups[i].1 == values_of(front, groups[i].0));
                assert(heads[i] == groups[i].0);
                assert(!alike(heads[i], x));
            } else {
                assert forall|k: int| 0 <= k < groups.len() implies !alike(
                    (#[trigger] groups[k]).0,
                    x,
                ) by {
                    assert(heads[k] == groups[k].0);
                }
                assert(values_of(front, x).len() == 0);
                assert(whole[i].1 =~= values_of(kept, x));
            }
        }
        assert forall|m: MetricValue|
            (forall|i: int| 0 <= i < whole.len() ==> !alike((#[trigger] whole[i]).0, m)) implies (
        #[trigger] values_of(kept, m)).len() == 0 by {
            assert forall|i: int| 0 <= i < groups.len() implies !alike((#[trigger] groups[i]).0, m) by {
                assert(whole[i].0 == groups[i].0);
            }
            assert(values_of(front, m).len() == 0);
            if at < groups.len() {
                assert(heads[at] == groups[at].0);
                assert(!alike(whole[at].0, m));
            } else {
                assert(!alike(whole[groups.len() as int].0, m));
            }
        }
    }
}

proof fn reported_values_are_usable(samples: Seq<Vec<MetricValue>>, metric: MetricValue, count: int)
    ensures
        forall|k: int|
            0 <= k < all_reported(samples, metric, count).len() ==> usable(
                #[trigger] all_reported(samples, metric, count)[k],
            ),
    decreases count,
{
    if count > 0 {
        reported_values_are_usable(samples, metric, count - 1);
        one_report_is_usable(samples[count - 1]@, metric);
        let before = all_reported(samples, metric, count - 1);
        let whole = all_reported(samples, metric, count);
        assert forall|k: int| 0 <= k < whole.len() implies usable(#[trigger] whole[k]) by {
            if k < before.len() {
                assert(usable(before[k]));
            }
        }
    }
}

proof fn one_report_is_usable(sample: Seq<MetricValue>, metric: MetricValue)
    ensures
        reported(sample, metric) matches Some(value) ==> usable(value),
    decreases sample.len(),
{
    if sample.len() > 0 {
        one_report_is_usable(sample.drop_last(), metric);
    }
}

proof fn sorted_values_are_usable(
    values: Seq<DoubleBits>,
    samples: Seq<Vec<MetricValue>>,
    metric: MetricValue,
    count: int,
    k: int,
)
    requires
        values.to_multiset() == all_reported(samples, metric, count).to_multiset(),
        0 <= k < values.len(),
    ensures
        usable(values[k]),
{
    let all = all_reported(samples, metric, count);
    reported_values_are_usable(samples, metric, count);
    vstd::seq_lib::to_multiset_contains(values, values[k]);
    vstd::seq_lib::to_multiset_contains(all, values[k]);
    assert(values.contains(values[k]));
    let i = choose|i: int| 0 <= i < all.len() && all[i] == values[k];
    assert(usable(all[i]));
}

/// Whether some group is that of a metric.
pub open spec fn has_group(groups: Seq<MetricGroup>, metric: MetricValue) -> bool {
    exists|i: int| 0 <= i < groups.len() && alike((#[trigger] groups[i]).head, metric)
}

/// Every metric that a sample reports has one group, with one value of each
/// sample that reports it, the last finite one, and its values in order.
pub proof fn groups_hold_one_value_of_each_sample(
    samples: Vec<Vec<MetricValue>>,
    r: Vec<MetricGroup>,
    metric: MetricValue,
)
    requires
        call_ensures(aggregate_metrics, (&samples,), r),
    ensures
        forall|i: int, j: int|
            0 <= i < j < r@.len() ==> !alike((#[trigger] r@[i]).head, (#[trigger] r@[j]).head),
        all_reported(samples@, metric, samples@.len() as int).len() > 0 ==> has_group(r@, metric),
        forall|i: int|
            #![trigger r@[i]]
            0 <= i < r@.len() ==> {
                &&& r@[i].values@.len() > 0
                &&& r@[i].values@.to_multiset() == all_reported(
                    samples@,
                    r@[i].head,
                    samples@.len() as int,
                ).to_multiset()
                &&& forall|k: int, m: int|
                    0 <= k < m < r@[i].values@.len() ==> (#[trigger] r@[i].values@[k]).at_most(
                        #[trigger] r@[i].values@[m],
                    )
            },
{
    let kept = metrics::kept_of_all(samples@, samples@.len() as int);
    let groups = metrics::grouped(kept);
    let sorted = metrics::sorted_groups(groups);
    assert(metrics::groups_of(r@) == sorted);
    groups_hold_their_values(kept);
    metrics::groups_are_complete(kept);
    assert(sorted.len() == groups.len());
    assert forall|i: int| 0 <= i < r@.len() implies (#[trigger] r@[i]).head == groups[i].0
        && r@[i].values@ == double::ordered(groups[i].1) by {
        assert(metrics::groups_of(r@)[i] == sorted[i]);
    }
    assert forall|i: int, j: int| 0 <= i < j < r@.len() implies !alike(
        (#[trigger] r@[i]).head,
        (#[trigger] r@[j]).head,
    ) by {
        let heads = metrics::heads(groups);
        assert(heads[i] == groups[i].0 && heads[j] == groups[j].0);
        assert(!metrics::same_metric(heads[i], heads[j]));
    }
    all_samples_keep_their_last_values(samples@, metric, samples@.len() as int);
    if !has_group(r@, metric) {
        assert forall|i: int| 0 <= i < groups.len() implies !alike((#[trigger] groups[i]).0, metric) by {
            assert(r@[i].head == groups[i].0);
        }
        assert(values_of(kept, metric).len() == 0);
    }
    assert forall|i: int|
        #![trigger r@[i]]
        0 <= i < r@.len() implies {
        &&& r@[i].values@.len() > 0
        &&& r@[i].values@.to_multiset() == all_reported(
            samples@,
            r@[i].head,
            samples@.len() as int,
        ).to_multiset()
        &&& forall|k: int, m: int|
            0 <= k < m < r@[i].values@.len() ==> (#[trigger] r@[i].values@[k]).at_most(
                #[trigger] r@[i].values@[m],
            )
    } by {
        let count = samples@.len() as int;
        let head = r@[i].head;
        let values = r@[i].values@;
        all_samples_keep_their_last_values(samples@, head, count);
        assert(groups[i].1 == values_of(kept, groups[i].0));
        double::ordered_is_sorted(groups[i].1);
        assert forall|k: int, m: int| 0 <= k < m < values.len() implies (
        #[trigger] values[k]).at_most(#[trigger] values[m]) by {
            sorted_values_are_usable(values, samples@, head, count, k);
            sorted_values_are_usable(values, samples@, head, count, m);
        }
    }
}

/// A summary tells of the group's metric: its name, its unit, the averages given,
/// and the ends and the number of its values.
pub proof fn summaries_tell_of_their_group(
    group: MetricGroup,
    averages: MetricAverages,
    r: MetricSummary,
)
    requires
        call_ensures(summarize_metric, (&group, averages), r),
    ensures
        r.name@ == group.head.name@,
        r.unit@ == group.head.unit@,
        r.section@ == group.head.section@,
        r.display_name@ == group.head.display_name@,
        r.format == group.head.format,
        r.mean == averages.mean,
        r.median == averages.median,
        r.p95 == averages.p95,
        r.samples == group.values@.len(),
        group.values@.len() > 0 ==> r.min == group.values@[0] && r.max == group.values@.last(),
{
}

/// Whether a set of metrics is what a sample reported.
pub open spec fn set_of(set: SampleMetricSet, samples: Seq<Vec<MetricValue>>, i: int) -> bool {
    &&& set.sample_index == i
    &&& set.metrics@.len() == samples[i]@.len()
    &&& forall|j: int|
        0 <= j < set.metrics@.len() ==> {
            &&& (#[trigger] set.metrics@[j]).name@ == samples[i]@[j].name@
            &&& set.metrics@[j].value == samples[i]@[j].value
            &&& set.metrics@[j].unit@ == samples[i]@[j].unit@
            &&& set.metrics@[j].section@ == samples[i]@[j].section@
        }
}

proof fn reporting_counts(samples: Seq<Vec<MetricValue>>, count: int)
    requires
        0 <= count <= samples.len(),
    ensures
        metrics::reporting(samples, count) == samples.take(count).filter(
            |s: Vec<MetricValue>| s@.len() > 0,
        ).len(),
        forall|i: int|
            0 <= i < count && samples[i]@.len() > 0 ==> (#[trigger] metrics::reporting(samples, i))
                < metrics::reporting(samples, count),
        forall|i: int| 0 <= i <= count ==> (#[trigger] metrics::reporting(samples, i))
            <= metrics::reporting(samples, count),
    decreases count,
{
    reveal(Seq::filter);
    if count > 0 {
        reporting_counts(samples, count - 1);
        assert(samples.take(count).drop_last() =~= samples.take(count - 1));
        assert(samples.take(count).last() == samples[count - 1]);
        assert forall|i: int| 0 <= i <= count implies (#[trigger] metrics::reporting(samples, i))
            <= metrics::reporting(samples, count) by {
            if i < count {
                assert(metrics::reporting(samples, i) <= metrics::reporting(samples, count - 1));
            }
        }
        assert forall|i: int| 0 <= i < count && samples[i]@.len() > 0 implies (
        #[trigger] metrics::reporting(samples, i)) < metrics::reporting(samples, count) by {
            if i < count - 1 {
                assert(metrics::reporting(samples, i) < metrics::reporting(samples, count - 1));
            }
        }
    } else {
        assert(samples.take(0) =~= Seq::<Vec<MetricValue>>::empty());
    }
}

/// Whether some set is what a sample reported.
pub open spec fn has_set(sets: Seq<SampleMetricSet>, samples: Seq<Vec<MetricValue>>, i: int) -> bool {
    exists|k: int| 0 <= k < sets.len() && set_of(#[trigger] sets[k], samples, i)
}

/// Every sample that reports metrics has a set of them, under its own number, and
/// there are no other sets.
pub proof fn sets_keep_what_samples_report(
    samples: Vec<Vec<MetricValue>>,
    sets: Vec<SampleMetricSet>,
)
    requires
        call_ensures(sample_metric_sets, (&samples,), sets),
    ensures
        sets@.len() == samples@.filter(|s: Vec<MetricValue>| s@.len() > 0).len(),
        forall|i: int|
            0 <= i < samples@.len() && (#[trigger] samples@[i])@.len() > 0 ==> has_set(
                sets@,
                samples@,
                i,
            ),
{
    let count = samples@.len() as int;
    reporting_counts(samples@, count);
    assert(samples@.take(count) =~= samples@);
    assert forall|i: int| 0 <= i < samples@.len() && (#[trigger] samples@[i])@.len() > 0 implies has_set(
        sets@,
        samples@,
        i,
    ) by {
        let k = metrics::reporting(samples@, i) as int;
        assert(metrics::reporting(samples@, i) < metrics::reporting(samples@, count));
        let set = sets@[k];
        assert forall|j: int| 0 <= j < set.metrics@.len() implies {
            &&& (#[trigger] set.metrics@[j]).name@ == samples@[i]@[j].name@
            &&& set.metrics@[j].value == samples@[i]@[j].value
            &&& set.metrics@[j].unit@ == samples@[i]@[j].unit@
            &&& set.metrics@[j].section@ == samples@[i]@[j].section@
        } by {
            assert(metrics::reported_as(set.metrics@[j], samples@[i]@[j]));
        }
        assert(set_of(sets@[k], samples@, i));
    }
}

} // verus!
