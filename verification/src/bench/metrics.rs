//! Custom metrics over the samples of a benchmark.
use crate::bench::backend::MetricValue;
use crate::double;
use crate::double::{sort_numbers, DoubleBits};
use crate::session::{MetricSummary, SampleMetric, SampleMetricSet};
use crate::text;
use vstd::prelude::*;

verus! {

/// Two metrics are the same metric when section, name and unit agree.
pub open spec fn same_metric(a: MetricValue, b: MetricValue) -> bool {
    a.section@ == b.section@ && a.name@ == b.name@ && a.unit@ == b.unit@
}

fn is_same_metric(a: &MetricValue, b: &MetricValue) -> (r: bool)
    ensures
        r == same_metric(*a, *b),
{
    text::same(a.section, b.section) && text::same(a.name, b.name) && text::same(a.unit, b.unit)
}

/// The first place at or after `from` where the metric stands, or the length.
pub open spec fn metric_place(s: Seq<MetricValue>, m: MetricValue, from: int) -> int
    decreases s.len() - from,
{
    if from < 0 || from >= s.len() {
        s.len() as int
    } else if same_metric(s[from], m) {
        from
    } else {
        metric_place(s, m, from + 1)
    }
}

proof fn metric_place_is_first(s: Seq<MetricValue>, m: MetricValue, from: int)
    requires
        0 <= from <= s.len(),
    ensures
        from <= metric_place(s, m, from) <= s.len(),
        metric_place(s, m, from) < s.len() ==> same_metric(s[metric_place(s, m, from)], m),
        forall|i: int|
            from <= i < metric_place(s, m, from) ==> !same_metric(#[trigger] s[i], m),
    decreases s.len() - from,
{
    if from < s.len() && !same_metric(s[from], m) {
        metric_place_is_first(s, m, from + 1);
    }
}

/// One more metric of a sample: dropped where it is not a finite number, in
/// place of an earlier one of the same metric, or else at the end.
pub open spec fn kept_with(kept: Seq<MetricValue>, m: MetricValue) -> Seq<MetricValue> {
    if !m.value.finite() {
        kept
    } else {
        let at = metric_place(kept, m, 0);
        if at < kept.len() {
            kept.update(
                at,
                MetricValue {
                    value: m.value,
                    display_name: m.display_name,
                    format: m.format,
                    ..kept[at]
                },
            )
        } else {
            kept.push(m)
        }
    }
}

/// The metrics that count of one sample: the last value of each.
pub open spec fn kept_of(sample: Seq<MetricValue>) -> Seq<MetricValue>
    decreases sample.len(),
{
    if sample.len() == 0 {
        Seq::empty()
    } else {
        kept_with(kept_of(sample.drop_last()), sample.last())
    }
}

/// The metrics that count of the first `count` samples.
pub open spec fn kept_of_all(per_sample: Seq<Vec<MetricValue>>, count: int) -> Seq<MetricValue>
    decreases count,
{
    if count <= 0 {
        Seq::empty()
    } else {
        kept_of_all(per_sample, count - 1) + kept_of(per_sample[count - 1]@)
    }
}

/// A metric as it was first reported, and its values.
pub type Group = (MetricValue, Seq<DoubleBits>);

/// The metrics of a list of groups.
pub open spec fn heads(groups: Seq<Group>) -> Seq<MetricValue> {
    groups.map_values(|g: Group| g.0)
}

/// One more value in the group of its metric, or in a new group at the end.
pub open spec fn grouped_with(groups: Seq<Group>, m: MetricValue) -> Seq<Group> {
    let at = metric_place(heads(groups), m, 0);
    if at < groups.len() {
        groups.update(at, (groups[at].0, groups[at].1.push(m.value)))
    } else {
        groups.push((m, seq![m.value]))
    }
}

/// The values by metric, metrics in the order in which they were first seen.
pub open spec fn grouped(kept: Seq<MetricValue>) -> Seq<Group>
    decreases kept.len(),
{
    if kept.len() == 0 {
        Seq::empty()
    } else {
        grouped_with(grouped(kept.drop_last()), kept.last())
    }
}

/// A metric and its values in rising order.
#[derive(Debug)]
pub struct MetricGroup {
    pub head: MetricValue,
    pub values: Vec<DoubleBits>,
}

impl MetricGroup {
    pub open spec fn group(self) -> Group {
        (self.head, self.values@)
    }
}

pub open spec fn groups_of(list: Seq<MetricGroup>) -> Seq<Group> {
    list.map_values(|g: MetricGroup| g.group())
}

/// No metric stands twice.
pub open spec fn distinct_metrics(s: Seq<MetricValue>) -> bool {
    forall|i: int, j: int| 0 <= i < j < s.len() ==> !same_metric(#[trigger] s[i], #[trigger] s[j])
}

/// How many values the groups hold together.
pub open spec fn value_count(groups: Seq<Group>) -> nat
    decreases groups.len(),
{
    if groups.len() == 0 {
        0
    } else {
        value_count(groups.drop_last()) + groups.last().1.len()
    }
}

proof fn value_count_of_update(groups: Seq<Group>, at: int, g: Group)
    requires
        0 <= at < groups.len(),
    ensures
        value_count(groups.update(at, g)) + groups[at].1.len() == value_count(groups) + g.1.len(),
    decreases groups.len(),
{
    let r = groups.update(at, g);
    if at < groups.len() - 1 {
        assert(r.drop_last() =~= groups.drop_last().update(at, g));
        value_count_of_update(groups.drop_last(), at, g);
    } else {
        assert(r.drop_last() =~= groups.drop_last());
    }
}

/// Within a sample each metric counts once, and only finite values count.
pub proof fn kept_metrics_are_distinct(sample: Seq<MetricValue>)
    ensures
        distinct_metrics(kept_of(sample)),
        kept_of(sample).len() <= sample.len(),
        forall|i: int| 0 <= i < kept_of(sample).len() ==> (#[trigger] kept_of(sample)[i]).value.finite(),
    decreases sample.len(),
{
    if sample.len() > 0 {
        let front = kept_of(sample.drop_last());
        let m = sample.last();
        kept_metrics_are_distinct(sample.drop_last());
        metric_place_is_first(front, m, 0);
        let r = kept_of(sample);
        assert forall|i: int, j: int| 0 <= i < j < r.len() implies !same_metric(
            #[trigger] r[i],
            #[trigger] r[j],
        ) by {
            if i < front.len() {
                assert(same_metric(front[i], r[i]));
            }
            if j < front.len() {
                assert(same_metric(front[j], r[j]));
            }
        }
    }
}

/// Each metric has one group, and every value that counts is in a group.
pub proof fn groups_are_complete(kept: Seq<MetricValue>)
    ensures
        distinct_metrics(heads(grouped(kept))),
        value_count(grouped(kept)) == kept.len(),
        forall|i: int| 0 <= i < grouped(kept).len() ==> (#[trigger] grouped(kept)[i]).1.len() > 0,
    decreases kept.len(),
{
    if kept.len() > 0 {
        let front = grouped(kept.drop_last());
        let m = kept.last();
        groups_are_complete(kept.drop_last());
        metric_place_is_first(heads(front), m, 0);
        let at = metric_place(heads(front), m, 0);
        let r = grouped(kept);
        if at < front.len() {
            let g = (front[at].0, front[at].1.push(m.value));
            value_count_of_update(front, at, g);
            assert(heads(r) =~= heads(front));
        } else {
            assert(r.drop_last() =~= front);
            assert(heads(r) =~= heads(front).push(m));
        }
    }
}

fn place_of_metric(s: &Vec<MetricValue>, m: &MetricValue) -> (r: usize)
    ensures
        r == metric_place(s@, *m, 0),
        r <= s@.len(),
{
    proof {
        metric_place_is_first(s@, *m, 0);
    }
    let mut i: usize = 0;
    while i < s.len()
        invariant
            i <= s.len(),
            metric_place(s@, *m, 0) == metric_place(s@, *m, i as int),
        decreases s.len() - i,
    {
        if is_same_metric(&s[i], m) {
            return i;
        }
        i += 1;
    }
    i
}

fn keep_metrics(sample: &Vec<MetricValue>) -> (kept: Vec<MetricValue>)
    ensures
        kept@ == kept_of(sample@),
{
    let mut kept: Vec<MetricValue> = Vec::new();
    let mut i: usize = 0;
    while i < sample.len()
        invariant
            i <= sample.len(),
            kept@ == kept_of(sample@.take(i as int)),
        decreases sample.len() - i,
    {
        let m = sample[i];
        assert(sample@.take(i + 1).drop_last() =~= sample@.take(i as int));
        if m.value.is_finite() {
            let at: usize = place_of_metric(&kept, &m);
            if at < kept.len() {
                let earlier = kept[at];
                kept.set(
                    at,
                    MetricValue {
                        value: m.value,
                        display_name: m.display_name,
                        format: m.format,
                        ..earlier
                    },
                );
            } else {
                kept.push(m);
            }
        }
        i += 1;
    }
    assert(sample@.take(sample@.len() as int) =~= sample@);
    kept
}

fn place_of_group(groups: &Vec<MetricGroup>, m: &MetricValue) -> (r: usize)
    ensures
        r == metric_place(heads(groups_of(groups@)), *m, 0),
        r <= groups@.len(),
{
    let ghost all = heads(groups_of(groups@));
    proof {
        metric_place_is_first(all, *m, 0);
    }
    let mut i: usize = 0;
    while i < groups.len()
        invariant
            i <= groups.len(),
            all == heads(groups_of(groups@)),
            metric_place(all, *m, 0) == metric_place(all, *m, i as int),
        decreases groups.len() - i,
    {
        assert(all[i as int] == groups@[i as int].head);
        if is_same_metric(&groups[i].head, m) {
            return i;
        }
        i += 1;
    }
    i
}

fn add_to_group(groups: &mut Vec<MetricGroup>, m: MetricValue)
    ensures
        groups_of(final(groups)@) == grouped_with(groups_of(old(groups)@), m),
{
    let at: usize = place_of_group(groups, &m);
    if at < groups.len() {
        let mut values = double::clone_numbers(&groups[at].values);
        values.push(m.value);
        let head = groups[at].head;
        groups.set(at, MetricGroup { head, values });
    } else {
        let mut values: Vec<DoubleBits> = Vec::new();
        values.push(m.value);
        assert(values@ =~= seq![m.value]);
        groups.push(MetricGroup { head: m, values });
    }
    assert(groups_of(groups@) =~= grouped_with(groups_of(old(groups)@), m));
}

/// The groups with the values of each in rising order.
pub open spec fn sorted_groups(groups: Seq<Group>) -> Seq<Group> {
    groups.map_values(|g: Group| (g.0, double::ordered(g.1)))
}

/// The values of each metric over all samples.
pub open spec fn metric_groups(per_sample: Seq<Vec<MetricValue>>) -> Seq<Group> {
    sorted_groups(grouped(kept_of_all(per_sample, per_sample.len() as int)))
}

/// The values of each metric over all samples. Metrics stand in the order in
/// which they were first reported; a sample counts once for each metric, with
/// the last value that it gave; values that are not finite do not count.
pub fn aggregate_metrics(per_sample: &Vec<Vec<MetricValue>>) -> (r: Vec<MetricGroup>)
    ensures
        groups_of(r@) == metric_groups(per_sample@),
{
    let mut groups: Vec<MetricGroup> = Vec::new();
    let ghost mut taken: Seq<MetricValue> = Seq::empty();
    let mut i: usize = 0;
    assert(groups_of(groups@) =~= grouped(taken));
    while i < per_sample.len()
        invariant
            i <= per_sample.len(),
            taken == kept_of_all(per_sample@, i as int),
            groups_of(groups@) == grouped(taken),
        decreases per_sample.len() - i,
    {
        let kept = keep_metrics(&per_sample[i]);
        let ghost before = taken;
        let mut j: usize = 0;
        assert(before + kept@.take(0) =~= before);
        while j < kept.len()
            invariant
                j <= kept.len(),
                taken == before + kept@.take(j as int),
                groups_of(groups@) == grouped(taken),
            decreases kept.len() - j,
        {
            add_to_group(&mut groups, kept[j]);
            proof {
                let next = taken.push(kept@[j as int]);
                assert(next.drop_last() =~= taken);
                taken = next;
                assert(taken =~= before + kept@.take(j + 1));
            }
            j += 1;
        }
        assert(kept@.take(kept@.len() as int) =~= kept@);
        i += 1;
    }
    let ghost all = groups_of(groups@);
    let mut r: Vec<MetricGroup> = Vec::new();
    let mut k: usize = 0;
    while k < groups.len()
        invariant
            k <= groups.len(),
            all == groups_of(groups@),
            groups_of(r@) == sorted_groups(all).take(k as int),
        decreases groups.len() - k,
    {
        let values = sort_numbers(&groups[k].values);
        let ghost before = groups_of(r@);
        r.push(MetricGroup { head: groups[k].head, values });
        proof {
            assert(all[k as int] == groups@[k as int].group());
            assert(groups_of(r@) =~= before.push(sorted_groups(all)[k as int]));
            assert(groups_of(r@) =~= sorted_groups(all).take(k + 1));
        }
        k += 1;
    }
    assert(sorted_groups(all).take(all.len() as int) =~= sorted_groups(all));
    r
}

/// The metrics are the same and have the same values; how they are shown may
/// differ.
pub open spec fn alike(a: Seq<MetricValue>, b: Seq<MetricValue>) -> bool {
    &&& a.len() == b.len()
    &&& forall|i: int|
        0 <= i < a.len() ==> same_metric(#[trigger] a[i], b[i]) && a[i].value == b[i].value
}

proof fn places_agree(
    a: Seq<MetricValue>,
    b: Seq<MetricValue>,
    m: MetricValue,
    n: MetricValue,
    from: int,
)
    requires
        a.len() == b.len(),
        forall|i: int| 0 <= i < a.len() ==> same_metric(#[trigger] a[i], b[i]),
        same_metric(m, n),
        0 <= from <= a.len(),
    ensures
        metric_place(a, m, from) == metric_place(b, n, from),
    decreases a.len() - from,
{
    if from < a.len() {
        assert(same_metric(a[from], b[from]));
        places_agree(a, b, m, n, from + 1);
    }
}

proof fn kept_agree(a: Seq<MetricValue>, b: Seq<MetricValue>)
    requires
        alike(a, b),
    ensures
        alike(kept_of(a), kept_of(b)),
    decreases a.len(),
{
    if a.len() > 0 {
        assert(alike(a.drop_last(), b.drop_last()));
        kept_agree(a.drop_last(), b.drop_last());
        let x = kept_of(a.drop_last());
        let y = kept_of(b.drop_last());
        assert(same_metric(a[a.len() - 1], b[a.len() - 1]));
        places_agree(x, y, a.last(), b.last(), 0);
        metric_place_is_first(x, a.last(), 0);
    }
}

proof fn all_kept_agree(a: Seq<Vec<MetricValue>>, b: Seq<Vec<MetricValue>>, count: int)
    requires
        0 <= count <= a.len(),
        a.len() == b.len(),
        forall|i: int| 0 <= i < a.len() ==> alike(#[trigger] a[i]@, b[i]@),
    ensures
        alike(kept_of_all(a, count), kept_of_all(b, count)),
    decreases count,
{
    if count > 0 {
        all_kept_agree(a, b, count - 1);
        assert(alike(a[count - 1]@, b[count - 1]@));
        kept_agree(a[count - 1]@, b[count - 1]@);
    }
}

/// The groups are of the same metrics and hold the same values.
pub open spec fn groups_alike(a: Seq<Group>, b: Seq<Group>) -> bool {
    &&& a.len() == b.len()
    &&& forall|i: int|
        0 <= i < a.len() ==> same_metric((#[trigger] a[i]).0, b[i].0) && a[i].1 == b[i].1
}

proof fn groups_agree(a: Seq<MetricValue>, b: Seq<MetricValue>)
    requires
        alike(a, b),
    ensures
        groups_alike(grouped(a), grouped(b)),
    decreases a.len(),
{
    if a.len() > 0 {
        assert(alike(a.drop_last(), b.drop_last()));
        groups_agree(a.drop_last(), b.drop_last());
        let x = grouped(a.drop_last());
        let y = grouped(b.drop_last());
        assert(same_metric(a[a.len() - 1], b[a.len() - 1]));
        assert forall|i: int| 0 <= i < heads(x).len() implies same_metric(
            #[trigger] heads(x)[i],
            heads(y)[i],
        ) by {
            assert(same_metric(x[i].0, y[i].0));
        }
        places_agree(heads(x), heads(y), a.last(), b.last(), 0);
        metric_place_is_first(heads(x), a.last(), 0);
        let at = metric_place(heads(x), a.last(), 0);
        if at < x.len() {
            assert(same_metric(x[at].0, y[at].0));
        }
    }
}

/// How a metric is called and formatted in a table has no part in which values
/// are put together.
pub proof fn display_is_cosmetic(a: Seq<Vec<MetricValue>>, b: Seq<Vec<MetricValue>>)
    requires
        a.len() == b.len(),
        forall|i: int| 0 <= i < a.len() ==> alike(#[trigger] a[i]@, b[i]@),
    ensures
        groups_alike(metric_groups(a), metric_groups(b)),
{
    all_kept_agree(a, b, a.len() as int);
    let x = grouped(kept_of_all(a, a.len() as int));
    let y = grouped(kept_of_all(b, b.len() as int));
    groups_agree(kept_of_all(a, a.len() as int), kept_of_all(b, b.len() as int));
    assert forall|i: int| 0 <= i < metric_groups(a).len() implies same_metric(
        (#[trigger] metric_groups(a)[i]).0,
        metric_groups(b)[i].0,
    ) && metric_groups(a)[i].1 == metric_groups(b)[i].1 by {
        assert(same_metric(x[i].0, y[i].0) && x[i].1 == y[i].1);
    }
}

/// The averages of a metric, which are computed from its values.
#[derive(Clone, Copy, Debug, PartialEq, Eq, Structural)]
pub struct MetricAverages {
    pub mean: DoubleBits,
    pub median: DoubleBits,
    pub p95: DoubleBits,
}

/// The summary of a metric: its averages, its least and its largest value, and
/// how many samples reported it.
pub open spec fn summarizes(summary: MetricSummary, group: Group, averages: MetricAverages) -> bool {
    &&& summary.name@ == group.0.name@
    &&& summary.unit@ == group.0.unit@
    &&& summary.section@ == group.0.section@
    &&& summary.display_name@ == group.0.display_name@
    &&& summary.format == group.0.format
    &&& summary.mean == averages.mean
    &&& summary.median == averages.median
    &&& summary.p95 == averages.p95
    &&& summary.min.bits == if group.1.len() > 0 {
        group.1[0].bits
    } else {
        0
    }
    &&& summary.max.bits == if group.1.len() > 0 {
        group.1.last().bits
    } else {
        0
    }
    &&& summary.samples == group.1.len()
}

/// The summaries of the metrics of all samples, given their averages.
pub open spec fn summarize_all(
    summaries: Seq<MetricSummary>,
    per_sample: Seq<Vec<MetricValue>>,
    averages: Seq<MetricAverages>,
) -> bool {
    &&& summaries.len() == metric_groups(per_sample).len()
    &&& forall|i: int|
        0 <= i < summaries.len() ==> summarizes(
            #[trigger] summaries[i],
            metric_groups(per_sample)[i],
            averages[i],
        )
}

pub fn summarize_metrics(per_sample: &Vec<Vec<MetricValue>>, averages: &Vec<MetricAverages>) -> (r:
    Vec<MetricSummary>)
    requires
        averages@.len() == metric_groups(per_sample@).len(),
    ensures
        summarize_all(r@, per_sample@, averages@),
{
    let groups = aggregate_metrics(per_sample);
    let mut r: Vec<MetricSummary> = Vec::new();
    let mut i: usize = 0;
    while i < groups.len()
        invariant
            i <= groups.len(),
            groups_of(groups@) == metric_groups(per_sample@),
            averages@.len() == groups@.len(),
            r@.len() == i,
            forall|j: int|
                0 <= j < i ==> summarizes(
                    #[trigger] r@[j],
                    metric_groups(per_sample@)[j],
                    averages@[j],
                ),
        decreases groups.len() - i,
    {
        assert(groups_of(groups@)[i as int] == groups@[i as int].group());
        r.push(summarize_metric(&groups[i], averages[i]));
        i += 1;
    }
    r
}

pub fn summarize_metric(group: &MetricGroup, averages: MetricAverages) -> (r: MetricSummary)
    ensures
        summarizes(r, group.group(), averages),
{
    let count: usize = group.values.len();
    let (min, max) = if count > 0 {
        (group.values[0], group.values[count - 1])
    } else {
        (DoubleBits { bits: 0 }, DoubleBits { bits: 0 })
    };
    MetricSummary {
        name: group.head.name.to_owned(),
        unit: group.head.unit.to_owned(),
        section: group.head.section.to_owned(),
        display_name: group.head.display_name.to_owned(),
        format: group.head.format,
        mean: averages.mean,
        median: averages.median,
        p95: averages.p95,
        min,
        max,
        samples: count,
    }
}

/// A metric as a sample reported it.
pub open spec fn reported_as(s: SampleMetric, m: MetricValue) -> bool {
    s.name@ == m.name@ && s.value == m.value && s.unit@ == m.unit@ && s.section@ == m.section@
}

fn report_metrics(metrics: &Vec<MetricValue>) -> (r: Vec<SampleMetric>)
    ensures
        r@.len() == metrics@.len(),
        forall|i: int| 0 <= i < r@.len() ==> reported_as(#[trigger] r@[i], metrics@[i]),
{
    let mut r: Vec<SampleMetric> = Vec::new();
    let mut i: usize = 0;
    while i < metrics.len()
        invariant
            i <= metrics.len(),
            r@.len() == i,
            forall|j: int| 0 <= j < i ==> reported_as(#[trigger] r@[j], metrics@[j]),
        decreases metrics.len() - i,
    {
        let m = &metrics[i];
        r.push(
            SampleMetric {
                name: m.name.to_owned(),
                value: m.value,
                unit: m.unit.to_owned(),
                section: m.section.to_owned(),
            },
        );
        i += 1;
    }
    r
}

/// How many of the first `count` samples reported a metric.
pub open spec fn reporting(per_sample: Seq<Vec<MetricValue>>, count: int) -> nat
    decreases count,
{
    if count <= 0 {
        0
    } else {
        reporting(per_sample, count - 1) + if per_sample[count - 1]@.len() > 0 {
            1nat
        } else {
            0
        }
    }
}

/// The sets stand for the samples that reported something, in order, each
/// with its index and all that it reported.
pub open spec fn are_sample_sets(
    sets: Seq<SampleMetricSet>,
    per_sample: Seq<Vec<MetricValue>>,
    count: int,
) -> bool {
    &&& sets.len() == reporting(per_sample, count)
    &&& forall|i: int|
        0 <= i < count && per_sample[i]@.len() > 0 ==> {
            let set = #[trigger] sets[reporting(per_sample, i) as int];
            &&& set.sample_index == i
            &&& set.metrics@.len() == per_sample[i]@.len()
            &&& forall|j: int|
                0 <= j < set.metrics@.len() ==> reported_as(
                    #[trigger] set.metrics@[j],
                    per_sample[i]@[j],
                )
        }
}

proof fn reporting_grows(per_sample: Seq<Vec<MetricValue>>, a: int, b: int)
    requires
        0 <= a <= b,
    ensures
        reporting(per_sample, a) <= reporting(per_sample, b),
    decreases b,
{
    if a < b {
        reporting_grows(per_sample, a, b - 1);
    }
}

/// What each sample reported, for the samples that reported something.
pub fn sample_metric_sets(per_sample: &Vec<Vec<MetricValue>>) -> (sets: Vec<SampleMetricSet>)
    ensures
        are_sample_sets(sets@, per_sample@, per_sample@.len() as int),
{
    let mut sets: Vec<SampleMetricSet> = Vec::new();
    let mut i: usize = 0;
    while i < per_sample.len()
        invariant
            i <= per_sample.len(),
            are_sample_sets(sets@, per_sample@, i as int),
        decreases per_sample.len() - i,
    {
        let ghost before = sets@;
        if per_sample[i].len() > 0 {
            let metrics = report_metrics(&per_sample[i]);
            sets.push(SampleMetricSet { sample_index: i, metrics });
        }
        proof {
            assert forall|k: int| 0 <= k < i + 1 && per_sample@[k]@.len() > 0 implies ({
                let set = #[trigger] sets@[reporting(per_sample@, k) as int];
                &&& set.sample_index == k
                &&& set.metrics@.len() == per_sample@[k]@.len()
                &&& forall|j: int|
                    0 <= j < set.metrics@.len() ==> reported_as(
                        #[trigger] set.metrics@[j],
                        per_sample@[k]@[j],
                    )
            }) by {
                if k < i {
                    reporting_grows(per_sample@, k + 1, i as int);
                    assert(sets@[reporting(per_sample@, k) as int] == before[reporting(
                        per_sample@,
                        k,
                    ) as int]);
                }
            }
        }
        i += 1;
    }
    sets
}

} // verus!
