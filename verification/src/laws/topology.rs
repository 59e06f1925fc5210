//! Which logical processors share a core, and which cores are the fast ones.
use crate::laws::texts;
use crate::parse;
use crate::text;
use crate::threading;
use crate::threading::{
    detect_performance_cores, logical_processor_id, physical_cores,
    select_performance_cores_by_metric, CoreMetric, DetectionResult, LogicalProcessor,
    PerformanceCoreSelection, PhysicalCoreMetrics,
};
use vstd::prelude::*;

verus! {

/// The package of a processor, the first where none is known.
pub open spec fn package_number(p: LogicalProcessor) -> int {
    match p.package_id {
        Some(id) => id as int,
        None => 0,
    }
}

/// The core of a processor in its package, itself where none is known.
pub open spec fn core_number(p: LogicalProcessor) -> int {
    match p.core_id {
        Some(id) => id as int,
        None => p.id as int,
    }
}

/// Whether two processors share a core.
pub open spec fn share_a_core(a: LogicalProcessor, b: LogicalProcessor) -> bool {
    package_number(a) == package_number(b) && core_number(a) == core_number(b)
}

/// The processors that share a core with one, in their order.
pub open spec fn siblings(list: Seq<LogicalProcessor>, p: LogicalProcessor) -> Seq<LogicalProcessor> {
    list.filter(|q: LogicalProcessor| share_a_core(q, p))
}

/// Whether a number is the largest known among processors: one of them has it,
/// none has a larger one; unknown where none has one.
pub open spec fn is_largest_of(
    value: Option<u32>,
    list: Seq<LogicalProcessor>,
    what: spec_fn(LogicalProcessor) -> Option<u32>,
) -> bool {
    match value {
        Some(v) => {
            &&& exists|i: int| 0 <= i < list.len() && what(#[trigger] list[i]) == Some(v)
            &&& forall|i: int|
                0 <= i < list.len() ==> (what(#[trigger] list[i]) matches Some(w) ==> w <= v)
        },
        None => forall|i: int| 0 <= i < list.len() ==> what(#[trigger] list[i]) is None,
    }
}

/// Whether a core is that of a processor: it lists the processors that share it,
/// with the largest capacity and frequency among them.
pub open spec fn is_core_of(
    found: PhysicalCoreMetrics,
    list: Seq<LogicalProcessor>,
    p: LogicalProcessor,
) -> bool {
    &&& found.logical_processor_ids@ == siblings(list, p).map_values(|q: LogicalProcessor| q.id)
    &&& is_largest_of(found.capacity, siblings(list, p), |q: LogicalProcessor| q.capacity)
    &&& is_largest_of(found.max_freq_khz, siblings(list, p), |q: LogicalProcessor| q.max_freq_khz)
}

proof fn sharing_is_keys(a: LogicalProcessor, b: LogicalProcessor)
    ensures
        share_a_core(a, b) == (a.key() == b.key()),
{
}

proof fn ids_are_those_of_siblings(list: Seq<LogicalProcessor>, p: LogicalProcessor)
    ensures
        threading::ids_of(list, p.key()) == siblings(list, p).map_values(
            |q: LogicalProcessor| q.id,
        ),
    decreases list.len(),
{
    reveal(Seq::filter);
    if list.len() > 0 {
        let front = list.drop_last();
        ids_are_those_of_siblings(front, p);
        sharing_is_keys(list.last(), p);
        assert(threading::ids_of(list, p.key()) =~= siblings(list, p).map_values(
            |q: LogicalProcessor| q.id,
        ));
    } else {
        assert(siblings(list, p).map_values(|q: LogicalProcessor| q.id) =~= Seq::<usize>::empty());
    }
}

proof fn largest_grows(
    before: Option<u32>,
    list: Seq<LogicalProcessor>,
    next: LogicalProcessor,
    what: spec_fn(LogicalProcessor) -> Option<u32>,
)
    requires
        is_largest_of(before, list, what),
    ensures
        is_largest_of(threading::larger(before, what(next)), list.push(next), what),
{
    let whole = list.push(next);
    let value = threading::larger(before, what(next));
    assert(whole[list.len() as int] == next);
    if let Some(v) = value {
        if before == Some(v) {
            let i = choose|i: int| 0 <= i < list.len() && what(#[trigger] list[i]) == Some(v);
            assert(whole[i] == list[i]);
        }
        assert forall|i: int| 0 <= i < whole.len() implies (what(#[trigger] whole[i]) matches Some(
            w,
        ) ==> w <= v) by {
            if i < list.len() {
                assert(whole[i] == list[i]);
            }
        }
    } else {
        assert forall|i: int| 0 <= i < whole.len() implies what(#[trigger] whole[i]) is None by {
            if i < list.len() {
                assert(whole[i] == list[i]);
            }
        }
    }
}

proof fn figures_are_largest(list: Seq<LogicalProcessor>, p: LogicalProcessor)
    ensures
        is_largest_of(
            threading::capacity_of(list, p.key()),
            siblings(list, p),
            |q: LogicalProcessor| q.capacity,
        ),
        is_largest_of(
            threading::frequency_of(list, p.key()),
            siblings(list, p),
            |q: LogicalProcessor| q.max_freq_khz,
        ),
    decreases list.len(),
{
    reveal(Seq::filter);
    if list.len() > 0 {
        let front = list.drop_last();
        figures_are_largest(front, p);
        sharing_is_keys(list.last(), p);
        if share_a_core(list.last(), p) {
            assert(siblings(list, p) =~= siblings(front, p).push(list.last()));
            largest_grows(
                threading::capacity_of(front, p.key()),
                siblings(front, p),
                list.last(),
                |q: LogicalProcessor| q.capacity,
            );
            largest_grows(
                threading::frequency_of(front, p.key()),
                siblings(front, p),
                list.last(),
                |q: LogicalProcessor| q.max_freq_khz,
            );
        } else {
            assert(siblings(list, p) =~= siblings(front, p));
        }
    }
}

proof fn keys_are_those_of_processors(list: Seq<LogicalProcessor>)
    ensures
        forall|k: int|
            0 <= k < threading::core_keys(list).len() ==> has_key(
                list,
                #[trigger] threading::core_keys(list)[k],
            ),
        forall|i: int|
            0 <= i < list.len() ==> threading::core_keys(list).contains(#[trigger] list[i].key()),
        forall|k: int, m: int|
            0 <= k < m < threading::core_keys(list).len() ==> (#[trigger] threading::core_keys(
                list,
            )[k]) != (#[trigger] threading::core_keys(list)[m]),
    decreases list.len(),
{
    if list.len() > 0 {
        let front = list.drop_last();
        keys_are_those_of_processors(front);
        let before = threading::core_keys(front);
        let whole = threading::core_keys(list);
        let last = list.last();
        assert forall|k: int| 0 <= k < whole.len() implies has_key(list, #[trigger] whole[k]) by {
            if k < before.len() {
                assert(has_key(front, before[k]));
                let i = choose|i: int| 0 <= i < front.len() && (#[trigger] front[i]).key() == before[k];
                assert(list[i].key() == whole[k]);
            } else {
                assert(list[list.len() - 1].key() == whole[k]);
            }
        }
        assert forall|i: int| 0 <= i < list.len() implies whole.contains(#[trigger] list[i].key()) by {
            if i < front.len() {
                assert(front[i] == list[i]);
                assert(before.contains(front[i].key()));
                let k = choose|k: int| 0 <= k < before.len() && before[k] == front[i].key();
                assert(whole[k] == before[k]);
            } else if !before.contains(last.key()) {
                assert(whole[before.len() as int] == last.key());
            }
        }
        assert forall|k: int, m: int| 0 <= k < m < whole.len() implies (#[trigger] whole[k]) != (
        #[trigger] whole[m]) by {
            assert(whole[k] == before[k]);
            if m < before.len() {
                assert(whole[m] == before[m]);
            } else {
                assert(before.contains(before[k]));
            }
        }
    }
}

spec fn has_key(list: Seq<LogicalProcessor>, key: (nat, nat)) -> bool {
    exists|i: int| 0 <= i < list.len() && (#[trigger] list[i]).key() == key
}

/// Whether some core is that of a processor.
pub open spec fn has_core(
    cores: Seq<PhysicalCoreMetrics>,
    list: Seq<LogicalProcessor>,
    p: LogicalProcessor,
) -> bool {
    exists|k: int| 0 <= k < cores.len() && is_core_of(#[trigger] cores[k], list, p)
}

/// Whether a core is that of some processor.
pub open spec fn has_processor(list: Seq<LogicalProcessor>, found: PhysicalCoreMetrics) -> bool {
    exists|i: int| 0 <= i < list.len() && is_core_of(found, list, #[trigger] list[i])
}

/// Processors of one package and core make up one physical core. Every processor
/// has its core, and every core its processors.
pub proof fn cores_gather_their_processors(
    list: Vec<LogicalProcessor>,
    cores: Vec<PhysicalCoreMetrics>,
)
    requires
        call_ensures(physical_cores, (&list,), cores),
    ensures
        forall|i: int| 0 <= i < list@.len() ==> has_core(cores@, list@, #[trigger] list@[i]),
        forall|k: int| 0 <= k < cores@.len() ==> has_processor(list@, #[trigger] cores@[k]),
{
    let keys = threading::core_keys(list@);
    keys_are_those_of_processors(list@);
    assert forall|i: int| 0 <= i < list@.len() implies has_core(
        cores@,
        list@,
        #[trigger] list@[i],
    ) by {
        assert(keys.contains(list@[i].key()));
        let k = choose|k: int| 0 <= k < keys.len() && keys[k] == list@[i].key();
        assert(cores@[k].describes(list@, keys[k]));
        ids_are_those_of_siblings(list@, list@[i]);
        figures_are_largest(list@, list@[i]);
        assert(is_core_of(cores@[k], list@, list@[i]));
    }
    assert forall|k: int| 0 <= k < cores@.len() implies has_processor(list@, #[trigger] cores@[k]) by {
        assert(has_key(list@, keys[k]));
        let i = choose|i: int| 0 <= i < list@.len() && (#[trigger] list@[i]).key() == keys[k];
        assert(cores@[k].describes(list@, keys[k]));
        ids_are_those_of_siblings(list@, list@[i]);
        figures_are_largest(list@, list@[i]);
        assert(is_core_of(cores@[k], list@, list@[i]));
    }
}

/// What a core is measured by.
pub open spec fn measure(core: PhysicalCoreMetrics, metric: CoreMetric) -> Option<u32> {
    match metric {
        CoreMetric::Capacity => core.capacity,
        CoreMetric::MaxFrequency => core.max_freq_khz,
    }
}

/// The largest measure of any core.
pub open spec fn is_top(cores: Seq<PhysicalCoreMetrics>, metric: CoreMetric, top: u32) -> bool {
    &&& exists|i: int| 0 <= i < cores.len() && measure(#[trigger] cores[i], metric) == Some(top)
    &&& forall|i: int|
        0 <= i < cores.len() ==> (measure(#[trigger] cores[i], metric) matches Some(v) ==> v <= top)
}

/// Whether a core is fast: its measure is nine tenths of the largest, rounded to
/// the nearest number.
pub open spec fn is_fast(core: PhysicalCoreMetrics, metric: CoreMetric, top: u32) -> bool {
    measure(core, metric) matches Some(v) && 10 * v + 4 >= 9 * top
}

/// Whether a processor runs on a fast core.
pub open spec fn runs_fast(
    cores: Seq<PhysicalCoreMetrics>,
    metric: CoreMetric,
    top: u32,
    id: usize,
) -> bool {
    exists|i: int|
        0 <= i < cores.len() && is_fast(#[trigger] cores[i], metric, top)
            && cores[i].logical_processor_ids@.contains(id)
}

proof fn largest_is_top(cores: Seq<PhysicalCoreMetrics>, metric: CoreMetric, count: int)
    requires
        0 <= count <= cores.len(),
    ensures
        match threading::largest(cores, metric, count) {
            Some(top) => is_top(cores.take(count), metric, top),
            None => forall|i: int|
                0 <= i < count ==> measure(#[trigger] cores[i], metric) is None,
        },
    decreases count,
{
    if count > 0 {
        largest_is_top(cores, metric, count - 1);
        let front = cores.take(count - 1);
        let whole = cores.take(count);
        let last = cores[count - 1];
        assert(whole[count - 1] == last);
        assert(metric.of(last) == measure(last, metric));
        assert forall|i: int| 0 <= i < count - 1 implies front[i] == #[trigger] whole[i] by {}
        if let Some(top) = threading::largest(cores, metric, count) {
            if threading::largest(cores, metric, count - 1) == Some(top) {
                let i = choose|i: int|
                    0 <= i < front.len() && measure(#[trigger] front[i], metric) == Some(top);
                assert(whole[i] == front[i]);
            } else {
                assert(measure(whole[count - 1], metric) == Some(top));
            }
            assert forall|i: int| 0 <= i < whole.len() implies (measure(
                #[trigger] whole[i],
                metric,
            ) matches Some(v) ==> v <= top) by {
                if i < count - 1 {
                    assert(front[i] == whole[i]);
                    if threading::largest(cores, metric, count - 1) is None {
                        assert(measure(cores[i], metric) is None);
                    }
                }
            }
        }
    }
}

proof fn fast_places_are_fast(
    cores: Seq<PhysicalCoreMetrics>,
    metric: CoreMetric,
    top: u32,
    count: int,
)
    requires
        0 <= count <= cores.len(),
    ensures
        ({
            let places = threading::fast_places(cores, metric, threading::threshold(top), count);
            &&& forall|k: int|
                0 <= k < places.len() ==> 0 <= (#[trigger] places[k]) < count && is_fast(
                    cores[places[k]],
                    metric,
                    top,
                )
            &&& forall|i: int|
                0 <= i < count && is_fast(#[trigger] cores[i], metric, top) ==> places.contains(i)
        }),
    decreases count,
{
    if count > 0 {
        fast_places_are_fast(cores, metric, top, count - 1);
        let limit = threading::threshold(top);
        let front = threading::fast_places(cores, metric, limit, count - 1);
        let whole = threading::fast_places(cores, metric, limit, count);
        let last = cores[count - 1];
        assert(metric.of(last) == measure(last, metric));
        assert forall|k: int| 0 <= k < whole.len() implies 0 <= (#[trigger] whole[k]) < count
            && is_fast(cores[whole[k]], metric, top) by {
            if k < front.len() {
                assert(whole[k] == front[k]);
            }
        }
        assert forall|i: int| 0 <= i < count && is_fast(#[trigger] cores[i], metric, top) implies whole.contains(
            i,
        ) by {
            if i < count - 1 {
                assert(front.contains(i));
                let k = choose|k: int| 0 <= k < front.len() && front[k] == i;
                assert(whole[k] == i);
            } else {
                assert(whole[front.len() as int] == i);
            }
        }
    }
}

/// Whether a core is slower than the fastest by a tenth of that.
pub open spec fn is_slower(core: PhysicalCoreMetrics, metric: CoreMetric, top: u32) -> bool {
    measure(core, metric) matches Some(v) && 10 * v <= 9 * top && v < top
}

/// Whether a core is measured and not fast.
pub open spec fn is_slow(core: PhysicalCoreMetrics, metric: CoreMetric, top: u32) -> bool {
    measure(core, metric) is Some && !is_fast(core, metric, top)
}

proof fn smallest_is_bottom(cores: Seq<PhysicalCoreMetrics>, metric: CoreMetric, count: int)
    requires
        0 <= count <= cores.len(),
    ensures
        match threading::smallest(cores, metric, count) {
            Some(low) => {
                &&& exists|i: int|
                    0 <= i < count && measure(#[trigger] cores[i], metric) == Some(low)
                &&& forall|i: int|
                    0 <= i < count ==> (measure(#[trigger] cores[i], metric) matches Some(v) ==> low
                        <= v)
            },
            None => forall|i: int|
                0 <= i < count ==> measure(#[trigger] cores[i], metric) is None,
        },
    decreases count,
{
    if count > 0 {
        smallest_is_bottom(cores, metric, count - 1);
        let last = cores[count - 1];
        assert(metric.of(last) == measure(last, metric));
        if let Some(low) = threading::smallest(cores, metric, count) {
            if threading::smallest(cores, metric, count - 1) == Some(low) {
                let i = choose|i: int|
                    0 <= i < count - 1 && measure(#[trigger] cores[i], metric) == Some(low);
                assert(measure(cores[i], metric) == Some(low));
            } else {
                assert(measure(cores[count - 1], metric) == Some(low));
            }
        }
    }
}

proof fn slow_cores_have_no_place(
    cores: Seq<PhysicalCoreMetrics>,
    metric: CoreMetric,
    top: u32,
    count: int,
    i: int,
)
    requires
        0 <= count <= cores.len(),
        0 <= i < cores.len(),
        is_slow(cores[i], metric, top),
    ensures
        threading::fast_places(cores, metric, threading::threshold(top), count).len() + (if i
            < count {
            1int
        } else {
            0
        }) <= count,
    decreases count,
{
    if count > 0 {
        slow_cores_have_no_place(cores, metric, top, count - 1, i);
        let last = cores[count - 1];
        assert(metric.of(last) == measure(last, metric));
    }
}

/// Where cores are selected, they are the fast ones: the processors on cores that
/// reach nine tenths of the largest measure, each once, from the lowest, and some
/// core is slower by a tenth. They are selected wherever some core is not fast.
pub proof fn the_fast_cores_are_selected(
    cores: Vec<PhysicalCoreMetrics>,
    metric: CoreMetric,
    r: Option<PerformanceCoreSelection>,
    top: u32,
)
    requires
        call_ensures(select_performance_cores_by_metric, (&cores, metric), r),
        is_top(cores@, metric, top),
    ensures
        r matches Some(selection) ==> {
            let ids = selection.logical_processor_ids@;
            &&& ids.len() > 0
            &&& forall|i: int, j: int| 0 <= i < j < ids.len() ==> #[trigger] ids[i] < #[trigger] ids[j]
            &&& forall|id: usize| #[trigger]
                ids.contains(id) <==> runs_fast(cores@, metric, top, id)
            &&& exists|i: int|
                0 <= i < cores@.len() && is_slower(#[trigger] cores@[i], metric, top)
        },
        (exists|i: int| 0 <= i < cores@.len() && is_slow(#[trigger] cores@[i], metric, top)) && (
        exists|id: usize| runs_fast(cores@, metric, top, id)) ==> r is Some,
{
    let n = cores@.len() as int;
    smallest_is_bottom(cores@, metric, n);
    largest_is_top(cores@, metric, n);
    assert(cores@.take(n) =~= cores@);
    let found = threading::largest(cores@, metric, n);
    let at = choose|i: int| 0 <= i < cores@.len() && measure(#[trigger] cores@[i], metric) == Some(top);
    assert(found is Some);
    let a = choose|i: int| 0 <= i < cores@.len() && measure(#[trigger] cores@[i], metric) == found;
    assert(found == Some(top));
    fast_places_are_fast(cores@, metric, top, n);
    let places = threading::fast_places(cores@, metric, threading::threshold(top), n);
    if (exists|i: int| 0 <= i < cores@.len() && is_slow(#[trigger] cores@[i], metric, top)) && (
    exists|id: usize| runs_fast(cores@, metric, top, id)) {
        let i = choose|i: int| 0 <= i < cores@.len() && is_slow(#[trigger] cores@[i], metric, top);
        slow_cores_have_no_place(cores@, metric, top, n, i);
        assert(measure(cores@[i], metric) is Some);
        let id = choose|id: usize| runs_fast(cores@, metric, top, id);
        let f = choose|f: int|
            0 <= f < cores@.len() && is_fast(#[trigger] cores@[f], metric, top)
                && cores@[f].logical_processor_ids@.contains(id);
        assert(places.contains(f));
        let k = choose|k: int| 0 <= k < places.len() && places[k] == f;
        assert(cores@[places[k]].logical_processor_ids@.contains(id));
        assert(threading::on_fast_core(cores@, places, id));
        assert(threading::selectable(cores@, metric));
    }
    if let Some(selection) = r {
        let ids = selection.logical_processor_ids@;
        assert forall|id: usize| threading::on_fast_core(cores@, places, id) <==> #[trigger] runs_fast(
            cores@,
            metric,
            top,
            id,
        ) by {
            if threading::on_fast_core(cores@, places, id) {
                let k = choose|k: int|
                    0 <= k < places.len() && (
                    #[trigger] cores@[places[k]]).logical_processor_ids@.contains(id);
                assert(is_fast(cores@[places[k]], metric, top));
            }
            if runs_fast(cores@, metric, top, id) {
                let i = choose|i: int|
                    0 <= i < cores@.len() && is_fast(#[trigger] cores@[i], metric, top)
                        && cores@[i].logical_processor_ids@.contains(id);
                assert(places.contains(i));
                let k = choose|k: int| 0 <= k < places.len() && places[k] == i;
                assert(cores@[places[k]].logical_processor_ids@.contains(id));
            }
        }
        assert forall|id: usize| #[trigger] ids.contains(id) <==> runs_fast(cores@, metric, top, id) by {
            assert(ids.contains(id) == threading::on_fast_core(cores@, places, id));
        }
        let low = threading::smallest(cores@, metric, n)->0;
        let i = choose|i: int| 0 <= i < n && measure(#[trigger] cores@[i], metric) == Some(low);
        assert(is_slower(cores@[i], metric, top));
        assert(exists|id: usize| threading::on_fast_core(cores@, places, id));
        let id = choose|id: usize| threading::on_fast_core(cores@, places, id);
        assert(ids.contains(id));
    }
}

/// Cores are told apart by capacity where that can be, and otherwise by frequency.
pub proof fn capacity_comes_before_frequency(
    cores: Vec<PhysicalCoreMetrics>,
    by_capacity: Option<PerformanceCoreSelection>,
    by_frequency: Option<PerformanceCoreSelection>,
    r: DetectionResult,
)
    requires
        call_ensures(
            select_performance_cores_by_metric,
            (&cores, CoreMetric::Capacity),
            by_capacity,
        ),
        call_ensures(
            select_performance_cores_by_metric,
            (&cores, CoreMetric::MaxFrequency),
            by_frequency,
        ),
        call_ensures(detect_performance_cores, (&cores,), r),
    ensures
        by_capacity matches Some(a) ==> (r matches DetectionResult::PerformanceCores(found)
            && forall|id: usize| #[trigger]
            found.logical_processor_ids@.contains(id) <==> a.logical_processor_ids@.contains(id)),
        by_capacity is None ==> (by_frequency matches Some(b) ==> (
        r matches DetectionResult::PerformanceCores(found) && forall|id: usize| #[trigger]
            found.logical_processor_ids@.contains(id) <==> b.logical_processor_ids@.contains(id))),
        by_capacity is None && by_frequency is None ==> r is NoSelection,
{
    if by_capacity is Some {
        assert forall|id: usize| #[trigger]
            r->PerformanceCores_0.logical_processor_ids@.contains(id)
                <==> by_capacity->0.logical_processor_ids@.contains(id) by {
            assert(by_capacity->0.logical_processor_ids@.contains(id)
                == by_capacity->0.logical_processor_ids@.contains(id));
        }
    } else if by_frequency is Some {
        assert forall|id: usize| #[trigger]
            r->PerformanceCores_0.logical_processor_ids@.contains(id)
                <==> by_frequency->0.logical_processor_ids@.contains(id) by {
            assert(by_frequency->0.logical_processor_ids@.contains(id)
                == by_frequency->0.logical_processor_ids@.contains(id));
        }
    }
}

/// A processor is known by its number behind the letters of its name.
pub proof fn processors_are_known_by_their_number(n: usize, name: &str, r: Option<usize>)
    requires
        name@ == "cpu"@ + text::decimal(n as nat),
        call_ensures(logical_processor_id, (name,), r),
    ensures
        r == Some(n),
{
    reveal_strlit("cpu");
    texts::decimals_are_read_back(n as nat);
    assert(name@.skip(3) =~= text::decimal(n as nat));
    assert(name@.subrange(0, 3) =~= "cpu"@);
}

} // verus!
