//! What concurrent workers do and count together.
use crate::bench::concurrent;
use crate::bench::concurrent::{
    aggregate_sample, execute_concurrent_timing_only_measurement, thread_plan,
    total_worker_threads, ConcurrentBenchControl, ConcurrentSampleResult, ConcurrentWorker,
    ConcurrentWorkerMeasurement, ThreadMeasurement, ThreadSlot,
};
use crate::bench::counters;
use crate::bench::counters::{ConcurrentWorkerResult, CounterValue};
use crate::bench::results;
use crate::bench::results::{Results, ResultsTally};
use crate::time::Nanos;
use vstd::prelude::*;

verus! {

/// The sum of what a function gives for each item.
pub open spec fn sum<T>(items: Seq<T>, amount: spec_fn(T) -> nat) -> nat
    decreases items.len(),
{
    if items.len() == 0 {
        0
    } else {
        amount(items[0]) + sum(items.skip(1), amount)
    }
}

proof fn sum_from_the_end<T>(items: Seq<T>, amount: spec_fn(T) -> nat)
    requires
        items.len() > 0,
    ensures
        sum(items, amount) == sum(items.drop_last(), amount) + amount(items.last()),
    decreases items.len(),
{
    if items.len() > 1 {
        sum_from_the_end(items.skip(1), amount);
        assert(items.skip(1).drop_last() =~= items.drop_last().skip(1));
        assert(items.drop_last()[0] == items[0]);
        assert(items.skip(1).last() == items.last());
    } else {
        assert(items.drop_last() =~= Seq::<T>::empty());
        assert(items.skip(1) =~= Seq::<T>::empty());
    }
}

/// A stop is asked for from the deadline on.
pub proof fn workers_stop_at_the_deadline(control: ConcurrentBenchControl, now: Nanos, r: bool)
    requires
        call_ensures(ConcurrentBenchControl::should_stop, (&control, now), r),
    ensures
        r <==> now.count >= control.deadline.count,
{
}

/// The threads of all workers are counted, unless there are too many to count.
pub proof fn threads_of_all_workers_count<R>(workers: &[ConcurrentWorker<R>], r: Option<usize>)
    requires
        call_ensures(total_worker_threads::<R>, (workers,), r),
    ensures
        r matches Some(n) ==> n == sum(workers@, |w: ConcurrentWorker<R>| w.threads as nat),
        r is None <==> sum(workers@, |w: ConcurrentWorker<R>| w.threads as nat) > usize::MAX,
{
    threads_sum(workers@, workers@.len() as int);
    assert(workers@.take(workers@.len() as int) =~= workers@);
}

proof fn threads_sum<R>(workers: Seq<ConcurrentWorker<R>>, count: int)
    requires
        0 <= count <= workers.len(),
    ensures
        concurrent::threads_before(workers, count) == sum(
            workers.take(count),
            |w: ConcurrentWorker<R>| w.threads as nat,
        ),
    decreases count,
{
    if count > 0 {
        threads_sum(workers, count - 1);
        sum_from_the_end(workers.take(count), |w: ConcurrentWorker<R>| w.threads as nat);
        assert(workers.take(count).drop_last() =~= workers.take(count - 1));
    }
}

/// Every worker gets as many threads as it asks for: each of its places goes to
/// one thread, and threads are numbered in the order of the workers.
pub proof fn each_place_has_its_thread<R>(workers: &[ConcurrentWorker<R>], plan: Vec<ThreadSlot>)
    requires
        call_ensures(thread_plan::<R>, (workers,), plan),
    ensures
        plan@.len() == sum(workers@, |w: ConcurrentWorker<R>| w.threads as nat),
        forall|t: int|
            0 <= t < plan@.len() ==> {
                &&& (#[trigger] plan@[t]).thread_index == t
                &&& plan@[t].worker_index < workers@.len()
                &&& plan@[t].role_thread_index < workers@[plan@[t].worker_index as int].threads
            },
        forall|w: int, role: int|
            0 <= w < workers@.len() && 0 <= role < workers@[w].threads ==> #[trigger] has_thread(
                plan@,
                w,
                role,
            ),
        forall|t: int, u: int|
            #![trigger plan@[t], plan@[u]]
            0 <= t < u < plan@.len() ==> plan@[t].worker_index < plan@[u].worker_index || (
            plan@[t].worker_index == plan@[u].worker_index && plan@[t].role_thread_index
                < plan@[u].role_thread_index),
{
    threads_sum(workers@, workers@.len() as int);
    assert(workers@.take(workers@.len() as int) =~= workers@);
    assert forall|w: int, role: int|
        0 <= w < workers@.len() && 0 <= role < workers@[w].threads implies #[trigger] has_thread(
        plan@,
        w,
        role,
    ) by {
        concurrent::plan_covers_every_thread(plan@, workers@, w, role);
    }
    assert forall|t: int, u: int|
        #![trigger plan@[t], plan@[u]]
        0 <= t < u < plan@.len() implies plan@[t].worker_index < plan@[u].worker_index || (
    plan@[t].worker_index == plan@[u].worker_index && plan@[t].role_thread_index
        < plan@[u].role_thread_index) by {
        let a = plan@[t].worker_index as int;
        let b = plan@[u].worker_index as int;
        if b < a {
            threads_grow(workers@, b + 1, a);
        }
    }
}

/// Whether a thread takes a place of a worker.
pub open spec fn has_thread(plan: Seq<ThreadSlot>, worker: int, role: int) -> bool {
    exists|t: int|
        0 <= t < plan.len() && (#[trigger] plan[t]).worker_index == worker
            && plan[t].role_thread_index == role
}

proof fn threads_grow<R>(workers: Seq<ConcurrentWorker<R>>, a: int, b: int)
    requires
        0 <= a <= b,
    ensures
        concurrent::threads_before(workers, a) <= concurrent::threads_before(workers, b),
    decreases b,
{
    if a < b {
        threads_grow(workers, a, b - 1);
    }
}

/// A worker whose time alone is taken keeps its operations and its counters.
pub proof fn timed_workers_keep_their_counters(
    elapsed: Nanos,
    result: ConcurrentWorkerResult,
    r: ConcurrentWorkerMeasurement,
)
    requires
        call_ensures(execute_concurrent_timing_only_measurement, (elapsed, result), r),
    ensures
        r.results.duration == elapsed,
        r.results.iterations == result.operations,
        r.results.chunks_executed == 1,
        r.results.cycles == 0,
        r.results.instructions == 0,
        r.counters@ == result.counters@,
{
}

/// Each count of a part of a whole: the sum over the threads that belong to it.
pub open spec fn counts_summed(
    whole: Results,
    threads: Seq<ThreadMeasurement>,
    mine: spec_fn(ThreadMeasurement) -> bool,
) -> bool {
    &&& whole.cycles == sum_of(threads, mine, |r: Results| r.cycles as nat)
    &&& whole.instructions == sum_of(threads, mine, |r: Results| r.instructions as nat)
    &&& whole.cache_references == sum_of(threads, mine, |r: Results| r.cache_references as nat)
    &&& whole.l1i_misses == sum_of(threads, mine, |r: Results| r.l1i_misses as nat)
    &&& whole.branches == sum_of(threads, mine, |r: Results| r.branches as nat)
    &&& whole.branch_misses == sum_of(threads, mine, |r: Results| r.branch_misses as nat)
    &&& whole.cache_misses == sum_of(threads, mine, |r: Results| r.cache_misses as nat)
    &&& whole.stalled_cycles_frontend == sum_of(
        threads,
        mine,
        |r: Results| r.stalled_cycles_frontend as nat,
    )
    &&& whole.stalled_cycles_backend == sum_of(
        threads,
        mine,
        |r: Results| r.stalled_cycles_backend as nat,
    )
    &&& whole.pmu_time_enabled_ns == sum_of(threads, mine, |r: Results| r.pmu_time_enabled_ns as nat)
    &&& whole.pmu_time_running_ns == sum_of(threads, mine, |r: Results| r.pmu_time_running_ns as nat)
    &&& whole.iterations == sum_of(threads, mine, |r: Results| r.iterations as nat)
}

/// The sum of one count over the threads that belong to a part.
pub open spec fn sum_of(
    threads: Seq<ThreadMeasurement>,
    mine: spec_fn(ThreadMeasurement) -> bool,
    count: spec_fn(Results) -> nat,
) -> nat {
    sum(
        threads,
        |t: ThreadMeasurement|
            if mine(t) {
                count(t.measurement.results)
            } else {
                0
            },
    )
}

spec fn tally_summed(
    whole: ResultsTally,
    threads: Seq<ThreadMeasurement>,
    mine: spec_fn(ThreadMeasurement) -> bool,
) -> bool {
    &&& whole.cycles == sum_of(threads, mine, |r: Results| r.cycles as nat)
    &&& whole.instructions == sum_of(threads, mine, |r: Results| r.instructions as nat)
    &&& whole.cache_references == sum_of(threads, mine, |r: Results| r.cache_references as nat)
    &&& whole.l1i_misses == sum_of(threads, mine, |r: Results| r.l1i_misses as nat)
    &&& whole.branches == sum_of(threads, mine, |r: Results| r.branches as nat)
    &&& whole.branch_misses == sum_of(threads, mine, |r: Results| r.branch_misses as nat)
    &&& whole.cache_misses == sum_of(threads, mine, |r: Results| r.cache_misses as nat)
    &&& whole.stalled_cycles_frontend == sum_of(
        threads,
        mine,
        |r: Results| r.stalled_cycles_frontend as nat,
    )
    &&& whole.stalled_cycles_backend == sum_of(
        threads,
        mine,
        |r: Results| r.stalled_cycles_backend as nat,
    )
    &&& whole.pmu_time_enabled_ns == sum_of(threads, mine, |r: Results| r.pmu_time_enabled_ns as nat)
    &&& whole.pmu_time_running_ns == sum_of(threads, mine, |r: Results| r.pmu_time_running_ns as nat)
    &&& whole.iterations == sum_of(threads, mine, |r: Results| r.iterations as nat)
}

proof fn sum_of_from_the_end(
    threads: Seq<ThreadMeasurement>,
    mine: spec_fn(ThreadMeasurement) -> bool,
    count: spec_fn(Results) -> nat,
)
    requires
        threads.len() > 0,
    ensures
        sum_of(threads, mine, count) == sum_of(threads.drop_last(), mine, count) + if mine(
            threads.last(),
        ) {
            count(threads.last().measurement.results)
        } else {
            0
        },
{
    sum_from_the_end(
        threads,
        |t: ThreadMeasurement|
            if mine(t) {
                count(t.measurement.results)
            } else {
                0
            },
    );
}

proof fn tally_grows(
    before: ResultsTally,
    after: ResultsTally,
    threads: Seq<ThreadMeasurement>,
    mine: spec_fn(ThreadMeasurement) -> bool,
)
    requires
        threads.len() > 0,
        tally_summed(before, threads.drop_last(), mine),
        after == if mine(threads.last()) {
            before.plus(threads.last().measurement.results.tally())
        } else {
            before
        },
    ensures
        tally_summed(after, threads, mine),
{
    sum_of_from_the_end(threads, mine, |r: Results| r.cycles as nat);
    sum_of_from_the_end(threads, mine, |r: Results| r.instructions as nat);
    sum_of_from_the_end(threads, mine, |r: Results| r.cache_references as nat);
    sum_of_from_the_end(threads, mine, |r: Results| r.l1i_misses as nat);
    sum_of_from_the_end(threads, mine, |r: Results| r.branches as nat);
    sum_of_from_the_end(threads, mine, |r: Results| r.branch_misses as nat);
    sum_of_from_the_end(threads, mine, |r: Results| r.cache_misses as nat);
    sum_of_from_the_end(threads, mine, |r: Results| r.stalled_cycles_frontend as nat);
    sum_of_from_the_end(threads, mine, |r: Results| r.stalled_cycles_backend as nat);
    sum_of_from_the_end(threads, mine, |r: Results| r.pmu_time_enabled_ns as nat);
    sum_of_from_the_end(threads, mine, |r: Results| r.pmu_time_running_ns as nat);
    sum_of_from_the_end(threads, mine, |r: Results| r.iterations as nat);
}

proof fn worker_tally_is_summed(threads: Seq<ThreadMeasurement>, worker: int)
    ensures
        tally_summed(
            concurrent::worker_total(threads, worker),
            threads,
            |t: ThreadMeasurement| t.worker_index == worker,
        ),
    decreases threads.len(),
{
    if threads.len() > 0 {
        worker_tally_is_summed(threads.drop_last(), worker);
        tally_grows(
            concurrent::worker_total(threads.drop_last(), worker),
            concurrent::worker_total(threads, worker),
            threads,
            |t: ThreadMeasurement| t.worker_index == worker,
        );
    }
}

proof fn whole_tally_is_summed(threads: Seq<ThreadMeasurement>)
    ensures
        tally_summed(
            results::total(concurrent::all_results(threads)),
            threads,
            |t: ThreadMeasurement| true,
        ),
    decreases threads.len(),
{
    if threads.len() > 0 {
        whole_tally_is_summed(threads.drop_last());
        assert(concurrent::all_results(threads).drop_last() =~= concurrent::all_results(
            threads.drop_last(),
        ));
        tally_grows(
            results::total(concurrent::all_results(threads.drop_last())),
            results::total(concurrent::all_results(threads)),
            threads,
            |t: ThreadMeasurement| true,
        );
    }
}

/// A concurrent sample counts what all its threads counted, each worker's part
/// what the threads of that worker counted, and both took the time of the clock
/// on the wall.
pub proof fn concurrent_samples_sum_their_threads(
    worker_count: usize,
    threads: Vec<ThreadMeasurement>,
    wall: Nanos,
    r: Option<ConcurrentSampleResult>,
)
    requires
        call_ensures(aggregate_sample, (worker_count, threads, wall), r),
    ensures
        r matches Some(sample) ==> {
            &&& counts_summed(sample.results, threads@, |t: ThreadMeasurement| true)
            &&& sample.results.duration == wall
            &&& sample.results.chunks_executed == 1
            &&& sample.worker_summaries@.len() == worker_count
            &&& forall|w: int|
                0 <= w < worker_count ==> {
                    let part = (#[trigger] sample.worker_summaries@[w]).results;
                    &&& counts_summed(part, threads@, |t: ThreadMeasurement| t.worker_index == w)
                    &&& part.duration == wall
                    &&& part.chunks_executed == 1
                }
        },
{
    if let Some(sample) = r {
        whole_tally_is_summed(threads@);
        assert forall|w: int| 0 <= w < worker_count implies ({
            let part = (#[trigger] sample.worker_summaries@[w]).results;
            &&& counts_summed(part, threads@, |t: ThreadMeasurement| t.worker_index == w)
            &&& part.duration == wall
            &&& part.chunks_executed == 1
        }) by {
            worker_tally_is_summed(threads@, w);
        }
    }
}

/// What one counter adds under a name.
pub open spec fn counts_under(name: Seq<char>) -> spec_fn(CounterValue) -> nat {
    |c: CounterValue|
        if c.name@ == name {
            c.value as nat
        } else {
            0
        }
}

/// What a list of counters holds under a name.
pub open spec fn amount(list: Seq<CounterValue>, name: Seq<char>) -> nat {
    sum(list, counts_under(name))
}

/// A number of 64 bits, the largest where a total is larger.
pub open spec fn held(total: nat) -> nat {
    if total > 0xffff_ffff_ffff_ffff {
        0xffff_ffff_ffff_ffff
    } else {
        total
    }
}

proof fn amount_is_tallied(list: Seq<CounterValue>, name: Seq<char>)
    ensures
        counters::tally(list, name) == amount(list, name),
    decreases list.len(),
{
    if list.len() > 0 {
        amount_is_tallied(list.drop_last(), name);
        sum_from_the_end(list, counts_under(name));
    }
}

/// Whether no name stands twice in a list of counters.
pub open spec fn names_differ(list: Seq<CounterValue>) -> bool {
    forall|i: int, j: int|
        0 <= i < j < list.len() ==> (#[trigger] list[i]).name@ != (#[trigger] list[j]).name@
}

proof fn occurrences_count_places(list: Seq<CounterValue>, i: int)
    requires
        0 <= i < list.len(),
    ensures
        counters::occurrences(list, list[i].name@) >= 1,
    decreases list.len(),
{
    if i < list.len() - 1 {
        occurrences_count_places(list.drop_last(), i);
    }
}

proof fn two_places_count_twice(list: Seq<CounterValue>, i: int, j: int)
    requires
        0 <= i < j < list.len(),
        list[i].name@ == list[j].name@,
    ensures
        counters::occurrences(list, list[i].name@) >= 2,
    decreases list.len(),
{
    if j < list.len() - 1 {
        two_places_count_twice(list.drop_last(), i, j);
    } else {
        occurrences_count_places(list.drop_last(), i);
    }
}

proof fn unique_names_differ(list: Seq<CounterValue>)
    requires
        counters::names_unique(list),
    ensures
        names_differ(list),
{
    assert forall|i: int, j: int| 0 <= i < j < list.len() implies (#[trigger] list[i]).name@ != (
    #[trigger] list[j]).name@ by {
        if list[i].name@ == list[j].name@ {
            two_places_count_twice(list, i, j);
        }
    }
}

proof fn no_place_counts_nothing(list: Seq<CounterValue>, name: Seq<char>)
    requires
        forall|i: int| 0 <= i < list.len() ==> (#[trigger] list[i]).name@ != name,
    ensures
        counters::occurrences(list, name) == 0,
    decreases list.len(),
{
    if list.len() > 0 {
        let front = list.drop_last();
        assert forall|i: int| 0 <= i < front.len() implies (#[trigger] front[i]).name@ != name by {
            assert(front[i] == list[i]);
        }
        no_place_counts_nothing(front, name);
        assert(list[list.len() - 1].name@ != name);
    }
}

proof fn differing_names_are_unique(list: Seq<CounterValue>)
    requires
        names_differ(list),
    ensures
        counters::names_unique(list),
    decreases list.len(),
{
    if list.len() > 0 {
        let front = list.drop_last();
        assert forall|i: int, j: int| 0 <= i < j < front.len() implies (#[trigger] front[i]).name@
            != (#[trigger] front[j]).name@ by {
            assert(front[i] == list[i] && front[j] == list[j]);
        }
        differing_names_are_unique(front);
        assert forall|name: Seq<char>| #[trigger] counters::occurrences(list, name) <= 1 by {
            assert(counters::occurrences(front, name) <= 1);
            if list.last().name@ == name {
                assert forall|i: int| 0 <= i < front.len() implies (#[trigger] front[i]).name@
                    != name by {
                    assert(front[i] == list[i]);
                    assert(list[list.len() - 1].name@ == name);
                }
                no_place_counts_nothing(front, name);
            }
        }
    }
}

/// Merging adds what two lists hold under each name, up to the largest number,
/// and leaves every name once.
pub proof fn merged_counters_add_up(list: Seq<CounterValue>, more: Seq<CounterValue>, name: Seq<char>)
    requires
        names_differ(list),
        amount(list, name) <= 0xffff_ffff_ffff_ffff,
    ensures
        ({
            let merged = counters::by_name(counters::merged_all(list, more));
            &&& names_differ(merged)
            &&& amount(merged, name) == held(amount(list, name) + amount(more, name))
        }),
{
    let merged = counters::by_name(counters::merged_all(list, more));
    differing_names_are_unique(list);
    counters::merging_keeps_totals(list, more);
    unique_names_differ(merged);
    amount_is_tallied(list, name);
    amount_is_tallied(more, name);
    amount_is_tallied(merged, name);
}

/// What the threads of a worker hold under a name.
pub open spec fn worker_amount(
    threads: Seq<ThreadMeasurement>,
    worker: int,
    name: Seq<char>,
) -> nat {
    sum(
        threads,
        |t: ThreadMeasurement|
            if t.worker_index == worker {
                amount(t.measurement.counters@, name)
            } else {
                0
            },
    )
}

proof fn worker_counters_add_up(threads: Seq<ThreadMeasurement>, worker: int, name: Seq<char>)
    ensures
        names_differ(concurrent::worker_counters(threads, worker)),
        amount(concurrent::worker_counters(threads, worker), name) == held(
            worker_amount(threads, worker, name),
        ),
    decreases threads.len(),
{
    if threads.len() > 0 {
        worker_counters_add_up(threads.drop_last(), worker, name);
        sum_from_the_end(
            threads,
            |t: ThreadMeasurement|
                if t.worker_index == worker {
                    amount(t.measurement.counters@, name)
                } else {
                    0
                },
        );
        if threads.last().worker_index == worker {
            merged_counters_add_up(
                concurrent::worker_counters(threads.drop_last(), worker),
                threads.last().measurement.counters@,
                name,
            );
        }
    }
}

/// The counters of a worker add up over its threads, and over no others.
pub proof fn counters_add_up_over_the_threads(
    worker_count: usize,
    threads: Vec<ThreadMeasurement>,
    wall: Nanos,
    r: Option<ConcurrentSampleResult>,
    worker: int,
    name: Seq<char>,
)
    requires
        call_ensures(aggregate_sample, (worker_count, threads, wall), r),
        0 <= worker < worker_count,
    ensures
        r matches Some(sample) ==> {
            let list = sample.worker_summaries@[worker].counters@;
            &&& names_differ(list)
            &&& amount(list, name) == held(worker_amount(threads@, worker, name))
        },
{
    worker_counters_add_up(threads@, worker, name);
    if let Some(sample) = r {
        assert(sample.worker_summaries@[worker].counters@ == concurrent::worker_counters(
            threads@,
            worker,
        ));
    }
}

} // verus!
