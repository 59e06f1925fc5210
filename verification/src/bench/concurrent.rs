//! Concurrent samples: which thread does what, and how its measurements add up.
use crate::bench::counters;
use crate::bench::counters::{merge_counter_values, ConcurrentWorkerResult, CounterValue};
use crate::bench::backend;
use crate::bench::backend::execute_timing_only;
use crate::bench::results;
use crate::bench::results::{Results, ResultsTally};
use crate::time::Nanos;
use vstd::prelude::*;

verus! {

/// What a worker thread is told: when to stop, and which thread it is.
#[derive(Clone, Copy, Debug, PartialEq, Eq, Structural)]
pub struct ConcurrentBenchControl {
    pub deadline: Nanos,
    pub thread_index: usize,
    pub role_thread_index: usize,
}

impl ConcurrentBenchControl {
    /// Whether the deadline has come at time `now`.
    pub fn should_stop(&self, now: Nanos) -> (r: bool)
        ensures
            r == (now.count >= self.deadline.count),
    {
        now.count >= self.deadline.count
    }

    /// The place of the thread among all threads.
    pub fn thread_index(&self) -> (r: usize)
        ensures
            r == self.thread_index,
    {
        self.thread_index
    }

    /// The place of the thread among those of its worker.
    pub fn role_thread_index(&self) -> (r: usize)
        ensures
            r == self.role_thread_index,
    {
        self.role_thread_index
    }
}

/// What the workers of a concurrent benchmark share.
pub trait ConcurrentBenchContext: Sized {
    fn prepare(num_threads: usize) -> Self;
}

/// Whether a sample warms up or is kept.
#[derive(Clone, Copy, Debug, PartialEq, Eq, Structural)]
pub enum ConcurrentSamplePhase {
    WarmUp,
    Measurement,
}

/// Which sample a callback surrounds.
#[derive(Clone, Copy, Debug, PartialEq, Eq, Structural)]
pub struct ConcurrentSampleInfo {
    pub phase: ConcurrentSamplePhase,
    pub sample_index: usize,
}

/// A role in a concurrent benchmark and the number of threads that play it.
pub struct ConcurrentWorker<R> {
    pub name: &'static str,
    pub threads: usize,
    pub run: R,
}

/// How many threads the first `count` workers have.
pub open spec fn threads_before<R>(workers: Seq<ConcurrentWorker<R>>, count: int) -> nat
    decreases count,
{
    if count <= 0 {
        0
    } else {
        threads_before(workers, count - 1) + workers[count - 1].threads as nat
    }
}

proof fn threads_before_grows<R>(workers: Seq<ConcurrentWorker<R>>, a: int, b: int)
    requires
        0 <= a <= b,
    ensures
        threads_before(workers, a) <= threads_before(workers, b),
    decreases b,
{
    if a < b {
        threads_before_grows(workers, a, b - 1);
    }
}

/// The number of threads of all workers; none when it is too large to be held.
pub fn total_worker_threads<R>(workers: &[ConcurrentWorker<R>]) -> (r: Option<usize>)
    ensures
        r matches Some(n) ==> n == threads_before(workers@, workers@.len() as int),
        r is None ==> threads_before(workers@, workers@.len() as int) > usize::MAX,
{
    let mut total: usize = 0;
    let mut i: usize = 0;
    while i < workers.len()
        invariant
            i <= workers.len(),
            total == threads_before(workers@, i as int),
        decreases workers.len() - i,
    {
        match total.checked_add(workers[i].threads) {
            Some(sum) => {
                total = sum;
            },
            None => {
                proof {
                    threads_before_grows(workers@, i + 1, workers@.len() as int);
                }
                return None;
            },
        }
        i += 1;
    }
    Some(total)
}

/// A thread of a concurrent sample.
#[derive(Clone, Copy, Debug, PartialEq, Eq, Structural)]
pub struct ThreadSlot {
    pub worker_index: usize,
    pub role_thread_index: usize,
    pub thread_index: usize,
}

/// The threads of all workers: worker by worker, and numbered through.
pub open spec fn is_thread_plan<R>(plan: Seq<ThreadSlot>, workers: Seq<ConcurrentWorker<R>>) -> bool {
    &&& plan.len() == threads_before(workers, workers.len() as int)
    &&& forall|t: int|
        0 <= t < plan.len() ==> {
            let slot = #[trigger] plan[t];
            &&& slot.thread_index == t
            &&& slot.worker_index < workers.len()
            &&& slot.role_thread_index < workers[slot.worker_index as int].threads
            &&& t == threads_before(workers, slot.worker_index as int) + slot.role_thread_index
        }
}

/// The threads to start for a sample, in the order in which they are started.
pub fn thread_plan<R>(workers: &[ConcurrentWorker<R>]) -> (plan: Vec<ThreadSlot>)
    requires
        threads_before(workers@, workers@.len() as int) <= usize::MAX,
    ensures
        is_thread_plan(plan@, workers@),
{
    let mut plan: Vec<ThreadSlot> = Vec::new();
    let mut worker_index: usize = 0;
    while worker_index < workers.len()
        invariant
            worker_index <= workers.len(),
            threads_before(workers@, workers@.len() as int) <= usize::MAX,
            plan@.len() == threads_before(workers@, worker_index as int),
            forall|t: int|
                0 <= t < plan@.len() ==> {
                    let slot = #[trigger] plan@[t];
                    &&& slot.thread_index == t
                    &&& slot.worker_index < workers@.len()
                    &&& slot.role_thread_index < workers@[slot.worker_index as int].threads
                    &&& t == threads_before(workers@, slot.worker_index as int)
                        + slot.role_thread_index
                },
        decreases workers.len() - worker_index,
    {
        proof {
            threads_before_grows(workers@, worker_index + 1, workers@.len() as int);
        }
        let mut role: usize = 0;
        while role < workers[worker_index as usize].threads
            invariant
                worker_index < workers.len(),
                role <= workers@[worker_index as int].threads,
                threads_before(workers@, worker_index + 1) <= usize::MAX,
                plan@.len() == threads_before(workers@, worker_index as int) + role,
                forall|t: int|
                    0 <= t < plan@.len() ==> {
                        let slot = #[trigger] plan@[t];
                        &&& slot.thread_index == t
                        &&& slot.worker_index < workers@.len()
                        &&& slot.role_thread_index < workers@[slot.worker_index as int].threads
                        &&& t == threads_before(workers@, slot.worker_index as int)
                            + slot.role_thread_index
                    },
            decreases workers@[worker_index as int].threads - role,
        {
            let thread_index: usize = plan.len();
            plan.push(ThreadSlot { worker_index, role_thread_index: role, thread_index });
            role += 1;
        }
        worker_index += 1;
    }
    plan
}

/// Every thread of every worker is in the plan exactly once.
pub proof fn plan_covers_every_thread<R>(
    plan: Seq<ThreadSlot>,
    workers: Seq<ConcurrentWorker<R>>,
    worker: int,
    role: int,
)
    requires
        is_thread_plan(plan, workers),
        0 <= worker < workers.len(),
        0 <= role < workers[worker].threads,
    ensures
        exists|t: int|
            0 <= t < plan.len() && (#[trigger] plan[t]).worker_index == worker
                && plan[t].role_thread_index == role,
        forall|t: int, u: int|
            0 <= t < plan.len() && 0 <= u < plan.len() && (#[trigger] plan[t]).worker_index
                == worker && plan[t].role_thread_index == role && (#[trigger] plan[u]).worker_index
                == worker && plan[u].role_thread_index == role ==> t == u,
{
    let t = threads_before(workers, worker) + role;
    threads_before_grows(workers, worker + 1, workers.len() as int);
    assert(t < plan.len());
    let slot = plan[t];
    let w = slot.worker_index as int;
    if w < worker {
        threads_before_grows(workers, w + 1, worker);
    } else if w > worker {
        threads_before_grows(workers, worker + 1, w);
    }
    assert(plan[t].worker_index == worker && plan[t].role_thread_index == role);
}

/// What one worker thread measured.
pub struct ConcurrentWorkerMeasurement {
    pub results: Results,
    pub counters: Vec<CounterValue>,
}

/// The measurement of a worker of which only the time was taken.
pub fn execute_concurrent_timing_only_measurement(
    elapsed: Nanos,
    worker_result: ConcurrentWorkerResult,
) -> (r: ConcurrentWorkerMeasurement)
    ensures
        r.results == backend::timing_only(elapsed, worker_result.operations),
        r.counters == worker_result.counters,
{
    ConcurrentWorkerMeasurement {
        results: execute_timing_only(elapsed, worker_result.operations),
        counters: worker_result.counters,
    }
}

/// What the threads of one worker measured in a sample.
pub struct WorkerSampleSummary {
    pub results: Results,
    pub counters: Vec<CounterValue>,
}

/// What all threads measured in a sample, and each worker's part of it.
pub struct ConcurrentSampleResult {
    pub results: Results,
    pub worker_summaries: Vec<WorkerSampleSummary>,
}

/// A measurement and the worker whose thread made it.
pub struct ThreadMeasurement {
    pub worker_index: usize,
    pub measurement: ConcurrentWorkerMeasurement,
}

/// The results of all threads.
pub open spec fn all_results(threads: Seq<ThreadMeasurement>) -> Seq<Results> {
    threads.map_values(|t: ThreadMeasurement| t.measurement.results)
}

/// The sum of what the threads of one worker measured.
pub open spec fn worker_total(threads: Seq<ThreadMeasurement>, worker: int) -> ResultsTally
    decreases threads.len(),
{
    if threads.len() == 0 {
        ResultsTally::zero()
    } else if threads.last().worker_index == worker {
        worker_total(threads.drop_last(), worker).plus(threads.last().measurement.results.tally())
    } else {
        worker_total(threads.drop_last(), worker)
    }
}

/// The counters of the threads of one worker, merged.
pub open spec fn worker_counters(threads: Seq<ThreadMeasurement>, worker: int) -> Seq<CounterValue>
    decreases threads.len(),
{
    if threads.len() == 0 {
        Seq::empty()
    } else if threads.last().worker_index == worker {
        counters::by_name(
            counters::merged_all(
                worker_counters(threads.drop_last(), worker),
                threads.last().measurement.counters@,
            ),
        )
    } else {
        worker_counters(threads.drop_last(), worker)
    }
}

/// The results with the time of the whole sample, as one chunk.
pub open spec fn over_wall_time(tally: ResultsTally, wall: Nanos) -> ResultsTally {
    ResultsTally { duration: wall.count as nat, chunks_executed: 1, ..tally }
}

/// The sum of the first `count` workers' totals.
pub open spec fn workers_total(threads: Seq<ThreadMeasurement>, count: int) -> ResultsTally
    decreases count,
{
    if count <= 0 {
        ResultsTally::zero()
    } else {
        workers_total(threads, count - 1).plus(worker_total(threads, count - 1))
    }
}

proof fn workers_total_of_empty(threads: Seq<ThreadMeasurement>, count: int)
    requires
        threads.len() == 0,
    ensures
        workers_total(threads, count) == ResultsTally::zero(),
    decreases count,
{
    if count > 0 {
        workers_total_of_empty(threads, count - 1);
    }
}

proof fn workers_total_step(threads: Seq<ThreadMeasurement>, count: int)
    requires
        threads.len() > 0,
    ensures
        workers_total(threads, count) == if threads.last().worker_index < count {
            workers_total(threads.drop_last(), count).plus(
                threads.last().measurement.results.tally(),
            )
        } else {
            workers_total(threads.drop_last(), count)
        },
    decreases count,
{
    if count > 0 {
        workers_total_step(threads, count - 1);
    }
}

/// The workers' parts add up to the whole: no measurement is lost and none is
/// counted twice.
pub proof fn workers_add_up(threads: Seq<ThreadMeasurement>, worker_count: int)
    requires
        forall|i: int|
            0 <= i < threads.len() ==> (#[trigger] threads[i]).worker_index < worker_count,
    ensures
        workers_total(threads, worker_count) == results::total(all_results(threads)),
    decreases threads.len(),
{
    if threads.len() == 0 {
        workers_total_of_empty(threads, worker_count);
    } else {
        let front = threads.drop_last();
        assert forall|i: int| 0 <= i < front.len() implies (#[trigger] front[i]).worker_index
            < worker_count by {
            assert(front[i] == threads[i]);
        }
        workers_add_up(front, worker_count);
        workers_total_step(threads, worker_count);
        assert(threads.last() == threads[threads.len() - 1]);
        assert(all_results(threads).drop_last() =~= all_results(front));
    }
}

/// Adds up what the threads of a sample measured. The sample's time is the
/// time that it took as a whole. `None` when a sum is too large to be held.
pub fn aggregate_sample(
    worker_count: usize,
    threads: Vec<ThreadMeasurement>,
    wall: Nanos,
) -> (r: Option<ConcurrentSampleResult>)
    requires
        wall.representable(),
        forall|i: int|
            0 <= i < threads@.len() ==> (#[trigger] threads@[i]).worker_index < worker_count,
    ensures
        r is Some == results::total(all_results(threads@)).representable(),
        r matches Some(sample) ==> {
            &&& sample.results.tally() == over_wall_time(
                results::total(all_results(threads@)),
                wall,
            )
            &&& sample.worker_summaries@.len() == worker_count
            &&& forall|w: int|
                0 <= w < worker_count ==> {
                    &&& (#[trigger] sample.worker_summaries@[w]).results.tally() == over_wall_time(
                        worker_total(threads@, w),
                        wall,
                    )
                    &&& sample.worker_summaries@[w].counters@ == worker_counters(threads@, w)
                }
        },
{
    let ghost whole = all_results(threads@);
    let mut aggregate = Results::default();
    let mut summaries: Vec<WorkerSampleSummary> = Vec::new();
    let mut w: usize = 0;
    while w < worker_count
        invariant
            w <= worker_count,
            summaries@.len() == w,
            forall|j: int|
                0 <= j < w ==> {
                    &&& (#[trigger] summaries@[j]).results == Results::none()
                    &&& summaries@[j].counters@ == Seq::<CounterValue>::empty()
                },
        decreases worker_count - w,
    {
        summaries.push(WorkerSampleSummary { results: Results::default(), counters: Vec::new() });
        w += 1;
    }
    let mut i: usize = 0;
    assert(threads@.take(0) =~= Seq::empty());
    assert(whole.take(0) =~= Seq::empty());
    while i < threads.len()
        invariant
            i <= threads.len(),
            whole == all_results(threads@),
            forall|j: int|
                0 <= j < threads@.len() ==> (#[trigger] threads@[j]).worker_index < worker_count,
            aggregate.tally().representable(),
            aggregate.tally() == results::total(whole.take(i as int)),
            summaries@.len() == worker_count,
            forall|j: int|
                0 <= j < worker_count ==> {
                    &&& (#[trigger] summaries@[j]).results.tally() == worker_total(
                        threads@.take(i as int),
                        j,
                    )
                    &&& summaries@[j].counters@ == worker_counters(threads@.take(i as int), j)
                    &&& summaries@[j].results.tally().within(aggregate.tally())
                },
        decreases threads.len() - i,
    {
        let ghost done = threads@.take(i as int);
        let ghost next = threads@.take(i + 1);
        proof {
            assert(next.drop_last() =~= done);
            assert(next.last() == threads@[i as int]);
            assert(whole.take(i + 1).drop_last() =~= whole.take(i as int));
            assert(whole.take(i + 1).last() == threads@[i as int].measurement.results);
            results::plus_adds_tallies(aggregate, threads@[i as int].measurement.results);
        }
        let measured = &threads[i].measurement;
        if !aggregate.can_add(&measured.results) {
            proof {
                results::total_grows(whole, i + 1);
            }
            return None;
        }
        let worker: usize = threads[i].worker_index;
        let mut worker_results = summaries[worker].results;
        proof {
            results::plus_adds_tallies(worker_results, measured.results);
        }
        worker_results.add(&measured.results);
        let mut merged = copy_counters(&summaries[worker].counters);
        merge_counter_values(&mut merged, measured.counters.as_slice());
        summaries.set(worker, WorkerSampleSummary { results: worker_results, counters: merged });
        aggregate.add(&measured.results);
        i += 1;
    }
    assert(whole.take(threads@.len() as int) =~= whole);
    assert(threads@.take(threads@.len() as int) =~= threads@);
    aggregate.duration = wall;
    aggregate.chunks_executed = 1;
    let mut finished: Vec<WorkerSampleSummary> = Vec::new();
    let mut j: usize = 0;
    while j < summaries.len()
        invariant
            j <= summaries.len(),
            summaries@.len() == worker_count,
            finished@.len() == j,
            forall|k: int|
                0 <= k < worker_count ==> {
                    &&& (#[trigger] summaries@[k]).results.tally() == worker_total(threads@, k)
                    &&& summaries@[k].counters@ == worker_counters(threads@, k)
                },
            forall|k: int|
                0 <= k < j ==> {
                    &&& (#[trigger] finished@[k]).results.tally() == over_wall_time(
                        worker_total(threads@, k),
                        wall,
                    )
                    &&& finished@[k].counters@ == worker_counters(threads@, k)
                },
        decreases summaries.len() - j,
    {
        let mut timed = summaries[j].results;
        timed.duration = wall;
        timed.chunks_executed = 1;
        let counters = copy_counters(&summaries[j].counters);
        finished.push(WorkerSampleSummary { results: timed, counters });
        j += 1;
    }
    Some(ConcurrentSampleResult { results: aggregate, worker_summaries: finished })
}

/// A copy of a list of counters.
pub fn copy_counters(list: &Vec<CounterValue>) -> (r: Vec<CounterValue>)
    ensures
        r@ == list@,
{
    let mut r: Vec<CounterValue> = Vec::new();
    let mut i: usize = 0;
    while i < list.len()
        invariant
            i <= list.len(),
            r@ == list@.take(i as int),
        decreases list.len() - i,
    {
        r.push(list[i]);
        i += 1;
        assert(r@ =~= list@.take(i as int));
    }
    assert(list@.take(list@.len() as int) =~= list@);
    r
}

} // verus!
