//! What a running benchmark has collected so far.
use crate::bench::backend;
use crate::bench::backend::{default_sections, measured_or_host, MetricValue};
use crate::bench::concurrent::{copy_counters, ConcurrentSampleResult, WorkerSampleSummary};
use crate::bench::counters;
use crate::bench::counters::{merge_counter_values, CounterValue};
use crate::bench::results;
use crate::bench::results::{apply_concurrent_backend_results, Results};
use crate::time::Nanos;
use vstd::prelude::*;

verus! {

/// A sample with its time: the one measured, or the host's where none was.
pub open spec fn timed(sample: Results, host_elapsed: Nanos) -> Results {
    Results { duration: backend::sample_time(sample.duration, host_elapsed), ..sample }
}

/// The samples of a standard benchmark.
pub struct StandardRun {
    pub summed: Results,
    pub samples: Vec<Results>,
    pub metrics: Vec<Vec<MetricValue>>,
}

impl StandardRun {
    /// The sum is that of the samples, and each sample has its metrics.
    pub open spec fn well_formed(&self) -> bool {
        &&& self.summed.tally() == results::total(self.samples@)
        &&& self.metrics@.len() == self.samples@.len()
    }

    pub fn start() -> (r: StandardRun)
        ensures
            r.well_formed(),
            r.summed == Results::none(),
            r.samples@.len() == 0,
            r.metrics@.len() == 0,
    {
        StandardRun { summed: Results::default(), samples: Vec::new(), metrics: Vec::new() }
    }

    /// Takes in one sample. Returns false, and changes nothing, where the sum
    /// is too large to be held.
    pub fn record(&mut self, sample: Results, host_elapsed: Nanos, metrics: Vec<MetricValue>) -> (r:
        bool)
        requires
            old(self).well_formed(),
        ensures
            final(self).well_formed(),
            r == results::total(
                old(self).samples@.push(timed(sample, host_elapsed)),
            ).representable(),
            r ==> {
                &&& final(self).summed == old(self).summed.plus(timed(sample, host_elapsed))
                &&& final(self).samples@ == old(self).samples@.push(timed(sample, host_elapsed))
                &&& final(self).metrics@ == old(self).metrics@.push(metrics)
            },
            !r ==> *final(self) == *old(self),
    {
        let mut measured = sample;
        measured.duration = measured_or_host(sample.duration, host_elapsed);
        let ghost longer = self.samples@.push(measured);
        proof {
            assert(longer.drop_last() =~= self.samples@);
            results::plus_adds_tallies(self.summed, measured);
        }
        if !self.summed.can_add(&measured) {
            return false;
        }
        self.summed.add(&measured);
        self.samples.push(measured);
        self.metrics.push(metrics);
        true
    }
}

/// The metrics of the samples, then those of the diagnostic pass.
pub fn with_diagnostics(metrics: Vec<Vec<MetricValue>>, diagnostics: Vec<Vec<MetricValue>>) -> (r:
    Vec<Vec<MetricValue>>)
    ensures
        r@ == metrics@ + diagnostics@,
{
    let mut all = metrics;
    let mut more = diagnostics;
    all.append(&mut more);
    all
}

/// The samples of one worker.
pub struct WorkerRun {
    pub summed: Results,
    pub samples: Vec<Results>,
    pub counters: Vec<CounterValue>,
}

impl WorkerRun {
    /// The sum is that of the samples.
    pub open spec fn well_formed(&self) -> bool {
        self.summed.tally() == results::total(self.samples@)
    }
}

/// One worker's samples with one more.
pub open spec fn worker_extended(before: WorkerRun, sample: WorkerSampleSummary, after: WorkerRun) -> bool {
    &&& after.summed == before.summed.plus(sample.results)
    &&& after.samples@ == before.samples@.push(sample.results)
    &&& after.counters@ == counters::by_name(
        counters::merged_all(before.counters@, sample.counters@),
    )
}

/// The samples of a concurrent benchmark.
pub struct ConcurrentRun {
    pub summed: Results,
    pub samples: Vec<Results>,
    pub metrics: Vec<Vec<MetricValue>>,
    pub workers: Vec<WorkerRun>,
}

/// The results of a sample, with what a backend measured of it.
pub open spec fn scenario_results(sample: Results, measured: Option<Results>) -> Results {
    match measured {
        Some(m) => results::backend_applied(sample, m),
        None => sample,
    }
}

impl ConcurrentRun {
    /// Every sum is that of its samples, each sample has its metrics, and every
    /// worker has a part in each sample.
    pub open spec fn well_formed(&self) -> bool {
        &&& self.summed.tally() == results::total(self.samples@)
        &&& self.metrics@.len() == self.samples@.len()
        &&& forall|w: int|
            0 <= w < self.workers@.len() ==> {
                &&& (#[trigger] self.workers@[w]).well_formed()
                &&& self.workers@[w].samples@.len() == self.samples@.len()
            }
    }

    pub fn start(worker_count: usize) -> (r: ConcurrentRun)
        ensures
            r.well_formed(),
            r.summed == Results::none(),
            r.samples@.len() == 0,
            r.metrics@.len() == 0,
            r.workers@.len() == worker_count,
            forall|w: int|
                0 <= w < worker_count ==> {
                    &&& (#[trigger] r.workers@[w]).summed == Results::none()
                    &&& r.workers@[w].samples@.len() == 0
                    &&& r.workers@[w].counters@.len() == 0
                },
    {
        let mut workers: Vec<WorkerRun> = Vec::new();
        let mut w: usize = 0;
        while w < worker_count
            invariant
                w <= worker_count,
                workers@.len() == w,
                forall|j: int|
                    0 <= j < w ==> {
                        &&& (#[trigger] workers@[j]).summed == Results::none()
                        &&& workers@[j].samples@.len() == 0
                        &&& workers@[j].counters@.len() == 0
                    },
            decreases worker_count - w,
        {
            workers.push(
                WorkerRun { summed: Results::default(), samples: Vec::new(), counters: Vec::new() },
            );
            w += 1;
        }
        ConcurrentRun {
            summed: Results::default(),
            samples: Vec::new(),
            metrics: Vec::new(),
            workers,
        }
    }

    /// Every sum of the run with one more sample fits.
    pub open spec fn has_room(
        &self,
        sample: ConcurrentSampleResult,
        measured: Option<Results>,
    ) -> bool {
        &&& self.summed.fits(scenario_results(sample.results, measured))
        &&& forall|w: int|
            0 <= w < self.workers@.len() ==> (#[trigger] self.workers@[w]).summed.fits(
                sample.worker_summaries@[w].results,
            )
    }

    /// The run with one more sample; its metrics without a section belong to
    /// the scenario.
    pub open spec fn extended(
        before: ConcurrentRun,
        sample: ConcurrentSampleResult,
        measured: Option<Results>,
        metrics: Seq<MetricValue>,
        after: ConcurrentRun,
    ) -> bool {
        &&& after.summed == before.summed.plus(scenario_results(sample.results, measured))
        &&& after.samples@ == before.samples@.push(scenario_results(sample.results, measured))
        &&& after.metrics@.len() == before.metrics@.len() + 1
        &&& after.metrics@.take(before.metrics@.len() as int) == before.metrics@
        &&& exists|section: &'static str|
            section@ == "scenario"@ && after.metrics@.last()@ == #[trigger] backend::all_in_section(
                metrics,
                section,
            )
        &&& after.workers@.len() == before.workers@.len()
        &&& forall|w: int|
            0 <= w < before.workers@.len() ==> worker_extended(
                #[trigger] before.workers@[w],
                sample.worker_summaries@[w],
                after.workers@[w],
            )
    }

    fn check_room(&self, results: &Results, sample: &ConcurrentSampleResult) -> (r: bool)
        requires
            sample.worker_summaries@.len() == self.workers@.len(),
        ensures
            r == (self.summed.fits(*results) && forall|w: int|
                0 <= w < self.workers@.len() ==> (#[trigger] self.workers@[w]).summed.fits(
                    sample.worker_summaries@[w].results,
                )),
    {
        if !self.summed.can_add(results) {
            return false;
        }
        let mut w: usize = 0;
        while w < self.workers.len()
            invariant
                w <= self.workers.len(),
                sample.worker_summaries@.len() == self.workers@.len(),
                forall|j: int|
                    0 <= j < w ==> (#[trigger] self.workers@[j]).summed.fits(
                        sample.worker_summaries@[j].results,
                    ),
            decreases self.workers.len() - w,
        {
            if !self.workers[w].summed.can_add(&sample.worker_summaries[w].results) {
                assert(!self.workers@[w as int].summed.fits(
                    sample.worker_summaries@[w as int].results,
                ));
                return false;
            }
            w += 1;
        }
        true
    }

    /// Takes in one sample, what a backend measured of it, and its metrics;
    /// metrics without a section belong to the scenario. Returns false, and
    /// changes nothing, where a sum is too large to be held.
    pub fn record(
        &mut self,
        sample: ConcurrentSampleResult,
        measured: Option<Results>,
        metrics: Vec<MetricValue>,
    ) -> (r: bool)
        requires
            old(self).well_formed(),
            sample.worker_summaries@.len() == old(self).workers@.len(),
        ensures
            final(self).well_formed(),
            r == old(self).has_room(sample, measured),
            r ==> ConcurrentRun::extended(*old(self), sample, measured, metrics@, *final(self)),
            !r ==> *final(self) == *old(self),
    {
        let mut results = sample.results;
        match measured {
            Some(m) => {
                apply_concurrent_backend_results(&mut results, m);
            },
            None => {},
        }
        if !self.check_room(&results, &sample) {
            return false;
        }
        let section = "scenario";
        let sectioned = default_sections(metrics, section);
        let mut extended: Vec<WorkerRun> = Vec::new();
        let mut w: usize = 0;
        while w < self.workers.len()
            invariant
                w <= self.workers.len(),
                sample.worker_summaries@.len() == self.workers@.len(),
                *self == *old(self),
                forall|j: int|
                    0 <= j < self.workers@.len() ==> (#[trigger] self.workers@[j]).summed.fits(
                        sample.worker_summaries@[j].results,
                    ),
                self.well_formed(),
                extended@.len() == w,
                forall|j: int|
                    0 <= j < w ==> worker_extended(
                        #[trigger] self.workers@[j],
                        sample.worker_summaries@[j],
                        extended@[j],
                    ),
                forall|j: int|
                    0 <= j < w ==> {
                        &&& (#[trigger] extended@[j]).well_formed()
                        &&& extended@[j].samples@.len() == self.samples@.len() + 1
                    },
            decreases self.workers.len() - w,
        {
            let part = &sample.worker_summaries[w];
            let mut summed = self.workers[w].summed;
            summed.add(&part.results);
            let mut samples = copy_results(&self.workers[w].samples);
            samples.push(part.results);
            let mut merged = copy_counters(&self.workers[w].counters);
            merge_counter_values(&mut merged, part.counters.as_slice());
            proof {
                assert(self.workers@[w as int].well_formed());
                assert(samples@.drop_last() =~= self.workers@[w as int].samples@);
                results::plus_adds_tallies(self.workers@[w as int].summed, part.results);
            }
            extended.push(WorkerRun { summed, samples, counters: merged });
            w += 1;
        }
        self.workers = extended;
        self.metrics.push(sectioned);
        assert(self.metrics@.take(old(self).metrics@.len() as int) =~= old(self).metrics@);
        proof {
            results::plus_adds_tallies(self.summed, results);
        }
        self.summed.add(&results);
        self.samples.push(results);
        assert(self.samples@.drop_last() =~= old(self).samples@);
        assert(self.metrics@.last()@ == backend::all_in_section(metrics@, section));
        true
    }
}

fn copy_results(list: &Vec<Results>) -> (r: Vec<Results>)
    ensures
        r@ == list@,
{
    let mut r: Vec<Results> = Vec::new();
    let mut i: usize = 0;
    while i < list.len()
        invariant
            i <= list.len(),
            r@ == list@.take(i as int),
        decreases list.len() - i,
    {
        r.push(list[i]);
        i += 1;
        assert(r@ =~= list@.take(i as int));
    }
    assert(list@.take(list@.len() as int) =~= list@);
    r
}

} // verus!
