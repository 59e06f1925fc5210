//! Running benchmarks: what is run, how samples add up, what is reported.
use crate::text;
use crate::text_map::TextMap;
use crate::time::Nanos;
use vstd::prelude::*;

pub mod affinity;
pub mod backend;
pub mod calibration;
pub mod concurrent;
pub mod counters;
pub mod cuda;
pub mod diagnosis;
pub mod engine;
pub mod gpu_counters;
pub mod metrics;
pub mod order;
pub mod perf;
pub mod perf_memory;
pub mod report;
pub mod results;
pub mod run;
pub mod stats;
pub mod throughput;

use crate::bench::backend::MeasurementDomain;
use crate::bench::calibration::BenchmarkRuntimeOptions;
use crate::bench::concurrent::{
    total_worker_threads, ConcurrentBenchContext, ConcurrentWorker,
};
use crate::bench::order::BenchmarkCaseOrder;
use crate::bench::throughput::Throughput;

verus! {

/// What a benchmark prepares before each sample.
pub trait BenchContext: Sized {
    fn prepare(num_chunks: usize) -> Self;

    /// The chunk size to use in place of a calibrated one.
    fn chunk_size() -> (r: Option<usize>)
        default_ensures
            r is None,
    {
        None
    }

    /// The operations that one chunk stands for.
    fn operations_per_chunk() -> (r: Option<u64>)
        default_ensures
            r is None,
    {
        None
    }
}

/// The context of a benchmark that needs none.
pub struct NoContext;

impl BenchContext for NoContext {
    fn prepare(num_chunks: usize) -> (r: NoContext) {
        NoContext
    }
}

impl ConcurrentBenchContext for NoContext {
    fn prepare(num_threads: usize) -> (r: NoContext) {
        NoContext
    }
}

/// The operations of one chunk: those that the context declares, or else its size.
pub fn chunk_operations(declared: Option<u64>, chunk_size: usize) -> (r: u64)
    ensures
        r == match declared {
            Some(operations) => operations,
            None => chunk_size as u64,
        },
{
    match declared {
        Some(operations) => operations,
        None => chunk_size as u64,
    }
}

/// Which cases run, how long, and with what pauses between them.
#[derive(Debug)]
pub struct BenchmarkRunner {
    pub filter: Option<String>,
    pub runtime: BenchmarkRuntimeOptions,
    pub case_cooldown: Nanos,
    pub cases_started: usize,
}

/// Whether a filter lets a case through: it is `all`, or it occurs in the name
/// of the case or of its group.
pub open spec fn selected(filter: Option<String>, name: Seq<char>, group: Seq<char>) -> bool {
    match filter {
        None => true,
        Some(filter) => filter@ == "all"@ || text::occurs(name, filter@) || text::occurs(
            group,
            filter@,
        ) || filter@ == group,
    }
}

impl BenchmarkRunner {
    pub fn new() -> (r: BenchmarkRunner)
        ensures
            r.filter is None,
            r.runtime.validity() is Ok,
            r.runtime.warm_up_duration.count == 1_000_000_000,
            r.runtime.benchmark_duration.count == 5_000_000_000,
            r.runtime.min_samples == calibration::MIN_SAMPLES,
            r.runtime.max_samples == calibration::MAX_SAMPLES,
            r.case_cooldown.count == 0,
            r.cases_started == 0,
    {
        BenchmarkRunner {
            filter: None,
            runtime: BenchmarkRuntimeOptions::default(),
            case_cooldown: Nanos::zero(),
            cases_started: 0,
        }
    }

    pub fn with_filter(self, filter: Option<&str>) -> (r: BenchmarkRunner)
        ensures
            r.filter is Some == filter is Some,
            filter matches Some(f) ==> r.filter->0@ == f@,
            r.runtime == self.runtime,
            r.case_cooldown == self.case_cooldown,
            r.cases_started == self.cases_started,
    {
        let filter = match filter {
            Some(f) => Some(f.to_owned()),
            None => None,
        };
        BenchmarkRunner { filter, ..self }
    }

    pub fn with_runtime(self, runtime: BenchmarkRuntimeOptions) -> (r: BenchmarkRunner)
        requires
            runtime.validity() is Ok,
        ensures
            r == (BenchmarkRunner { runtime, ..self }),
    {
        BenchmarkRunner { runtime, ..self }
    }

    pub fn set_runtime(&mut self, runtime: BenchmarkRuntimeOptions) -> (r: &mut BenchmarkRunner)
        requires
            runtime.validity() is Ok,
        ensures
            *r == (BenchmarkRunner { runtime, ..*old(self) }),
            *final(self) == *final(r),
    {
        self.runtime = runtime;
        self
    }

    pub fn with_case_cooldown(self, cooldown: Nanos) -> (r: BenchmarkRunner)
        ensures
            r == (BenchmarkRunner { case_cooldown: cooldown, ..self }),
    {
        BenchmarkRunner { case_cooldown: cooldown, ..self }
    }

    pub fn set_case_cooldown(&mut self, cooldown: Nanos) -> (r: &mut BenchmarkRunner)
        ensures
            *r == (BenchmarkRunner { case_cooldown: cooldown, ..*old(self) }),
            *final(self) == *final(r),
    {
        self.case_cooldown = cooldown;
        self
    }

    /// The order in which a list of cases is run.
    pub fn ordered_case_indices(&self, case_count: usize, order: BenchmarkCaseOrder) -> (r: Vec<
        usize,
    >)
        ensures
            r@ == order.order(case_count as nat),
    {
        order.indices(case_count)
    }

    /// Whether a case is run.
    pub fn should_run(&self, name: &str, group: &str) -> (r: bool)
        ensures
            r == selected(self.filter, name@, group@),
    {
        match &self.filter {
            None => true,
            Some(filter) => text::same(filter.as_str(), "all") || text::contains(
                name,
                filter.as_str(),
            ) || text::contains(group, filter.as_str()) || text::same(filter.as_str(), group),
        }
    }

    /// Counts a case, and says how long to pause before it: the cooldown, but
    /// none before the first case. The count wraps around.
    pub fn begin_case(&mut self) -> (r: Option<Nanos>)
        ensures
            *final(self) == (BenchmarkRunner {
                cases_started: if old(self).cases_started < usize::MAX {
                    (old(self).cases_started + 1) as usize
                } else {
                    0
                },
                ..*old(self)
            }),
            r == if old(self).cases_started > 0 && old(self).case_cooldown.count > 0 {
                Some(old(self).case_cooldown)
            } else {
                None
            },
    {
        let first = self.cases_started == 0;
        self.cases_started = if self.cases_started < usize::MAX { self.cases_started + 1 } else { 0 };
        if !first && !self.case_cooldown.is_zero() {
            Some(self.case_cooldown)
        } else {
            None
        }
    }
}

impl Default for BenchmarkRunner {
    fn default() -> (r: BenchmarkRunner)
        ensures
            r.filter is None,
            r.runtime.validity() is Ok,
            r.runtime.warm_up_duration.count == 1_000_000_000,
            r.runtime.benchmark_duration.count == 5_000_000_000,
            r.runtime.min_samples == calibration::MIN_SAMPLES,
            r.runtime.max_samples == calibration::MAX_SAMPLES,
            r.case_cooldown.count == 0,
            r.cases_started == 0,
    {
        BenchmarkRunner::new()
    }
}

/// Why a concurrent case cannot be run.
#[derive(Clone, Copy, Debug, PartialEq, Eq, Structural)]
pub enum ConcurrentCaseError {
    NoSampleTime,
    NoThreads,
}

impl ConcurrentCaseError {
    pub open spec fn message_text(self) -> Seq<char> {
        match self {
            ConcurrentCaseError::NoSampleTime =>
                "concurrent benchmark sample_duration must be > 0"@,
            ConcurrentCaseError::NoThreads =>
                "concurrent benchmark requires at least one worker thread"@,
        }
    }

    pub fn message(&self) -> (r: &'static str)
        ensures
            r@ == self.message_text(),
    {
        match self {
            ConcurrentCaseError::NoSampleTime =>
                "concurrent benchmark sample_duration must be > 0",
            ConcurrentCaseError::NoThreads =>
                "concurrent benchmark requires at least one worker thread",
        }
    }
}

/// Accepts a concurrent case that has time for its samples and at least one
/// thread.
pub fn check_concurrent_case<R>(sample_duration: Nanos, workers: &[ConcurrentWorker<R>]) -> (r: Result<
    (),
    ConcurrentCaseError,
>)
    ensures
        r == if sample_duration.count == 0 {
            Err(ConcurrentCaseError::NoSampleTime)
        } else if concurrent::threads_before(workers@, workers@.len() as int) == 0 {
            Err(ConcurrentCaseError::NoThreads)
        } else {
            Ok(())
        },
{
    if sample_duration.is_zero() {
        return Err(ConcurrentCaseError::NoSampleTime);
    }
    match total_worker_threads(workers) {
        Some(threads) => {
            if threads == 0 {
                Err(ConcurrentCaseError::NoThreads)
            } else {
                Ok(())
            }
        },
        None => Ok(()),
    }
}

/// What the cases of a concurrent group share.
#[derive(Debug)]
pub struct ConcurrentGroupOptions {
    pub throughput: Throughput,
    pub measurement_domain: MeasurementDomain,
    pub metadata: TextMap,
}

impl ConcurrentGroupOptions {
    pub fn new() -> (r: ConcurrentGroupOptions)
        ensures
            r.throughput.amount() == 1,
            r.throughput.unit_text() == "ops"@,
            r.measurement_domain == MeasurementDomain::Cpu,
            r.metadata@ == Map::<Seq<char>, Seq<char>>::empty(),
    {
        ConcurrentGroupOptions {
            throughput: Throughput::ops(),
            measurement_domain: MeasurementDomain::Cpu,
            metadata: TextMap::new(),
        }
    }

    pub fn with_throughput(&self, throughput: Throughput) -> (r: ConcurrentGroupOptions)
        ensures
            r.throughput == throughput,
            r.measurement_domain == self.measurement_domain,
            r.metadata@ == self.metadata@,
    {
        ConcurrentGroupOptions {
            throughput,
            measurement_domain: self.measurement_domain,
            metadata: self.metadata.duplicate(),
        }
    }

    pub fn with_domain(&self, measurement_domain: MeasurementDomain) -> (r: ConcurrentGroupOptions)
        ensures
            r.throughput == self.throughput,
            r.measurement_domain == measurement_domain,
            r.metadata@ == self.metadata@,
    {
        ConcurrentGroupOptions {
            throughput: self.throughput.duplicate(),
            measurement_domain,
            metadata: self.metadata.duplicate(),
        }
    }

    pub fn with_metadata(&self, key: String, value: String) -> (r: ConcurrentGroupOptions)
        ensures
            r.throughput == self.throughput,
            r.measurement_domain == self.measurement_domain,
            r.metadata@ == self.metadata@.insert(key@, value@),
    {
        ConcurrentGroupOptions {
            throughput: self.throughput.duplicate(),
            measurement_domain: self.measurement_domain,
            metadata: self.metadata.duplicate().inserted(key, value),
        }
    }
}

/// A filter that is the whole name or group of a case, or any part of it,
/// selects that case.
pub proof fn filter_selects_its_parts(filter: String, name: Seq<char>, group: Seq<char>)
    requires
        text::occurs(name, filter@) || text::occurs(group, filter@),
    ensures
        selected(Some(filter), name, group),
{
}

} // verus!
