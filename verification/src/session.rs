//! Benchmark reports, and the sessions that collect them.
use crate::bench::backend::{MeasurementDomain, MetricFormat};
use crate::bench::throughput::Throughput;
use crate::context::ReportContext;
use crate::double::DoubleBits;
use crate::text;
use crate::text_map::TextMap;
use vstd::prelude::*;

pub mod changes;
pub mod store;
pub mod summary;

verus! {

/// The schema version of benchmark reports.
pub const REPORT_SCHEMA_VERSION: u32 = 1;

/// Which runner a benchmark used.
#[derive(Clone, Copy, Debug, PartialEq, Eq, Structural)]
pub enum BenchmarkKind {
    Standard,
    Concurrent,
}

/// With what a session is compared.
#[derive(Clone, Copy, Debug, PartialEq, Eq, Structural)]
pub enum ComparisonPolicy {
    NoComparison,
    LatestCompatible,
}

impl Default for ComparisonPolicy {
    fn default() -> (r: ComparisonPolicy)
        ensures
            r == ComparisonPolicy::NoComparison,
    {
        ComparisonPolicy::NoComparison
    }
}

/// A custom metric over the samples that reported it.
#[derive(Debug)]
pub struct MetricSummary {
    pub name: String,
    pub unit: String,
    pub section: String,
    pub display_name: String,
    pub format: MetricFormat,
    pub mean: DoubleBits,
    pub median: DoubleBits,
    pub p95: DoubleBits,
    pub min: DoubleBits,
    pub max: DoubleBits,
    pub samples: usize,
}

/// A metric that one sample reported.
#[derive(Debug)]
pub struct SampleMetric {
    pub name: String,
    pub value: DoubleBits,
    pub unit: String,
    pub section: String,
}

/// The metrics that one sample reported.
#[derive(Debug)]
pub struct SampleMetricSet {
    pub sample_index: usize,
    pub metrics: Vec<SampleMetric>,
}

/// The statistics of a benchmark.
#[derive(Debug)]
pub struct BenchmarkStats {
    pub throughput: Throughput,
    pub throughput_per_sec: DoubleBits,
    pub median_throughput_per_sec: DoubleBits,
    pub ns_per_op: DoubleBits,
    pub median_ns_per_op: DoubleBits,
    pub p95_ns_per_op: DoubleBits,
    pub mad_ns_per_op: DoubleBits,
    pub cycles_per_op: DoubleBits,
    pub instructions_per_op: DoubleBits,
    pub ipc: DoubleBits,
    pub cache_references_per_op: DoubleBits,
    pub l1i_misses_per_op: DoubleBits,
    pub branches_per_op: DoubleBits,
    pub branch_miss_rate: DoubleBits,
    pub branch_misses_per_op: DoubleBits,
    pub cache_misses_per_op: DoubleBits,
    pub cache_miss_percent: DoubleBits,
    pub frontend_stall_cycles_per_op: DoubleBits,
    pub frontend_stall_percent: DoubleBits,
    pub backend_stall_cycles_per_op: DoubleBits,
    pub backend_stall_percent: DoubleBits,
    pub cv_percent: DoubleBits,
    pub outlier_count: usize,
    pub samples: usize,
    pub operations: u64,
    pub total_duration_sec: DoubleBits,
    pub sample_throughput_per_sec: Vec<DoubleBits>,
    pub sample_latency_ns_per_op: Vec<DoubleBits>,
    pub has_cycles: bool,
    pub has_instructions: bool,
    pub has_cache_references: bool,
    pub has_l1i_misses: bool,
    pub has_branches: bool,
    pub has_branch_misses: bool,
    pub has_cache_misses: bool,
    pub has_stalled_cycles_frontend: bool,
    pub has_stalled_cycles_backend: bool,
    pub pmu_time_enabled_ns: u64,
    pub pmu_time_running_ns: u64,
    pub measurement_domain: MeasurementDomain,
    pub measurement_label: String,
    pub emits_cpu_diagnostics: bool,
    pub metrics: Vec<MetricSummary>,
    pub sample_metrics: Vec<SampleMetricSet>,
}

/// An event counter of a worker over all samples.
#[derive(Debug)]
pub struct WorkerCounterSummary {
    pub name: String,
    pub total: u64,
    pub per_op: DoubleBits,
    pub per_sec: DoubleBits,
}

/// The part of one worker in a concurrent benchmark.
#[derive(Debug)]
pub struct WorkerSummary {
    pub name: String,
    pub threads: usize,
    pub stats: BenchmarkStats,
    pub counters: Vec<WorkerCounterSummary>,
}

/// The result of one benchmark.
#[derive(Debug)]
pub struct BenchmarkResult {
    pub name: String,
    pub group: String,
    pub kind: BenchmarkKind,
    pub execution_index: usize,
    pub stats: BenchmarkStats,
    pub worker_summaries: Vec<WorkerSummary>,
    pub metadata: TextMap,
}

/// A persisted report of benchmark results.
#[derive(Debug)]
pub struct BenchmarkReport {
    pub schema_version: u32,
    pub timestamp: String,
    pub hostname: String,
    pub suite: Option<String>,
    pub git_commit: Option<String>,
    pub context: ReportContext,
    pub results: Vec<BenchmarkResult>,
}

/// What identifies a result within a session.
pub open spec fn case_key(result: BenchmarkResult) -> (Seq<char>, BenchmarkKind) {
    (result.name@, result.kind)
}

/// The cases of a list of results, each once whatever their number.
pub open spec fn case_keys(results: Seq<BenchmarkResult>) -> Set<(Seq<char>, BenchmarkKind)> {
    Set::new(
        |key: (Seq<char>, BenchmarkKind)|
            exists|i: int| 0 <= i < results.len() && case_key(#[trigger] results[i]) == key,
    )
}

fn has_case(results: &Vec<BenchmarkResult>, name: &str, kind: BenchmarkKind) -> (r: bool)
    ensures
        r == case_keys(results@).contains((name@, kind)),
{
    find_case(results, name, kind).is_some()
}

/// The first result of a case, if there is one.
pub fn find_case(results: &Vec<BenchmarkResult>, name: &str, kind: BenchmarkKind) -> (r: Option<
    usize,
>)
    ensures
        r is Some == case_keys(results@).contains((name@, kind)),
        r matches Some(i) ==> {
            &&& i < results@.len()
            &&& case_key(results@[i as int]) == (name@, kind)
            &&& forall|j: int| 0 <= j < i ==> case_key(#[trigger] results@[j]) != (name@, kind)
        },
{
    let mut i: usize = 0;
    while i < results.len()
        invariant
            i <= results.len(),
            forall|j: int| 0 <= j < i ==> case_key(#[trigger] results@[j]) != (name@, kind),
        decreases results.len() - i,
    {
        if text::same(results[i].name.as_str(), name) && results[i].kind == kind {
            assert(case_key(results@[i as int]) == (name@, kind));
            return Some(i);
        }
        i += 1;
    }
    None
}

fn every_case_in(results: &Vec<BenchmarkResult>, others: &Vec<BenchmarkResult>) -> (r: bool)
    ensures
        r == case_keys(results@).subset_of(case_keys(others@)),
{
    let mut i: usize = 0;
    while i < results.len()
        invariant
            i <= results.len(),
            forall|j: int|
                0 <= j < i ==> case_keys(others@).contains(case_key(#[trigger] results@[j])),
        decreases results.len() - i,
    {
        if !has_case(others, results[i].name.as_str(), results[i].kind) {
            assert(case_keys(results@).contains(case_key(results@[i as int])));
            return false;
        }
        i += 1;
    }
    assert forall|key: (Seq<char>, BenchmarkKind)| case_keys(results@).contains(key) implies case_keys(
        others@,
    ).contains(key) by {
        let j = choose|j: int| 0 <= j < results@.len() && case_key(#[trigger] results@[j]) == key;
        assert(case_keys(others@).contains(case_key(results@[j])));
    }
    true
}

/// Whether an earlier session can be compared with the current results: the
/// same host, the same suite and the same set of cases.
pub open spec fn compatible(
    session: BenchmarkReport,
    hostname: Seq<char>,
    suite: Seq<char>,
    current_results: Seq<BenchmarkResult>,
) -> bool {
    &&& session.hostname@ == hostname
    &&& session.suite matches Some(named) && named@ == suite
    &&& case_keys(session.results@) == case_keys(current_results)
}

pub fn session_is_compatible(
    session: &BenchmarkReport,
    hostname: &str,
    suite: &str,
    current_results: &Vec<BenchmarkResult>,
) -> (r: bool)
    ensures
        r == compatible(*session, hostname@, suite@, current_results@),
{
    if !text::same(session.hostname.as_str(), hostname) {
        return false;
    }
    let same_suite = match &session.suite {
        Some(named) => text::same(named.as_str(), suite),
        None => false,
    };
    if !same_suite {
        return false;
    }
    let forth = every_case_in(&session.results, current_results);
    let back = every_case_in(current_results, &session.results);
    proof {
        if forth && back {
            assert(case_keys(session.results@) =~= case_keys(current_results@));
        }
    }
    forth && back
}

/// The earlier result with which a result is compared, if there is one.
pub fn matching_previous_result(previous: &BenchmarkReport, result: &BenchmarkResult) -> (r: Option<
    usize,
>)
    ensures
        r is Some == case_keys(previous.results@).contains(case_key(*result)),
        r matches Some(i) ==> {
            &&& i < previous.results@.len()
            &&& case_key(previous.results@[i as int]) == case_key(*result)
            &&& forall|j: int|
                0 <= j < i ==> case_key(#[trigger] previous.results@[j]) != case_key(*result)
        },
{
    find_case(&previous.results, result.name.as_str(), result.kind)
}

/// In a compatible session every current result has its earlier counterpart.
pub proof fn compatible_sessions_pair_every_result(
    session: BenchmarkReport,
    hostname: Seq<char>,
    suite: Seq<char>,
    current_results: Seq<BenchmarkResult>,
    i: int,
)
    requires
        compatible(session, hostname, suite, current_results),
        0 <= i < current_results.len(),
    ensures
        case_keys(session.results@).contains(case_key(current_results[i])),
{
    assert(case_keys(current_results).contains(case_key(current_results[i])));
}

/// A rate that can be ranked: a finite number that is not negative.
pub open spec fn rankable(rate: DoubleBits) -> bool {
    rate.finite() && rate.rank() >= 0
}

pub fn finite_mops(mops: DoubleBits) -> (r: Option<DoubleBits>)
    ensures
        r == if rankable(mops) {
            Some(mops)
        } else {
            None
        },
{
    if mops.is_finite() && mops.ge(DoubleBits { bits: 0 }) {
        Some(mops)
    } else {
        None
    }
}

/// A benchmark session: where and when it runs, and what it has collected.
#[derive(Debug)]
pub struct BenchmarkSession {
    pub timestamp: String,
    pub hostname: String,
    pub suite: String,
    pub git_commit: Option<String>,
    pub context: ReportContext,
    pub results: Vec<BenchmarkResult>,
}

impl BenchmarkSession {
    pub fn new(
        timestamp: String,
        hostname: String,
        suite: String,
        git_commit: Option<String>,
        context: ReportContext,
    ) -> (r: BenchmarkSession)
        ensures
            r.timestamp == timestamp,
            r.hostname == hostname,
            r.suite == suite,
            r.git_commit == git_commit,
            r.context == context,
            r.results@.len() == 0,
    {
        BenchmarkSession { timestamp, hostname, suite, git_commit, context, results: Vec::new() }
    }

    /// Appends a result.
    pub fn add_result(&mut self, result: BenchmarkResult)
        ensures
            final(self).results@ == old(self).results@.push(result),
            final(self).timestamp == old(self).timestamp,
            final(self).hostname == old(self).hostname,
            final(self).suite == old(self).suite,
            final(self).git_commit == old(self).git_commit,
            final(self).context == old(self).context,
    {
        self.results.push(result);
    }

    pub fn get_results(&self) -> (r: &Vec<BenchmarkResult>)
        ensures
            r@ == self.results@,
    {
        &self.results
    }

    /// Forgets what was collected.
    pub fn clear(&mut self)
        ensures
            final(self).results@.len() == 0,
            final(self).timestamp == old(self).timestamp,
            final(self).hostname == old(self).hostname,
            final(self).suite == old(self).suite,
            final(self).git_commit == old(self).git_commit,
            final(self).context == old(self).context,
    {
        self.results.clear();
    }

    /// The report of the session.
    pub fn report(self) -> (r: BenchmarkReport)
        ensures
            r.schema_version == REPORT_SCHEMA_VERSION,
            r.timestamp == self.timestamp,
            r.hostname == self.hostname,
            r.suite == Some(self.suite),
            r.git_commit == self.git_commit,
            r.context == self.context,
            r.results == self.results,
    {
        BenchmarkReport {
            schema_version: REPORT_SCHEMA_VERSION,
            timestamp: self.timestamp,
            hostname: self.hostname,
            suite: Some(self.suite),
            git_commit: self.git_commit,
            context: self.context,
            results: self.results,
        }
    }
}

} // verus!
