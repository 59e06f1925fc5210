//! Comparison of persisted benchmark evidence, free of side effects.
use crate::bench::backend::{MeasurementDomain, MetricFormat};
use crate::bench::throughput::Throughput;
use crate::double;
use crate::double::DoubleBits;
use crate::series::{SeriesResult, Validity};
use crate::session::{BenchmarkKind, BenchmarkResult};
use crate::text;
use crate::text_map::TextMap;
use vstd::prelude::*;

pub mod compare;
pub mod document;
pub mod engine;
pub mod error;
pub mod normalize;
pub mod outcome;
pub mod pairing;

verus! {

/// The schema version of comparison reports.
pub const COMPARISON_SCHEMA_VERSION: u32 = 1;

/// What a measurement measures.
#[derive(Clone, Copy, Debug, PartialEq, Eq, Structural)]
pub enum MeasurementKind {
    Latency,
    Throughput,
    Memory,
    Occupancy,
    Custom,
}

/// Whether larger or smaller values are better.
#[derive(Clone, Copy, Debug, PartialEq, Eq, Structural)]
pub enum MeasurementDirection {
    Lower,
    Higher,
    Informational,
}

/// An operator's reason for comparing environments that differ.
#[derive(Debug, PartialEq)]
pub struct EnvironmentOverride {
    pub reason: String,
}

/// What a comparison permits. By default both reports hold the same set of
/// results and come from the same environment, while two directories need not
/// hold the same suites.
#[derive(Debug, PartialEq)]
pub struct ComparisonOptions {
    pub allow_partial_result_set: bool,
    pub require_same_suite_set: bool,
    pub environment_override: Option<EnvironmentOverride>,
}

impl Default for ComparisonOptions {
    fn default() -> (r: ComparisonOptions)
        ensures
            !r.allow_partial_result_set,
            !r.require_same_suite_set,
            r.environment_override is None,
    {
        ComparisonOptions {
            allow_partial_result_set: false,
            require_same_suite_set: false,
            environment_override: None,
        }
    }
}

impl ComparisonOptions {
    pub fn allow_partial_result_set(self, allow: bool) -> (r: ComparisonOptions)
        ensures
            r == (ComparisonOptions { allow_partial_result_set: allow, ..self }),
    {
        ComparisonOptions { allow_partial_result_set: allow, ..self }
    }

    pub fn require_same_suite_set(self, require: bool) -> (r: ComparisonOptions)
        ensures
            r == (ComparisonOptions { require_same_suite_set: require, ..self }),
    {
        ComparisonOptions { require_same_suite_set: require, ..self }
    }

    /// Permits a runner or an environment that differs, for a stated reason.
    pub fn with_environment_override(self, reason: String) -> (r: ComparisonOptions)
        ensures
            r == (ComparisonOptions {
                environment_override: Some(EnvironmentOverride { reason }),
                ..self
            }),
    {
        ComparisonOptions { environment_override: Some(EnvironmentOverride { reason }), ..self }
    }
}

/// How the environments of two reports relate.
#[derive(Debug)]
pub struct EnvironmentComparison {
    pub current_runner_id: String,
    pub baseline_runner_id: String,
    pub current_environment: TextMap,
    pub baseline_environment: TextMap,
    pub exact_match: bool,
    pub operator_override: Option<EnvironmentOverride>,
}

/// Which side of a comparison.
#[derive(Clone, Copy, Debug, PartialEq, Eq, Structural)]
pub enum ComparisonSide {
    Current,
    Baseline,
}

impl ComparisonSide {
    pub open spec fn text(self) -> Seq<char> {
        match self {
            ComparisonSide::Current => "current"@,
            ComparisonSide::Baseline => "baseline"@,
        }
    }

    pub fn name(&self) -> (r: &'static str)
        ensures
            r@ == self.text(),
    {
        match self {
            ComparisonSide::Current => "current",
            ComparisonSide::Baseline => "baseline",
        }
    }
}

/// What identifies a native benchmark case.
#[derive(Debug)]
pub struct BenchmarkCaseIdentity {
    pub group: String,
    pub name: String,
    pub kind: BenchmarkKind,
    pub throughput: Throughput,
    pub measurement_domain: MeasurementDomain,
    pub metadata: TextMap,
}

/// What identifies a case of a series.
#[derive(Debug)]
pub struct SeriesCaseIdentity {
    pub group: String,
    pub name: String,
    pub measurement: MeasurementKind,
    pub unit: String,
    pub direction: MeasurementDirection,
    pub dimensions: TextMap,
}

/// What identifies a case.
#[derive(Debug)]
pub enum ComparisonCaseIdentity {
    Native(BenchmarkCaseIdentity),
    Series(SeriesCaseIdentity),
}

/// The contents of an identity: two cases are the same when these are equal.
pub ghost enum CaseKey {
    Native {
        group: Seq<char>,
        name: Seq<char>,
        kind: BenchmarkKind,
        amount: u64,
        unit: Seq<char>,
        domain: MeasurementDomain,
        metadata: Map<Seq<char>, Seq<char>>,
    },
    Series {
        group: Seq<char>,
        name: Seq<char>,
        measurement: MeasurementKind,
        unit: Seq<char>,
        direction: MeasurementDirection,
        dimensions: Map<Seq<char>, Seq<char>>,
    },
}

/// What identifies a native result.
pub open spec fn native_key(result: BenchmarkResult) -> CaseKey {
    CaseKey::Native {
        group: result.group@,
        name: result.name@,
        kind: result.kind,
        amount: result.stats.throughput.amount(),
        unit: result.stats.throughput.unit_text(),
        domain: result.stats.measurement_domain,
        metadata: result.metadata@,
    }
}

/// What identifies a result of a series.
pub open spec fn series_key(result: SeriesResult) -> CaseKey {
    CaseKey::Series {
        group: result.group@,
        name: result.name@,
        measurement: result.measurement,
        unit: result.unit@,
        direction: result.direction,
        dimensions: result.dimensions@,
    }
}

impl BenchmarkCaseIdentity {
    pub open spec fn key(&self) -> CaseKey {
        CaseKey::Native {
            group: self.group@,
            name: self.name@,
            kind: self.kind,
            amount: self.throughput.amount(),
            unit: self.throughput.unit_text(),
            domain: self.measurement_domain,
            metadata: self.metadata@,
        }
    }

    pub fn from_result(result: &BenchmarkResult) -> (r: BenchmarkCaseIdentity)
        ensures
            r.key() == native_key(*result),
    {
        BenchmarkCaseIdentity {
            group: result.group.clone(),
            name: result.name.clone(),
            kind: result.kind,
            throughput: result.stats.throughput.duplicate(),
            measurement_domain: result.stats.measurement_domain,
            metadata: result.metadata.duplicate(),
        }
    }

    pub fn same(&self, other: &BenchmarkCaseIdentity) -> (r: bool)
        ensures
            r == (self.key() == other.key()),
    {
        text::same(self.group.as_str(), other.group.as_str()) && text::same(
            self.name.as_str(),
            other.name.as_str(),
        ) && self.kind == other.kind && self.throughput.same(&other.throughput)
            && self.measurement_domain == other.measurement_domain && self.metadata.same(
            &other.metadata,
        )
    }

    /// A copy.
    pub fn duplicate(&self) -> (r: BenchmarkCaseIdentity)
        ensures
            r.key() == self.key(),
    {
        BenchmarkCaseIdentity {
            group: self.group.clone(),
            name: self.name.clone(),
            kind: self.kind,
            throughput: self.throughput.duplicate(),
            measurement_domain: self.measurement_domain,
            metadata: self.metadata.duplicate(),
        }
    }
}

impl SeriesCaseIdentity {
    pub open spec fn key(&self) -> CaseKey {
        CaseKey::Series {
            group: self.group@,
            name: self.name@,
            measurement: self.measurement,
            unit: self.unit@,
            direction: self.direction,
            dimensions: self.dimensions@,
        }
    }

    pub fn from_result(result: &SeriesResult) -> (r: SeriesCaseIdentity)
        ensures
            r.key() == series_key(*result),
    {
        SeriesCaseIdentity {
            group: result.group.clone(),
            name: result.name.clone(),
            measurement: result.measurement,
            unit: result.unit.clone(),
            direction: result.direction,
            dimensions: result.dimensions.duplicate(),
        }
    }

    pub fn same(&self, other: &SeriesCaseIdentity) -> (r: bool)
        ensures
            r == (self.key() == other.key()),
    {
        text::same(self.group.as_str(), other.group.as_str()) && text::same(
            self.name.as_str(),
            other.name.as_str(),
        ) && self.measurement == other.measurement && text::same(
            self.unit.as_str(),
            other.unit.as_str(),
        ) && self.direction == other.direction && self.dimensions.same(&other.dimensions)
    }

    /// A copy.
    pub fn duplicate(&self) -> (r: SeriesCaseIdentity)
        ensures
            r.key() == self.key(),
    {
        SeriesCaseIdentity {
            group: self.group.clone(),
            name: self.name.clone(),
            measurement: self.measurement,
            unit: self.unit.clone(),
            direction: self.direction,
            dimensions: self.dimensions.duplicate(),
        }
    }
}

impl ComparisonCaseIdentity {
    pub open spec fn key(&self) -> CaseKey {
        match self {
            ComparisonCaseIdentity::Native(identity) => identity.key(),
            ComparisonCaseIdentity::Series(identity) => identity.key(),
        }
    }

    pub open spec fn group_text(&self) -> Seq<char> {
        match self {
            ComparisonCaseIdentity::Native(identity) => identity.group@,
            ComparisonCaseIdentity::Series(identity) => identity.group@,
        }
    }

    pub open spec fn name_text(&self) -> Seq<char> {
        match self {
            ComparisonCaseIdentity::Native(identity) => identity.name@,
            ComparisonCaseIdentity::Series(identity) => identity.name@,
        }
    }

    pub fn group(&self) -> (r: &str)
        ensures
            r@ == self.group_text(),
    {
        match self {
            ComparisonCaseIdentity::Native(identity) => identity.group.as_str(),
            ComparisonCaseIdentity::Series(identity) => identity.group.as_str(),
        }
    }

    pub fn name(&self) -> (r: &str)
        ensures
            r@ == self.name_text(),
    {
        match self {
            ComparisonCaseIdentity::Native(identity) => identity.name.as_str(),
            ComparisonCaseIdentity::Series(identity) => identity.name.as_str(),
        }
    }

    /// Whether two identities are those of the same case.
    pub fn same(&self, other: &ComparisonCaseIdentity) -> (r: bool)
        ensures
            r == (self.key() == other.key()),
    {
        match (self, other) {
            (ComparisonCaseIdentity::Native(a), ComparisonCaseIdentity::Native(b)) => a.same(b),
            (ComparisonCaseIdentity::Series(a), ComparisonCaseIdentity::Series(b)) => a.same(b),
            _ => false,
        }
    }

    /// A copy.
    pub fn duplicate(&self) -> (r: ComparisonCaseIdentity)
        ensures
            r.key() == self.key(),
    {
        match self {
            ComparisonCaseIdentity::Native(identity) => ComparisonCaseIdentity::Native(
                identity.duplicate(),
            ),
            ComparisonCaseIdentity::Series(identity) => ComparisonCaseIdentity::Series(
                identity.duplicate(),
            ),
        }
    }
}

/// The value that a comparison is about.
#[derive(Debug, PartialEq)]
pub struct PrimaryMeasurement {
    pub measurement: MeasurementKind,
    pub unit: String,
    pub direction: MeasurementDirection,
    /// The observations, in the order in which they were made.
    pub samples: Vec<DoubleBits>,
    /// The median, unless it is no finite number or the result is invalid.
    pub value: Option<DoubleBits>,
}

impl PrimaryMeasurement {
    /// Whether two measurements hold the same.
    pub open spec fn like(&self, other: &PrimaryMeasurement) -> bool {
        &&& self.measurement == other.measurement
        &&& self.unit@ == other.unit@
        &&& self.direction == other.direction
        &&& self.samples@ == other.samples@
        &&& self.value == other.value
    }

    /// A copy.
    pub fn duplicate(&self) -> (r: PrimaryMeasurement)
        ensures
            r.like(self),
    {
        PrimaryMeasurement {
            measurement: self.measurement,
            unit: self.unit.clone(),
            direction: self.direction,
            samples: double::clone_numbers(&self.samples),
            value: self.value,
        }
    }
}

/// How stable a measurement was.
#[derive(Clone, Copy, Debug, PartialEq)]
pub struct ComparisonStatistics {
    pub cv_percent: Option<DoubleBits>,
    /// The median absolute deviation, in the unit of the measurement.
    pub mad: Option<DoubleBits>,
    /// The 95th percentile, in the unit of the measurement.
    pub p95: Option<DoubleBits>,
    pub samples: usize,
    pub outliers: usize,
}

/// What only native results measure.
#[derive(Clone, Copy, Debug, PartialEq)]
pub struct NativeMeasurementProjection {
    pub mean_throughput_per_sec: Option<DoubleBits>,
    pub median_throughput_per_sec: Option<DoubleBits>,
    pub median_ns_per_op: Option<DoubleBits>,
    pub p95_ns_per_op: Option<DoubleBits>,
    pub mad_ns_per_op: Option<DoubleBits>,
}

impl NativeMeasurementProjection {
    pub fn none() -> (r: NativeMeasurementProjection)
        ensures
            r.mean_throughput_per_sec is None,
            r.median_throughput_per_sec is None,
            r.median_ns_per_op is None,
            r.p95_ns_per_op is None,
            r.mad_ns_per_op is None,
    {
        NativeMeasurementProjection {
            mean_throughput_per_sec: None,
            median_throughput_per_sec: None,
            median_ns_per_op: None,
            p95_ns_per_op: None,
            mad_ns_per_op: None,
        }
    }
}

/// The evidence on one side of a case.
#[derive(Debug)]
pub struct ComparisonCaseSnapshot {
    pub primary: PrimaryMeasurement,
    pub statistics: ComparisonStatistics,
    pub native: NativeMeasurementProjection,
    pub validity: Validity,
    pub provenance: TextMap,
}

/// A custom metric that both sides of a case report.
#[derive(Debug, PartialEq)]
pub struct MetricComparison {
    pub name: String,
    pub unit: String,
    pub section: String,
    pub display_name: String,
    pub format: MetricFormat,
    pub current_median: Option<DoubleBits>,
    pub baseline_median: Option<DoubleBits>,
    pub absolute_change: Option<DoubleBits>,
    /// The change in percent of the baseline; no direction is preferred.
    pub percent_change: Option<DoubleBits>,
}

/// A case that is found on both sides.
#[derive(Debug)]
pub struct MatchedBenchmark {
    pub identity: ComparisonCaseIdentity,
    pub current: ComparisonCaseSnapshot,
    pub baseline: ComparisonCaseSnapshot,
    /// Current less baseline, in the unit of the measurement.
    pub absolute_change: Option<DoubleBits>,
    /// Positive for the better, whichever direction that is.
    pub percent_improvement: Option<DoubleBits>,
    pub stability_warnings: Vec<String>,
    pub metric_changes: Vec<MetricComparison>,
}

/// A case that is found on one side only.
#[derive(Debug)]
pub struct UnmatchedBenchmark {
    pub identity: ComparisonCaseIdentity,
    pub measurement: ComparisonCaseSnapshot,
}

/// How many cases were matched and how many were not.
#[derive(Clone, Copy, Debug, PartialEq, Eq, Structural)]
pub struct ComparisonSummary {
    pub matched: usize,
    pub added: usize,
    pub removed: usize,
}

/// The kind of an evidence document.
#[derive(Clone, Copy, Debug, PartialEq, Eq, Structural)]
pub enum ReportDocumentType {
    NativeBenchmark,
    Series,
}

/// A durable reference to an evidence document.
#[derive(Debug)]
pub struct ReportReference {
    pub document_type: ReportDocumentType,
    pub schema_version: u32,
    pub suite: Option<String>,
    /// The digest of the bytes of the document.
    pub content_digest: String,
    pub capture_time: String,
    pub source_provenance: TextMap,
    /// Where the document was read from; no part of its identity.
    pub display_path: Option<String>,
}

impl ReportReference {
    /// Whether two references say the same.
    pub open spec fn like(&self, other: &ReportReference) -> bool {
        &&& self.document_type == other.document_type
        &&& self.schema_version == other.schema_version
        &&& self.suite == other.suite
        &&& self.content_digest@ == other.content_digest@
        &&& self.capture_time@ == other.capture_time@
        &&& self.source_provenance@ == other.source_provenance@
        &&& self.display_path == other.display_path
    }

    /// A copy.
    pub fn duplicate(&self) -> (r: ReportReference)
        ensures
            r.like(self),
    {
        ReportReference {
            document_type: self.document_type,
            schema_version: self.schema_version,
            suite: text::clone_optional(&self.suite),
            content_digest: self.content_digest.clone(),
            capture_time: self.capture_time.clone(),
            source_provenance: self.source_provenance.duplicate(),
            display_path: text::clone_optional(&self.display_path),
        }
    }
}

/// How two reports relate, whatever is made of it.
#[derive(Debug)]
pub struct ComparisonReport {
    pub schema_version: u32,
    pub current: ReportReference,
    pub baseline: ReportReference,
    pub suite: String,
    pub environment: EnvironmentComparison,
    pub matched: Vec<MatchedBenchmark>,
    pub added: Vec<UnmatchedBenchmark>,
    pub removed: Vec<UnmatchedBenchmark>,
    pub summary: ComparisonSummary,
}

} // verus!
