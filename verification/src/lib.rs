//! Microbenchmark measurement, reporting and comparison.
//!
//! The library decides: how samples add up, how a benchmark is calibrated, what
//! a report says, how two reports compare and whether a change is a regression.
//! Every decision is stated as a contract and proved. Clocks, threads, files,
//! hardware counters and floating-point arithmetic stay with the program around
//! it, which hands over plain values: numbers that it computed come as
//! [`DoubleBits`], times as [`Nanos`], and the decimal forms of numbers as
//! [`NumberTexts`].
#![allow(unused_imports)]

use vstd::prelude::*;

pub mod bench;
pub mod comparison;
pub mod context;
pub mod double;
pub mod launcher;
pub mod laws;
pub mod numbers;
pub mod order;
pub mod parse;
pub mod paths;
pub mod policy;
pub mod render;
pub mod series;
pub mod session;
pub mod suite;
pub mod table;
pub mod text;
pub mod text_map;
pub mod threading;
pub mod time;

pub use bench::backend::{
    BenchSampleResult, DiagnosticError, DiagnosticResult, MeasurementBackend, MeasurementDomain,
    MetricFormat, MetricValue, WallClockBackend,
};
pub use bench::calibration::BenchmarkRuntimeOptions;
pub use bench::concurrent::{
    ConcurrentBenchContext, ConcurrentBenchControl, ConcurrentSampleInfo, ConcurrentSamplePhase,
    ConcurrentWorker,
};
pub use bench::counters::{ConcurrentWorkerResult, CounterValue};
pub use bench::cuda::{CudaError, CudaResult};
pub use bench::gpu_counters::{
    GpuCounterError, GpuCounterMetric, GpuCounterResult, DEFAULT_NVIDIA_GPU_COUNTERS,
};
pub use bench::order::BenchmarkCaseOrder;
pub use bench::perf::{LinuxPerfThreadSet, PmuScope};
pub use bench::perf_memory::MemoryBandwidthScope;
pub use bench::throughput::Throughput;
pub use bench::{BenchContext, BenchmarkRunner, NoContext};
pub use comparison::compare::compare_reports;
pub use comparison::document::ReportDocument;
pub use comparison::engine::Changes;
pub use comparison::error::{ComparisonError, ReportError};
pub use comparison::normalize::{CaseNumbers, CaseStatistics, SampleStatistics};
pub use comparison::{
    BenchmarkCaseIdentity, ComparisonCaseIdentity, ComparisonCaseSnapshot, ComparisonOptions,
    ComparisonReport, ComparisonSide, ComparisonStatistics, ComparisonSummary,
    EnvironmentComparison, EnvironmentOverride, MatchedBenchmark, MeasurementDirection,
    MeasurementKind, MetricComparison, NativeMeasurementProjection, PrimaryMeasurement,
    ReportDocumentType, ReportReference, SeriesCaseIdentity, UnmatchedBenchmark,
    COMPARISON_SCHEMA_VERSION,
};
pub use context::{ContextError, ReportContext};
pub use double::DoubleBits;
pub use launcher::{
    benchmark_filter_from_args, benchmark_options_with_default_suite, BenchmarkMainOptions,
    BASELINE_PATH_ENVIRONMENT, CONTEXT_FILE_ENVIRONMENT, OUTPUT_PATH_ENVIRONMENT,
};
pub use numbers::{NumberStyle, NumberTexts};
pub use policy::{
    ChangeClassification, ComparisonExitStatus, OutlierFractions, PolicyCaseEvaluation,
    PolicyError, PolicyEvaluation, PolicyFinding, PolicySummary, RegressionPolicy,
    DEFAULT_MAXIMUM_CV_PERCENT, DEFAULT_MAXIMUM_OUTLIER_FRACTION, DEFAULT_MINIMUM_CHANGE_PERCENT,
};
pub use render::{
    render_markdown, render_terminal, ComparisonAnalysis, ANALYSIS_SCHEMA_VERSION,
};
pub use series::{
    SeriesReport, SeriesResult, SeriesValidationError, Validity, ValidityStatus,
    SERIES_DOCUMENT_TYPE, SERIES_SCHEMA_VERSION,
};
pub use session::{
    BenchmarkKind, BenchmarkReport, BenchmarkResult, BenchmarkStats, ComparisonPolicy,
    MetricSummary, SampleMetric, SampleMetricSet, WorkerCounterSummary, WorkerSummary,
    REPORT_SCHEMA_VERSION,
};
pub use suite::compare::compare_report_inputs;
pub use suite::error::SuiteComparisonError;
pub use suite::load::validate_report_input;
pub use suite::{
    ReportInputRole, SuiteComparisonAnalysis, SuiteComparisonSummary,
    SUITE_ANALYSIS_SCHEMA_VERSION,
};
pub use table::{Alignment, BorderColor, TableFormatter};
pub use text_map::TextMap;
pub use threading::{DetectionResult, PerformanceCoreSelection};
pub use time::Nanos;
