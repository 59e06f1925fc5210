//! Measurement backends and the metrics that samples report.
use crate::bench::results::Results;
use crate::double::DoubleBits;
use crate::time::Nanos;
use vstd::prelude::*;

verus! {

/// How a metric is written in the table of custom metrics.
#[derive(Clone, Copy, Debug, PartialEq, Eq, Structural)]
pub enum MetricFormat {
    /// Three decimal places from 0.001 up to 1000, scientific notation outside.
    Number,
    /// Rounded to the nearest integer.
    Integer,
}

impl Default for MetricFormat {
    fn default() -> (r: MetricFormat)
        ensures
            r == MetricFormat::Number,
    {
        MetricFormat::Number
    }
}

/// A value that one sample reports beside its time and its counters.
#[derive(Clone, Copy, Debug)]
pub struct MetricValue {
    pub name: &'static str,
    pub value: DoubleBits,
    pub unit: &'static str,
    pub section: &'static str,
    /// The label in the table; the name stands in for an empty one.
    pub display_name: &'static str,
    pub format: MetricFormat,
}

impl Default for MetricValue {
    /// A metric of value zero without a name or a unit.
    fn default() -> (r: MetricValue)
        ensures
            r.name@ == ""@,
            r.value.bits == 0,
            r.unit@ == ""@,
            r.section@ == ""@,
            r.display_name@ == ""@,
            r.format == MetricFormat::Number,
    {
        MetricValue::new("", DoubleBits { bits: 0 }, "")
    }
}

impl MetricValue {
    pub fn new(name: &'static str, value: DoubleBits, unit: &'static str) -> (r: MetricValue)
        ensures
            r.name == name,
            r.value == value,
            r.unit == unit,
            r.section@ == ""@,
            r.display_name@ == ""@,
            r.format == MetricFormat::Number,
    {
        MetricValue { name, value, unit, section: "", display_name: "", format: MetricFormat::Number }
    }

    pub fn with_display_name(self, display_name: &'static str) -> (r: MetricValue)
        ensures
            r == (MetricValue { display_name, ..self }),
    {
        MetricValue { display_name, ..self }
    }

    pub fn with_section(self, section: &'static str) -> (r: MetricValue)
        ensures
            r == (MetricValue { section, ..self }),
    {
        MetricValue { section, ..self }
    }

    pub fn with_format(self, format: MetricFormat) -> (r: MetricValue)
        ensures
            r == (MetricValue { format, ..self }),
    {
        MetricValue { format, ..self }
    }

    /// A length of time, its milliseconds given as a number.
    pub fn duration_ms(name: &'static str, milliseconds: DoubleBits) -> (r: MetricValue)
        ensures
            r.name == name,
            r.value == milliseconds,
            r.unit@ == "ms"@,
            r.section@ == ""@,
            r.display_name@ == ""@,
            r.format == MetricFormat::Number,
    {
        MetricValue::new(name, milliseconds, "ms")
    }

    /// A bandwidth in GiB per second.
    pub fn bandwidth_gib_s(name: &'static str, gib_per_second: DoubleBits) -> (r: MetricValue)
        ensures
            r.name == name,
            r.value == gib_per_second,
            r.unit@ == "GiB/s"@,
            r.section@ == ""@,
            r.display_name@ == ""@,
            r.format == MetricFormat::Number,
    {
        MetricValue::new(name, gib_per_second, "GiB/s")
    }

    /// A rate of floating-point operations, in TFLOP per second.
    pub fn throughput_tflops(name: &'static str, tflops: DoubleBits) -> (r: MetricValue)
        ensures
            r.name == name,
            r.value == tflops,
            r.unit@ == "TFLOP/s"@,
            r.section@ == ""@,
            r.display_name@ == ""@,
            r.format == MetricFormat::Number,
    {
        MetricValue::new(name, tflops, "TFLOP/s")
    }

    /// A count or an identifier, written as an integer.
    pub fn integer(name: &'static str, value: DoubleBits, unit: &'static str) -> (r: MetricValue)
        ensures
            r.name == name,
            r.value == value,
            r.unit == unit,
            r.section@ == ""@,
            r.display_name@ == ""@,
            r.format == MetricFormat::Integer,
    {
        MetricValue::new(name, value, unit).with_format(MetricFormat::Integer)
    }
}

/// The metric in a section, which is the given one where the metric has none.
pub open spec fn in_section(metric: MetricValue, section: &'static str) -> MetricValue {
    if metric.section@.len() == 0 {
        MetricValue { section, ..metric }
    } else {
        metric
    }
}

pub fn default_section(metric: MetricValue, section: &'static str) -> (r: MetricValue)
    ensures
        r == in_section(metric, section),
{
    if metric.section.is_empty() {
        metric.with_section(section)
    } else {
        metric
    }
}

/// Every metric in a section, the given one for those that have none.
pub open spec fn all_in_section(metrics: Seq<MetricValue>, section: &'static str) -> Seq<MetricValue> {
    metrics.map_values(|m: MetricValue| in_section(m, section))
}

/// Puts every metric without a section into the given one.
pub fn default_sections(metrics: Vec<MetricValue>, section: &'static str) -> (r: Vec<MetricValue>)
    ensures
        r@ == all_in_section(metrics@, section),
{
    let mut r: Vec<MetricValue> = Vec::new();
    let mut i: usize = 0;
    while i < metrics.len()
        invariant
            i <= metrics.len(),
            r@ == all_in_section(metrics@, section).take(i as int),
        decreases metrics.len() - i,
    {
        r.push(default_section(metrics[i], section));
        i += 1;
        assert(r@ =~= all_in_section(metrics@, section).take(i as int));
    }
    assert(all_in_section(metrics@, section).take(metrics@.len() as int) =~= all_in_section(
        metrics@,
        section,
    ));
    r
}

/// What a diagnostic pass reports.
#[derive(Debug)]
pub struct DiagnosticResult {
    pub section: &'static str,
    pub metrics: Vec<MetricValue>,
}

impl DiagnosticResult {
    pub fn new(section: &'static str) -> (r: DiagnosticResult)
        ensures
            r.section == section,
            r.metrics@.len() == 0,
    {
        DiagnosticResult { section, metrics: Vec::new() }
    }

    /// Appends a metric, in the section of this result where it has none.
    pub fn push_metric(self, metric: MetricValue) -> (r: DiagnosticResult)
        ensures
            r.section == self.section,
            r.metrics@ == self.metrics@.push(in_section(metric, self.section)),
    {
        let mut metrics = self.metrics;
        metrics.push(default_section(metric, self.section));
        DiagnosticResult { section: self.section, metrics }
    }
}

/// Why a diagnostic pass failed.
#[derive(Debug)]
pub struct DiagnosticError {
    pub message: String,
}

impl DiagnosticError {
    pub fn new(message: String) -> (r: DiagnosticError)
        ensures
            r.message == message,
    {
        DiagnosticError { message }
    }
}

impl From<String> for DiagnosticError {
    fn from(message: String) -> (r: DiagnosticError)
        ensures
            r.message == message,
    {
        DiagnosticError::new(message)
    }
}

impl vstd::std_specs::convert::FromSpecImpl<String> for DiagnosticError {
    open spec fn obeys_from_spec() -> bool {
        true
    }

    open spec fn from_spec(message: String) -> DiagnosticError {
        DiagnosticError { message }
    }
}

impl From<&str> for DiagnosticError {
    fn from(message: &str) -> (r: DiagnosticError)
        ensures
            r.message@ == message@,
    {
        DiagnosticError::new(message.to_owned())
    }
}

/// What comes of a text is stated at `from` itself, over the views.
impl vstd::std_specs::convert::FromSpecImpl<&str> for DiagnosticError {
    open spec fn obeys_from_spec() -> bool {
        false
    }

    open spec fn from_spec(message: &str) -> DiagnosticError {
        arbitrary()
    }
}

/// The metrics of a diagnostic pass: those it reports, in its section where
/// they have none, or a single one that says it failed.
pub open spec fn pass_metrics(
    outcome: Result<DiagnosticResult, DiagnosticError>,
    one: DoubleBits,
    r: Seq<MetricValue>,
) -> bool {
    match outcome {
        Ok(result) => r == all_in_section(result.metrics@, result.section),
        Err(_) => {
            &&& r.len() == 1
            &&& r[0].name@ == "diagnostic_pass_failed"@
            &&& r[0].value == one
            &&& r[0].unit@ == "errors"@
            &&& r[0].section@ == "diagnostic"@
            &&& r[0].display_name@ == "Diagnostic pass failed"@
            &&& r[0].format == MetricFormat::Integer
        },
    }
}

/// The bit pattern of the number one.
pub const ONE_BITS: u64 = 0x3ff0_0000_0000_0000;

/// What the samples of a diagnostic pass have reported so far.
pub struct DiagnosticPass {
    pub metrics: Vec<Vec<MetricValue>>,
    pub remaining: usize,
}

impl DiagnosticPass {
    pub fn start(samples: usize) -> (r: DiagnosticPass)
        ensures
            r.metrics@.len() == 0,
            r.remaining == samples,
    {
        DiagnosticPass { metrics: Vec::new(), remaining: samples }
    }

    /// Takes in the outcome of one sample. A failed sample is the last one.
    pub fn record(&mut self, outcome: Result<DiagnosticResult, DiagnosticError>)
        requires
            old(self).remaining > 0,
        ensures
            final(self).metrics@.len() == old(self).metrics@.len() + 1,
            final(self).metrics@.take(old(self).metrics@.len() as int) == old(self).metrics@,
            pass_metrics(outcome, DoubleBits { bits: ONE_BITS }, final(self).metrics@.last()@),
            final(self).remaining == if outcome is Ok {
                (old(self).remaining - 1) as usize
            } else {
                0
            },
    {
        match outcome {
            Ok(result) => {
                let metrics = default_sections(result.metrics, result.section);
                self.metrics.push(metrics);
                self.remaining = self.remaining - 1;
            },
            Err(_) => {
                let failed = MetricValue::integer(
                    "diagnostic_pass_failed",
                    DoubleBits { bits: ONE_BITS },
                    "errors",
                ).with_display_name("Diagnostic pass failed").with_section("diagnostic");
                let mut metrics: Vec<MetricValue> = Vec::new();
                metrics.push(failed);
                self.metrics.push(metrics);
                self.remaining = 0;
            },
        }
        assert(self.metrics@.take(old(self).metrics@.len() as int) =~= old(self).metrics@);
    }
}

/// What a benchmark function reports of one sample.
#[derive(Debug)]
pub struct BenchSampleResult {
    pub operations: u64,
    pub metrics: Vec<MetricValue>,
}

impl Default for BenchSampleResult {
    fn default() -> (r: BenchSampleResult)
        ensures
            r.operations == 0,
            r.metrics@.len() == 0,
    {
        BenchSampleResult { operations: 0, metrics: Vec::new() }
    }
}

impl From<u64> for BenchSampleResult {
    fn from(operations: u64) -> (r: BenchSampleResult)
        ensures
            r.operations == operations,
            r.metrics@.len() == 0,
    {
        BenchSampleResult::operations(operations)
    }
}

/// What comes of a count is stated at `from` itself, over the views.
impl vstd::std_specs::convert::FromSpecImpl<u64> for BenchSampleResult {
    open spec fn obeys_from_spec() -> bool {
        false
    }

    open spec fn from_spec(operations: u64) -> BenchSampleResult {
        arbitrary()
    }
}

impl BenchSampleResult {
    pub fn operations(operations: u64) -> (r: BenchSampleResult)
        ensures
            r.operations == operations,
            r.metrics@.len() == 0,
    {
        BenchSampleResult { operations, metrics: Vec::new() }
    }

    pub fn with_metric(self, name: &'static str, value: DoubleBits, unit: &'static str) -> (r:
        BenchSampleResult)
        ensures
            r.operations == self.operations,
            r.metrics@.len() == self.metrics@.len() + 1,
            r.metrics@.take(self.metrics@.len() as int) == self.metrics@,
            r.metrics@.last().name == name,
            r.metrics@.last().value == value,
            r.metrics@.last().unit == unit,
            r.metrics@.last().section@ == ""@,
            r.metrics@.last().display_name@ == ""@,
            r.metrics@.last().format == MetricFormat::Number,
    {
        let r = self.push_metric(MetricValue::new(name, value, unit));
        assert(r.metrics@.take(self.metrics@.len() as int) =~= self.metrics@);
        r
    }

    pub fn push_metric(self, metric: MetricValue) -> (r: BenchSampleResult)
        ensures
            r.operations == self.operations,
            r.metrics@ == self.metrics@.push(metric),
    {
        let mut metrics = self.metrics;
        metrics.push(metric);
        BenchSampleResult { operations: self.operations, metrics }
    }
}

/// What a benchmark measures.
#[derive(Clone, Copy, Debug, PartialEq, Eq, Structural)]
pub enum MeasurementDomain {
    /// Work of the processor; its counters and their diagnostics apply.
    Cpu,
    /// Work of a graphics device, driven by the host.
    Gpu,
    /// Input and output, driven by the host.
    Io,
    /// Host and device work together.
    Mixed,
}

impl Default for MeasurementDomain {
    fn default() -> (r: MeasurementDomain)
        ensures
            r == MeasurementDomain::Cpu,
    {
        MeasurementDomain::Cpu
    }
}

/// The measurement window of one sample. The runner calls `begin` before the
/// sample, `end` behind it, and `collect` for what was measured.
pub trait MeasurementBackend {
    fn begin(&mut self);

    fn end(&mut self);

    /// Writes what was measured. A time left at zero stands for the time that
    /// the host took.
    fn collect(
        &mut self,
        host_elapsed: Nanos,
        ops: u64,
        chunk_index: usize,
        results: &mut Results,
        metrics: &mut Vec<MetricValue>,
    );

    /// The label of the measurement; empty for the label that the runner gives.
    fn measurement_label(&self) -> (r: &'static str)
        default_ensures
            r@ == ""@,
    {
        ""
    }

    /// Whether the processor counters of this backend describe the work measured.
    fn emits_cpu_diagnostics(&self) -> (r: bool)
        default_ensures
            r,
    {
        true
    }
}

/// Measures the time that the host takes, and nothing else.
pub struct WallClockBackend;

impl Default for WallClockBackend {
    fn default() -> (r: WallClockBackend)
        ensures
            r == WallClockBackend,
    {
        WallClockBackend
    }
}

impl WallClockBackend {
    pub fn new() -> (r: WallClockBackend)
        ensures
            r == WallClockBackend,
    {
        WallClockBackend
    }
}

impl MeasurementBackend for WallClockBackend {
    fn begin(&mut self) {
    }

    fn end(&mut self) {
    }

    fn collect(
        &mut self,
        host_elapsed: Nanos,
        ops: u64,
        chunk_index: usize,
        results: &mut Results,
        metrics: &mut Vec<MetricValue>,
    )
        ensures
            *final(results) == (Results {
                duration: host_elapsed,
                iterations: ops,
                chunks_executed: 1,
                ..*old(results)
            }),
            final(metrics)@ == old(metrics)@,
    {
        results.duration = host_elapsed;
        results.iterations = ops;
        results.chunks_executed = 1;
    }

    fn measurement_label(&self) -> (r: &'static str)
        ensures
            r@ == "timing only"@,
    {
        "timing only"
    }

    fn emits_cpu_diagnostics(&self) -> (r: bool)
        ensures
            !r,
    {
        false
    }
}

/// The time of a sample: what the backend measured, or the host's time where
/// it measured none.
pub open spec fn sample_time(measured: Nanos, host_elapsed: Nanos) -> Nanos {
    if measured.count > 0 {
        measured
    } else {
        host_elapsed
    }
}

pub fn measured_or_host(measured: Nanos, host_elapsed: Nanos) -> (r: Nanos)
    ensures
        r == sample_time(measured, host_elapsed),
{
    if measured.is_zero() {
        host_elapsed
    } else {
        measured
    }
}

/// What one sample counted when nothing but its time was taken.
pub open spec fn timing_only(duration: Nanos, iterations: u64) -> Results {
    Results { duration, iterations, chunks_executed: 1, ..Results::none() }
}

pub fn execute_timing_only(duration: Nanos, iterations: u64) -> (r: Results)
    ensures
        r == timing_only(duration, iterations),
{
    let mut r = Results::default();
    r.duration = duration;
    r.iterations = iterations;
    r.chunks_executed = 1;
    r
}

} // verus!
