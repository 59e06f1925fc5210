//! Counters of NVIDIA devices: their errors and their metrics.
use crate::bench::backend;
use crate::bench::backend::{DiagnosticError, DiagnosticResult, MetricFormat, MetricValue};
use crate::double::DoubleBits;
use crate::text;
use vstd::prelude::*;

verus! {

/// The counters that are asked for where none are named.
pub const DEFAULT_NVIDIA_GPU_COUNTERS: [&'static str; 4] = [
    "gpu__compute_memory_throughput.avg.pct_of_peak_sustained_elapsed",
    "lts__throughput.avg.pct_of_peak_sustained_elapsed",
    "sm__throughput.avg.pct_of_peak_sustained_elapsed",
    "sm__inst_executed_pipe_tensor.avg.pct_of_peak_sustained_active",
];

/// Why counters could not be collected.
#[derive(Debug)]
pub enum GpuCounterError {
    InsufficientPrivileges(String),
    MetricUnavailable(String),
    ProfilerUnavailable(String),
    CollectionFailed(String),
    /// A name holds a zero byte.
    InvalidName(&'static str),
}

/// What counter operations give.
pub type GpuCounterResult<T> = Result<T, GpuCounterError>;

/// The kinds of errors that the profiler reports.
#[derive(Clone, Copy, Debug, PartialEq, Eq, Structural)]
pub enum CounterFailure {
    Privileges,
    Metric,
    Profiler,
    Collection,
}

/// The kind of an error, by what its text says.
pub open spec fn failure_of(detail: Seq<char>) -> CounterFailure {
    let lower = text::ascii_lower_all(detail);
    if text::occurs(detail, "ERR_NVGPUCTRPERM"@) || text::occurs(
        detail,
        "CUPTI_ERROR_INSUFFICIENT_PRIVILEGES"@,
    ) || text::occurs(lower, "permission"@) || text::occurs(lower, "privilege"@) {
        CounterFailure::Privileges
    } else if text::occurs(lower, "configaddmetrics"@) || text::occurs(lower, "metric"@)
        || text::occurs(lower, "unavailable"@) {
        CounterFailure::Metric
    } else if text::occurs(lower, "initialize"@) || text::occurs(lower, "getchipname"@)
        || text::occurs(lower, "counteravailability"@) || text::occurs(
        lower,
        "no current cuda context"@,
    ) {
        CounterFailure::Profiler
    } else {
        CounterFailure::Collection
    }
}

fn classify(detail: &str) -> (r: CounterFailure)
    ensures
        r == failure_of(detail@),
{
    let lowered = text::string_of(text::ascii_lowercase_chars(detail).as_slice());
    let lower = lowered.as_str();
    if text::contains(detail, "ERR_NVGPUCTRPERM") || text::contains(
        detail,
        "CUPTI_ERROR_INSUFFICIENT_PRIVILEGES",
    ) || text::contains(lower, "permission") || text::contains(lower, "privilege") {
        CounterFailure::Privileges
    } else if text::contains(lower, "configaddmetrics") || text::contains(lower, "metric")
        || text::contains(lower, "unavailable") {
        CounterFailure::Metric
    } else if text::contains(lower, "initialize") || text::contains(lower, "getchipname")
        || text::contains(lower, "counteravailability") || text::contains(
        lower,
        "no current cuda context",
    ) {
        CounterFailure::Profiler
    } else {
        CounterFailure::Collection
    }
}

impl GpuCounterError {
    /// The error of a kind, with its text.
    pub open spec fn of(failure: CounterFailure, detail: String) -> GpuCounterError {
        match failure {
            CounterFailure::Privileges => GpuCounterError::InsufficientPrivileges(detail),
            CounterFailure::Metric => GpuCounterError::MetricUnavailable(detail),
            CounterFailure::Profiler => GpuCounterError::ProfilerUnavailable(detail),
            CounterFailure::Collection => GpuCounterError::CollectionFailed(detail),
        }
    }

    /// The error that a text of the profiler stands for.
    pub fn from_detail(detail: String) -> (r: GpuCounterError)
        ensures
            r == GpuCounterError::of(failure_of(detail@), detail),
    {
        match classify(detail.as_str()) {
            CounterFailure::Privileges => GpuCounterError::InsufficientPrivileges(detail),
            CounterFailure::Metric => GpuCounterError::MetricUnavailable(detail),
            CounterFailure::Profiler => GpuCounterError::ProfilerUnavailable(detail),
            CounterFailure::Collection => GpuCounterError::CollectionFailed(detail),
        }
    }

    pub open spec fn metric_text(&self) -> Seq<char> {
        match self {
            GpuCounterError::InsufficientPrivileges(_) => "gpu_counter_permission_error"@,
            GpuCounterError::MetricUnavailable(_) => "gpu_counter_metric_error"@,
            GpuCounterError::ProfilerUnavailable(_) => "gpu_counter_profiler_error"@,
            GpuCounterError::CollectionFailed(_) => "gpu_counter_collection_error"@,
            GpuCounterError::InvalidName(_) => "gpu_counter_invalid_name"@,
        }
    }

    /// The name of the metric that stands for this error.
    pub fn metric_name(&self) -> (r: &'static str)
        ensures
            r@ == self.metric_text(),
    {
        match self {
            GpuCounterError::InsufficientPrivileges(_) => "gpu_counter_permission_error",
            GpuCounterError::MetricUnavailable(_) => "gpu_counter_metric_error",
            GpuCounterError::ProfilerUnavailable(_) => "gpu_counter_profiler_error",
            GpuCounterError::CollectionFailed(_) => "gpu_counter_collection_error",
            GpuCounterError::InvalidName(_) => "gpu_counter_invalid_name",
        }
    }

    pub open spec fn display_text(&self) -> Seq<char> {
        match self {
            GpuCounterError::InsufficientPrivileges(_) => "Counter permission error"@,
            GpuCounterError::MetricUnavailable(_) => "Counter metric error"@,
            GpuCounterError::ProfilerUnavailable(_) => "Counter profiler error"@,
            GpuCounterError::CollectionFailed(_) => "Counter collection error"@,
            GpuCounterError::InvalidName(_) => "Counter invalid name"@,
        }
    }

    /// How the metric that stands for this error is shown.
    pub fn display_name(&self) -> (r: &'static str)
        ensures
            r@ == self.display_text(),
    {
        match self {
            GpuCounterError::InsufficientPrivileges(_) => "Counter permission error",
            GpuCounterError::MetricUnavailable(_) => "Counter metric error",
            GpuCounterError::ProfilerUnavailable(_) => "Counter profiler error",
            GpuCounterError::CollectionFailed(_) => "Counter collection error",
            GpuCounterError::InvalidName(_) => "Counter invalid name",
        }
    }

    /// A diagnostic result with one metric, which counts this error.
    pub fn into_diagnostic_result(self) -> (r: DiagnosticResult)
        ensures
            r.section@ == "gpu counters"@,
            r.metrics@.len() == 1,
            r.metrics@[0].name@ == self.metric_text(),
            r.metrics@[0].value == (DoubleBits { bits: backend::ONE_BITS }),
            r.metrics@[0].unit@ == "errors"@,
            r.metrics@[0].section@ == "gpu counters"@,
            r.metrics@[0].display_name@ == self.display_text(),
            r.metrics@[0].format == MetricFormat::Integer,
    {
        proof {
            reveal_strlit("");
        }
        DiagnosticResult::new("gpu counters").push_metric(
            MetricValue::integer(
                self.metric_name(),
                DoubleBits { bits: backend::ONE_BITS },
                "errors",
            ).with_display_name(self.display_name()),
        )
    }

    pub open spec fn message_text(&self) -> Seq<char> {
        match self {
            GpuCounterError::InsufficientPrivileges(detail) => detail@,
            GpuCounterError::MetricUnavailable(detail) => detail@,
            GpuCounterError::ProfilerUnavailable(detail) => detail@,
            GpuCounterError::CollectionFailed(detail) => detail@,
            GpuCounterError::InvalidName(label) => label@ + " contains NUL"@,
        }
    }

    pub fn message(&self) -> (r: String)
        ensures
            r@ == self.message_text(),
    {
        match self {
            GpuCounterError::InsufficientPrivileges(detail) => detail.clone(),
            GpuCounterError::MetricUnavailable(detail) => detail.clone(),
            GpuCounterError::ProfilerUnavailable(detail) => detail.clone(),
            GpuCounterError::CollectionFailed(detail) => detail.clone(),
            GpuCounterError::InvalidName(label) => {
                let which: &'static str = *label;
                let mut r = which.to_owned();
                r.append(" contains NUL");
                r
            },
        }
    }
}

impl From<GpuCounterError> for DiagnosticError {
    fn from(error: GpuCounterError) -> (r: DiagnosticError)
        ensures
            r.message@ == error.message_text(),
    {
        DiagnosticError::new(error.message())
    }
}

/// What comes of an error is stated at `from` itself, over the views.
impl vstd::std_specs::convert::FromSpecImpl<GpuCounterError> for DiagnosticError {
    open spec fn obeys_from_spec() -> bool {
        false
    }

    open spec fn from_spec(error: GpuCounterError) -> DiagnosticError {
        arbitrary()
    }
}

/// Different kinds of errors have different metrics.
pub proof fn errors_have_their_own_metrics(a: GpuCounterError, b: GpuCounterError)
    ensures
        a.metric_text() == b.metric_text() ==> {
            &&& a is InsufficientPrivileges == b is InsufficientPrivileges
            &&& a is MetricUnavailable == b is MetricUnavailable
            &&& a is ProfilerUnavailable == b is ProfilerUnavailable
            &&& a is CollectionFailed == b is CollectionFailed
        },
{
    reveal_strlit("gpu_counter_permission_error");
    reveal_strlit("gpu_counter_metric_error");
    reveal_strlit("gpu_counter_profiler_error");
    reveal_strlit("gpu_counter_collection_error");
    reveal_strlit("gpu_counter_invalid_name");
    assert("gpu_counter_permission_error"@[13] == 'e');
    assert("gpu_counter_metric_error"@[12] == 'm');
    assert("gpu_counter_profiler_error"@[13] == 'r');
    assert("gpu_counter_collection_error"@[12] == 'c');
    assert("gpu_counter_invalid_name"@[12] == 'i');
    assert("gpu_counter_permission_error"@[12] == 'p');
    assert("gpu_counter_profiler_error"@[12] == 'p');
}

/// The value of one counter.
#[derive(Debug)]
pub struct GpuCounterMetric {
    pub name: String,
    pub value: DoubleBits,
}

/// The metric that a counter is shown as: its name, how it is shown, its unit
/// and its section.
pub open spec fn counter_metric(name: Seq<char>) -> (Seq<char>, Seq<char>, Seq<char>, Seq<char>) {
    if name == "gpu__compute_memory_throughput.avg.pct_of_peak_sustained_elapsed"@ {
        ("gpu_memory_peak_pct"@, "GPU memory peak"@, "%"@, ""@)
    } else if name == "lts__throughput.avg.pct_of_peak_sustained_elapsed"@ {
        ("gpu_l2_peak_pct"@, "GPU L2 peak"@, "%"@, ""@)
    } else if name == "sm__throughput.avg.pct_of_peak_sustained_elapsed"@ {
        ("gpu_sm_peak_pct"@, "GPU SM peak"@, "%"@, ""@)
    } else if name == "sm__inst_executed_pipe_tensor.avg.pct_of_peak_sustained_active"@ {
        ("gpu_tensor_active_pct"@, "GPU tensor active"@, "%"@, ""@)
    } else {
        ("gpu_counter"@, "GPU counter"@, ""@, "gpu counters"@)
    }
}

impl GpuCounterMetric {
    pub fn to_metric_value(&self) -> (r: MetricValue)
        ensures
            (r.name@, r.display_name@, r.unit@, r.section@) == counter_metric(self.name@),
            r.value == self.value,
            r.format == MetricFormat::Number,
    {
        let name = self.name.as_str();
        if text::same(name, "gpu__compute_memory_throughput.avg.pct_of_peak_sustained_elapsed") {
            MetricValue::new("gpu_memory_peak_pct", self.value, "%").with_display_name(
                "GPU memory peak",
            )
        } else if text::same(name, "lts__throughput.avg.pct_of_peak_sustained_elapsed") {
            MetricValue::new("gpu_l2_peak_pct", self.value, "%").with_display_name("GPU L2 peak")
        } else if text::same(name, "sm__throughput.avg.pct_of_peak_sustained_elapsed") {
            MetricValue::new("gpu_sm_peak_pct", self.value, "%").with_display_name("GPU SM peak")
        } else if text::same(
            name,
            "sm__inst_executed_pipe_tensor.avg.pct_of_peak_sustained_active",
        ) {
            MetricValue::new("gpu_tensor_active_pct", self.value, "%").with_display_name(
                "GPU tensor active",
            )
        } else {
            MetricValue::new("gpu_counter", self.value, "").with_display_name(
                "GPU counter",
            ).with_section("gpu counters")
        }
    }
}

/// Where a name holds no zero byte.
pub open spec fn valid_name(name: Seq<char>) -> bool {
    forall|i: int| 0 <= i < name.len() ==> #[trigger] name[i] != '\0'
}

/// Refuses a name that holds a zero byte; the label says which name it is.
pub fn check_name(name: &str, label: &'static str) -> (r: GpuCounterResult<()>)
    ensures
        r is Ok == valid_name(name@),
        r matches Err(error) ==> error == GpuCounterError::InvalidName(label),
{
    let chars = text::chars_of(name);
    let mut i: usize = 0;
    while i < chars.len()
        invariant
            i <= chars@.len(),
            chars@ == name@,
            forall|j: int| 0 <= j < i ==> #[trigger] name@[j] != '\0',
        decreases chars@.len() - i,
    {
        if chars[i] == '\0' {
            assert(name@[i as int] == '\0');
            return Err(GpuCounterError::InvalidName(label));
        }
        i += 1;
    }
    Ok(())
}

} // verus!
