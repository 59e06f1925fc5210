//! What graphics devices measure, and how their failures are told.
use crate::bench::backend::{MetricFormat, MetricValue};
use crate::bench::cuda;
use crate::bench::cuda::{
    check_cuda, device_timing, host_elapsed, host_overhead, total_work, CudaError, CudaResult,
    DeviceNumbers, DeviceTiming,
};
use crate::bench::gpu_counters::{check_name, GpuCounterError, GpuCounterMetric, GpuCounterResult};
use crate::bench::backend::DiagnosticResult;
use crate::text;
use crate::time::Nanos;
use vstd::prelude::*;

verus! {

/// A call succeeded where its status is zero; its failure names it and its status.
pub proof fn calls_fail_with_their_status(
    call: &'static str,
    status: i32,
    r: CudaResult<()>,
    name: &'static str,
    code: i32,
)
    requires
        call_ensures(check_cuda, (call, status), r),
        r matches Err(error) ==> call_ensures(CudaError::call, (&error,), name) && call_ensures(
            CudaError::code,
            (&error,),
            code,
        ),
    ensures
        r is Ok <==> status == 0,
        r is Err ==> name@ == call@ && code == status,
{
}

/// A device's time counts only where every call round it succeeded.
pub proof fn device_times_need_every_call(
    start: CudaResult<()>,
    stop: CudaResult<()>,
    wait: CudaResult<()>,
    elapsed: CudaResult<Nanos>,
    r: DeviceTiming,
)
    requires
        call_ensures(device_timing, (start, stop, wait, elapsed), r),
    ensures
        r is Taken <==> start is Ok && stop is Ok && wait is Ok && elapsed is Ok,
        r matches DeviceTiming::Taken(time) ==> elapsed == Ok::<Nanos, CudaError>(time),
        start matches Err(e) ==> r == DeviceTiming::Failed(e),
        start is Ok ==> (stop matches Err(e) ==> r == DeviceTiming::Failed(e)),
        start is Ok && stop is Ok ==> (wait matches Err(e) ==> r == DeviceTiming::Failed(e)),
        start is Ok && stop is Ok && wait is Ok ==> (elapsed matches Err(e) ==> r
            == DeviceTiming::Failed(e)),
{
}

/// Work adds up over the operations, to the largest number at most.
pub proof fn work_multiplies(per_op: u64, ops: u64, r: u64)
    requires
        call_ensures(total_work, (per_op, ops), r),
    ensures
        per_op * ops <= u64::MAX ==> r == per_op * ops,
        per_op * ops > u64::MAX ==> r == u64::MAX,
{
}

/// The host's time is what was seen, or what was told where nothing was seen.
pub proof fn seen_time_comes_first(seen: Nanos, told: Nanos, r: Nanos)
    requires
        call_ensures(host_elapsed, (seen, told), r),
    ensures
        seen.count > 0 ==> r == seen,
        seen.count == 0 ==> r == told,
{
}

/// What the host took longer than the device, and never less than nothing.
pub proof fn overhead_is_the_hosts_part(host: Nanos, device: Nanos, r: Nanos)
    requires
        call_ensures(host_overhead, (host, device), r),
    ensures
        host.count >= device.count ==> device.count + r.count == host.count,
        host.count <= device.count ==> r.count == 0,
{
}

/// A device's metrics: an error and its code, or the times, and the rates of what
/// was moved and computed, each under the name of its own number.
pub proof fn device_metrics_name_their_numbers(
    metrics: Seq<MetricValue>,
    timing: DeviceTiming,
    numbers: DeviceNumbers,
    bytes: u64,
    flops: u64,
)
    requires
        cuda::device_metrics(metrics, timing, numbers, bytes, flops),
    ensures
        timing is Failed ==> metrics.len() == 1 && metrics[0].name@ == "cuda_error_code"@
            && metrics[0].value == numbers.error_code,
        timing is Taken ==> {
            &&& metrics[0].name@ == "cuda_event_ms"@ && metrics[0].value == numbers.device_ms
            &&& metrics[0].unit@ == "ms"@
            &&& metrics[1].name@ == "host_overhead_ms"@ && metrics[1].value
                == numbers.host_overhead_ms && metrics[1].unit@ == "ms"@
            &&& bytes > 0 ==> metrics[2].name@ == "gpu_gib_s"@ && metrics[2].value
                == numbers.gib_per_second && metrics[2].unit@ == "GiB/s"@
            &&& flops > 0 ==> metrics.last().name@ == "gpu_tflops"@ && metrics.last().value
                == numbers.tflops && metrics.last().unit@ == "TFLOP/s"@
            &&& bytes == 0 && flops == 0 ==> metrics.len() == 2
            &&& bytes > 0 && flops > 0 ==> metrics.len() == 4
            &&& (bytes > 0) != (flops > 0) ==> metrics.len() == 3
        },
{
}

/// Whether a detail speaks of missing rights.
pub open spec fn about_rights(detail: Seq<char>) -> bool {
    text::occurs(detail, "ERR_NVGPUCTRPERM"@) || text::occurs(
        detail,
        "CUPTI_ERROR_INSUFFICIENT_PRIVILEGES"@,
    ) || text::occurs(text::ascii_lower_all(detail), "permission"@) || text::occurs(
        text::ascii_lower_all(detail),
        "privilege"@,
    )
}

/// Whether a detail speaks of a metric that cannot be had.
pub open spec fn about_metrics(detail: Seq<char>) -> bool {
    let lower = text::ascii_lower_all(detail);
    text::occurs(lower, "configaddmetrics"@) || text::occurs(lower, "metric"@) || text::occurs(
        lower,
        "unavailable"@,
    )
}

/// Whether a detail speaks of a profiler that cannot be had.
pub open spec fn about_profilers(detail: Seq<char>) -> bool {
    let lower = text::ascii_lower_all(detail);
    text::occurs(lower, "initialize"@) || text::occurs(lower, "getchipname"@) || text::occurs(
        lower,
        "counteravailability"@,
    ) || text::occurs(lower, "no current cuda context"@)
}

/// A failure is told by what its detail speaks of, missing rights first, and
/// keeps its detail.
pub proof fn failures_are_told_by_their_detail(detail: String, r: GpuCounterError, told: String)
    requires
        call_ensures(GpuCounterError::from_detail, (detail,), r),
        call_ensures(GpuCounterError::message, (&r,), told),
    ensures
        r is InsufficientPrivileges <==> about_rights(detail@),
        r is MetricUnavailable <==> !about_rights(detail@) && about_metrics(detail@),
        r is ProfilerUnavailable <==> !about_rights(detail@) && !about_metrics(detail@)
            && about_profilers(detail@),
        r is CollectionFailed <==> !about_rights(detail@) && !about_metrics(detail@)
            && !about_profilers(detail@),
        told@ == detail@,
{
}

/// A failure leaves one metric, with the name of its sort.
pub proof fn failures_leave_one_metric(error: GpuCounterError, r: DiagnosticResult)
    requires
        call_ensures(GpuCounterError::into_diagnostic_result, (error,), r),
    ensures
        r.metrics@.len() == 1,
        r.metrics@[0].value.bits == 0x3ff0_0000_0000_0000,
        r.metrics@[0].format is Integer,
        error is InsufficientPrivileges ==> r.metrics@[0].name@ == "gpu_counter_permission_error"@,
        error is MetricUnavailable ==> r.metrics@[0].name@ == "gpu_counter_metric_error"@,
        error is ProfilerUnavailable ==> r.metrics@[0].name@ == "gpu_counter_profiler_error"@,
        error is CollectionFailed ==> r.metrics@[0].name@ == "gpu_counter_collection_error"@,
        error is InvalidName ==> r.metrics@[0].name@ == "gpu_counter_invalid_name"@,
{
}

/// A counter keeps its value, and those that are known get a short name.
pub proof fn counters_keep_their_value(counter: GpuCounterMetric, r: MetricValue)
    requires
        call_ensures(GpuCounterMetric::to_metric_value, (&counter,), r),
    ensures
        r.value == counter.value,
        r.format is Number,
        counter.name@ == "gpu__compute_memory_throughput.avg.pct_of_peak_sustained_elapsed"@
            ==> r.name@ == "gpu_memory_peak_pct"@ && r.display_name@ == "GPU memory peak"@,
        counter.name@ == "lts__throughput.avg.pct_of_peak_sustained_elapsed"@ ==> r.name@
            == "gpu_l2_peak_pct"@ && r.display_name@ == "GPU L2 peak"@,
        counter.name@ == "sm__throughput.avg.pct_of_peak_sustained_elapsed"@ ==> r.name@
            == "gpu_sm_peak_pct"@ && r.display_name@ == "GPU SM peak"@,
        counter.name@ == "sm__inst_executed_pipe_tensor.avg.pct_of_peak_sustained_active"@
            ==> r.name@ == "gpu_tensor_active_pct"@ && r.display_name@ == "GPU tensor active"@,
        r.name@ == "gpu_memory_peak_pct"@ || r.name@ == "gpu_l2_peak_pct"@ || r.name@
            == "gpu_sm_peak_pct"@ || r.name@ == "gpu_tensor_active_pct"@ || r.name@
            == "gpu_counter"@,
        r.name@ != "gpu_counter"@ ==> r.unit@ == "%"@,
{
    let memory = "gpu__compute_memory_throughput.avg.pct_of_peak_sustained_elapsed"@;
    let cache = "lts__throughput.avg.pct_of_peak_sustained_elapsed"@;
    let work = "sm__throughput.avg.pct_of_peak_sustained_elapsed"@;
    let tensor = "sm__inst_executed_pipe_tensor.avg.pct_of_peak_sustained_active"@;
    reveal_strlit("gpu__compute_memory_throughput.avg.pct_of_peak_sustained_elapsed");
    reveal_strlit("lts__throughput.avg.pct_of_peak_sustained_elapsed");
    reveal_strlit("sm__throughput.avg.pct_of_peak_sustained_elapsed");
    reveal_strlit("sm__inst_executed_pipe_tensor.avg.pct_of_peak_sustained_active");
    assert(memory[0] == 'g' && cache[0] == 'l' && work[0] == 's' && tensor[0] == 's');
    assert(work[4] == 't' && tensor[4] == 'i');
}

/// A name is valid where it holds no zero character.
pub proof fn names_hold_no_zero(name: &str, label: &'static str, r: GpuCounterResult<()>)
    requires
        call_ensures(check_name, (name, label), r),
    ensures
        r is Ok <==> forall|i: int| 0 <= i < name@.len() ==> #[trigger] name@[i] != '\0',
        r matches Err(error) ==> error is InvalidName,
{
}

} // verus!
