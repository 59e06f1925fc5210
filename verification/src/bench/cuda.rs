//! Timing by the events of a CUDA device.
use crate::bench::backend::{MetricFormat, MetricValue};
use crate::bench::perf;
use crate::bench::perf::signed_decimal_text;
use crate::bench::results::Results;
use crate::double::DoubleBits;
use crate::time::Nanos;
use vstd::prelude::*;

verus! {

/// The status of a call that succeeded.
pub const CUDA_SUCCESS: i32 = 0;

/// A call of the CUDA runtime that failed.
#[derive(Clone, Copy, Debug, PartialEq, Eq)]
pub struct CudaError {
    call: &'static str,
    code: i32,
}

/// What a call of the CUDA runtime gives.
pub type CudaResult<T> = Result<T, CudaError>;

impl CudaError {
    /// The call that failed, and its status.
    pub closed spec fn parts(self) -> (&'static str, i32) {
        (self.call, self.code)
    }

    pub fn new(call: &'static str, code: i32) -> (r: CudaError)
        ensures
            r.parts() == (call, code),
    {
        CudaError { call, code }
    }

    pub fn call(&self) -> (r: &'static str)
        ensures
            r == self.parts().0,
    {
        self.call
    }

    pub fn code(&self) -> (r: i32)
        ensures
            r == self.parts().1,
    {
        self.code
    }

    pub fn message(&self) -> (r: String)
        ensures
            r@ == self.parts().0@ + " failed with CUDA status "@ + perf::signed_decimal(
                self.parts().1 as int,
            ),
    {
        let mut r = self.call.to_owned();
        r.append(" failed with CUDA status ");
        r.append(signed_decimal_text(self.code).as_str());
        r
    }
}

/// Turns the status of a call into a result.
pub fn check_cuda(call: &'static str, status: i32) -> (r: CudaResult<()>)
    ensures
        r is Ok == (status == CUDA_SUCCESS),
        r matches Err(error) ==> error.parts() == (call, status),
{
    if status == CUDA_SUCCESS {
        Ok(())
    } else {
        Err(CudaError::new(call, status))
    }
}

/// What the calls around a sample came to: the time that the device took, or
/// the first call that failed.
#[derive(Clone, Copy, Debug)]
pub enum DeviceTiming {
    Taken(Nanos),
    Failed(CudaError),
}

/// The outcome of a sample: the first failure among recording its start,
/// recording its stop, waiting for it and asking for the time.
pub open spec fn first_failure(
    start: CudaResult<()>,
    stop: CudaResult<()>,
    wait: CudaResult<()>,
    elapsed: CudaResult<Nanos>,
) -> DeviceTiming {
    match start {
        Err(error) => DeviceTiming::Failed(error),
        Ok(_) => match stop {
            Err(error) => DeviceTiming::Failed(error),
            Ok(_) => match wait {
                Err(error) => DeviceTiming::Failed(error),
                Ok(_) => match elapsed {
                    Err(error) => DeviceTiming::Failed(error),
                    Ok(time) => DeviceTiming::Taken(time),
                },
            },
        },
    }
}

/// Puts the outcomes of the calls around a sample together. A call behind one
/// that failed counts as not made.
pub fn device_timing(
    start: CudaResult<()>,
    stop: CudaResult<()>,
    wait: CudaResult<()>,
    elapsed: CudaResult<Nanos>,
) -> (r: DeviceTiming)
    ensures
        r == first_failure(start, stop, wait, elapsed),
{
    match start {
        Err(error) => DeviceTiming::Failed(error),
        Ok(_) => match stop {
            Err(error) => DeviceTiming::Failed(error),
            Ok(_) => match wait {
                Err(error) => DeviceTiming::Failed(error),
                Ok(_) => match elapsed {
                    Err(error) => DeviceTiming::Failed(error),
                    Ok(time) => DeviceTiming::Taken(time),
                },
            },
        },
    }
}

/// The numbers of a sample that are not whole: milliseconds, rates and the
/// status of a failed call.
#[derive(Clone, Copy, Debug)]
pub struct DeviceNumbers {
    pub device_ms: DoubleBits,
    pub host_overhead_ms: DoubleBits,
    pub gib_per_second: DoubleBits,
    pub tflops: DoubleBits,
    pub error_code: DoubleBits,
}

/// A product, capped at the largest number that can be held.
pub open spec fn product(a: u64, b: u64) -> u64 {
    if a * b > u64::MAX {
        u64::MAX
    } else {
        (a * b) as u64
    }
}

/// The work of a sample: how much one operation does, times the operations.
pub fn total_work(per_op: u64, ops: u64) -> (r: u64)
    ensures
        r == product(per_op, ops),
{
    match per_op.checked_mul(ops) {
        Some(total) => total,
        None => u64::MAX,
    }
}

/// The time that the host took: what the backend saw, or what it was told where
/// it saw none.
pub open spec fn host_time(seen: Nanos, told: Nanos) -> Nanos {
    if seen.count == 0 {
        told
    } else {
        seen
    }
}

pub fn host_elapsed(seen: Nanos, told: Nanos) -> (r: Nanos)
    ensures
        r == host_time(seen, told),
{
    if seen.is_zero() {
        told
    } else {
        seen
    }
}

/// The time that the host took beyond the device.
pub fn host_overhead(host: Nanos, device: Nanos) -> (r: Nanos)
    ensures
        r.count == if host.count >= device.count {
            (host.count - device.count) as u128
        } else {
            0
        },
{
    if host.count >= device.count {
        Nanos { count: host.count - device.count }
    } else {
        Nanos { count: 0 }
    }
}

/// A metric of a device.
pub open spec fn device_metric(
    metric: MetricValue,
    name: Seq<char>,
    value: DoubleBits,
    unit: Seq<char>,
    display_name: Seq<char>,
    format: MetricFormat,
) -> bool {
    &&& metric.name@ == name
    &&& metric.value == value
    &&& metric.unit@ == unit
    &&& metric.section@ == ""@
    &&& metric.display_name@ == display_name
    &&& metric.format == format
}

/// These are the metrics of a sample: the status of a failed call, or the times
/// with the rates for which work was given.
pub open spec fn device_metrics(
    metrics: Seq<MetricValue>,
    timing: DeviceTiming,
    numbers: DeviceNumbers,
    bytes: u64,
    flops: u64,
) -> bool {
    match timing {
        DeviceTiming::Failed(_) => {
            &&& metrics.len() == 1
            &&& device_metric(
                metrics[0],
                "cuda_error_code"@,
                numbers.error_code,
                ""@,
                "CUDA error"@,
                MetricFormat::Integer,
            )
        },
        DeviceTiming::Taken(_) => {
            let rates: int = if bytes > 0 {
                3
            } else {
                2
            };
            &&& metrics.len() == rates + if flops > 0 {
                1int
            } else {
                0
            }
            &&& device_metric(
                metrics[0],
                "cuda_event_ms"@,
                numbers.device_ms,
                "ms"@,
                "CUDA event"@,
                MetricFormat::Number,
            )
            &&& device_metric(
                metrics[1],
                "host_overhead_ms"@,
                numbers.host_overhead_ms,
                "ms"@,
                "Host overhead"@,
                MetricFormat::Number,
            )
            &&& bytes > 0 ==> device_metric(
                metrics[2],
                "gpu_gib_s"@,
                numbers.gib_per_second,
                "GiB/s"@,
                "GPU bandwidth"@,
                MetricFormat::Number,
            )
            &&& flops > 0 ==> device_metric(
                metrics[rates],
                "gpu_tflops"@,
                numbers.tflops,
                "TFLOP/s"@,
                "GPU throughput"@,
                MetricFormat::Number,
            )
        },
    }
}

/// Writes what a sample measured. Where a call failed the time of the host
/// stands for that of the device.
pub fn collect_device_sample(
    timing: DeviceTiming,
    host: Nanos,
    ops: u64,
    bytes_per_op: u64,
    flops_per_op: u64,
    numbers: &DeviceNumbers,
    results: &mut Results,
    metrics: &mut Vec<MetricValue>,
)
    ensures
        *final(results) == (Results {
            iterations: ops,
            chunks_executed: 1,
            duration: match timing {
                DeviceTiming::Taken(time) => time,
                DeviceTiming::Failed(_) => host,
            },
            ..*old(results)
        }),
        final(metrics)@.len() >= old(metrics)@.len(),
        final(metrics)@.take(old(metrics)@.len() as int) == old(metrics)@,
        device_metrics(
            final(metrics)@.skip(old(metrics)@.len() as int),
            timing,
            *numbers,
            product(bytes_per_op, ops),
            product(flops_per_op, ops),
        ),
{
    results.iterations = ops;
    results.chunks_executed = 1;
    let ghost n = metrics@.len() as int;
    match timing {
        DeviceTiming::Failed(_) => {
            results.duration = host;
            metrics.push(
                MetricValue::integer("cuda_error_code", numbers.error_code, "").with_display_name(
                    "CUDA error",
                ),
            );
        },
        DeviceTiming::Taken(time) => {
            results.duration = time;
            metrics.push(
                MetricValue::duration_ms("cuda_event_ms", numbers.device_ms).with_display_name(
                    "CUDA event",
                ),
            );
            metrics.push(
                MetricValue::duration_ms(
                    "host_overhead_ms",
                    numbers.host_overhead_ms,
                ).with_display_name("Host overhead"),
            );
            if total_work(bytes_per_op, ops) > 0 {
                metrics.push(
                    MetricValue::bandwidth_gib_s(
                        "gpu_gib_s",
                        numbers.gib_per_second,
                    ).with_display_name("GPU bandwidth"),
                );
            }
            if total_work(flops_per_op, ops) > 0 {
                metrics.push(
                    MetricValue::throughput_tflops(
                        "gpu_tflops",
                        numbers.tflops,
                    ).with_display_name("GPU throughput"),
                );
            }
        },
    }
    assert(metrics@.take(n) =~= old(metrics)@);
}

} // verus!
