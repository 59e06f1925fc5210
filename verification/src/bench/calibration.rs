//! How large a chunk of work is measured at a time, and how many times.
use crate::bench::backend;
use crate::bench::backend::measured_or_host;
use crate::double::DoubleBits;
use crate::time::{Nanos, MAX_NANOS};
use vstd::prelude::*;

verus! {

pub const MIN_CHUNK_SIZE: usize = 1;

pub const MAX_CHUNK_SIZE: usize = 50_000_000;

/// The passes after which the search for a chunk size ends.
pub const CALIBRATION_PASSES: usize = 15;

/// The time that a chunk should take, in nanoseconds.
pub const TARGET_CHUNK_NANOS: u128 = 50_000_000;

/// The shortest and the longest time close enough to the target.
pub const SHORT_CHUNK_NANOS: u128 = 40_000_000;

pub const LONG_CHUNK_NANOS: u128 = 60_000_000;

/// The shortest time from which a rate is taken.
pub const MEASURABLE_NANOS: u128 = 100_000;

pub const MIN_SAMPLES: usize = 20;

pub const MAX_SAMPLES: usize = 100;

/// How long a benchmark warms up and runs, and how many samples it takes.
#[derive(Clone, Copy, Debug, PartialEq, Eq, Structural)]
pub struct BenchmarkRuntimeOptions {
    pub warm_up_duration: Nanos,
    pub benchmark_duration: Nanos,
    pub min_samples: usize,
    pub max_samples: usize,
}

impl Default for BenchmarkRuntimeOptions {
    fn default() -> (r: BenchmarkRuntimeOptions)
        ensures
            r.warm_up_duration.count == 1_000_000_000,
            r.benchmark_duration.count == 5_000_000_000,
            r.min_samples == MIN_SAMPLES,
            r.max_samples == MAX_SAMPLES,
            r.validity() is Ok,
    {
        BenchmarkRuntimeOptions {
            warm_up_duration: Nanos::from_secs(1),
            benchmark_duration: Nanos::from_secs(5),
            min_samples: MIN_SAMPLES,
            max_samples: MAX_SAMPLES,
        }
    }
}

/// What is wrong with runtime options.
#[derive(Clone, Copy, Debug, PartialEq, Eq, Structural)]
pub enum RuntimeOptionError {
    NoWarmUp,
    NoBenchmarkTime,
    NoMinimum,
    NoMaximum,
    MinimumAboveMaximum,
}

impl RuntimeOptionError {
    pub open spec fn message_text(self) -> Seq<char> {
        match self {
            RuntimeOptionError::NoWarmUp => "warm_up_duration must be > 0"@,
            RuntimeOptionError::NoBenchmarkTime => "benchmark_duration must be > 0"@,
            RuntimeOptionError::NoMinimum => "min_samples must be > 0"@,
            RuntimeOptionError::NoMaximum => "max_samples must be > 0"@,
            RuntimeOptionError::MinimumAboveMaximum => "min_samples must be <= max_samples"@,
        }
    }

    pub fn message(&self) -> (r: &'static str)
        ensures
            r@ == self.message_text(),
    {
        match self {
            RuntimeOptionError::NoWarmUp => "warm_up_duration must be > 0",
            RuntimeOptionError::NoBenchmarkTime => "benchmark_duration must be > 0",
            RuntimeOptionError::NoMinimum => "min_samples must be > 0",
            RuntimeOptionError::NoMaximum => "max_samples must be > 0",
            RuntimeOptionError::MinimumAboveMaximum => "min_samples must be <= max_samples",
        }
    }
}

impl BenchmarkRuntimeOptions {
    /// The first rule that the options break.
    pub open spec fn validity(self) -> Result<(), RuntimeOptionError> {
        if self.warm_up_duration.count == 0 {
            Err(RuntimeOptionError::NoWarmUp)
        } else if self.benchmark_duration.count == 0 {
            Err(RuntimeOptionError::NoBenchmarkTime)
        } else if self.min_samples == 0 {
            Err(RuntimeOptionError::NoMinimum)
        } else if self.max_samples == 0 {
            Err(RuntimeOptionError::NoMaximum)
        } else if self.min_samples > self.max_samples {
            Err(RuntimeOptionError::MinimumAboveMaximum)
        } else {
            Ok(())
        }
    }

    /// Whether the options can be used, or the first rule that they break.
    pub fn validate(&self) -> (r: Result<(), RuntimeOptionError>)
        ensures
            r == self.validity(),
    {
        if self.warm_up_duration.is_zero() {
            return Err(RuntimeOptionError::NoWarmUp);
        }
        if self.benchmark_duration.is_zero() {
            return Err(RuntimeOptionError::NoBenchmarkTime);
        }
        if self.min_samples == 0 {
            return Err(RuntimeOptionError::NoMinimum);
        }
        if self.max_samples == 0 {
            return Err(RuntimeOptionError::NoMaximum);
        }
        if self.min_samples > self.max_samples {
            return Err(RuntimeOptionError::MinimumAboveMaximum);
        }
        Ok(())
    }
}

/// How many samples are taken: as many as fill the time of the benchmark, no
/// fewer and no more than the options allow. All that they allow where the
/// time of a sample is not known.
pub open spec fn sample_target(
    runtime: BenchmarkRuntimeOptions,
    sample_seconds: DoubleBits,
    samples_in_time: usize,
) -> usize {
    if !sample_seconds.finite() || sample_seconds.rank() <= 0 {
        runtime.max_samples
    } else if samples_in_time < runtime.min_samples {
        runtime.min_samples
    } else if samples_in_time > runtime.max_samples {
        runtime.max_samples
    } else {
        samples_in_time
    }
}

/// `samples_in_time` is the time of the benchmark divided by the time of a
/// sample, rounded down.
pub fn target_sample_count(
    runtime: &BenchmarkRuntimeOptions,
    estimated_sample_duration_secs: DoubleBits,
    samples_in_time: usize,
) -> (r: usize)
    requires
        runtime.min_samples <= runtime.max_samples,
    ensures
        r == sample_target(*runtime, estimated_sample_duration_secs, samples_in_time),
        runtime.min_samples <= r <= runtime.max_samples,
{
    if !estimated_sample_duration_secs.is_finite() || estimated_sample_duration_secs.le(
        DoubleBits { bits: 0 },
    ) {
        return runtime.max_samples;
    }
    if samples_in_time < runtime.min_samples {
        runtime.min_samples
    } else if samples_in_time > runtime.max_samples {
        runtime.max_samples
    } else {
        samples_in_time
    }
}

/// What a calibration chose.
#[derive(Clone, Copy, Debug, PartialEq, Eq, Structural)]
pub struct BenchmarkConfig {
    pub chunk_size: usize,
    pub target_samples: usize,
    pub estimated_throughput_per_sec: DoubleBits,
}

/// The search for a chunk size, between two passes.
#[derive(Clone, Copy, Debug, PartialEq, Eq, Structural)]
pub struct Calibration {
    /// The chunk size of the next pass.
    pub chunk_size: usize,
    /// The chunk size to use when the search ends here.
    pub best_chunk_size: usize,
    /// The passes made so far.
    pub passes: usize,
    pub finished: bool,
}

/// A chunk size within its limits.
pub open spec fn limited(chunk: int) -> int {
    if chunk < MIN_CHUNK_SIZE {
        MIN_CHUNK_SIZE as int
    } else if chunk > MAX_CHUNK_SIZE {
        MAX_CHUNK_SIZE as int
    } else {
        chunk
    }
}

impl Calibration {
    pub open spec fn well_formed(self) -> bool {
        &&& MIN_CHUNK_SIZE <= self.chunk_size <= MAX_CHUNK_SIZE
        &&& MIN_CHUNK_SIZE <= self.best_chunk_size <= MAX_CHUNK_SIZE
        &&& self.passes <= CALIBRATION_PASSES
        &&& self.passes == CALIBRATION_PASSES ==> self.finished
    }

    pub fn start() -> (r: Calibration)
        ensures
            r.well_formed(),
            r.chunk_size == MIN_CHUNK_SIZE,
            r.best_chunk_size == MIN_CHUNK_SIZE,
            r.passes == 0,
            !r.finished,
    {
        Calibration {
            chunk_size: MIN_CHUNK_SIZE,
            best_chunk_size: MIN_CHUNK_SIZE,
            passes: 0,
            finished: false,
        }
    }

    /// The state when `next` follows the chunk size of this pass: the search
    /// ends where the size stays.
    pub open spec fn moved_to(self, next: int) -> Calibration {
        Calibration {
            chunk_size: next as usize,
            best_chunk_size: next as usize,
            passes: (self.passes + 1) as usize,
            finished: next == self.chunk_size || self.passes + 1 == CALIBRATION_PASSES,
        }
    }

    /// The state behind a pass that took `duration`. A time too short to be
    /// measured makes the chunk ten times as large. A time close to the target
    /// ends the search. Any other scales the chunk: to `scaled_chunk`, within
    /// the limits.
    pub open spec fn after_pass(self, duration: Nanos, scaled_chunk: u64) -> Calibration {
        if duration.count < MEASURABLE_NANOS {
            self.moved_to(limited(self.chunk_size * 10))
        } else if SHORT_CHUNK_NANOS <= duration.count <= LONG_CHUNK_NANOS {
            Calibration {
                chunk_size: self.chunk_size,
                best_chunk_size: self.chunk_size,
                passes: (self.passes + 1) as usize,
                finished: true,
            }
        } else {
            self.moved_to(limited(scaled_chunk as int))
        }
    }

    /// Takes in the time of a pass. `scaled_chunk` is the chunk size times the
    /// target time over `duration`, rounded to the nearest integer. Returns
    /// whether the time was long enough to take a rate from it.
    pub fn record(&mut self, duration: Nanos, scaled_chunk: u64) -> (measurable: bool)
        requires
            old(self).well_formed(),
            !old(self).finished,
        ensures
            *final(self) == old(self).after_pass(duration, scaled_chunk),
            final(self).well_formed(),
            measurable == (duration.count >= MEASURABLE_NANOS),
    {
        let chunk: usize = self.chunk_size;
        let measurable: bool = duration.count >= MEASURABLE_NANOS;
        let passes: usize = self.passes + 1;
        if measurable && duration.count >= SHORT_CHUNK_NANOS && duration.count
            <= LONG_CHUNK_NANOS {
            *self = Calibration {
                chunk_size: chunk,
                best_chunk_size: chunk,
                passes,
                finished: true,
            };
            return true;
        }
        let next: usize = if !measurable {
            if chunk * 10 > MAX_CHUNK_SIZE {
                MAX_CHUNK_SIZE
            } else {
                chunk * 10
            }
        } else if scaled_chunk < MIN_CHUNK_SIZE as u64 {
            MIN_CHUNK_SIZE
        } else if scaled_chunk > MAX_CHUNK_SIZE as u64 {
            MAX_CHUNK_SIZE
        } else {
            scaled_chunk as usize
        };
        *self = Calibration {
            chunk_size: next,
            best_chunk_size: next,
            passes,
            finished: next == chunk || passes == CALIBRATION_PASSES,
        };
        measurable
    }
}

/// Each pass brings the search nearer to its end: it never takes more than
/// fifteen.
pub proof fn calibration_ends(c: Calibration, duration: Nanos, scaled_chunk: u64)
    requires
        c.well_formed(),
        !c.finished,
    ensures
        c.passes < CALIBRATION_PASSES,
        c.after_pass(duration, scaled_chunk).passes == c.passes + 1,
        c.after_pass(duration, scaled_chunk).well_formed(),
{
}

/// The chunk size that a pass close to the target used is the one chosen.
pub proof fn good_chunk_is_chosen(c: Calibration, duration: Nanos, scaled_chunk: u64)
    requires
        SHORT_CHUNK_NANOS <= duration.count <= LONG_CHUNK_NANOS,
    ensures
        c.after_pass(duration, scaled_chunk).finished,
        c.after_pass(duration, scaled_chunk).best_chunk_size == c.chunk_size,
{
}

/// What the warm-up of a chunk of fixed size has measured so far.
#[derive(Clone, Copy, Debug, PartialEq, Eq, Structural)]
pub struct WarmUp {
    pub count: usize,
    pub measured: Nanos,
}

impl WarmUp {
    pub fn start() -> (r: WarmUp)
        ensures
            r.count == 0,
            r.measured.count == 0,
    {
        WarmUp { count: 0, measured: Nanos::zero() }
    }

    /// Whether one more run fits.
    pub open spec fn has_room(self, measured: Nanos, host_elapsed: Nanos) -> bool {
        &&& self.count < usize::MAX
        &&& self.measured.count + backend::sample_time(measured, host_elapsed).count <= MAX_NANOS
    }

    /// Takes in one run: the time that the backend measured, or the host's
    /// where it measured none. Returns false, and changes nothing, where the
    /// sum is too large to be held.
    pub fn record(&mut self, measured: Nanos, host_elapsed: Nanos) -> (r: bool)
        ensures
            r == old(self).has_room(measured, host_elapsed),
            r ==> final(self).count == old(self).count + 1 && final(self).measured.count == old(
                self,
            ).measured.count + backend::sample_time(measured, host_elapsed).count,
            !r ==> *final(self) == *old(self),
    {
        let time = measured_or_host(measured, host_elapsed);
        if self.count == usize::MAX || self.measured.count > MAX_NANOS || time.count > MAX_NANOS
            - self.measured.count {
            return false;
        }
        self.count = self.count + 1;
        self.measured = Nanos { count: self.measured.count + time.count };
        true
    }
}

} // verus!
