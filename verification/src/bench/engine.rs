//! The course of a benchmark case: what is done next, and what has become of
//! the case so far. Whoever runs it does the step and hands back its outcome.
use crate::bench::backend::{DiagnosticError, DiagnosticPass, DiagnosticResult, MetricValue};
use crate::bench::calibration;
use crate::bench::calibration::{
    target_sample_count, BenchmarkRuntimeOptions, Calibration, WarmUp,
};
use crate::bench::concurrent::{
    ConcurrentSampleInfo, ConcurrentSamplePhase, ConcurrentSampleResult,
};
use crate::bench::results;
use crate::bench::results::Results;
use crate::bench::run;
use crate::bench::run::{ConcurrentRun, StandardRun};
use crate::double::DoubleBits;
use crate::text;
use crate::text::{align_right, decimal_text};
use crate::time::Nanos;
use vstd::prelude::*;

verus! {

/// What is done next in a standard case.
#[derive(Clone, Copy, Debug, PartialEq, Eq, Structural)]
pub enum Step {
    /// Time a chunk, to find the size of chunks.
    Pass { chunk_size: usize },
    /// Run a chunk to warm up, as long as there is time for it.
    WarmUp { chunk_size: usize, index: usize },
    /// Take a sample.
    Sample { chunk_size: usize, index: usize },
    /// Make a diagnostic pass.
    Diagnose { chunk_size: usize, index: usize },
    Done,
}

/// How far a standard case has come.
#[derive(Clone, Copy, Debug, PartialEq, Eq, Structural)]
pub enum CasePhase {
    Calibrating(Calibration),
    WarmingUp { chunk_size: usize, warm_up: WarmUp },
    Measuring { chunk_size: usize, target_samples: usize },
}

/// A standard case under way.
pub struct StandardCase {
    pub runtime: BenchmarkRuntimeOptions,
    pub phase: CasePhase,
    pub run: StandardRun,
    pub diagnostic: DiagnosticPass,
}

impl StandardCase {
    /// The options are valid, the sum is that of the samples, and no sample
    /// comes before the measuring or beyond its target.
    pub open spec fn well_formed(&self) -> bool {
        &&& self.runtime.validity() is Ok
        &&& self.run.well_formed()
        &&& match self.phase {
            CasePhase::Calibrating(c) => c.well_formed() && !c.finished && self.run.samples@.len()
                == 0,
            CasePhase::WarmingUp { .. } => self.run.samples@.len() == 0,
            CasePhase::Measuring { target_samples, .. } => self.run.samples@.len()
                <= target_samples,
        }
    }

    /// What is done next.
    pub open spec fn step(&self) -> Step {
        match self.phase {
            CasePhase::Calibrating(c) => Step::Pass { chunk_size: c.chunk_size },
            CasePhase::WarmingUp { chunk_size, warm_up } => Step::WarmUp {
                chunk_size,
                index: warm_up.count,
            },
            CasePhase::Measuring { chunk_size, target_samples } => if self.run.samples@.len()
                < target_samples {
                Step::Sample { chunk_size, index: self.run.samples@.len() as usize }
            } else if self.diagnostic.remaining > 0 {
                Step::Diagnose { chunk_size, index: self.diagnostic.metrics@.len() as usize }
            } else {
                Step::Done
            },
        }
    }

    /// Starts a case. A fixed chunk size needs no calibration.
    pub fn start(
        runtime: BenchmarkRuntimeOptions,
        fixed_chunk_size: Option<usize>,
        diagnostic_samples: usize,
    ) -> (r: StandardCase)
        requires
            runtime.validity() is Ok,
            fixed_chunk_size != Some(0usize),
        ensures
            r.well_formed(),
            r.runtime == runtime,
            r.run.summed == Results::none(),
            r.run.samples@.len() == 0,
            r.run.metrics@.len() == 0,
            r.diagnostic.remaining == diagnostic_samples,
            r.diagnostic.metrics@.len() == 0,
            r.phase == match fixed_chunk_size {
                Some(chunk_size) => CasePhase::WarmingUp {
                    chunk_size,
                    warm_up: WarmUp { count: 0, measured: Nanos { count: 0 } },
                },
                None => CasePhase::Calibrating(
                    Calibration {
                        chunk_size: calibration::MIN_CHUNK_SIZE,
                        best_chunk_size: calibration::MIN_CHUNK_SIZE,
                        passes: 0,
                        finished: false,
                    },
                ),
            },
            r.step() == match fixed_chunk_size {
                Some(chunk_size) => Step::WarmUp { chunk_size, index: 0 },
                None => Step::Pass { chunk_size: calibration::MIN_CHUNK_SIZE },
            },
    {
        let phase = match fixed_chunk_size {
            Some(chunk_size) => CasePhase::WarmingUp { chunk_size, warm_up: WarmUp::start() },
            None => CasePhase::Calibrating(Calibration::start()),
        };
        StandardCase {
            runtime,
            phase,
            run: StandardRun::start(),
            diagnostic: DiagnosticPass::start(diagnostic_samples),
        }
    }

    pub fn next_step(&self) -> (r: Step)
        ensures
            r == self.step(),
    {
        match self.phase {
            CasePhase::Calibrating(c) => Step::Pass { chunk_size: c.chunk_size },
            CasePhase::WarmingUp { chunk_size, warm_up } => Step::WarmUp {
                chunk_size,
                index: warm_up.count,
            },
            CasePhase::Measuring { chunk_size, target_samples } => {
                if self.run.samples.len() < target_samples {
                    Step::Sample { chunk_size, index: self.run.samples.len() }
                } else if self.diagnostic.remaining > 0 {
                    Step::Diagnose { chunk_size, index: self.diagnostic.metrics.len() }
                } else {
                    Step::Done
                }
            },
        }
    }

    /// The phase behind a calibration pass: the warm-up once the search ends.
    pub open spec fn phase_after_pass(
        c: Calibration,
        duration: Nanos,
        scaled_chunk: u64,
    ) -> CasePhase {
        let next = c.after_pass(duration, scaled_chunk);
        if next.finished {
            CasePhase::WarmingUp {
                chunk_size: next.best_chunk_size,
                warm_up: WarmUp { count: 0, measured: Nanos { count: 0 } },
            }
        } else {
            CasePhase::Calibrating(next)
        }
    }

    /// Takes in the time of a calibration pass. Returns whether it was long
    /// enough to take a rate from it.
    pub fn pass_taken(&mut self, duration: Nanos, scaled_chunk: u64) -> (measurable: bool)
        requires
            old(self).well_formed(),
            old(self).step() is Pass,
        ensures
            final(self).well_formed(),
            final(self).runtime == old(self).runtime,
            final(self).run == old(self).run,
            final(self).diagnostic == old(self).diagnostic,
            old(self).phase matches CasePhase::Calibrating(c) && final(self).phase
                == StandardCase::phase_after_pass(c, duration, scaled_chunk),
            measurable == (duration.count >= calibration::MEASURABLE_NANOS),
    {
        match self.phase {
            CasePhase::Calibrating(c) => {
                let mut search = c;
                let measurable: bool = search.record(duration, scaled_chunk);
                self.phase = if search.finished {
                    CasePhase::WarmingUp {
                        chunk_size: search.best_chunk_size,
                        warm_up: WarmUp::start(),
                    }
                } else {
                    CasePhase::Calibrating(search)
                };
                measurable
            },
            _ => false,
        }
    }

    /// Whether the warm-up goes on after so much time.
    pub fn warms_up(&self, elapsed: Nanos) -> (r: bool)
        ensures
            r == (elapsed.count < self.runtime.warm_up_duration.count),
    {
        elapsed.count < self.runtime.warm_up_duration.count
    }

    /// Takes in a run of the warm-up. Returns false, and changes nothing, where
    /// the time is too large to be held.
    pub fn warmed_up(&mut self, measured: Nanos, host_elapsed: Nanos) -> (r: bool)
        requires
            old(self).well_formed(),
            old(self).step() is WarmUp,
        ensures
            final(self).well_formed(),
            final(self).runtime == old(self).runtime,
            final(self).run == old(self).run,
            final(self).diagnostic == old(self).diagnostic,
            match (old(self).phase, final(self).phase) {
                (
                    CasePhase::WarmingUp { chunk_size: before, warm_up: old_runs },
                    CasePhase::WarmingUp { chunk_size: after, warm_up: new_runs },
                ) => {
                    &&& before == after
                    &&& r == old_runs.has_room(measured, host_elapsed)
                    &&& r ==> new_runs.count == old_runs.count + 1 && new_runs.measured.count
                        == old_runs.measured.count + crate::bench::backend::sample_time(
                        measured,
                        host_elapsed,
                    ).count
                    &&& !r ==> new_runs == old_runs
                },
                _ => false,
            },
    {
        match self.phase {
            CasePhase::WarmingUp { chunk_size, warm_up } => {
                let mut runs = warm_up;
                let r: bool = runs.record(measured, host_elapsed);
                self.phase = CasePhase::WarmingUp { chunk_size, warm_up: runs };
                r
            },
            _ => false,
        }
    }

    /// Ends the warm-up. The number of samples follows from the time that one
    /// is estimated to take, in seconds, and from how many fit into the time of
    /// the benchmark.
    pub fn start_measuring(&mut self, sample_seconds: DoubleBits, samples_in_time: usize)
        requires
            old(self).well_formed(),
            old(self).step() is WarmUp,
        ensures
            final(self).well_formed(),
            final(self).runtime == old(self).runtime,
            final(self).run == old(self).run,
            final(self).diagnostic == old(self).diagnostic,
            old(self).phase matches CasePhase::WarmingUp { chunk_size, .. } && final(self).phase
                == (CasePhase::Measuring {
                chunk_size,
                target_samples: calibration::sample_target(
                    old(self).runtime,
                    sample_seconds,
                    samples_in_time,
                ),
            }),
    {
        if let CasePhase::WarmingUp { chunk_size, .. } = self.phase {
            let target_samples: usize = target_sample_count(
                &self.runtime,
                sample_seconds,
                samples_in_time,
            );
            self.phase = CasePhase::Measuring { chunk_size, target_samples };
        }
    }

    /// Takes in a sample. Returns false, and changes nothing, where the sum is
    /// too large to be held.
    pub fn sample_taken(&mut self, sample: Results, host_elapsed: Nanos, metrics: Vec<MetricValue>) -> (r:
        bool)
        requires
            old(self).well_formed(),
            old(self).step() is Sample,
        ensures
            final(self).well_formed(),
            final(self).runtime == old(self).runtime,
            final(self).phase == old(self).phase,
            final(self).diagnostic == old(self).diagnostic,
            r == results::total(
                old(self).run.samples@.push(run::timed(sample, host_elapsed)),
            ).representable(),
            r ==> {
                &&& final(self).run.samples@ == old(self).run.samples@.push(
                    run::timed(sample, host_elapsed),
                )
                &&& final(self).run.metrics@ == old(self).run.metrics@.push(metrics)
                &&& final(self).run.summed == old(self).run.summed.plus(
                    run::timed(sample, host_elapsed),
                )
            },
            !r ==> final(self).run == old(self).run,
    {
        self.run.record(sample, host_elapsed, metrics)
    }

    /// Takes in a diagnostic pass; it adds no sample, and one that fails is the last.
    pub fn diagnosed(&mut self, outcome: Result<DiagnosticResult, DiagnosticError>)
        requires
            old(self).well_formed(),
            old(self).step() is Diagnose,
        ensures
            final(self).well_formed(),
            final(self).runtime == old(self).runtime,
            final(self).phase == old(self).phase,
            final(self).run == old(self).run,
            final(self).diagnostic.metrics@.len() == old(self).diagnostic.metrics@.len() + 1,
            final(self).diagnostic.metrics@.take(old(self).diagnostic.metrics@.len() as int)
                == old(self).diagnostic.metrics@,
            crate::bench::backend::pass_metrics(
                outcome,
                DoubleBits { bits: crate::bench::backend::ONE_BITS },
                final(self).diagnostic.metrics@.last()@,
            ),
            final(self).diagnostic.remaining == if outcome is Ok {
                (old(self).diagnostic.remaining - 1) as usize
            } else {
                0
            },
    {
        self.diagnostic.record(outcome);
    }

    /// How many steps are left at most once the warm-up is over.
    pub open spec fn steps_left(&self) -> nat {
        match self.phase {
            CasePhase::Measuring { target_samples, .. } => (target_samples
                - self.run.samples@.len() + self.diagnostic.remaining) as nat,
            _ => 0,
        }
    }
}

/// Calibration only tries and only chooses chunk sizes within the limits, and
/// goes on until it has chosen one.
pub proof fn calibrated_chunks_stay_within_limits(c: Calibration, duration: Nanos, scaled_chunk: u64)
    requires
        c.well_formed(),
        !c.finished,
    ensures
        match StandardCase::phase_after_pass(c, duration, scaled_chunk) {
            CasePhase::Calibrating(next) => next.well_formed() && !next.finished && next.passes
                == c.passes + 1,
            CasePhase::WarmingUp { chunk_size, warm_up } => {
                &&& calibration::MIN_CHUNK_SIZE <= chunk_size <= calibration::MAX_CHUNK_SIZE
                &&& warm_up.count == 0
            },
            CasePhase::Measuring { .. } => false,
        },
{
}

/// Samples come one after the other, from the first on, and none comes after
/// the diagnostic passes began.
pub proof fn samples_come_in_order(case: &StandardCase)
    requires
        case.well_formed(),
    ensures
        case.step() matches Step::Sample { index, .. } ==> index == case.run.samples@.len(),
        case.step() is Diagnose || case.step() is Done ==> (case.phase matches CasePhase::Measuring {
            target_samples,
            ..
        } && case.run.samples@.len() == target_samples),
{
}

/// A case that is done has taken as many samples as its options allow, and no
/// fewer than they ask for.
pub proof fn finished_cases_have_their_samples(case: &StandardCase, sample_seconds: DoubleBits, in_time: usize)
    requires
        case.well_formed(),
        case.step() is Done,
        case.phase matches CasePhase::Measuring { target_samples, .. } && target_samples
            == calibration::sample_target(case.runtime, sample_seconds, in_time),
    ensures
        case.runtime.min_samples <= case.run.samples@.len() <= case.runtime.max_samples,
{
}

/// Each step of the measuring brings a case nearer to its end: a sample and a
/// diagnostic pass both leave fewer steps.
pub proof fn measuring_ends(before: &StandardCase, after: &StandardCase)
    requires
        before.well_formed(),
        after.well_formed(),
        after.phase == before.phase,
        before.step() is Sample ==> after.run.samples@.len() == before.run.samples@.len() + 1
            && after.diagnostic.remaining == before.diagnostic.remaining,
        before.step() is Diagnose ==> after.run == before.run && after.diagnostic.remaining
            < before.diagnostic.remaining,
        before.step() is Sample || before.step() is Diagnose,
    ensures
        after.steps_left() < before.steps_left(),
{
}

/// The line that is shown behind a calibration pass.
pub fn pass_notice(pass: usize, chunk_size: usize, rate: &str) -> (r: String)
    ensures
        r@ == "🔥 calibrating benchmark  pass: "@ + text::right_aligned(
            text::decimal(pass as nat),
            2,
        ) + "/15  chunk: "@ + text::right_aligned(text::decimal(chunk_size as nat), 9) + "  est: "@
            + rate@,
{
    let mut line = "🔥 calibrating benchmark  pass: ".to_owned();
    line.append(align_right(decimal_text(pass as u64).as_str(), 2).as_str());
    line.append("/15  chunk: ");
    line.append(align_right(decimal_text(chunk_size as u64).as_str(), 9).as_str());
    line.append("  est: ");
    line.append(rate);
    line
}

/// The line that is shown while the warm-up goes on. A chunk size that
/// calibration chose keeps its place in the line; a fixed one needs none.
pub fn warm_up_notice(remaining_ms: u64, chunk_size: usize, fixed: bool) -> (r: String)
    ensures
        r@ == "🔥 calibrating benchmark  warmup remaining: "@ + text::right_aligned(
            text::decimal(remaining_ms as nat),
            4,
        ) + " ms  chunk: "@ + text::right_aligned(
            text::decimal(chunk_size as nat),
            if fixed {
                0
            } else {
                9
            },
        ),
{
    let mut line = "🔥 calibrating benchmark  warmup remaining: ".to_owned();
    line.append(align_right(decimal_text(remaining_ms).as_str(), 4).as_str());
    line.append(" ms  chunk: ");
    let width: usize = if fixed {
        0
    } else {
        9
    };
    line.append(align_right(decimal_text(chunk_size as u64).as_str(), width).as_str());
    line
}

/// The line that says what calibration chose.
pub fn calibrated_notice(chunk_size: usize, target_samples: usize, rate: &str) -> (r: String)
    ensures
        r@ == "  calibrated: chunk="@ + text::decimal(chunk_size as nat) + " samples="@
            + text::decimal(target_samples as nat) + " estimate="@ + rate@,
{
    let mut line = "  calibrated: chunk=".to_owned();
    line.append(decimal_text(chunk_size as u64).as_str());
    line.append(" samples=");
    line.append(decimal_text(target_samples as u64).as_str());
    line.append(" estimate=");
    line.append(rate);
    line
}

/// How far a concurrent case has come.
#[derive(Clone, Copy, Debug, PartialEq, Eq, Structural)]
pub enum ConcurrentPhase {
    WarmingUp { count: usize },
    Measuring { target_samples: usize },
}

/// A concurrent case under way.
pub struct ConcurrentCase {
    pub runtime: BenchmarkRuntimeOptions,
    pub phase: ConcurrentPhase,
    pub run: ConcurrentRun,
}

impl ConcurrentCase {
    pub open spec fn well_formed(&self) -> bool {
        &&& self.runtime.validity() is Ok
        &&& self.run.well_formed()
        &&& match self.phase {
            ConcurrentPhase::WarmingUp { .. } => self.run.samples@.len() == 0,
            ConcurrentPhase::Measuring { target_samples } => self.run.samples@.len()
                <= target_samples,
        }
    }

    /// The sample that is taken next; none once the case is done.
    pub open spec fn sample(&self) -> Option<ConcurrentSampleInfo> {
        match self.phase {
            ConcurrentPhase::WarmingUp { count } => Some(
                ConcurrentSampleInfo { phase: ConcurrentSamplePhase::WarmUp, sample_index: count },
            ),
            ConcurrentPhase::Measuring { target_samples } => if self.run.samples@.len()
                < target_samples {
                Some(
                    ConcurrentSampleInfo {
                        phase: ConcurrentSamplePhase::Measurement,
                        sample_index: self.run.samples@.len() as usize,
                    },
                )
            } else {
                None
            },
        }
    }

    pub fn start(runtime: BenchmarkRuntimeOptions, worker_count: usize) -> (r: ConcurrentCase)
        requires
            runtime.validity() is Ok,
        ensures
            r.well_formed(),
            r.runtime == runtime,
            r.phase == (ConcurrentPhase::WarmingUp { count: 0 }),
            r.run.summed == Results::none(),
            r.run.samples@.len() == 0,
            r.run.metrics@.len() == 0,
            r.run.workers@.len() == worker_count,
            forall|w: int|
                0 <= w < worker_count ==> {
                    &&& (#[trigger] r.run.workers@[w]).summed == Results::none()
                    &&& r.run.workers@[w].samples@.len() == 0
                    &&& r.run.workers@[w].counters@.len() == 0
                },
    {
        ConcurrentCase {
            runtime,
            phase: ConcurrentPhase::WarmingUp { count: 0 },
            run: ConcurrentRun::start(worker_count),
        }
    }

    pub fn next_sample(&self) -> (r: Option<ConcurrentSampleInfo>)
        ensures
            r == self.sample(),
    {
        match self.phase {
            ConcurrentPhase::WarmingUp { count } => Some(
                ConcurrentSampleInfo { phase: ConcurrentSamplePhase::WarmUp, sample_index: count },
            ),
            ConcurrentPhase::Measuring { target_samples } => {
                if self.run.samples.len() < target_samples {
                    Some(
                        ConcurrentSampleInfo {
                            phase: ConcurrentSamplePhase::Measurement,
                            sample_index: self.run.samples.len(),
                        },
                    )
                } else {
                    None
                }
            },
        }
    }

    /// Whether the warm-up goes on after so much time.
    pub fn warms_up(&self, elapsed: Nanos) -> (r: bool)
        ensures
            r == (elapsed.count < self.runtime.warm_up_duration.count),
    {
        elapsed.count < self.runtime.warm_up_duration.count
    }

    /// Counts a sample of the warm-up. The count stays at the largest number.
    pub fn warmed_up(&mut self)
        requires
            old(self).well_formed(),
            old(self).phase is WarmingUp,
        ensures
            final(self).well_formed(),
            final(self).runtime == old(self).runtime,
            final(self).run == old(self).run,
            old(self).phase matches ConcurrentPhase::WarmingUp { count } && final(self).phase
                == (ConcurrentPhase::WarmingUp {
                count: if count < usize::MAX {
                    (count + 1) as usize
                } else {
                    count
                },
            }),
    {
        if let ConcurrentPhase::WarmingUp { count } = self.phase {
            self.phase = ConcurrentPhase::WarmingUp {
                count: if count < usize::MAX {
                    count + 1
                } else {
                    count
                },
            };
        }
    }

    /// Ends the warm-up; the number of samples follows from the time of one.
    pub fn start_measuring(&mut self, sample_seconds: DoubleBits, samples_in_time: usize)
        requires
            old(self).well_formed(),
            old(self).phase is WarmingUp,
        ensures
            final(self).well_formed(),
            final(self).runtime == old(self).runtime,
            final(self).run == old(self).run,
            final(self).phase == (ConcurrentPhase::Measuring {
                target_samples: calibration::sample_target(
                    old(self).runtime,
                    sample_seconds,
                    samples_in_time,
                ),
            }),
    {
        let target_samples: usize = target_sample_count(
            &self.runtime,
            sample_seconds,
            samples_in_time,
        );
        self.phase = ConcurrentPhase::Measuring { target_samples };
    }

    /// Takes in a sample, what a backend measured of it, and its metrics.
    /// Returns false, and changes nothing, where a sum is too large to be held.
    pub fn sample_taken(
        &mut self,
        sample: ConcurrentSampleResult,
        measured: Option<Results>,
        metrics: Vec<MetricValue>,
    ) -> (r: bool)
        requires
            old(self).well_formed(),
            old(self).phase is Measuring,
            old(self).sample() is Some,
            sample.worker_summaries@.len() == old(self).run.workers@.len(),
        ensures
            final(self).well_formed(),
            final(self).runtime == old(self).runtime,
            final(self).phase == old(self).phase,
            r == old(self).run.has_room(sample, measured),
            r ==> ConcurrentRun::extended(
                old(self).run,
                sample,
                measured,
                metrics@,
                final(self).run,
            ),
            !r ==> final(self).run == old(self).run,
    {
        self.run.record(sample, measured, metrics)
    }
}

/// The line that is shown while the warm-up of a concurrent case goes on.
pub fn concurrent_warm_up_notice(remaining_ms: u64, sample_ms: u64, rate: &str) -> (r: String)
    ensures
        r@ == "🔥 calibrating benchmark  warmup remaining: "@ + text::right_aligned(
            text::decimal(remaining_ms as nat),
            4,
        ) + " ms  sample: "@ + text::right_aligned(text::decimal(sample_ms as nat), 4)
            + " ms  est: "@ + rate@,
{
    let mut line = "🔥 calibrating benchmark  warmup remaining: ".to_owned();
    line.append(align_right(decimal_text(remaining_ms).as_str(), 4).as_str());
    line.append(" ms  sample: ");
    line.append(align_right(decimal_text(sample_ms).as_str(), 4).as_str());
    line.append(" ms  est: ");
    line.append(rate);
    line
}

/// The line that says what the warm-up of a concurrent case came to.
pub fn concurrent_calibrated_notice(sample_ms: u64, target_samples: usize, rate: &str) -> (r:
    String)
    ensures
        r@ == "  calibrated: sample="@ + text::decimal(sample_ms as nat) + "ms samples="@
            + text::decimal(target_samples as nat) + " estimate="@ + rate@,
{
    let mut line = "  calibrated: sample=".to_owned();
    line.append(decimal_text(sample_ms).as_str());
    line.append("ms samples=");
    line.append(decimal_text(target_samples as u64).as_str());
    line.append(" estimate=");
    line.append(rate);
    line
}

/// A warning where there are fewer cores to pin to than threads.
pub fn pinning_notice(total_threads: usize, cores: usize) -> (r: Option<String>)
    ensures
        r is Some <==> cores < total_threads,
        r matches Some(text) ==> text@ == "Concurrent benchmark requested "@ + text::decimal(
            total_threads as nat,
        ) + " worker threads but only "@ + text::decimal(cores as nat)
            + " distinct candidate cores were available for pinning; PMU multiplexing may still occur"@,
{
    if cores >= total_threads {
        return None;
    }
    let mut line = "Concurrent benchmark requested ".to_owned();
    line.append(decimal_text(total_threads as u64).as_str());
    line.append(" worker threads but only ");
    line.append(decimal_text(cores as u64).as_str());
    line.append(
        " distinct candidate cores were available for pinning; PMU multiplexing may still occur",
    );
    Some(line)
}

/// A concurrent case that is done has no fewer samples than its options ask
/// for and no more than they allow.
pub proof fn finished_concurrent_cases_have_their_samples(
    case: &ConcurrentCase,
    sample_seconds: DoubleBits,
    in_time: usize,
)
    requires
        case.well_formed(),
        case.phase == (ConcurrentPhase::Measuring {
            target_samples: calibration::sample_target(case.runtime, sample_seconds, in_time),
        }),
        case.sample() is None,
    ensures
        case.runtime.min_samples <= case.run.samples@.len() <= case.runtime.max_samples,
{
}

} // verus!
