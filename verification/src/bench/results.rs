//! What one sample counted, and how samples and workers are added up.
use crate::time::{Nanos, MAX_NANOS};
use vstd::prelude::*;

verus! {

/// The counters and the time of one sample, or of several added up.
#[derive(Clone, Copy, Debug, PartialEq, Eq, Structural)]
pub struct Results {
    pub cycles: u64,
    pub instructions: u64,
    pub cache_references: u64,
    pub l1i_misses: u64,
    pub branches: u64,
    pub branch_misses: u64,
    pub cache_misses: u64,
    pub stalled_cycles_frontend: u64,
    pub stalled_cycles_backend: u64,
    pub has_cycles: bool,
    pub has_instructions: bool,
    pub has_cache_references: bool,
    pub has_l1i_misses: bool,
    pub has_branches: bool,
    pub has_branch_misses: bool,
    pub has_cache_misses: bool,
    pub has_stalled_cycles_frontend: bool,
    pub has_stalled_cycles_backend: bool,
    pub pmu_time_enabled_ns: u64,
    pub pmu_time_running_ns: u64,
    pub duration: Nanos,
    pub iterations: u64,
    pub chunks_executed: u64,
}

impl Default for Results {
    /// Nothing counted and no time spent.
    fn default() -> (r: Results)
        ensures
            r == Results::none(),
    {
        Results {
            cycles: 0,
            instructions: 0,
            cache_references: 0,
            l1i_misses: 0,
            branches: 0,
            branch_misses: 0,
            cache_misses: 0,
            stalled_cycles_frontend: 0,
            stalled_cycles_backend: 0,
            has_cycles: false,
            has_instructions: false,
            has_cache_references: false,
            has_l1i_misses: false,
            has_branches: false,
            has_branch_misses: false,
            has_cache_misses: false,
            has_stalled_cycles_frontend: false,
            has_stalled_cycles_backend: false,
            pmu_time_enabled_ns: 0,
            pmu_time_running_ns: 0,
            duration: Nanos { count: 0 },
            iterations: 0,
            chunks_executed: 0,
        }
    }
}

impl Results {
    /// Nothing counted.
    pub open spec fn none() -> Results {
        Results {
            cycles: 0,
            instructions: 0,
            cache_references: 0,
            l1i_misses: 0,
            branches: 0,
            branch_misses: 0,
            cache_misses: 0,
            stalled_cycles_frontend: 0,
            stalled_cycles_backend: 0,
            has_cycles: false,
            has_instructions: false,
            has_cache_references: false,
            has_l1i_misses: false,
            has_branches: false,
            has_branch_misses: false,
            has_cache_misses: false,
            has_stalled_cycles_frontend: false,
            has_stalled_cycles_backend: false,
            pmu_time_enabled_ns: 0,
            pmu_time_running_ns: 0,
            duration: Nanos { count: 0 },
            iterations: 0,
            chunks_executed: 0,
        }
    }

    /// Every sum of the two fits its field.
    pub open spec fn fits(self, other: Results) -> bool {
        &&& self.cycles + other.cycles <= u64::MAX
        &&& self.instructions + other.instructions <= u64::MAX
        &&& self.cache_references + other.cache_references <= u64::MAX
        &&& self.l1i_misses + other.l1i_misses <= u64::MAX
        &&& self.branches + other.branches <= u64::MAX
        &&& self.branch_misses + other.branch_misses <= u64::MAX
        &&& self.cache_misses + other.cache_misses <= u64::MAX
        &&& self.stalled_cycles_frontend + other.stalled_cycles_frontend <= u64::MAX
        &&& self.stalled_cycles_backend + other.stalled_cycles_backend <= u64::MAX
        &&& self.pmu_time_enabled_ns + other.pmu_time_enabled_ns <= u64::MAX
        &&& self.pmu_time_running_ns + other.pmu_time_running_ns <= u64::MAX
        &&& self.iterations + other.iterations <= u64::MAX
        &&& self.chunks_executed + other.chunks_executed <= u64::MAX
        &&& self.duration.count + other.duration.count <= MAX_NANOS
    }

    /// Counts and times added, and a counter present when either side had it.
    pub open spec fn plus(self, other: Results) -> Results {
        Results {
            cycles: (self.cycles + other.cycles) as u64,
            instructions: (self.instructions + other.instructions) as u64,
            cache_references: (self.cache_references + other.cache_references) as u64,
            l1i_misses: (self.l1i_misses + other.l1i_misses) as u64,
            branches: (self.branches + other.branches) as u64,
            branch_misses: (self.branch_misses + other.branch_misses) as u64,
            cache_misses: (self.cache_misses + other.cache_misses) as u64,
            stalled_cycles_frontend: (self.stalled_cycles_frontend + other.stalled_cycles_frontend) as u64,
            stalled_cycles_backend: (self.stalled_cycles_backend + other.stalled_cycles_backend) as u64,
            has_cycles: self.has_cycles || other.has_cycles,
            has_instructions: self.has_instructions || other.has_instructions,
            has_cache_references: self.has_cache_references || other.has_cache_references,
            has_l1i_misses: self.has_l1i_misses || other.has_l1i_misses,
            has_branches: self.has_branches || other.has_branches,
            has_branch_misses: self.has_branch_misses || other.has_branch_misses,
            has_cache_misses: self.has_cache_misses || other.has_cache_misses,
            has_stalled_cycles_frontend: self.has_stalled_cycles_frontend || other.has_stalled_cycles_frontend,
            has_stalled_cycles_backend: self.has_stalled_cycles_backend || other.has_stalled_cycles_backend,
            pmu_time_enabled_ns: (self.pmu_time_enabled_ns + other.pmu_time_enabled_ns) as u64,
            pmu_time_running_ns: (self.pmu_time_running_ns + other.pmu_time_running_ns) as u64,
            duration: Nanos { count: (self.duration.count + other.duration.count) as u128 },
            iterations: (self.iterations + other.iterations) as u64,
            chunks_executed: (self.chunks_executed + other.chunks_executed) as u64,
        }
    }

    /// Counts and times divided and rounded down. The time is divided by the
    /// lower 32 bits of the divisor.
    pub open spec fn over(self, divisor: u64) -> Results {
        Results {
            cycles: self.cycles / divisor,
            instructions: self.instructions / divisor,
            cache_references: self.cache_references / divisor,
            l1i_misses: self.l1i_misses / divisor,
            branches: self.branches / divisor,
            branch_misses: self.branch_misses / divisor,
            cache_misses: self.cache_misses / divisor,
            stalled_cycles_frontend: self.stalled_cycles_frontend / divisor,
            stalled_cycles_backend: self.stalled_cycles_backend / divisor,
            has_cycles: self.has_cycles,
            has_instructions: self.has_instructions,
            has_cache_references: self.has_cache_references,
            has_l1i_misses: self.has_l1i_misses,
            has_branches: self.has_branches,
            has_branch_misses: self.has_branch_misses,
            has_cache_misses: self.has_cache_misses,
            has_stalled_cycles_frontend: self.has_stalled_cycles_frontend,
            has_stalled_cycles_backend: self.has_stalled_cycles_backend,
            pmu_time_enabled_ns: self.pmu_time_enabled_ns / divisor,
            pmu_time_running_ns: self.pmu_time_running_ns / divisor,
            duration: Nanos { count: self.duration.count / ((divisor as u32) as u128) },
            iterations: self.iterations / divisor,
            chunks_executed: self.chunks_executed / divisor,
        }
    }

    /// Whether `add` can be called with `other`.
    pub fn can_add(&self, other: &Results) -> (r: bool)
        ensures
            r == self.fits(*other),
    {
        self.cycles.checked_add(other.cycles).is_some()
            && self.instructions.checked_add(other.instructions).is_some()
            && self.cache_references.checked_add(other.cache_references).is_some()
            && self.l1i_misses.checked_add(other.l1i_misses).is_some()
            && self.branches.checked_add(other.branches).is_some()
            && self.branch_misses.checked_add(other.branch_misses).is_some()
            && self.cache_misses.checked_add(other.cache_misses).is_some()
            && self.stalled_cycles_frontend.checked_add(other.stalled_cycles_frontend).is_some()
            && self.stalled_cycles_backend.checked_add(other.stalled_cycles_backend).is_some()
            && self.pmu_time_enabled_ns.checked_add(other.pmu_time_enabled_ns).is_some()
            && self.pmu_time_running_ns.checked_add(other.pmu_time_running_ns).is_some()
            && self.iterations.checked_add(other.iterations).is_some()
            && self.chunks_executed.checked_add(other.chunks_executed).is_some()
            && match self.duration.count.checked_add(other.duration.count) {
            Some(total) => total <= MAX_NANOS,
            None => false,
        }
    }

    /// Adds the counts and the time of `other`.
    pub fn add(&mut self, other: &Results)
        requires
            old(self).fits(*other),
        ensures
            *final(self) == old(self).plus(*other),
    {
        *self = Results {
            cycles: self.cycles + other.cycles,
            instructions: self.instructions + other.instructions,
            cache_references: self.cache_references + other.cache_references,
            l1i_misses: self.l1i_misses + other.l1i_misses,
            branches: self.branches + other.branches,
            branch_misses: self.branch_misses + other.branch_misses,
            cache_misses: self.cache_misses + other.cache_misses,
            stalled_cycles_frontend: self.stalled_cycles_frontend + other.stalled_cycles_frontend,
            stalled_cycles_backend: self.stalled_cycles_backend + other.stalled_cycles_backend,
            has_cycles: self.has_cycles || other.has_cycles,
            has_instructions: self.has_instructions || other.has_instructions,
            has_cache_references: self.has_cache_references || other.has_cache_references,
            has_l1i_misses: self.has_l1i_misses || other.has_l1i_misses,
            has_branches: self.has_branches || other.has_branches,
            has_branch_misses: self.has_branch_misses || other.has_branch_misses,
            has_cache_misses: self.has_cache_misses || other.has_cache_misses,
            has_stalled_cycles_frontend: self.has_stalled_cycles_frontend || other.has_stalled_cycles_frontend,
            has_stalled_cycles_backend: self.has_stalled_cycles_backend || other.has_stalled_cycles_backend,
            pmu_time_enabled_ns: self.pmu_time_enabled_ns + other.pmu_time_enabled_ns,
            pmu_time_running_ns: self.pmu_time_running_ns + other.pmu_time_running_ns,
            duration: Nanos { count: self.duration.count + other.duration.count },
            iterations: self.iterations + other.iterations,
            chunks_executed: self.chunks_executed + other.chunks_executed,
        };
    }

    /// Divides the counts and the time; a divisor of zero changes nothing.
    pub fn divide(&mut self, divisor: u64)
        requires
            divisor == 0 || divisor as u32 != 0,
        ensures
            *final(self) == if divisor == 0 {
                *old(self)
            } else {
                old(self).over(divisor)
            },
    {
        if divisor == 0 {
            return ;
        }
        self.cycles = self.cycles / divisor;
        self.instructions = self.instructions / divisor;
        self.cache_references = self.cache_references / divisor;
        self.l1i_misses = self.l1i_misses / divisor;
        self.branches = self.branches / divisor;
        self.branch_misses = self.branch_misses / divisor;
        self.cache_misses = self.cache_misses / divisor;
        self.stalled_cycles_frontend = self.stalled_cycles_frontend / divisor;
        self.stalled_cycles_backend = self.stalled_cycles_backend / divisor;
        self.pmu_time_enabled_ns = self.pmu_time_enabled_ns / divisor;
        self.pmu_time_running_ns = self.pmu_time_running_ns / divisor;
        let time_divisor: u32 = #[verifier::truncate] (divisor as u32);
        self.duration = Nanos { count: self.duration.count / (time_divisor as u128) };
        self.iterations = self.iterations / divisor;
        self.chunks_executed = self.chunks_executed / divisor;
    }

    /// A counter of any kind was read.
    pub open spec fn any_counter(self) -> bool {
        ||| self.has_cycles
        ||| self.has_instructions
        ||| self.has_cache_references
        ||| self.has_l1i_misses
        ||| self.has_branches
        ||| self.has_branch_misses
        ||| self.has_cache_misses
        ||| self.has_stalled_cycles_frontend
        ||| self.has_stalled_cycles_backend
    }

    /// Every counter that the full report needs was read.
    pub open spec fn core_counters(self) -> bool {
        &&& self.has_cycles
        &&& self.has_instructions
        &&& self.has_cache_references
        &&& self.has_branches
        &&& self.has_branch_misses
        &&& self.has_cache_misses
    }
}

pub fn has_perf_counters(results: &Results) -> (r: bool)
    ensures
        r == results.any_counter(),
{
    results.has_cycles
        || results.has_instructions
        || results.has_cache_references
        || results.has_l1i_misses
        || results.has_branches
        || results.has_branch_misses
        || results.has_cache_misses
        || results.has_stalled_cycles_frontend
        || results.has_stalled_cycles_backend
}

pub fn has_full_perf_counters(results: &Results) -> (r: bool)
    ensures
        r == results.core_counters(),
{
    results.has_cycles
        && results.has_instructions
        && results.has_cache_references
        && results.has_branches
        && results.has_branch_misses
        && results.has_cache_misses
}

/// Adding is commutative.
pub proof fn plus_is_commutative(a: Results, b: Results)
    ensures
        a.fits(b) == b.fits(a),
        a.plus(b) == b.plus(a),
{
}

/// Adding is associative wherever the sums fit.
pub proof fn plus_is_associative(a: Results, b: Results, c: Results)
    requires
        a.fits(b),
        a.plus(b).fits(c),
    ensures
        b.fits(c),
        a.fits(b.plus(c)),
        a.plus(b).plus(c) == a.plus(b.plus(c)),
{
}

/// Adding nothing changes nothing.
pub proof fn plus_none(a: Results)
    requires
        a.duration.representable(),
    ensures
        a.fits(Results::none()),
        a.plus(Results::none()) == a,
        Results::none().fits(a),
        Results::none().plus(a) == a,
{
}

/// A sum has a counter of some kind exactly when one of its parts has one.
pub proof fn plus_counters(a: Results, b: Results)
    ensures
        a.plus(b).any_counter() == (a.any_counter() || b.any_counter()),
        a.core_counters() ==> a.plus(b).core_counters(),
{
}

/// What a backend's reading of a sample replaces in the readings of the workers:
/// the fields that the backend filled in.
pub open spec fn backend_applied(results: Results, backend: Results) -> Results {
    Results {
        cycles: if backend.has_cycles {
            backend.cycles
        } else {
            results.cycles
        },
        instructions: if backend.has_instructions {
            backend.instructions
        } else {
            results.instructions
        },
        cache_references: if backend.has_cache_references {
            backend.cache_references
        } else {
            results.cache_references
        },
        l1i_misses: if backend.has_l1i_misses {
            backend.l1i_misses
        } else {
            results.l1i_misses
        },
        branches: if backend.has_branches {
            backend.branches
        } else {
            results.branches
        },
        branch_misses: if backend.has_branch_misses {
            backend.branch_misses
        } else {
            results.branch_misses
        },
        cache_misses: if backend.has_cache_misses {
            backend.cache_misses
        } else {
            results.cache_misses
        },
        stalled_cycles_frontend: if backend.has_stalled_cycles_frontend {
            backend.stalled_cycles_frontend
        } else {
            results.stalled_cycles_frontend
        },
        stalled_cycles_backend: if backend.has_stalled_cycles_backend {
            backend.stalled_cycles_backend
        } else {
            results.stalled_cycles_backend
        },
        has_cycles: results.has_cycles || backend.has_cycles,
        has_instructions: results.has_instructions || backend.has_instructions,
        has_cache_references: results.has_cache_references || backend.has_cache_references,
        has_l1i_misses: results.has_l1i_misses || backend.has_l1i_misses,
        has_branches: results.has_branches || backend.has_branches,
        has_branch_misses: results.has_branch_misses || backend.has_branch_misses,
        has_cache_misses: results.has_cache_misses || backend.has_cache_misses,
        has_stalled_cycles_frontend: results.has_stalled_cycles_frontend || backend.has_stalled_cycles_frontend,
        has_stalled_cycles_backend: results.has_stalled_cycles_backend || backend.has_stalled_cycles_backend,
        pmu_time_enabled_ns: if backend.pmu_time_enabled_ns > 0 {
            backend.pmu_time_enabled_ns
        } else {
            results.pmu_time_enabled_ns
        },
        pmu_time_running_ns: if backend.pmu_time_running_ns > 0 {
            backend.pmu_time_running_ns
        } else {
            results.pmu_time_running_ns
        },
        duration: if backend.duration.count > 0 {
            backend.duration
        } else {
            results.duration
        },
        iterations: if backend.iterations > 0 {
            backend.iterations
        } else {
            results.iterations
        },
        chunks_executed: if backend.chunks_executed > 0 {
            backend.chunks_executed
        } else {
            results.chunks_executed
        },
    }
}

/// Replaces the fields that the backend filled in.
pub fn apply_concurrent_backend_results(results: &mut Results, backend: Results)
    ensures
        *final(results) == backend_applied(*old(results), backend),
{
    *results = Results {
        cycles: if backend.has_cycles {
            backend.cycles
        } else {
            results.cycles
        },
        instructions: if backend.has_instructions {
            backend.instructions
        } else {
            results.instructions
        },
        cache_references: if backend.has_cache_references {
            backend.cache_references
        } else {
            results.cache_references
        },
        l1i_misses: if backend.has_l1i_misses {
            backend.l1i_misses
        } else {
            results.l1i_misses
        },
        branches: if backend.has_branches {
            backend.branches
        } else {
            results.branches
        },
        branch_misses: if backend.has_branch_misses {
            backend.branch_misses
        } else {
            results.branch_misses
        },
        cache_misses: if backend.has_cache_misses {
            backend.cache_misses
        } else {
            results.cache_misses
        },
        stalled_cycles_frontend: if backend.has_stalled_cycles_frontend {
            backend.stalled_cycles_frontend
        } else {
            results.stalled_cycles_frontend
        },
        stalled_cycles_backend: if backend.has_stalled_cycles_backend {
            backend.stalled_cycles_backend
        } else {
            results.stalled_cycles_backend
        },
        has_cycles: results.has_cycles || backend.has_cycles,
        has_instructions: results.has_instructions || backend.has_instructions,
        has_cache_references: results.has_cache_references || backend.has_cache_references,
        has_l1i_misses: results.has_l1i_misses || backend.has_l1i_misses,
        has_branches: results.has_branches || backend.has_branches,
        has_branch_misses: results.has_branch_misses || backend.has_branch_misses,
        has_cache_misses: results.has_cache_misses || backend.has_cache_misses,
        has_stalled_cycles_frontend: results.has_stalled_cycles_frontend || backend.has_stalled_cycles_frontend,
        has_stalled_cycles_backend: results.has_stalled_cycles_backend || backend.has_stalled_cycles_backend,
        pmu_time_enabled_ns: if backend.pmu_time_enabled_ns > 0 {
            backend.pmu_time_enabled_ns
        } else {
            results.pmu_time_enabled_ns
        },
        pmu_time_running_ns: if backend.pmu_time_running_ns > 0 {
            backend.pmu_time_running_ns
        } else {
            results.pmu_time_running_ns
        },
        duration: if !backend.duration.is_zero() {
            backend.duration
        } else {
            results.duration
        },
        iterations: if backend.iterations > 0 {
            backend.iterations
        } else {
            results.iterations
        },
        chunks_executed: if backend.chunks_executed > 0 {
            backend.chunks_executed
        } else {
            results.chunks_executed
        },
    };
}

/// A backend that filled in nothing changes nothing, and applying it twice is
/// applying it once.
pub proof fn backend_application_laws(results: Results, backend: Results)
    ensures
        backend_applied(results, Results::none()) == results,
        backend_applied(backend_applied(results, backend), backend) == backend_applied(
            results,
            backend,
        ),
{
}

/// Counts and times without a limit on their size, for sums over many samples.
pub struct ResultsTally {
    pub cycles: nat,
    pub instructions: nat,
    pub cache_references: nat,
    pub l1i_misses: nat,
    pub branches: nat,
    pub branch_misses: nat,
    pub cache_misses: nat,
    pub stalled_cycles_frontend: nat,
    pub stalled_cycles_backend: nat,
    pub has_cycles: bool,
    pub has_instructions: bool,
    pub has_cache_references: bool,
    pub has_l1i_misses: bool,
    pub has_branches: bool,
    pub has_branch_misses: bool,
    pub has_cache_misses: bool,
    pub has_stalled_cycles_frontend: bool,
    pub has_stalled_cycles_backend: bool,
    pub pmu_time_enabled_ns: nat,
    pub pmu_time_running_ns: nat,
    pub duration: nat,
    pub iterations: nat,
    pub chunks_executed: nat,
}

impl ResultsTally {
    pub open spec fn zero() -> ResultsTally {
        Results::none().tally()
    }

    pub open spec fn plus(self, other: ResultsTally) -> ResultsTally {
        ResultsTally {
            cycles: self.cycles + other.cycles,
            instructions: self.instructions + other.instructions,
            cache_references: self.cache_references + other.cache_references,
            l1i_misses: self.l1i_misses + other.l1i_misses,
            branches: self.branches + other.branches,
            branch_misses: self.branch_misses + other.branch_misses,
            cache_misses: self.cache_misses + other.cache_misses,
            stalled_cycles_frontend: self.stalled_cycles_frontend + other.stalled_cycles_frontend,
            stalled_cycles_backend: self.stalled_cycles_backend + other.stalled_cycles_backend,
            has_cycles: self.has_cycles || other.has_cycles,
            has_instructions: self.has_instructions || other.has_instructions,
            has_cache_references: self.has_cache_references || other.has_cache_references,
            has_l1i_misses: self.has_l1i_misses || other.has_l1i_misses,
            has_branches: self.has_branches || other.has_branches,
            has_branch_misses: self.has_branch_misses || other.has_branch_misses,
            has_cache_misses: self.has_cache_misses || other.has_cache_misses,
            has_stalled_cycles_frontend: self.has_stalled_cycles_frontend || other.has_stalled_cycles_frontend,
            has_stalled_cycles_backend: self.has_stalled_cycles_backend || other.has_stalled_cycles_backend,
            pmu_time_enabled_ns: self.pmu_time_enabled_ns + other.pmu_time_enabled_ns,
            pmu_time_running_ns: self.pmu_time_running_ns + other.pmu_time_running_ns,
            duration: self.duration + other.duration,
            iterations: self.iterations + other.iterations,
            chunks_executed: self.chunks_executed + other.chunks_executed,
        }
    }

    /// Every sum fits its field.
    pub open spec fn representable(self) -> bool {
        &&& self.cycles <= u64::MAX
        &&& self.instructions <= u64::MAX
        &&& self.cache_references <= u64::MAX
        &&& self.l1i_misses <= u64::MAX
        &&& self.branches <= u64::MAX
        &&& self.branch_misses <= u64::MAX
        &&& self.cache_misses <= u64::MAX
        &&& self.stalled_cycles_frontend <= u64::MAX
        &&& self.stalled_cycles_backend <= u64::MAX
        &&& self.pmu_time_enabled_ns <= u64::MAX
        &&& self.pmu_time_running_ns <= u64::MAX
        &&& self.iterations <= u64::MAX
        &&& self.chunks_executed <= u64::MAX
        &&& self.duration <= MAX_NANOS
    }

    /// No count or time is larger than that of `other`.
    pub open spec fn within(self, other: ResultsTally) -> bool {
        &&& self.cycles <= other.cycles
        &&& self.instructions <= other.instructions
        &&& self.cache_references <= other.cache_references
        &&& self.l1i_misses <= other.l1i_misses
        &&& self.branches <= other.branches
        &&& self.branch_misses <= other.branch_misses
        &&& self.cache_misses <= other.cache_misses
        &&& self.stalled_cycles_frontend <= other.stalled_cycles_frontend
        &&& self.stalled_cycles_backend <= other.stalled_cycles_backend
        &&& self.pmu_time_enabled_ns <= other.pmu_time_enabled_ns
        &&& self.pmu_time_running_ns <= other.pmu_time_running_ns
        &&& self.duration <= other.duration
        &&& self.iterations <= other.iterations
        &&& self.chunks_executed <= other.chunks_executed
    }
}

impl Results {
    pub open spec fn tally(self) -> ResultsTally {
        ResultsTally {
            cycles: self.cycles as nat,
            instructions: self.instructions as nat,
            cache_references: self.cache_references as nat,
            l1i_misses: self.l1i_misses as nat,
            branches: self.branches as nat,
            branch_misses: self.branch_misses as nat,
            cache_misses: self.cache_misses as nat,
            stalled_cycles_frontend: self.stalled_cycles_frontend as nat,
            stalled_cycles_backend: self.stalled_cycles_backend as nat,
            has_cycles: self.has_cycles,
            has_instructions: self.has_instructions,
            has_cache_references: self.has_cache_references,
            has_l1i_misses: self.has_l1i_misses,
            has_branches: self.has_branches,
            has_branch_misses: self.has_branch_misses,
            has_cache_misses: self.has_cache_misses,
            has_stalled_cycles_frontend: self.has_stalled_cycles_frontend,
            has_stalled_cycles_backend: self.has_stalled_cycles_backend,
            pmu_time_enabled_ns: self.pmu_time_enabled_ns as nat,
            pmu_time_running_ns: self.pmu_time_running_ns as nat,
            duration: self.duration.count as nat,
            iterations: self.iterations as nat,
            chunks_executed: self.chunks_executed as nat,
        }
    }
}

/// The sum of a list of results.
pub open spec fn total(list: Seq<Results>) -> ResultsTally
    decreases list.len(),
{
    if list.len() == 0 {
        ResultsTally::zero()
    } else {
        total(list.drop_last()).plus(list.last().tally())
    }
}

/// Adding two results adds their tallies, and fits where the sum does.
pub proof fn plus_adds_tallies(a: Results, b: Results)
    ensures
        a.fits(b) == a.tally().plus(b.tally()).representable(),
        a.fits(b) ==> a.plus(b).tally() == a.tally().plus(b.tally()),
{
}

/// Two results with the same tally are the same.
pub proof fn tally_is_injective(a: Results, b: Results)
    requires
        a.tally() == b.tally(),
    ensures
        a == b,
{
}

/// The sum of a part of a list is no larger than the sum of the whole.
pub proof fn total_grows(list: Seq<Results>, count: int)
    requires
        0 <= count <= list.len(),
    ensures
        total(list.take(count)).within(total(list)),
    decreases list.len() - count,
{
    if count < list.len() {
        total_grows(list, count + 1);
        assert(list.take(count + 1).drop_last() =~= list.take(count));
    } else {
        assert(list.take(count) =~= list);
    }
}

} // verus!
