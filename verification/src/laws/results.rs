//! How the counts of samples add up and average out.
use crate::bench::results;
use crate::bench::results::{has_full_perf_counters, has_perf_counters, Results};
use crate::bench::stats::average_sample;
use vstd::prelude::*;

verus! {

/// Two samples that can be added make one that holds the sum of each count and of
/// the times, and every counter that either of them has.
pub proof fn sums_add_each_count(a: Results, b: Results)
    requires
        a.fits(b),
    ensures
        a.plus(b).cycles == a.cycles + b.cycles,
        a.plus(b).instructions == a.instructions + b.instructions,
        a.plus(b).cache_references == a.cache_references + b.cache_references,
        a.plus(b).l1i_misses == a.l1i_misses + b.l1i_misses,
        a.plus(b).branches == a.branches + b.branches,
        a.plus(b).branch_misses == a.branch_misses + b.branch_misses,
        a.plus(b).cache_misses == a.cache_misses + b.cache_misses,
        a.plus(b).stalled_cycles_frontend == a.stalled_cycles_frontend + b.stalled_cycles_frontend,
        a.plus(b).stalled_cycles_backend == a.stalled_cycles_backend + b.stalled_cycles_backend,
        a.plus(b).pmu_time_enabled_ns == a.pmu_time_enabled_ns + b.pmu_time_enabled_ns,
        a.plus(b).pmu_time_running_ns == a.pmu_time_running_ns + b.pmu_time_running_ns,
        a.plus(b).iterations == a.iterations + b.iterations,
        a.plus(b).chunks_executed == a.chunks_executed + b.chunks_executed,
        a.plus(b).duration.count == a.duration.count + b.duration.count,
        a.plus(b).has_cycles == (a.has_cycles || b.has_cycles),
        a.plus(b).has_instructions == (a.has_instructions || b.has_instructions),
        a.plus(b).has_cache_references == (a.has_cache_references || b.has_cache_references),
        a.plus(b).has_l1i_misses == (a.has_l1i_misses || b.has_l1i_misses),
        a.plus(b).has_branches == (a.has_branches || b.has_branches),
        a.plus(b).has_branch_misses == (a.has_branch_misses || b.has_branch_misses),
        a.plus(b).has_cache_misses == (a.has_cache_misses || b.has_cache_misses),
        a.plus(b).has_stalled_cycles_frontend == (a.has_stalled_cycles_frontend || b.has_stalled_cycles_frontend),
        a.plus(b).has_stalled_cycles_backend == (a.has_stalled_cycles_backend || b.has_stalled_cycles_backend),
{
}

/// Two samples can be added exactly where every sum fits its field.
pub proof fn sums_fit_or_are_refused(a: &Results, b: &Results, fits: bool)
    requires
        call_ensures(Results::can_add, (a, b), fits),
    ensures
        fits <==> {
            &&& a.cycles + b.cycles <= u64::MAX
            &&& a.instructions + b.instructions <= u64::MAX
            &&& a.cache_references + b.cache_references <= u64::MAX
            &&& a.l1i_misses + b.l1i_misses <= u64::MAX
            &&& a.branches + b.branches <= u64::MAX
            &&& a.branch_misses + b.branch_misses <= u64::MAX
            &&& a.cache_misses + b.cache_misses <= u64::MAX
            &&& a.stalled_cycles_frontend + b.stalled_cycles_frontend <= u64::MAX
            &&& a.stalled_cycles_backend + b.stalled_cycles_backend <= u64::MAX
            &&& a.pmu_time_enabled_ns + b.pmu_time_enabled_ns <= u64::MAX
            &&& a.pmu_time_running_ns + b.pmu_time_running_ns <= u64::MAX
            &&& a.iterations + b.iterations <= u64::MAX
            &&& a.chunks_executed + b.chunks_executed <= u64::MAX
            &&& a.duration.count + b.duration.count <= 18_446_744_073_709_551_615_999_999_999
        },
        fits == a.fits(*b),
{
}

/// Each count of a sample is divided on its own, and the time with them; which
/// counters there are does not change.
pub proof fn shares_divide_each_count(a: Results, divisor: u64)
    requires
        divisor > 0,
    ensures
        a.over(divisor).cycles == a.cycles / divisor,
        a.over(divisor).instructions == a.instructions / divisor,
        a.over(divisor).cache_references == a.cache_references / divisor,
        a.over(divisor).l1i_misses == a.l1i_misses / divisor,
        a.over(divisor).branches == a.branches / divisor,
        a.over(divisor).branch_misses == a.branch_misses / divisor,
        a.over(divisor).cache_misses == a.cache_misses / divisor,
        a.over(divisor).stalled_cycles_frontend == a.stalled_cycles_frontend / divisor,
        a.over(divisor).stalled_cycles_backend == a.stalled_cycles_backend / divisor,
        a.over(divisor).pmu_time_enabled_ns == a.pmu_time_enabled_ns / divisor,
        a.over(divisor).pmu_time_running_ns == a.pmu_time_running_ns / divisor,
        a.over(divisor).iterations == a.iterations / divisor,
        a.over(divisor).chunks_executed == a.chunks_executed / divisor,
        a.over(divisor).has_cycles == a.has_cycles,
        a.over(divisor).has_instructions == a.has_instructions,
        a.over(divisor).has_cache_references == a.has_cache_references,
        a.over(divisor).has_l1i_misses == a.has_l1i_misses,
        a.over(divisor).has_branches == a.has_branches,
        a.over(divisor).has_branch_misses == a.has_branch_misses,
        a.over(divisor).has_cache_misses == a.has_cache_misses,
        a.over(divisor).has_stalled_cycles_frontend == a.has_stalled_cycles_frontend,
        a.over(divisor).has_stalled_cycles_backend == a.has_stalled_cycles_backend,
        0 < divisor <= u32::MAX ==> a.over(divisor).duration.count == a.duration.count / (
        divisor as u128),
{
    if divisor <= u32::MAX {
        assert(divisor as u32 as u128 == divisor as u128);
    }
}

/// The average sample is the sum over the number of samples.
pub proof fn averages_are_shares(summed: &Results, sample_count: usize, average: Results)
    requires
        call_ensures(average_sample, (summed, sample_count), average),
    ensures
        sample_count == 0 ==> average == *summed,
        0 < sample_count <= u32::MAX ==> {
            &&& average.cycles == summed.cycles / (sample_count as u64)
            &&& average.instructions == summed.instructions / (sample_count as u64)
            &&& average.cache_references == summed.cache_references / (sample_count as u64)
            &&& average.l1i_misses == summed.l1i_misses / (sample_count as u64)
            &&& average.branches == summed.branches / (sample_count as u64)
            &&& average.branch_misses == summed.branch_misses / (sample_count as u64)
            &&& average.cache_misses == summed.cache_misses / (sample_count as u64)
            &&& average.stalled_cycles_frontend == summed.stalled_cycles_frontend / (sample_count as u64)
            &&& average.stalled_cycles_backend == summed.stalled_cycles_backend / (sample_count as u64)
            &&& average.pmu_time_enabled_ns == summed.pmu_time_enabled_ns / (sample_count as u64)
            &&& average.pmu_time_running_ns == summed.pmu_time_running_ns / (sample_count as u64)
            &&& average.iterations == summed.iterations / (sample_count as u64)
            &&& average.chunks_executed == summed.chunks_executed / (sample_count as u64)
            &&& average.duration.count == summed.duration.count / (sample_count as u128)
            &&& average.has_cycles == summed.has_cycles
            &&& average.has_instructions == summed.has_instructions
            &&& average.has_cache_references == summed.has_cache_references
            &&& average.has_l1i_misses == summed.has_l1i_misses
            &&& average.has_branches == summed.has_branches
            &&& average.has_branch_misses == summed.has_branch_misses
            &&& average.has_cache_misses == summed.has_cache_misses
            &&& average.has_stalled_cycles_frontend == summed.has_stalled_cycles_frontend
            &&& average.has_stalled_cycles_backend == summed.has_stalled_cycles_backend
        },
{
    if 0 < sample_count <= u32::MAX {
        shares_divide_each_count(*summed, sample_count as u64);
    }
}

/// What a backend filled in takes the place of what the workers counted, field by
/// field, and what it left out stays.
pub proof fn backends_replace_what_they_fill_in(results: Results, backend: Results)
    ensures
        ({
            let r = results::backend_applied(results, backend);
            &&& backend.has_cycles ==> r.cycles == backend.cycles
            &&& !backend.has_cycles ==> r.cycles == results.cycles
            &&& r.has_cycles == (results.has_cycles || backend.has_cycles)
            &&& backend.has_instructions ==> r.instructions == backend.instructions
            &&& !backend.has_instructions ==> r.instructions == results.instructions
            &&& r.has_instructions == (results.has_instructions || backend.has_instructions)
            &&& backend.has_cache_references ==> r.cache_references == backend.cache_references
            &&& !backend.has_cache_references ==> r.cache_references == results.cache_references
            &&& r.has_cache_references == (results.has_cache_references || backend.has_cache_references)
            &&& backend.has_l1i_misses ==> r.l1i_misses == backend.l1i_misses
            &&& !backend.has_l1i_misses ==> r.l1i_misses == results.l1i_misses
            &&& r.has_l1i_misses == (results.has_l1i_misses || backend.has_l1i_misses)
            &&& backend.has_branches ==> r.branches == backend.branches
            &&& !backend.has_branches ==> r.branches == results.branches
            &&& r.has_branches == (results.has_branches || backend.has_branches)
            &&& backend.has_branch_misses ==> r.branch_misses == backend.branch_misses
            &&& !backend.has_branch_misses ==> r.branch_misses == results.branch_misses
            &&& r.has_branch_misses == (results.has_branch_misses || backend.has_branch_misses)
            &&& backend.has_cache_misses ==> r.cache_misses == backend.cache_misses
            &&& !backend.has_cache_misses ==> r.cache_misses == results.cache_misses
            &&& r.has_cache_misses == (results.has_cache_misses || backend.has_cache_misses)
            &&& backend.has_stalled_cycles_frontend ==> r.stalled_cycles_frontend == backend.stalled_cycles_frontend
            &&& !backend.has_stalled_cycles_frontend ==> r.stalled_cycles_frontend == results.stalled_cycles_frontend
            &&& r.has_stalled_cycles_frontend == (results.has_stalled_cycles_frontend || backend.has_stalled_cycles_frontend)
            &&& backend.has_stalled_cycles_backend ==> r.stalled_cycles_backend == backend.stalled_cycles_backend
            &&& !backend.has_stalled_cycles_backend ==> r.stalled_cycles_backend == results.stalled_cycles_backend
            &&& r.has_stalled_cycles_backend == (results.has_stalled_cycles_backend || backend.has_stalled_cycles_backend)
            &&& backend.pmu_time_enabled_ns > 0 ==> r.pmu_time_enabled_ns == backend.pmu_time_enabled_ns
            &&& backend.pmu_time_enabled_ns == 0 ==> r.pmu_time_enabled_ns == results.pmu_time_enabled_ns
            &&& backend.pmu_time_running_ns > 0 ==> r.pmu_time_running_ns == backend.pmu_time_running_ns
            &&& backend.pmu_time_running_ns == 0 ==> r.pmu_time_running_ns == results.pmu_time_running_ns
            &&& backend.iterations > 0 ==> r.iterations == backend.iterations
            &&& backend.iterations == 0 ==> r.iterations == results.iterations
            &&& backend.chunks_executed > 0 ==> r.chunks_executed == backend.chunks_executed
            &&& backend.chunks_executed == 0 ==> r.chunks_executed == results.chunks_executed
            &&& backend.duration.count > 0 ==> r.duration == backend.duration
            &&& backend.duration.count == 0 ==> r.duration == results.duration
        }),
{
}

/// Counters are present where any is; they are complete where cycles,
/// instructions, references to and misses of the cache, branches and mispredicted
/// branches all are.
pub proof fn counters_are_present_or_complete(results: &Results, any: bool, full: bool)
    requires
        call_ensures(has_perf_counters, (results,), any),
        call_ensures(has_full_perf_counters, (results,), full),
    ensures
        results.has_cycles ==> any,
        results.has_instructions ==> any,
        results.has_cache_references ==> any,
        results.has_l1i_misses ==> any,
        results.has_branches ==> any,
        results.has_branch_misses ==> any,
        results.has_cache_misses ==> any,
        results.has_stalled_cycles_frontend ==> any,
        results.has_stalled_cycles_backend ==> any,
        any ==> results.has_cycles || results.has_instructions || results.has_cache_references || results.has_l1i_misses || results.has_branches || results.has_branch_misses || results.has_cache_misses || results.has_stalled_cycles_frontend || results.has_stalled_cycles_backend,
        full <==> results.has_cycles && results.has_instructions && results.has_cache_references
            && results.has_branches && results.has_branch_misses && results.has_cache_misses,
        full ==> any,
{
}

/// Nothing counted is zero everywhere.
pub proof fn nothing_counted_is_zero(r: Results)
    requires
        call_ensures(<Results as Default>::default, (), r),
    ensures
        r.cycles == 0,
        r.instructions == 0,
        r.cache_references == 0,
        r.l1i_misses == 0,
        r.branches == 0,
        r.branch_misses == 0,
        r.cache_misses == 0,
        r.stalled_cycles_frontend == 0,
        r.stalled_cycles_backend == 0,
        r.pmu_time_enabled_ns == 0,
        r.pmu_time_running_ns == 0,
        r.iterations == 0,
        r.chunks_executed == 0,
        !r.has_cycles,
        !r.has_instructions,
        !r.has_cache_references,
        !r.has_l1i_misses,
        !r.has_branches,
        !r.has_branch_misses,
        !r.has_cache_misses,
        !r.has_stalled_cycles_frontend,
        !r.has_stalled_cycles_backend,
        r.duration.count == 0,
{
}

} // verus!
