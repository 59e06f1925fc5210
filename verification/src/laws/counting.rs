//! What hardware counters say, and when they say nothing.
use crate::bench::backend::{MetricFormat, MetricValue};
use crate::bench::perf;
use crate::bench::perf::{
    aggregate_threads, enforce_pmu_quality, less_scheduled, linux_perf_hint,
    scale_multiplexed_count, signed_decimal_text, thread_ids, timing_window, warn_perf_status, CounterMode, CounterRead,
    GroupCounts, GroupRead, IndividualReads, LinuxPerfThreadSet, PerfWarning, PmuScope, ThreadRead,
};
use crate::bench::perf_memory;
use crate::bench::perf_memory::{
    byte_multiplier, check_byte_scale, event_multiplier, imc_devices, is_imc_pmu_name,
    memory_bandwidth_metrics, still_complete, ImcDevice, MemoryBandwidthSample,
    MemoryBandwidthScope, PairRead, Reading, TargetCounts,
};
use crate::bench::results;
use crate::bench::results::Results;
use crate::double::DoubleBits;
use crate::numbers::NumberTexts;
use crate::parse;
use crate::text;
use crate::time::Nanos;
use vstd::prelude::*;

verus! {

/// A counter that ran for a part of the time counts for the whole of it: the
/// count grows as the time enabled to the time running, and is rounded down.
pub proof fn counts_are_scaled_to_the_whole_time(raw: u64, enabled: u64, running: u64, r: u64)
    requires
        call_ensures(scale_multiplexed_count, (raw, enabled, running), r),
    ensures
        running >= enabled ==> r == raw,
        running == 0 ==> r == raw,
        raw == 0 ==> r == 0,
        r >= raw,
        0 < running < enabled && r < u64::MAX ==> r * running <= raw * enabled < (r + 1) * running,
        0 < running < enabled && r == u64::MAX ==> r * running <= raw * enabled,
{
    perf::scaling_never_loses(raw, enabled, running);
    if raw > 0 && 0 < running < enabled {
        let product: nat = raw as nat * enabled as nat;
        let divisor: nat = running as nat;
        let full: nat = product / divisor;
        assert(raw as nat * enabled as nat == raw * enabled);
        assert(full * divisor <= product < (full + 1) * divisor) by (nonlinear_arith)
            requires
                divisor > 0,
                full == product / divisor,
        ;
        if full > u64::MAX {
            assert(u64::MAX * divisor <= full * divisor) by (nonlinear_arith)
                requires
                    full > u64::MAX,
                    divisor > 0,
            ;
        }
    } else if raw == 0 && 0 < running < enabled {
        assert(raw * enabled == 0) by (nonlinear_arith)
            requires
                raw == 0,
        ;
    }
}

/// Of two windows the one with the smaller part running is less scheduled.
pub proof fn less_scheduled_runs_a_smaller_part(left: (u64, u64), right: (u64, u64), r: bool)
    requires
        call_ensures(less_scheduled, (left, right), r),
    ensures
        r <==> left.1 * right.0 < right.1 * left.0,
        left.0 == right.0 && left.0 > 0 ==> (r <==> left.1 < right.1),
{
    assert((left.1 as nat) * (right.0 as nat) == left.1 * right.0);
    assert((right.1 as nat) * (left.0 as nat) == right.1 * left.0);
    if left.0 == right.0 && left.0 > 0 {
        let a = left.1 as int;
        let b = right.1 as int;
        let w = left.0 as int;
        assert((a * w < b * w) <==> a < b) by (nonlinear_arith)
            requires
                w > 0,
        ;
    }
}

/// The window of a sample is the least scheduled of those that were enabled.
pub proof fn the_least_scheduled_window_counts(windows: &[(u64, u64)], r: (u64, u64))
    requires
        call_ensures(timing_window, (windows,), r),
    ensures
        (forall|i: int| 0 <= i < windows@.len() ==> (#[trigger] windows@[i]).0 == 0) ==> r == (
            0u64,
            0u64,
        ),
        (exists|i: int| 0 <= i < windows@.len() && (#[trigger] windows@[i]).0 > 0)
            ==> windows@.contains(r) && r.0 > 0,
        forall|i: int|
            0 <= i < windows@.len() && (#[trigger] windows@[i]).0 > 0 ==> windows@[i].1 * r.0
                >= r.1 * windows@[i].0,
{
    least_is_one_of_them(windows@, windows@.len() as int);
    assert forall|i: int| 0 <= i < windows@.len() && (#[trigger] windows@[i]).0 > 0 implies windows@[i].1
        * r.0 >= r.1 * windows@[i].0 by {
        perf::window_is_least_scheduled(windows@, windows@.len() as int, i);
        assert((windows@[i].1 as nat) * (r.0 as nat) == windows@[i].1 * r.0);
        assert((r.1 as nat) * (windows@[i].0 as nat) == r.1 * windows@[i].0);
    }
    if exists|i: int| 0 <= i < windows@.len() && (#[trigger] windows@[i]).0 > 0 {
        let i = choose|i: int| 0 <= i < windows@.len() && (#[trigger] windows@[i]).0 > 0;
        perf::window_is_least_scheduled(windows@, windows@.len() as int, i);
    }
}

proof fn least_is_one_of_them(windows: Seq<perf::Window>, count: int)
    requires
        0 <= count <= windows.len(),
    ensures
        perf::least_window(windows, count) matches Some(best) ==> best.0 > 0 && windows.contains(
            best,
        ),
    decreases count,
{
    if count > 0 {
        least_is_one_of_them(windows, count - 1);
        assert(windows.contains(windows[count - 1]));
    }
}

/// A counter counts where it was read and had time to run.
pub open spec fn counted(read: CounterRead) -> bool {
    read matches CounterRead::Count { enabled_ns, running_ns, .. } && enabled_ns > 0 && running_ns
        > 0
}

/// What a counter read: nothing where it did not count, the count itself where
/// it ran all the time, and never less than the count.
pub open spec fn shows(read: CounterRead, value: u64, present: bool) -> bool {
    &&& present == counted(read)
    &&& !counted(read) ==> value == 0
    &&& read matches CounterRead::Count { count, enabled_ns, running_ns } ==> {
        &&& counted(read) ==> value >= count
        &&& counted(read) && running_ns >= enabled_ns ==> value == count
    }
}

/// Each counter of a sample shows what was read of that counter.
pub proof fn individual_reads_show_each_counter(reads: IndividualReads, elapsed: Nanos, ops: u64)
    ensures
        ({
            let r = reads.results(elapsed, ops);
            &&& shows(reads.cycles, r.cycles, r.has_cycles)
            &&& shows(reads.instructions, r.instructions, r.has_instructions)
            &&& shows(reads.cache_references, r.cache_references, r.has_cache_references)
            &&& shows(reads.l1i_misses, r.l1i_misses, r.has_l1i_misses)
            &&& shows(reads.branches, r.branches, r.has_branches)
            &&& shows(reads.branch_misses, r.branch_misses, r.has_branch_misses)
            &&& shows(reads.cache_misses, r.cache_misses, r.has_cache_misses)
            &&& shows(
                reads.stalled_cycles_frontend,
                r.stalled_cycles_frontend,
                r.has_stalled_cycles_frontend,
            )
            &&& shows(
                reads.stalled_cycles_backend,
                r.stalled_cycles_backend,
                r.has_stalled_cycles_backend,
            )
            &&& r.duration == elapsed
            &&& r.iterations == ops
            &&& r.chunks_executed == 1
        }),
{
    scales_up(reads.cycles);
    scales_up(reads.instructions);
    scales_up(reads.cache_references);
    scales_up(reads.l1i_misses);
    scales_up(reads.branches);
    scales_up(reads.branch_misses);
    scales_up(reads.cache_misses);
    scales_up(reads.stalled_cycles_frontend);
    scales_up(reads.stalled_cycles_backend);
}

proof fn scales_up(read: CounterRead)
    ensures
        shows(read, read.value(), read.usable()),
{
    if let CounterRead::Count { count, enabled_ns, running_ns } = read {
        perf::scaling_never_loses(count, enabled_ns, running_ns);
    }
}

/// A group's time is known and not zero.
pub open spec fn ran(time: Option<Nanos>) -> bool {
    time matches Some(t) && t.count > 0
}

/// What a counter of a group shows.
pub open spec fn shows_in_group(counts: GroupCounts, count: Option<u64>, value: u64, present: bool) -> bool {
    let usable = ran(counts.time_enabled) && ran(counts.time_running);
    &&& present <==> usable && count is Some
    &&& !present ==> value == 0
    &&& present ==> value >= count->0
    &&& (present && counts.time_running->0.count >= counts.time_enabled->0.count) ==> value
        == count->0
}

/// Each counter of a sample shows what the group read of that counter, and a
/// group that never ran shows none.
pub proof fn group_reads_show_each_counter(counts: GroupCounts, elapsed: Nanos, ops: u64)
    ensures
        ({
            let r = counts.results(elapsed, ops);
            &&& shows_in_group(counts, counts.cycles, r.cycles, r.has_cycles)
            &&& shows_in_group(counts, counts.instructions, r.instructions, r.has_instructions)
            &&& shows_in_group(
                counts,
                counts.cache_references,
                r.cache_references,
                r.has_cache_references,
            )
            &&& shows_in_group(counts, counts.l1i_misses, r.l1i_misses, r.has_l1i_misses)
            &&& shows_in_group(counts, counts.branches, r.branches, r.has_branches)
            &&& shows_in_group(counts, counts.branch_misses, r.branch_misses, r.has_branch_misses)
            &&& shows_in_group(counts, counts.cache_misses, r.cache_misses, r.has_cache_misses)
            &&& shows_in_group(
                counts,
                counts.stalled_cycles_frontend,
                r.stalled_cycles_frontend,
                r.has_stalled_cycles_frontend,
            )
            &&& shows_in_group(
                counts,
                counts.stalled_cycles_backend,
                r.stalled_cycles_backend,
                r.has_stalled_cycles_backend,
            )
            &&& r.duration == elapsed
            &&& r.iterations == ops
            &&& r.chunks_executed == 1
            &&& counts.time_enabled matches Some(t) ==> (t.count <= u64::MAX ==> r.pmu_time_enabled_ns
                == t.count)
            &&& counts.time_running matches Some(t) ==> (t.count <= u64::MAX ==> r.pmu_time_running_ns
                == t.count)
        }),
{
    let w = counts.window();
    group_scales_up(counts.cycles, w);
    group_scales_up(counts.instructions, w);
    group_scales_up(counts.cache_references, w);
    group_scales_up(counts.l1i_misses, w);
    group_scales_up(counts.branches, w);
    group_scales_up(counts.branch_misses, w);
    group_scales_up(counts.cache_misses, w);
    group_scales_up(counts.stalled_cycles_frontend, w);
    group_scales_up(counts.stalled_cycles_backend, w);
}

proof fn group_scales_up(count: Option<u64>, window: perf::Window)
    ensures
        count matches Some(raw) ==> perf::group_value(count, window) >= raw,
        (count matches Some(raw) && window.1 >= window.0) ==> perf::group_value(count, window)
            == count->0,
{
    if let Some(raw) = count {
        perf::scaling_never_loses(raw, window.0, window.1);
    }
}

/// A group is given up for single counters where it could not be read, never ran,
/// or ran for less than 90 percent of the time.
pub proof fn groups_are_given_up_when_they_hardly_run(read: GroupRead, percent: DoubleBits)
    ensures
        read is Failed ==> read.prefers_individual(percent),
        read matches GroupRead::Counts(counts) ==> {
            let usable = ran(counts.time_enabled) && ran(counts.time_running);
            &&& !usable ==> read.prefers_individual(percent)
            &&& usable && percent.bits < 0x4056_8000_0000_0000 ==> read.prefers_individual(percent)
            &&& usable && 0x4056_8000_0000_0000 <= percent.bits <= 0x7ff0_0000_0000_0000
                ==> !read.prefers_individual(percent)
        },
{
}

/// A group that could not be read counts nothing, but the time is kept.
pub proof fn failed_groups_keep_the_time(read: GroupRead, elapsed: Nanos, ops: u64)
    requires
        read is Failed,
    ensures
        read.results(elapsed, ops) == (Results {
            duration: elapsed,
            iterations: ops,
            chunks_executed: 1,
            ..read.results(elapsed, ops)
        }),
        read.results(elapsed, ops).cycles == 0,
        read.results(elapsed, ops).instructions == 0,
        !read.results(elapsed, ops).has_cycles,
        !read.results(elapsed, ops).has_instructions,
        !read.results(elapsed, ops).has_branches,
        !read.results(elapsed, ops).has_cache_misses,
{
}

/// Threads measured together took the host's time and did the operations given,
/// whatever each of them recorded; one thread's counters are kept as they are.
pub proof fn threads_share_the_hosts_time(
    threads: Vec<Results>,
    elapsed: Nanos,
    ops: u64,
    r: Option<Results>,
)
    requires
        call_ensures(aggregate_threads, (&threads, elapsed, ops), r),
    ensures
        r matches Some(sum) ==> {
            &&& sum.duration == elapsed
            &&& sum.iterations == ops
            &&& sum.chunks_executed == 1
            &&& threads@.len() == 1 ==> sum == (Results {
                duration: elapsed,
                iterations: ops,
                chunks_executed: 1,
                ..threads@[0]
            })
            &&& threads@.len() == 0 ==> sum.cycles == 0 && sum.instructions == 0 && !sum.has_cycles
        },
{
    if threads@.len() == 1 {
        assert(threads@.drop_last() =~= Seq::<Results>::empty());
        reveal_with_fuel(results::total, 2);
    }
}

/// A problem is reported once, and no more than six are.
pub proof fn problems_are_reported_once(issues: Seq<Seq<char>>, message: Seq<char>)
    ensures
        issues.contains(message) ==> perf::with_issue(issues, message) == issues,
        issues.len() >= 6 ==> perf::with_issue(issues, message) == issues,
        !issues.contains(message) && issues.len() < 6 ==> perf::with_issue(issues, message)
            == issues.push(message),
{
}

/// A hint is given where counters are missing for want of rights. It names the
/// kernel's setting where that is known.
pub proof fn hints_are_given_for_missing_rights(
    has_counters: bool,
    issues: Vec<String>,
    paranoid: Option<i32>,
    r: Option<String>,
)
    requires
        call_ensures(linux_perf_hint, (has_counters, &issues, paranoid), r),
    ensures
        has_counters ==> r is None,
        issues@.len() == 0 ==> r is None,
        !has_counters && (exists|i: int|
            0 <= i < issues@.len() && (text::occurs(
                (#[trigger] issues@[i])@,
                "Permission denied"@,
            ) || text::occurs(issues@[i]@, "Operation not permitted"@) || text::occurs(
                issues@[i]@,
                "unusable timing window"@,
            ))) ==> r is Some,
{
    let texts = text::texts(issues@);
    if exists|i: int|
        0 <= i < issues@.len() && (text::occurs((#[trigger] issues@[i])@, "Permission denied"@)
            || text::occurs(issues@[i]@, "Operation not permitted"@) || text::occurs(
            issues@[i]@,
            "unusable timing window"@,
        )) {
        let i = choose|i: int|
            0 <= i < issues@.len() && (text::occurs((#[trigger] issues@[i])@, "Permission denied"@)
                || text::occurs(issues@[i]@, "Operation not permitted"@) || text::occurs(
                issues@[i]@,
                "unusable timing window"@,
            ));
        assert(perf::about_access(texts[i]));
    }
}

/// Whether one of the problems speaks of missing rights.
pub open spec fn speaks_of_rights(issues: Seq<String>) -> bool {
    exists|i: int|
        0 <= i < issues.len() && (text::occurs((#[trigger] issues[i])@, "Permission denied"@)
            || text::occurs(issues[i]@, "Operation not permitted"@) || text::occurs(
            issues[i]@,
            "unusable timing window"@,
        ))
}

/// A hint names the kernel's setting where that is known. Above two it asks to
/// lower it; from two down it looks for the reason elsewhere.
pub proof fn hints_follow_the_kernels_setting(
    issues: Vec<String>,
    paranoid: Option<i32>,
    r: Option<String>,
    digits: String,
)
    requires
        call_ensures(linux_perf_hint, (false, &issues, paranoid), r),
        speaks_of_rights(issues@),
        paranoid matches Some(value) ==> call_ensures(signed_decimal_text, (value,), digits),
    ensures
        r is Some,
        paranoid matches Some(value) ==> {
            &&& value > 2 ==> r->0@ == "kernel.perf_event_paranoid="@ + digits@
                + "; lower it to 2 or less (or grant CAP_PERFMON/CAP_SYS_ADMIN) to enable PMU counters"@
            &&& value <= 2 ==> r->0@ == "kernel.perf_event_paranoid="@ + digits@
                + "; PMU still unavailable, likely due to missing CAP_PERFMON/CAP_SYS_ADMIN or container perf_event restrictions"@
        },
        paranoid is None ==> r->0@
            == "PMU still unavailable; check /proc/sys/kernel/perf_event_paranoid and container capabilities (CAP_PERFMON/CAP_SYS_ADMIN)"@,
{
    let texts = text::texts(issues@);
    let i = choose|i: int|
        0 <= i < issues@.len() && (text::occurs((#[trigger] issues@[i])@, "Permission denied"@)
            || text::occurs(issues@[i]@, "Operation not permitted"@) || text::occurs(
            issues@[i]@,
            "unusable timing window"@,
        ));
    assert(perf::about_access(texts[i]));
}

/// A warning is given where counters ran for a part of the time that is below 90
/// percent, and only there.
pub proof fn poor_scheduling_is_warned_of(
    name: &str,
    has_counters: bool,
    results: Results,
    percent: DoubleBits,
    numbers: NumberTexts,
    r: Option<String>,
)
    requires
        call_ensures(enforce_pmu_quality, (name, has_counters, &results, percent, &numbers), r),
    ensures
        r is Some ==> has_counters && results.pmu_time_enabled_ns > 0 && results.pmu_time_running_ns
            > 0,
        has_counters && results.pmu_time_enabled_ns > 0 && results.pmu_time_running_ns > 0 ==> {
            &&& percent.bits < 0x4056_8000_0000_0000 ==> r is Some
            &&& 0x4056_8000_0000_0000 <= percent.bits <= 0x7ff0_0000_0000_0000 ==> r is None
        },
{
}

/// Missing counters are warned of: all of them missing, or some.
pub proof fn missing_counters_are_warned_of(any: bool, all: bool, r: Option<PerfWarning>)
    requires
        call_ensures(warn_perf_status, (any, all), r),
    ensures
        !any <==> r == Some(PerfWarning::Unavailable),
        any && !all <==> r == Some(PerfWarning::Partial),
        any && all <==> r is None,
{
}

/// A group is used where it opened and is not given up, single counters where one
/// of them opened, and the time alone where nothing did.
pub proof fn the_best_open_counters_are_used(prefer_individual: bool, group: bool, any: bool)
    ensures
        group && !prefer_individual <==> perf::mode_of(prefer_individual, group, any)
            == CounterMode::Group,
        (!group || prefer_individual) && any <==> perf::mode_of(prefer_individual, group, any)
            == CounterMode::Individual,
        (!group || prefer_individual) && !any <==> perf::mode_of(prefer_individual, group, any)
            == CounterMode::TimingOnly,
{
}

/// Counters are opened anew where none are open or the group could not start.
pub proof fn fallback_is_needed_without_a_group(mode: CounterMode, enabled: bool, r: bool)
    requires
        call_ensures(CounterMode::needs_fallback, (mode, enabled), r),
    ensures
        mode is Idle ==> r,
        mode is Group ==> r == !enabled,
        mode is Individual || mode is TimingOnly ==> !r,
{
}

/// Only the calling thread is counted with a group from the start.
pub proof fn many_threads_count_one_by_one(scope: PmuScope, r: bool)
    requires
        call_ensures(PmuScope::starts_individual, (scope,), r),
    ensures
        !r <==> scope is CallingThread,
{
}

/// The set of threads to count holds each thread once, and its snapshot lists
/// them from the lowest.
pub proof fn thread_sets_list_their_threads(
    set: LinuxPerfThreadSet,
    list: Vec<i32>,
    count: usize,
    empty: bool,
)
    requires
        call_ensures(LinuxPerfThreadSet::snapshot, (&set,), list),
        call_ensures(LinuxPerfThreadSet::len, (&set,), count),
        call_ensures(LinuxPerfThreadSet::is_empty, (&set,), empty),
    ensures
        forall|i: int, j: int| 0 <= i < j < list@.len() ==> list@[i] < list@[j],
        count == list@.len(),
        empty <==> count == 0,
{
    assert(list@.no_duplicates());
    list@.unique_seq_to_set();
}

/// A new set of threads is empty.
pub proof fn new_thread_sets_are_empty(set: LinuxPerfThreadSet, empty: bool)
    requires
        call_ensures(LinuxPerfThreadSet::new, (), set),
        call_ensures(LinuxPerfThreadSet::is_empty, (&set,), empty),
    ensures
        empty,
{
}

/// Thread numbers come out from the lowest, each once.
pub proof fn thread_numbers_ascend(names: Vec<String>, r: Vec<i32>)
    requires
        call_ensures(thread_ids, (&names,), r),
    ensures
        forall|i: int, j: int| 0 <= i < j < r@.len() ==> r@[i] < r@[j],
        names@.len() == 0 ==> r@.len() == 0,
{
    if names@.len() == 0 && r@.len() > 0 {
        assert(r@.contains(r@[0]));
    }
}

/// A scale is usable where it is a number above zero and below infinity.
pub proof fn byte_scales_are_positive(scale: DoubleBits, r: Result<DoubleBits, String>)
    requires
        call_ensures(check_byte_scale, (scale,), r),
    ensures
        r is Ok <==> 0 < scale.bits < 0x7ff0_0000_0000_0000,
        r matches Ok(kept) ==> kept == scale,
{
}

/// An event is usable where its scale is a number above zero and its unit is one
/// of the known ones.
pub proof fn events_need_scale_and_unit(
    scale: Option<DoubleBits>,
    unit: Option<&str>,
    r: Result<u64, String>,
    known: Option<u64>,
)
    requires
        call_ensures(event_multiplier, (scale, unit), r),
        unit matches Some(name) ==> call_ensures(byte_multiplier, (name,), known),
    ensures
        r is Ok <==> (scale matches Some(s) && 0 < s.bits < 0x7ff0_0000_0000_0000 && unit is Some
            && known is Some),
        r matches Ok(multiplier) ==> known == Some(multiplier),
{
}

/// A unit of bytes counts by thousands, or by powers of 1024 where its name has
/// an i; case and white space do not matter.
pub proof fn units_count_their_bytes(unit: &str, r: Option<u64>)
    requires
        call_ensures(byte_multiplier, (unit,), r),
    ensures
        ({
            let name = text::ascii_lower_all(parse::trimmed(unit@));
            &&& name == "b"@ || name == "byte"@ || name == "bytes"@ ==> r == Some(1u64)
            &&& name == "kb"@ ==> r == Some(1_000u64)
            &&& name == "mb"@ ==> r == Some(1_000_000u64)
            &&& name == "gb"@ ==> r == Some(1_000_000_000u64)
            &&& name == "kib"@ ==> r == Some(1_024u64)
            &&& name == "mib"@ ==> r == Some(1_048_576u64)
            &&& name == "gib"@ ==> r == Some(1_073_741_824u64)
            &&& r is Some ==> name == "b"@ || name == "byte"@ || name == "bytes"@ || name == "kb"@
                || name == "mb"@ || name == "gb"@ || name == "kib"@ || name == "mib"@ || name
                == "gib"@
        }),
{
    reveal_strlit("b");
    reveal_strlit("byte");
    reveal_strlit("bytes");
    reveal_strlit("kb");
    reveal_strlit("kib");
    reveal_strlit("mb");
    reveal_strlit("mib");
    reveal_strlit("gb");
    reveal_strlit("gib");
    assert("b"@.len() == 1 && "byte"@.len() == 4 && "bytes"@.len() == 5);
    assert("kb"@.len() == 2 && "mb"@.len() == 2 && "gb"@.len() == 2);
    assert("kib"@.len() == 3 && "mib"@.len() == 3 && "gib"@.len() == 3);
    assert("kb"@[0] == 'k' && "mb"@[0] == 'm' && "gb"@[0] == 'g');
    assert("kib"@[0] == 'k' && "mib"@[0] == 'm' && "gib"@[0] == 'g');
}

/// A memory controller is a device named with the prefix of controllers and a
/// number.
pub proof fn controllers_are_known_by_name(name: &str, r: bool)
    requires
        call_ensures(is_imc_pmu_name, (name,), r),
    ensures
        r <==> name@.len() > 11 && name@.subrange(0, 11) == "uncore_imc_"@ && forall|i: int|
            11 <= i < name@.len() ==> '0' <= #[trigger] name@[i] <= '9',
{
    reveal_strlit("uncore_imc_");
    if name@.len() >= 11 {
        let rest = name@.skip(11);
        if parse::all_digits(rest) {
            assert forall|i: int| 11 <= i < name@.len() implies '0' <= #[trigger] name@[i] <= '9' by {
                assert(parse::is_digit(rest[i - 11]));
            }
        }
        if name@.len() > 11 && forall|i: int|
            11 <= i < name@.len() ==> '0' <= #[trigger] name@[i] <= '9' {
            assert forall|i: int| 0 <= i < rest.len() implies parse::is_digit(#[trigger] rest[i]) by {
                assert(rest[i] == name@[i + 11]);
            }
        }
    }
}

/// A bandwidth is measured where every controller of the machine is.
pub proof fn completeness_needs_every_target(complete: bool, counters: usize, expected: usize, r: bool)
    requires
        call_ensures(still_complete, (complete, counters, expected), r),
    ensures
        r <==> complete && counters == expected,
{
}

/// A pair of counters is usable where both were read and both ran.
pub open spec fn pair_ran(pair: PairRead) -> bool {
    pair.read matches Ok(read) && pair.write matches Ok(write) && read.enabled_ns > 0
        && read.running_ns > 0 && write.enabled_ns > 0 && write.running_ns > 0
}

/// Whether all of memory is measured depends on how many targets are usable.
pub proof fn scope_depends_on_usable_targets(usable: nat, expected: usize, complete: bool)
    ensures
        usable == 0 <==> perf_memory::scope_of(usable, expected, complete)
            == MemoryBandwidthScope::SystemUnavailable,
        usable > 0 && complete && usable == expected <==> perf_memory::scope_of(
            usable,
            expected,
            complete,
        ) == MemoryBandwidthScope::SystemComplete,
{
}

proof fn usable_places_are_those_that_ran(pairs: Seq<PairRead>, count: int)
    requires
        0 <= count <= pairs.len(),
    ensures
        perf_memory::usable_places(pairs, count).len() == pairs.take(count).filter(
            |p: PairRead| pair_ran(p),
        ).len(),
        forall|i: int|
            0 <= i < perf_memory::usable_places(pairs, count).len() ==> ({
                let at = #[trigger] perf_memory::usable_places(pairs, count)[i];
                0 <= at < count && pair_ran(pairs[at])
            }),
    decreases count,
{
    reveal(Seq::filter);
    if count > 0 {
        usable_places_are_those_that_ran(pairs, count - 1);
        assert(pairs.take(count).drop_last() =~= pairs.take(count - 1));
        assert(pairs.take(count).last() == pairs[count - 1]);
        assert(pairs[count - 1].usable() == pair_ran(pairs[count - 1]));
        let front = perf_memory::usable_places(pairs, count - 1);
        let whole = perf_memory::usable_places(pairs, count);
        assert forall|i: int| 0 <= i < whole.len() implies ({
            let at = #[trigger] whole[i];
            0 <= at < count && pair_ran(pairs[at])
        }) by {
            if i < front.len() {
                assert(whole[i] == front[i]);
            }
        }
    } else {
        assert(pairs.take(0) =~= Seq::<PairRead>::empty());
    }
}

/// What is collected of memory comes from the pairs that ran: reads from read
/// counters, writes from write counters, scaled up to the whole time.
pub proof fn memory_counts_come_from_their_counters(counts: Seq<TargetCounts>, pairs: Seq<PairRead>)
    requires
        perf_memory::counts_of(
            counts,
            pairs,
            perf_memory::usable_places(pairs, pairs.len() as int),
        ),
    ensures
        counts.len() == pairs.filter(|p: PairRead| pair_ran(p)).len(),
        forall|i: int|
            #![trigger counts[i]]
            0 <= i < counts.len() ==> {
                let pair = pairs[counts[i].index as int];
                &&& counts[i].index < pairs.len()
                &&& pair_ran(pair)
                &&& counts[i].read >= pair.read->Ok_0.count
                &&& counts[i].write >= pair.write->Ok_0.count
                &&& pair.read->Ok_0.running_ns >= pair.read->Ok_0.enabled_ns ==> counts[i].read
                    == pair.read->Ok_0.count
                &&& pair.write->Ok_0.running_ns >= pair.write->Ok_0.enabled_ns ==> counts[i].write
                    == pair.write->Ok_0.count
            },
{
    usable_places_are_those_that_ran(pairs, pairs.len() as int);
    assert(pairs.take(pairs.len() as int) =~= pairs);
    assert forall|i: int|
        #![trigger counts[i]]
        0 <= i < counts.len() implies ({
        let pair = pairs[counts[i].index as int];
        &&& counts[i].index < pairs.len()
        &&& pair_ran(pair)
        &&& counts[i].read >= pair.read->Ok_0.count
        &&& counts[i].write >= pair.write->Ok_0.count
        &&& pair.read->Ok_0.running_ns >= pair.read->Ok_0.enabled_ns ==> counts[i].read
            == pair.read->Ok_0.count
        &&& pair.write->Ok_0.running_ns >= pair.write->Ok_0.enabled_ns ==> counts[i].write
            == pair.write->Ok_0.count
    }) by {
        let at = perf_memory::usable_places(pairs, pairs.len() as int)[i];
        let pair = pairs[at];
        perf::scaling_never_loses(
            pair.read->Ok_0.count,
            pair.read->Ok_0.enabled_ns,
            pair.read->Ok_0.running_ns,
        );
        perf::scaling_never_loses(
            pair.write->Ok_0.count,
            pair.write->Ok_0.enabled_ns,
            pair.write->Ok_0.running_ns,
        );
    }
}

/// Whether one of the metrics has a name, a value and a unit.
pub open spec fn reports(metrics: Seq<MetricValue>, name: Seq<char>, value: DoubleBits, unit: Seq<char>) -> bool {
    exists|i: int|
        0 <= i < metrics.len() && (#[trigger] metrics[i]).name@ == name && metrics[i].value == value
            && metrics[i].unit@ == unit
}

/// Bandwidths are reported where all of memory is measured, each under the name
/// of its number; coverage and scheduling wherever any of it is. A warning is
/// given where counters ran for less than a quarter of the time or ten
/// milliseconds.
pub proof fn bandwidths_are_reported_when_complete(
    sample: MemoryBandwidthSample,
    operations: u64,
    elapsed: Nanos,
    r: (Vec<MetricValue>, bool),
)
    requires
        call_ensures(memory_bandwidth_metrics, (&sample, operations, elapsed), r),
    ensures
        sample.scope is SystemUnavailable ==> r.0@.len() == 0 && !r.1,
        sample.scope is SystemPartial ==> r.0@.len() == 2 && !r.1,
        !(sample.scope is SystemUnavailable) ==> {
            &&& reports(r.0@, "dram_imc_coverage_percent"@, sample.coverage_percent, "%"@)
            &&& reports(r.0@, "dram_pmu_scheduled_percent"@, sample.scheduled_percent, "%"@)
        },
        sample.scope is SystemComplete && operations > 0 ==> {
            &&& reports(r.0@, "dram_read_bytes_per_op"@, sample.read_bytes_per_op, "B/op"@)
            &&& reports(r.0@, "dram_write_bytes_per_op"@, sample.write_bytes_per_op, "B/op"@)
            &&& reports(r.0@, "dram_total_bytes_per_op"@, sample.total_bytes_per_op, "B/op"@)
        },
        sample.scope is SystemComplete && elapsed.count > 0 ==> {
            &&& reports(r.0@, "dram_read_gib_s"@, sample.read_gib_s, "GiB/s"@)
            &&& reports(r.0@, "dram_write_gib_s"@, sample.write_gib_s, "GiB/s"@)
            &&& reports(r.0@, "dram_total_gib_s"@, sample.total_gib_s, "GiB/s"@)
        },
        sample.scope is SystemComplete && (sample.least_running_ns < 10_000_000
            || sample.scheduled_percent.bits < 0x4039_0000_0000_0000) ==> r.1,
        sample.least_running_ns >= 10_000_000 && 0x4039_0000_0000_0000
            <= sample.scheduled_percent.bits <= 0x7ff0_0000_0000_0000 ==> !r.1,
{
    let m = r.0@;
    if !(sample.scope is SystemUnavailable) {
        assert(reports(m, m[0].name@, m[0].value, m[0].unit@));
        assert(reports(m, m[1].name@, m[1].value, m[1].unit@));
    }
    if sample.scope is SystemComplete && operations > 0 {
        assert(reports(m, m[2].name@, m[2].value, m[2].unit@));
        assert(reports(m, m[3].name@, m[3].value, m[3].unit@));
        assert(reports(m, m[4].name@, m[4].value, m[4].unit@));
    }
    if sample.scope is SystemComplete && elapsed.count > 0 {
        let at: int = if operations > 0 {
            5
        } else {
            2
        };
        assert(reports(m, m[at].name@, m[at].value, m[at].unit@));
        assert(reports(m, m[at + 1].name@, m[at + 1].value, m[at + 1].unit@));
        assert(reports(m, m[at + 2].name@, m[at + 2].value, m[at + 2].unit@));
    }
}

} // verus!
