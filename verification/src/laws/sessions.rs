//! What a session keeps, and what it says of the one before.
use crate::comparison::engine;
use crate::comparison::engine::{Change, Changes};
use crate::double::DoubleBits;
use crate::numbers::{NumberStyle, NumberTexts};
use crate::session;
use crate::session::changes::{
    comparative_diagnosis, format_improvement, format_percent_change, measure_shifts,
    pmu_backend_stall_metric, pmu_branch_miss_metric, pmu_cache_metric, pmu_frontend_stall_metric,
    pmu_ipc, pmu_metric_improvement, safe_improvement_percent, safe_percent_change, Shifts,
};
use crate::session::store;
use crate::session::store::{
    comparison_session, default_suite_name, is_report_file_name, machine_name, report_directory,
    report_file_name, KeptSession,
};
use crate::session::summary;
use crate::session::summary::{
    counter_deltas, fastest_and_slowest, result_mad_latency, result_mean_throughput,
    result_median_latency, result_p95_latency, tally_changes, ChangeTally, CounterDeltas,
    EarlierSession, Figures,
};
use crate::session::{
    find_case, finite_mops, matching_previous_result, session_is_compatible, BenchmarkKind,
    BenchmarkReport, BenchmarkResult, BenchmarkSession, BenchmarkStats, ComparisonPolicy,
};
use crate::context::ReportContext;
use crate::table;
use crate::text;
use vstd::prelude::*;

verus! {

/// Whether a recorded change is one from one number to another.
pub open spec fn leads(change: Change, current: DoubleBits, baseline: DoubleBits) -> bool {
    change.current == current && change.baseline == baseline
}

pub proof fn recorded_changes_are_found(list: Seq<Change>, current: DoubleBits, baseline: DoubleBits)
    ensures
        match engine::recorded_change(list, current, baseline) {
            Some(change) => exists|i: int|
                0 <= i < list.len() && #[trigger] list[i] == change && leads(
                    change,
                    current,
                    baseline,
                ) && forall|j: int|
                    i < j < list.len() ==> !leads(#[trigger] list[j], current, baseline),
            None => forall|j: int|
                0 <= j < list.len() ==> !leads(#[trigger] list[j], current, baseline),
        },
    decreases list.len(),
{
    if list.len() > 0 {
        let front = list.drop_last();
        recorded_changes_are_found(front, current, baseline);
        let last = list.len() - 1;
        if leads(list[last], current, baseline) {
            assert(list[last] == list.last());
        } else {
            match engine::recorded_change(front, current, baseline) {
                Some(change) => {
                    let i = choose|i: int|
                        0 <= i < front.len() && #[trigger] front[i] == change && leads(
                            change,
                            current,
                            baseline,
                        ) && forall|j: int|
                            i < j < front.len() ==> !leads(#[trigger] front[j], current, baseline);
                    assert(list[i] == change);
                    assert forall|j: int| i < j < list.len() implies !leads(
                        #[trigger] list[j],
                        current,
                        baseline,
                    ) by {
                        if j < last {
                            assert(front[j] == list[j]);
                        }
                    }
                },
                None => {
                    assert forall|j: int| 0 <= j < list.len() implies !leads(
                        #[trigger] list[j],
                        current,
                        baseline,
                    ) by {
                        if j < last {
                            assert(front[j] == list[j]);
                        }
                    }
                },
            }
        }
    }
}

/// The change between two numbers is the one recorded last of them, and none
/// where none was recorded.
pub proof fn the_last_recorded_change_counts(
    changes: Changes,
    current: DoubleBits,
    baseline: DoubleBits,
    r: Option<Change>,
)
    requires
        call_ensures(Changes::between, (&changes, current, baseline), r),
    ensures
        match r {
            Some(change) => exists|i: int|
                0 <= i < changes.list@.len() && #[trigger] changes.list@[i] == change && leads(
                    change,
                    current,
                    baseline,
                ) && forall|j: int|
                    i < j < changes.list@.len() ==> !leads(
                        #[trigger] changes.list@[j],
                        current,
                        baseline,
                    ),
            None => forall|j: int|
                0 <= j < changes.list@.len() ==> !leads(
                    #[trigger] changes.list@[j],
                    current,
                    baseline,
                ),
        },
{
    recorded_changes_are_found(changes.list@, current, baseline);
}

/// The pattern of a number without its sign.
pub open spec fn size(value: DoubleBits) -> u64 {
    if value.bits >= 0x8000_0000_0000_0000 {
        (value.bits - 0x8000_0000_0000_0000) as u64
    } else {
        value.bits
    }
}

/// Whether two numbers can be compared: both finite, the earlier one not next to
/// zero.
pub open spec fn related(current: DoubleBits, previous: DoubleBits) -> bool {
    size(current) < 0x7ff0_0000_0000_0000 && 0x3cb0_0000_0000_0000 < size(previous)
        < 0x7ff0_0000_0000_0000
}

/// What is shown of a change: nothing where the numbers cannot be compared, and
/// otherwise the percentage of the recorded change that tells of a gain.
pub open spec fn gain_shown(
    current: DoubleBits,
    previous: DoubleBits,
    change: Option<Change>,
    shown: Option<DoubleBits>,
) -> bool {
    &&& !related(current, previous) || change is None ==> shown is None
    &&& related(current, previous) ==> (change matches Some(c) ==> shown == Some(c.gain_percent))
}

/// The same with the percentage that tells of a drop.
pub open spec fn drop_shown(
    current: DoubleBits,
    previous: DoubleBits,
    change: Option<Change>,
    shown: Option<DoubleBits>,
) -> bool {
    &&& !related(current, previous) || change is None ==> shown is None
    &&& related(current, previous) ==> (change matches Some(c) ==> shown == Some(c.drop_percent))
}

/// A change in percent is the recorded gain of numbers that can be compared.
pub proof fn percentages_are_recorded_gains(
    current: DoubleBits,
    previous: DoubleBits,
    changes: Changes,
    change: Option<Change>,
    r: Option<DoubleBits>,
)
    requires
        call_ensures(safe_percent_change, (current, previous, &changes), r),
        call_ensures(Changes::between, (&changes, current, previous), change),
    ensures
        gain_shown(current, previous, change, r),
{
}

/// An improvement is a gain where more is better and a drop where less is.
pub proof fn improvements_go_the_right_way(
    current: DoubleBits,
    previous: DoubleBits,
    lower_is_better: bool,
    changes: Changes,
    change: Option<Change>,
    r: Option<DoubleBits>,
)
    requires
        call_ensures(
            safe_improvement_percent,
            (current, previous, lower_is_better, &changes),
            r,
        ),
        call_ensures(Changes::between, (&changes, current, previous), change),
    ensures
        !lower_is_better ==> gain_shown(current, previous, change, r),
        lower_is_better ==> drop_shown(current, previous, change, r),
{
}

/// Changes below one percent are written as none, others with their sign, a gain
/// in green and a drop in red where there is a terminal.
pub proof fn changes_are_written_with_their_sign(
    terminal: bool,
    change: Option<DoubleBits>,
    numbers: NumberTexts,
    r: String,
)
    requires
        call_ensures(format_percent_change, (terminal, change, &numbers), r) || call_ensures(
            format_improvement,
            (terminal, change, &numbers),
            r,
        ),
    ensures
        change is None ==> r@ == "n/a"@,
        change matches Some(c) ==> {
            let digits = numbers.spec_text(c, NumberStyle::Fixed { places: 1 });
            &&& size(c) < 0x3ff0_0000_0000_0000 ==> r@ == "~0%"@
            &&& 0x3ff0_0000_0000_0000 <= c.bits <= 0x7ff0_0000_0000_0000 ==> r@
                == table::colored_if(terminal, "32"@, "+"@ + digits + "%"@)
            &&& c.bits >= 0xbff0_0000_0000_0000 ==> r@ == table::colored_if(
                terminal,
                "31"@,
                digits + "%"@,
            )
        },
{
}

/// Instructions per cycle are known where both are counted and more than none.
pub proof fn ipc_needs_both_counters(stats: BenchmarkStats, r: Option<DoubleBits>)
    requires
        call_ensures(pmu_ipc, (&stats,), r),
    ensures
        r is Some <==> stats.has_cycles && stats.has_instructions && 0 < stats.ipc.bits
            < 0x7ff0_0000_0000_0000,
        r matches Some(v) ==> v == stats.ipc,
{
}

/// A counter's number that is finite and not below zero.
pub open spec fn plausible(value: DoubleBits) -> bool {
    value.bits < 0x7ff0_0000_0000_0000 || value.bits == 0x8000_0000_0000_0000
}

/// The rate of missed branches is known where branches and their misses are.
pub proof fn branch_misses_need_branches(stats: BenchmarkStats, r: Option<DoubleBits>)
    requires
        call_ensures(pmu_branch_miss_metric, (&stats,), r),
    ensures
        r is Some <==> stats.has_branches && stats.has_branch_misses && plausible(
            stats.branch_miss_rate,
        ),
        r matches Some(v) ==> v == stats.branch_miss_rate,
{
}

/// Cache misses are told in percent of the references where those are counted,
/// and otherwise per operation.
pub proof fn cache_misses_are_told_per_reference(stats: BenchmarkStats, r: Option<DoubleBits>)
    requires
        call_ensures(pmu_cache_metric, (&stats,), r),
    ensures
        !stats.has_cache_misses ==> r is None,
        stats.has_cache_misses && stats.has_cache_references ==> (r is Some <==> plausible(
            stats.cache_miss_percent,
        )) && (r matches Some(v) ==> v == stats.cache_miss_percent),
        stats.has_cache_misses && !stats.has_cache_references ==> (r is Some <==> plausible(
            stats.cache_misses_per_op,
        )) && (r matches Some(v) ==> v == stats.cache_misses_per_op),
{
}

/// Stalls are known where they and the cycles are counted, each by its own number.
pub proof fn stalls_need_cycles(
    stats: BenchmarkStats,
    front: Option<DoubleBits>,
    back: Option<DoubleBits>,
)
    requires
        call_ensures(pmu_frontend_stall_metric, (&stats,), front),
        call_ensures(pmu_backend_stall_metric, (&stats,), back),
    ensures
        front is Some <==> stats.has_cycles && stats.has_stalled_cycles_frontend && plausible(
            stats.frontend_stall_percent,
        ),
        front matches Some(v) ==> v == stats.frontend_stall_percent,
        back is Some <==> stats.has_cycles && stats.has_stalled_cycles_backend && plausible(
            stats.backend_stall_percent,
        ),
        back matches Some(v) ==> v == stats.backend_stall_percent,
{
}

/// A counter is compared where both sides know it.
pub proof fn counters_are_compared_where_known(
    current: Option<DoubleBits>,
    previous: Option<DoubleBits>,
    lower_is_better: bool,
    changes: Changes,
    r: Option<DoubleBits>,
)
    requires
        call_ensures(pmu_metric_improvement, (current, previous, lower_is_better, &changes), r),
    ensures
        current is None || previous is None ==> r is None,
        current is Some && previous is Some ==> {
            let change = changes.spec_between(current->0, previous->0);
            &&& !lower_is_better ==> gain_shown(current->0, previous->0, change, r)
            &&& lower_is_better ==> drop_shown(current->0, previous->0, change, r)
        },
{
}

/// Of the counters only instructions per cycle are better the higher they are.
pub proof fn counters_improve_the_right_way(
    current: BenchmarkStats,
    previous: BenchmarkStats,
    changes: Changes,
    r: CounterDeltas,
)
    requires
        call_ensures(counter_deltas, (&current, &previous, &changes), r),
    ensures
        r.ipc matches Some(v) ==> (changes.spec_between(current.ipc, previous.ipc) matches Some(c)
            && v == c.gain_percent && current.has_cycles && previous.has_cycles),
        r.branch matches Some(v) ==> (changes.spec_between(
            current.branch_miss_rate,
            previous.branch_miss_rate,
        ) matches Some(c) && v == c.drop_percent && current.has_branch_misses
            && previous.has_branch_misses),
        r.frontend matches Some(v) ==> (changes.spec_between(
            current.frontend_stall_percent,
            previous.frontend_stall_percent,
        ) matches Some(c) && v == c.drop_percent && current.has_stalled_cycles_frontend
            && previous.has_stalled_cycles_frontend),
        r.backend matches Some(v) ==> (changes.spec_between(
            current.backend_stall_percent,
            previous.backend_stall_percent,
        ) matches Some(c) && v == c.drop_percent && current.has_stalled_cycles_backend
            && previous.has_stalled_cycles_backend),
        r.cache is Some ==> current.has_cache_misses && previous.has_cache_misses,
        r.cache is Some && current.has_cache_references && previous.has_cache_references ==> (
        changes.spec_between(current.cache_miss_percent, previous.cache_miss_percent) matches Some(
            c,
        ) && r.cache == Some(c.drop_percent)),
{
}

/// Each shift is the gain recorded of its own number.
pub proof fn shifts_tell_of_their_own_numbers(
    current: BenchmarkStats,
    rate: DoubleBits,
    previous: BenchmarkStats,
    previous_rate: DoubleBits,
    changes: Changes,
    r: Shifts,
)
    requires
        call_ensures(measure_shifts, (&current, rate, &previous, previous_rate, &changes), r),
    ensures
        shows_gain(changes, rate, previous_rate, r.throughput),
        shows_gain(changes, current.ipc, previous.ipc, r.ipc),
        shows_gain(
            changes,
            current.instructions_per_op,
            previous.instructions_per_op,
            r.instructions,
        ),
        shows_gain(
            changes,
            current.frontend_stall_percent,
            previous.frontend_stall_percent,
            r.frontend,
        ),
        shows_gain(
            changes,
            current.backend_stall_percent,
            previous.backend_stall_percent,
            r.backend,
        ),
        shows_gain(changes, current.branch_miss_rate, previous.branch_miss_rate, r.branch),
        shows_gain(
            changes,
            current.cache_miss_percent,
            previous.cache_miss_percent,
            r.cache_percent,
        ),
        shows_gain(
            changes,
            current.cache_misses_per_op,
            previous.cache_misses_per_op,
            r.cache_per_op,
        ),
        shows_gain(changes, current.l1i_misses_per_op, previous.l1i_misses_per_op, r.l1i),
        shows_gain(changes, current.cv_percent, previous.cv_percent, r.cv),
{
}

/// Whether what is shown is the recorded gain from one number to another.
pub open spec fn shows_gain(
    changes: Changes,
    current: DoubleBits,
    previous: DoubleBits,
    shown: Option<DoubleBits>,
) -> bool {
    gain_shown(current, previous, changes.spec_between(current, previous), shown)
}

/// Whether a shift, up or down, is at least as large as a number.
pub open spec fn reaches(shift: Option<DoubleBits>, pattern: u64) -> bool {
    shift matches Some(s) && pattern <= size(s) <= 0x7ff0_0000_0000_0000
}

/// Whether a shift, up or down, is at most as large as a number.
pub open spec fn stays_within(shift: Option<DoubleBits>, pattern: u64) -> bool {
    shift matches Some(s) && size(s) <= pattern
}

/// Two percent slower or more.
pub open spec fn slower(s: Shifts) -> bool {
    s.throughput matches Some(t) && 0xc000_0000_0000_0000 <= t.bits <= 0xfff0_0000_0000_0000
}

/// Two percent faster or more.
pub open spec fn faster(s: Shifts) -> bool {
    s.throughput matches Some(t) && 0x4000_0000_0000_0000 <= t.bits <= 0x7ff0_0000_0000_0000
}

/// A shift as it is written; one that is unknown as none.
pub open spec fn written(shift: Option<DoubleBits>, numbers: NumberTexts) -> Seq<char> {
    numbers.spec_text(
        if shift is Some {
            shift->0
        } else {
            DoubleBits { bits: 0 }
        },
        NumberStyle::Signed { places: 1 },
    ) + "%"@
}

/// The same work done at another pace: instructions within five percent, their
/// number per cycle at least five percent off.
pub open spec fn pace_changed(s: Shifts) -> bool {
    (slower(s) || faster(s)) && stays_within(s.instructions, 0x4014_0000_0000_0000) && reaches(
        s.ipc,
        0x4014_0000_0000_0000,
    )
}

/// Memory is waited for more or less: backend stalls and cache misses both moved
/// by ten percent.
pub open spec fn memory_changed(s: Shifts) -> bool {
    (slower(s) || faster(s)) && reaches(s.backend, 0x4024_0000_0000_0000) && (reaches(
        s.cache_percent,
        0x4024_0000_0000_0000,
    ) || reaches(s.cache_per_op, 0x4024_0000_0000_0000))
}

/// Branches are predicted better or worse: frontend stalls and branch misses both
/// moved by ten percent.
pub open spec fn prediction_changed(s: Shifts) -> bool {
    (slower(s) || faster(s)) && reaches(s.frontend, 0x4024_0000_0000_0000) && reaches(
        s.branch,
        0x4024_0000_0000_0000,
    )
}

/// Instructions are waited for more or less: frontend stalls and missing
/// instructions both moved by ten percent.
pub open spec fn fetching_changed(s: Shifts) -> bool {
    (slower(s) || faster(s)) && reaches(s.frontend, 0x4024_0000_0000_0000) && reaches(
        s.l1i,
        0x4024_0000_0000_0000,
    )
}

/// Another amount of work at the same pace.
pub open spec fn work_changed(s: Shifts) -> bool {
    (slower(s) || faster(s)) && reaches(s.instructions, 0x4014_0000_0000_0000) && stays_within(
        s.ipc,
        0x4014_0000_0000_0000,
    )
}

/// The samples vary by a fifth more or less than before.
pub open spec fn variation_changed(s: Shifts) -> bool {
    reaches(s.cv, 0x4034_0000_0000_0000)
}

/// A list of one text, or of none.
pub open spec fn given(condition: bool, note: Seq<char>) -> Seq<Seq<char>> {
    if condition {
        seq![note]
    } else {
        seq![]
    }
}

/// One of two texts.
pub open spec fn one_of(first: bool, a: Seq<char>, b: Seq<char>) -> Seq<char> {
    if first {
        a
    } else {
        b
    }
}

/// Two runs are diagnosed by what moved between them. A slower run is told what
/// got worse and a faster one what got better, and each remark gives the shifts
/// that it rests on.
pub proof fn remarks_tell_what_moved(s: Shifts, numbers: NumberTexts, r: String)
    requires
        call_ensures(comparative_diagnosis, (s, &numbers), r),
    ensures
        r@ == text::joined(
            given(
                pace_changed(s),
                one_of(
                    slower(s),
                    "same work, worse utilization"@,
                    "same work, better utilization"@,
                ) + ": instructions/op stayed roughly flat while IPC moved "@ + written(
                    s.ipc,
                    numbers,
                ),
            ) + given(
                memory_changed(s),
                one_of(slower(s), "memory-latency signature"@, "memory-latency relief"@)
                    + ": backend stalls moved "@ + written(s.backend, numbers)
                    + " and cache pressure moved "@ + written(
                    if s.cache_percent is Some {
                        s.cache_percent
                    } else {
                        s.cache_per_op
                    },
                    numbers,
                ),
            ) + given(
                prediction_changed(s),
                one_of(
                    slower(s),
                    "frontend/predictor regression"@,
                    "frontend/predictor improvement"@,
                ) + ": frontend stalls moved "@ + written(s.frontend, numbers)
                    + " and branch miss rate moved "@ + written(s.branch, numbers),
            ) + given(
                fetching_changed(s),
                one_of(
                    slower(s),
                    "instruction-cache regression"@,
                    "instruction-cache improvement"@,
                ) + ": frontend stalls moved "@ + written(s.frontend, numbers)
                    + " and L1I misses/op moved "@ + written(s.l1i, numbers),
            ) + given(
                work_changed(s),
                one_of(slower(s), "heavier code path"@, "lighter code path"@)
                    + ": instructions/op moved "@ + written(s.instructions, numbers)
                    + " while IPC stayed roughly flat"@,
            ) + given(
                variation_changed(s),
                one_of(
                    s.cv->0.bits < 0x8000_0000_0000_0000,
                    "stability worsened"@,
                    "stability improved"@,
                ) + ": coefficient of variation moved "@ + written(s.cv, numbers),
            ),
            "; "@,
        ),
{
}

/// Whether a session ran a case of a name and a kind.
pub open spec fn ran(results: Seq<BenchmarkResult>, name: Seq<char>, kind: BenchmarkKind) -> bool {
    exists|i: int|
        0 <= i < results.len() && (#[trigger] results[i]).name@ == name && results[i].kind == kind
}

/// Two sessions go together where they ran on one machine, in one suite, and ran
/// the same cases.
pub proof fn sessions_go_together_by_their_cases(
    kept: BenchmarkReport,
    hostname: &str,
    suite: &str,
    results: Vec<BenchmarkResult>,
    r: bool,
)
    requires
        call_ensures(session_is_compatible, (&kept, hostname, suite, &results), r),
    ensures
        r <==> {
            &&& kept.hostname@ == hostname@
            &&& kept.suite matches Some(named) && named@ == suite@
            &&& forall|name: Seq<char>, kind: BenchmarkKind| #[trigger]
                ran(kept.results@, name, kind) <==> ran(results@, name, kind)
        },
{
    let a = session::case_keys(kept.results@);
    let b = session::case_keys(results@);
    assert forall|name: Seq<char>, kind: BenchmarkKind| #[trigger]
        ran(kept.results@, name, kind) <==> a.contains((name, kind)) by {
        keys_are_cases(kept.results@, name, kind);
    }
    assert forall|name: Seq<char>, kind: BenchmarkKind| #[trigger]
        ran(results@, name, kind) <==> b.contains((name, kind)) by {
        keys_are_cases(results@, name, kind);
    }
    if forall|name: Seq<char>, kind: BenchmarkKind| #[trigger]
        ran(kept.results@, name, kind) <==> ran(results@, name, kind) {
        assert forall|key: (Seq<char>, BenchmarkKind)| #[trigger]
            a.contains(key) <==> b.contains(key) by {
            assert(ran(kept.results@, key.0, key.1) <==> ran(results@, key.0, key.1));
        }
        assert(a =~= b);
    } else {
        let (name, kind) = choose|name: Seq<char>, kind: BenchmarkKind|
            #[trigger] ran(kept.results@, name, kind) != ran(results@, name, kind);
        assert(a.contains((name, kind)) != b.contains((name, kind)));
    }
}

proof fn keys_are_cases(results: Seq<BenchmarkResult>, name: Seq<char>, kind: BenchmarkKind)
    ensures
        ran(results, name, kind) <==> session::case_keys(results).contains((name, kind)),
{
    if ran(results, name, kind) {
        let i = choose|i: int|
            0 <= i < results.len() && (#[trigger] results[i]).name@ == name && results[i].kind
                == kind;
        assert(session::case_key(results[i]) == (name, kind));
    }
    if session::case_keys(results).contains((name, kind)) {
        let i = choose|i: int|
            0 <= i < results.len() && session::case_key(#[trigger] results[i]) == (name, kind);
        assert(results[i].name@ == name);
    }
}

/// A result is compared with the first earlier one of its name and kind.
pub proof fn results_meet_their_namesakes(
    previous: BenchmarkReport,
    result: BenchmarkResult,
    r: Option<usize>,
)
    requires
        call_ensures(matching_previous_result, (&previous, &result), r),
    ensures
        r is Some <==> ran(previous.results@, result.name@, result.kind),
        r matches Some(i) ==> {
            &&& i < previous.results@.len()
            &&& previous.results@[i as int].name@ == result.name@
            &&& previous.results@[i as int].kind == result.kind
            &&& forall|j: int|
                0 <= j < i ==> (#[trigger] previous.results@[j]).name@ != result.name@
                    || previous.results@[j].kind != result.kind
        },
{
    keys_are_cases(previous.results@, result.name@, result.kind);
}

/// A case is found by its name and kind, the first of them.
pub proof fn cases_are_found_by_name_and_kind(
    results: Vec<BenchmarkResult>,
    name: &str,
    kind: BenchmarkKind,
    r: Option<usize>,
)
    requires
        call_ensures(find_case, (&results, name, kind), r),
    ensures
        r is Some <==> ran(results@, name@, kind),
        r matches Some(i) ==> i < results@.len() && results@[i as int].name@ == name@
            && results@[i as int].kind == kind && forall|j: int|
            0 <= j < i ==> (#[trigger] results@[j]).name@ != name@ || results@[j].kind != kind,
{
    keys_are_cases(results@, name@, kind);
}

/// A session is compared with the latest kept one that it goes together with, if
/// comparing was asked for.
pub proof fn the_latest_session_is_compared(
    policy: ComparisonPolicy,
    report: BenchmarkReport,
    kept: Vec<KeptSession>,
    r: Option<usize>,
)
    requires
        call_ensures(comparison_session, (policy, &report, &kept), r),
    ensures
        policy is NoComparison || report.suite is None ==> r is None,
        r matches Some(at) ==> {
            &&& at < kept@.len()
            &&& goes_with(kept@[at as int], report)
            &&& forall|j: int|
                0 <= j < kept@.len() && goes_with(#[trigger] kept@[j], report)
                    ==> kept@[j].modified_ns <= kept@[at as int].modified_ns
        },
        r is None && policy is LatestCompatible ==> forall|j: int|
            0 <= j < kept@.len() ==> !goes_with(#[trigger] kept@[j], report),
{
    if policy is LatestCompatible {
        assert forall|j: int| 0 <= j < kept@.len() implies goes_with(#[trigger] kept@[j], report)
            == store::eligible(policy, report, kept@[j]) by {
            same_cases_have_same_keys(kept@[j].report.results@, report.results@);
        }
    }
}

/// Whether a kept session ran on the machine, in the suite and the cases of a
/// report.
pub open spec fn goes_with(kept: KeptSession, report: BenchmarkReport) -> bool {
    &&& kept.report.hostname@ == report.hostname@
    &&& report.suite is Some && kept.report.suite is Some && kept.report.suite->0@
        == report.suite->0@
    &&& forall|name: Seq<char>, kind: BenchmarkKind| #[trigger]
        ran(kept.report.results@, name, kind) <==> ran(report.results@, name, kind)
}

proof fn same_cases_have_same_keys(a: Seq<BenchmarkResult>, b: Seq<BenchmarkResult>)
    ensures
        (session::case_keys(a) == session::case_keys(b)) <==> forall|name: Seq<char>, kind: BenchmarkKind| #[trigger]
            ran(a, name, kind) <==> ran(b, name, kind),
{
    assert forall|name: Seq<char>, kind: BenchmarkKind| #[trigger]
        ran(a, name, kind) <==> session::case_keys(a).contains((name, kind)) by {
        keys_are_cases(a, name, kind);
    }
    assert forall|name: Seq<char>, kind: BenchmarkKind| #[trigger]
        ran(b, name, kind) <==> session::case_keys(b).contains((name, kind)) by {
        keys_are_cases(b, name, kind);
    }
    if forall|name: Seq<char>, kind: BenchmarkKind| #[trigger]
        ran(a, name, kind) <==> ran(b, name, kind) {
        assert forall|key: (Seq<char>, BenchmarkKind)| #[trigger]
            session::case_keys(a).contains(key) <==> session::case_keys(b).contains(key) by {
            assert(ran(a, key.0, key.1) <==> ran(b, key.0, key.1));
        }
        assert(session::case_keys(a) =~= session::case_keys(b));
    } else {
        let (name, kind) = choose|name: Seq<char>, kind: BenchmarkKind|
            #[trigger] ran(a, name, kind) != ran(b, name, kind);
        assert(session::case_keys(a).contains((name, kind)) != session::case_keys(b).contains(
            (name, kind),
        ));
    }
}

/// Nothing is saved of a session without results, and what is saved is found
/// again by its name.
pub proof fn saved_reports_are_found_again(
    report: BenchmarkReport,
    r: Result<String, &'static str>,
    name: &str,
    found: bool,
)
    requires
        call_ensures(report_file_name, (&report,), r),
        r matches Ok(file) ==> file@ == name@,
        call_ensures(is_report_file_name, (name,), found),
    ensures
        r is Err <==> report.results@.len() == 0,
        r matches Ok(file) ==> file@ == "benchmark_results_"@ + report.timestamp@ + ".json"@,
        r is Ok ==> found,
{
    store::kept_reports_are_found(report.timestamp@);
}

/// A report holds what its session held, under the schema of this version.
pub proof fn reports_hold_their_session(session: BenchmarkSession, report: BenchmarkReport)
    requires
        call_ensures(BenchmarkSession::report, (session,), report),
    ensures
        report.schema_version == 1,
        report.timestamp@ == session.timestamp@,
        report.hostname@ == session.hostname@,
        report.suite matches Some(suite) && suite@ == session.suite@,
        report.git_commit == session.git_commit,
        report.context == session.context,
        report.results@ == session.results@,
{
}

/// A new session holds what it is given, and no results.
pub proof fn new_sessions_are_empty(
    timestamp: String,
    hostname: String,
    suite: String,
    commit: Option<String>,
    context: ReportContext,
    r: BenchmarkSession,
)
    requires
        call_ensures(BenchmarkSession::new, (timestamp, hostname, suite, commit, context), r),
    ensures
        r.timestamp@ == timestamp@,
        r.hostname@ == hostname@,
        r.suite@ == suite@,
        r.git_commit == commit,
        r.context == context,
        r.results@.len() == 0,
{
}

/// Sessions are compared only where that is asked for.
pub proof fn comparing_is_asked_for(policy: ComparisonPolicy)
    requires
        call_ensures(<ComparisonPolicy as Default>::default, (), policy),
    ensures
        policy is NoComparison,
{
}

/// The directory of reports is the configured one, or that of the build.
pub proof fn reports_stand_in_the_configured_directory(
    configured: Option<String>,
    built: Option<String>,
    r: String,
)
    requires
        call_ensures(report_directory, (configured, built), r),
    ensures
        configured matches Some(d) ==> r@ == d@,
        configured is None && built is Some ==> r@ == built->0@,
        configured is None && built is None ==> r@ == "target"@,
{
}

/// The name of the machine is its host name, or else its computer name.
pub proof fn machines_have_a_name(
    hostname: Option<String>,
    computer: Option<String>,
    r: String,
)
    requires
        call_ensures(machine_name, (hostname, computer), r),
    ensures
        hostname matches Some(n) ==> r@ == n@,
        hostname is None && computer is Some ==> r@ == computer->0@,
        hostname is None && computer is None ==> r@ == "unknown"@,
{
}

/// A suite is named after its program, where that has a name.
pub proof fn suites_are_named_after_programs(program: Option<String>, r: String)
    requires
        call_ensures(default_suite_name, (program,), r),
    ensures
        program is Some && program->0@.len() > 0 ==> r@ == program->0@,
        program is None || program->0@.len() == 0 ==> r@ == "benchmark"@,
{
}

/// A rate is ranked where it is finite and not below zero.
pub proof fn rates_are_ranked_when_plausible(rate: DoubleBits, r: Option<DoubleBits>)
    requires
        call_ensures(finite_mops, (rate,), r),
    ensures
        r is Some <==> plausible(rate),
        r matches Some(v) ==> v == rate,
{
}

/// The fastest result is no slower than any other that can be ranked, the slowest
/// no faster.
pub proof fn extremes_are_extreme(figures: Vec<Figures>, r: Option<(usize, usize)>)
    requires
        call_ensures(fastest_and_slowest, (&figures,), r),
    ensures
        r matches Some(pair) ==> {
            &&& pair.0 < figures@.len() && plausible(figures@[pair.0 as int].mops)
            &&& pair.1 < figures@.len() && plausible(figures@[pair.1 as int].mops)
            &&& forall|i: int|
                0 <= i < figures@.len() && plausible((#[trigger] figures@[i]).mops) ==> {
                    &&& figures@[i].mops.at_most(figures@[pair.0 as int].mops)
                    &&& figures@[pair.1 as int].mops.at_most(figures@[i].mops)
                }
        },
{
    if let Some(pair) = r {
        assert forall|i: int| 0 <= i < figures@.len() && plausible((#[trigger] figures@[i]).mops) implies {
            &&& figures@[i].mops.at_most(figures@[pair.0 as int].mops)
            &&& figures@[pair.1 as int].mops.at_most(figures@[i].mops)
        } by {
            assert(summary::ranked(figures@, i));
        }
    }
}

/// A figure is taken from the samples where there are any, and otherwise from the
/// statistics that were kept.
pub proof fn figures_come_from_the_samples(
    result: BenchmarkResult,
    figures: Figures,
    mean: DoubleBits,
    median: DoubleBits,
    p95: DoubleBits,
    mad: DoubleBits,
)
    requires
        call_ensures(result_mean_throughput, (&result, &figures), mean),
        call_ensures(result_median_latency, (&result, &figures), median),
        call_ensures(result_p95_latency, (&result, &figures), p95),
        call_ensures(result_mad_latency, (&result, &figures), mad),
    ensures
        result.stats.sample_throughput_per_sec@.len() == 0 ==> mean == figures.mops,
        result.stats.sample_throughput_per_sec@.len() > 0 ==> mean == figures.sample_mean_mops,
        result.stats.sample_latency_ns_per_op@.len() == 0 ==> {
            &&& median == result.stats.median_ns_per_op
            &&& p95 == result.stats.p95_ns_per_op
            &&& mad == result.stats.mad_ns_per_op
        },
        result.stats.sample_latency_ns_per_op@.len() > 0 ==> {
            &&& median == figures.sample_median_latency
            &&& p95 == figures.sample_p95_latency
            &&& mad == figures.sample_mad_latency
        },
{
}

/// A gain of more than one percent.
pub open spec fn improved(change: DoubleBits) -> bool {
    0x3ff0_0000_0000_0000 < change.bits <= 0x7ff0_0000_0000_0000
}

/// A loss of more than one percent.
pub open spec fn regressed(change: DoubleBits) -> bool {
    0xbff0_0000_0000_0000 < change.bits <= 0xfff0_0000_0000_0000
}

proof fn tallies_are_filters(list: Seq<DoubleBits>)
    ensures
        summary::improvement_count(list) == list.filter(|c: DoubleBits| improved(c)).len(),
        summary::regression_count(list) == list.filter(|c: DoubleBits| regressed(c)).len(),
    decreases list.len(),
{
    reveal(Seq::filter);
    if list.len() > 0 {
        tallies_are_filters(list.drop_last());
    }
}

/// Improvements and regressions are the changes of more than one percent.
pub proof fn tallies_count_changes_above_one_percent(
    results: Vec<BenchmarkResult>,
    figures: Vec<Figures>,
    earlier: EarlierSession,
    changes: Changes,
    r: ChangeTally,
)
    requires
        call_ensures(tally_changes, (&results, &figures, &earlier, &changes), r),
    ensures
        r.improvements == r.changes@.filter(|c: DoubleBits| improved(c)).len(),
        r.regressions == r.changes@.filter(|c: DoubleBits| regressed(c)).len(),
        r.changes@.len() <= results@.len(),
{
    tallies_are_filters(r.changes@);
    known_changes_are_few(results@, figures@, &earlier, &changes, results@.len() as int);
}

proof fn known_changes_are_few(
    results: Seq<BenchmarkResult>,
    figures: Seq<Figures>,
    earlier: &EarlierSession,
    changes: &Changes,
    count: int,
)
    requires
        0 <= count <= results.len(),
    ensures
        summary::known_changes(results, figures, earlier, changes, count).len() <= count,
    decreases count,
{
    if count > 0 {
        known_changes_are_few(results, figures, earlier, changes, count - 1);
    }
}

/// Each statistic is compared in its own column: throughput is better the higher
/// it is, everything else the lower.
pub proof fn statistics_are_compared_in_their_columns(
    terminal: bool,
    result: BenchmarkResult,
    figures: Figures,
    previous: BenchmarkResult,
    before: Figures,
    changes: Changes,
    numbers: NumberTexts,
    now: (DoubleBits, DoubleBits, DoubleBits, DoubleBits),
    then_was: (DoubleBits, DoubleBits, DoubleBits, DoubleBits),
)
    requires
        call_ensures(result_mean_throughput, (&result, &figures), now.0),
        call_ensures(result_median_latency, (&result, &figures), now.1),
        call_ensures(result_p95_latency, (&result, &figures), now.2),
        call_ensures(result_mad_latency, (&result, &figures), now.3),
        call_ensures(result_mean_throughput, (&previous, &before), then_was.0),
        call_ensures(result_median_latency, (&previous, &before), then_was.1),
        call_ensures(result_p95_latency, (&previous, &before), then_was.2),
        call_ensures(result_mad_latency, (&previous, &before), then_was.3),
    ensures
        ({
            let row = summary::stat_row(
                terminal,
                result,
                figures,
                previous,
                before,
                &changes,
                &numbers,
            );
            &&& row.len() == 6
            &&& row[0] == table::colored_if(terminal, "36"@, result.name@)
            &&& shows_improvement(row[1], terminal, now.0, then_was.0, false, changes, numbers)
            &&& shows_improvement(row[2], terminal, now.1, then_was.1, true, changes, numbers)
            &&& shows_improvement(row[3], terminal, now.2, then_was.2, true, changes, numbers)
            &&& shows_improvement(row[4], terminal, now.3, then_was.3, true, changes, numbers)
            &&& shows_improvement(
                row[5],
                terminal,
                result.stats.cv_percent,
                previous.stats.cv_percent,
                true,
                changes,
                numbers,
            )
        }),
{
}

/// Whether a cell shows the improvement from one number to another.
pub open spec fn shows_improvement(
    cell: Seq<char>,
    terminal: bool,
    current: DoubleBits,
    previous: DoubleBits,
    lower_is_better: bool,
    changes: Changes,
    numbers: NumberTexts,
) -> bool {
    forall|change: Option<DoubleBits>, shown: String|
        #![trigger call_ensures(format_improvement, (terminal, change, &numbers), shown)]
        call_ensures(
            safe_improvement_percent,
            (current, previous, lower_is_better, &changes),
            change,
        ) && call_ensures(format_improvement, (terminal, change, &numbers), shown) ==> cell
            == shown@
}

/// A row of a summary shows the name, the rate, the median and the 95th
/// percentile of its own result.
pub proof fn summary_rows_show_their_result(
    result: BenchmarkResult,
    figures: Figures,
    changes: Changes,
    numbers: NumberTexts,
)
    ensures
        ({
            let row = summary::result_row(false, result, figures, None, &changes, &numbers);
            &&& row.len() == 5
            &&& row[0] == result.name@
            &&& row[1] == numbers.spec_text(figures.mops, NumberStyle::Fixed { places: 1 })
            &&& row[2] == numbers.spec_text(
                result.stats.median_ns_per_op,
                NumberStyle::Fixed { places: 2 },
            )
            &&& row[3] == numbers.spec_text(
                result.stats.p95_ns_per_op,
                NumberStyle::Fixed { places: 2 },
            )
            &&& row[4] == "-"@
        }),
{
}

} // verus!
