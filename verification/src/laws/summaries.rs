//! What the summary of a session says of its results.
use crate::bench::diagnosis::diagnose_stats;
use crate::bench::report;
use crate::bench::report::{pmu_byline, render_diagnostics, PmuTimes};
use crate::bench::results::{has_perf_counters, Results};
use crate::bench::stats::measurement_results_from_stats;
use crate::comparison::engine::Changes;
use crate::double::DoubleBits;
use crate::laws::rendering::{held_parts_stay_held, holds, middle_is_held};
use crate::laws::sessions::{leads, recorded_changes_are_found, related};
use crate::numbers::{NumberStyle, NumberTexts};
use crate::session;
use crate::session::summary;
use crate::session::summary::{tally_changes, ChangeTally, EarlierSession, Figures, SummaryInput};
use crate::session::{BenchmarkResult, BenchmarkStats};
use crate::text;
use vstd::prelude::*;

verus! {

/// Whether two results are of one case.
pub open spec fn namesakes(a: BenchmarkResult, b: BenchmarkResult) -> bool {
    a.name@ == b.name@ && a.kind == b.kind
}

/// Whether a percentage is the recorded gain of a result over its namesake in an
/// earlier session, from the earlier figure to the present one.
pub open spec fn gained(
    percent: DoubleBits,
    i: int,
    j: int,
    results: Seq<BenchmarkResult>,
    figures: Seq<Figures>,
    earlier: EarlierSession,
    changes: Changes,
) -> bool {
    &&& 0 <= i < results.len()
    &&& 0 <= j < earlier.report.results@.len()
    &&& namesakes(results[i], earlier.report.results@[j])
    &&& related(figures[i].mops, earlier.figures@[j].mops)
    &&& exists|m: int|
        0 <= m < changes.list@.len() && leads(
            #[trigger] changes.list@[m],
            figures[i].mops,
            earlier.figures@[j].mops,
        ) && changes.list@[m].gain_percent == percent
}

/// Whether a percentage is the gain of some result over its namesake.
pub open spec fn is_gain(
    percent: DoubleBits,
    results: Seq<BenchmarkResult>,
    figures: Seq<Figures>,
    earlier: EarlierSession,
    changes: Changes,
) -> bool {
    exists|i: int, j: int| #[trigger]
        gained(percent, i, j, results, figures, earlier, changes)
}

proof fn first_namesake(results: Seq<BenchmarkResult>, result: BenchmarkResult, from: int)
    requires
        from >= 0,
    ensures
        match summary::case_place(results, session::case_key(result), from) {
            Some(j) => from <= j < results.len() && namesakes(result, results[j]),
            None => forall|j: int|
                from <= j < results.len() ==> !namesakes(result, #[trigger] results[j]),
        },
    decreases results.len() - from,
{
    if from < results.len() {
        first_namesake(results, result, from + 1);
    }
}

proof fn known_changes_are_gains(
    results: Seq<BenchmarkResult>,
    figures: Seq<Figures>,
    earlier: EarlierSession,
    changes: Changes,
    count: int,
)
    requires
        0 <= count <= results.len(),
    ensures
        forall|k: int|
            #![trigger summary::known_changes(results, figures, &earlier, &changes, count)[k]]
            0 <= k < summary::known_changes(results, figures, &earlier, &changes, count).len()
                ==> is_gain(
                summary::known_changes(results, figures, &earlier, &changes, count)[k],
                results,
                figures,
                earlier,
                changes,
            ),
    decreases count,
{
    if count > 0 {
        known_changes_are_gains(results, figures, earlier, changes, count - 1);
        let i = count - 1;
        let before = summary::known_changes(results, figures, &earlier, &changes, i);
        let all = summary::known_changes(results, figures, &earlier, &changes, count);
        first_namesake(earlier.report.results@, results[i], 0);
        assert forall|k: int|
            #![trigger all[k]]
            0 <= k < all.len() implies is_gain(all[k], results, figures, earlier, changes) by {
            if k < before.len() {
                assert(all[k] == before[k]);
            } else {
                let j = summary::earlier_place(&earlier, results[i])->0;
                recorded_changes_are_found(
                    changes.list@,
                    figures[i].mops,
                    earlier.figures@[j].mops,
                );
                assert(gained(all[k], i, j, results, figures, earlier, changes));
            }
        }
    }
}

proof fn gains_are_known(
    results: Seq<BenchmarkResult>,
    figures: Seq<Figures>,
    earlier: EarlierSession,
    changes: Changes,
    count: int,
)
    requires
        0 <= count <= results.len(),
    ensures
        summary::known_changes(results, figures, &earlier, &changes, count).len()
            <= count,
        (forall|i: int|
            0 <= i < count ==> summary::change_of(
                #[trigger] results[i],
                figures[i],
                &earlier,
                &changes,
            ) is Some) ==> summary::known_changes(
            results,
            figures,
            &earlier,
            &changes,
            count,
        ).len() == count,
    decreases count,
{
    if count > 0 {
        gains_are_known(results, figures, earlier, changes, count - 1);
        assert(results[count - 1] == results[count - 1]);
    }
}

/// Whether a namesake is the first one of a result and the gain over it recorded.
pub open spec fn gain_is_recorded(
    i: int,
    j: int,
    results: Seq<BenchmarkResult>,
    figures: Seq<Figures>,
    earlier: EarlierSession,
    changes: Changes,
) -> bool {
    &&& 0 <= j < earlier.report.results@.len()
    &&& namesakes(results[i], earlier.report.results@[j])
    &&& forall|p: int|
        0 <= p < j ==> !namesakes(results[i], #[trigger] earlier.report.results@[p])
    &&& related(figures[i].mops, earlier.figures@[j].mops)
    &&& exists|m: int|
        0 <= m < changes.list@.len() && leads(
            #[trigger] changes.list@[m],
            figures[i].mops,
            earlier.figures@[j].mops,
        )
}

/// Whether the gain of a result over its first namesake is recorded.
pub open spec fn has_gain(
    i: int,
    results: Seq<BenchmarkResult>,
    figures: Seq<Figures>,
    earlier: EarlierSession,
    changes: Changes,
) -> bool {
    exists|j: int| #[trigger] gain_is_recorded(i, j, results, figures, earlier, changes)
}

proof fn recorded_gains_are_changes(
    i: int,
    j: int,
    results: Seq<BenchmarkResult>,
    figures: Seq<Figures>,
    earlier: EarlierSession,
    changes: Changes,
)
    requires
        gain_is_recorded(i, j, results, figures, earlier, changes),
    ensures
        summary::change_of(results[i], figures[i], &earlier, &changes) is Some,
{
    let list = earlier.report.results@;
    first_namesake(list, results[i], 0);
    let p = summary::earlier_place(&earlier, results[i])->0;
    assert(namesakes(results[i], list[j]));
    assert(summary::earlier_place(&earlier, results[i]) is Some);
    if j < p {
        no_earlier_namesake(list, results[i], 0, j);
    }
    assert(p == j);
    recorded_changes_are_found(changes.list@, figures[i].mops, earlier.figures@[j].mops);
}

proof fn no_earlier_namesake(
    results: Seq<BenchmarkResult>,
    result: BenchmarkResult,
    from: int,
    j: int,
)
    requires
        0 <= from <= j < results.len(),
        namesakes(result, results[j]),
    ensures
        summary::case_place(results, session::case_key(result), from) is Some,
        summary::case_place(results, session::case_key(result), from)->0 <= j,
    decreases j - from,
{
    if !namesakes(result, results[from]) {
        no_earlier_namesake(results, result, from + 1, j);
    }
}

/// Every change that is tallied is the recorded gain of a result over its namesake
/// in the earlier session, and where every result has one, every one is tallied.
pub proof fn gains_over_namesakes_are_tallied(
    results: Vec<BenchmarkResult>,
    figures: Vec<Figures>,
    earlier: EarlierSession,
    changes: Changes,
    r: ChangeTally,
)
    requires
        call_ensures(tally_changes, (&results, &figures, &earlier, &changes), r),
    ensures
        forall|k: int|
            0 <= k < r.changes@.len() ==> is_gain(
                #[trigger] r.changes@[k],
                results@,
                figures@,
                earlier,
                changes,
            ),
        (forall|i: int|
            0 <= i < results@.len() ==> #[trigger] has_gain(
                i,
                results@,
                figures@,
                earlier,
                changes,
            )) ==> r.changes@.len() == results@.len(),
{
    let n = results@.len() as int;
    known_changes_are_gains(results@, figures@, earlier, changes, n);
    gains_are_known(results@, figures@, earlier, changes, n);
    if forall|i: int|
        0 <= i < results@.len() ==> #[trigger] has_gain(i, results@, figures@, earlier, changes) {
        assert forall|i: int| 0 <= i < n implies summary::change_of(
            #[trigger] results@[i],
            figures@[i],
            &earlier,
            &changes,
        ) is Some by {
            assert(has_gain(i, results@, figures@, earlier, changes));
            let j = choose|j: int| #[trigger]
                gain_is_recorded(i, j, results@, figures@, earlier, changes);
            recorded_gains_are_changes(i, j, results@, figures@, earlier, changes);
        }
    }
}

/// The summary of a session without results is empty; another one gives the tally
/// of its changes, where it is compared with an earlier session.
pub proof fn summaries_give_the_tally(
    input: SummaryInput,
    tally: ChangeTally,
    r: String,
)
    requires
        call_ensures(SummaryInput::render, (&input,), r),
        input.earlier matches Some(earlier) ==> call_ensures(
            tally_changes,
            (input.results, input.figures, earlier, input.changes),
            tally,
        ),
    ensures
        input.results@.len() == 0 <==> r@.len() == 0,
        input.results@.len() > 0 && input.earlier is Some ==> holds(
            r@,
            "\n📊 REGRESSION ANALYSIS:\n   ✅ Improvements: "@ + text::decimal(
                tally.improvements as nat,
            ) + " benchmarks\n   ❌ Regressions: "@ + text::decimal(tally.regressions as nat)
                + " benchmarks\n   📈 Average change: "@,
        ),
{
    let extremes = choose|extremes: Option<(int, int)>| #[trigger]
        input.are_extremes(extremes) && r@ == input.summary_text(extremes);
    if input.results@.len() > 0 {
        let names = summary::groups_of(input.results@, input.results@.len() as int);
        let title =
            "\n🎯 BENCHMARK SESSION SUMMARY\n═══════════════════════════════════════════════════════════════════════\n"@;
        let end = "═══════════════════════════════════════════════════════════════════════\n"@;
        reveal_strlit(
            "═══════════════════════════════════════════════════════════════════════\n",
        );
        let front = title + input.earlier_text() + input.groups_text(names, names.len() as int)
            + "🔍 KEY INSIGHTS:\n"@ + input.insights_text(extremes);
        assert(r@ == front + input.regression_text() + end);
        assert(r@.len() >= end.len());
        if let Some(earlier) = input.earlier {
            let part = "\n📊 REGRESSION ANALYSIS:\n   ✅ Improvements: "@ + text::decimal(
                tally.improvements as nat,
            ) + " benchmarks\n   ❌ Regressions: "@ + text::decimal(tally.regressions as nat)
                + " benchmarks\n   📈 Average change: "@;
            let rest = if tally.changes@.len() > 0 {
                input.numbers.spec_text(input.average_change, NumberStyle::Fixed { places: 1 })
                    + "%\n"@
            } else {
                "n/a\n"@
            };
            assert(input.regression_text() == part + rest);
            middle_is_held(Seq::empty(), part, rest);
            assert(Seq::empty() + part + rest =~= part + rest);
            held_parts_stay_held(front, input.regression_text(), end, part);
        }
    }
}

/// The line on the counters is given exactly where there are counters, names what
/// they are of, and gives each time beside its name.
pub proof fn counter_times_stand_beside_their_names(
    terminal: bool,
    s: BenchmarkStats,
    times: PmuTimes,
    known: NumberTexts,
    counters: Results,
    any: bool,
    r: Option<String>,
)
    requires
        call_ensures(pmu_byline, (terminal, &s, times, &known), r),
        call_ensures(measurement_results_from_stats, (&s,), counters),
        call_ensures(has_perf_counters, (&counters,), any),
    ensures
        r is Some <==> any,
        r matches Some(line) ==> {
            &&& holds(
                line@,
                " avg_running="@ + known.spec_text(
                    times.average_running,
                    NumberStyle::Fixed { places: 3 },
                ) + "s avg_enabled="@ + known.spec_text(
                    times.average_enabled,
                    NumberStyle::Fixed { places: 3 },
                ) + "s total_running="@ + known.spec_text(
                    times.total_running,
                    NumberStyle::Fixed { places: 3 },
                ) + "s total_enabled="@ + known.spec_text(
                    times.total_enabled,
                    NumberStyle::Fixed { places: 3 },
                ) + "s"@,
            )
            &&& s.measurement_domain is Cpu ==> holds(line@, "PMU"@)
            &&& s.measurement_domain is Gpu || s.measurement_domain is Io ==> holds(
                line@,
                "host PMU (orchestration)"@,
            )
            &&& s.measurement_domain is Mixed ==> holds(line@, "host PMU (mixed workload)"@)
        },
{
    reveal(report::byline_text);
    if let Some(line) = r {
        let style = NumberStyle::Fixed { places: 3 };
        let label = report::pmu_label(s.measurement_domain);
        let coverage = ": coverage="@ + report::number_cell(
            terminal,
            &known,
            times.coverage_percent,
            1,
            "%"@,
        );
        let rest = " avg_running="@ + known.spec_text(times.average_running, style)
            + "s avg_enabled="@ + known.spec_text(times.average_enabled, style)
            + "s total_running="@ + known.spec_text(times.total_running, style)
            + "s total_enabled="@ + known.spec_text(times.total_enabled, style) + "s"@;
        assert(line@ =~= "  "@ + label + (coverage + rest));
        middle_is_held("  "@, label, coverage + rest);
        middle_is_held("  "@ + label + coverage, rest, Seq::empty());
        assert("  "@ + label + coverage + rest + Seq::empty() =~= line@);
    }
}

proof fn a_line_follows(front: Seq<char>, a: Seq<char>, b: Seq<char>, c: Seq<char>)
    ensures
        front + a + b + c == front + (a + b + c) + Seq::<char>::empty(),
        front + a + b + c == Seq::<char>::empty() + front + (a + b + c),
{
    assert(front + a + b + c =~= front + (a + b + c) + Seq::<char>::empty());
    assert(front + a + b + c =~= Seq::<char>::empty() + front + (a + b + c));
}

proof fn lines_hold_their_diagnoses(list: Seq<Seq<char>>, count: int, k: int)
    requires
        0 <= k < count <= list.len(),
    ensures
        holds(report::diagnosis_lines(false, list, count), "    - "@ + list[k] + "\n"@),
    decreases count,
{
    let front = report::diagnosis_lines(false, list, count - 1);
    let last = report::problem_form(false, list[count - 1]);
    assert(last == list[count - 1]);
    a_line_follows(front, "    - "@, last, "\n"@);
    if k == count - 1 {
        middle_is_held(front, "    - "@ + last + "\n"@, Seq::empty());
    } else {
        lines_hold_their_diagnoses(list, count - 1, k);
        held_parts_stay_held(
            Seq::empty(),
            front,
            "    - "@ + last + "\n"@,
            "    - "@ + list[k] + "\n"@,
        );
    }
}

/// What the counters suggest is listed, each suggestion on a line of its own, and
/// nothing is said where they suggest nothing.
pub proof fn suggestions_are_listed(
    s: BenchmarkStats,
    known: NumberTexts,
    list: Vec<String>,
    r: String,
)
    requires
        call_ensures(render_diagnostics, (false, &s, &known), r),
        call_ensures(diagnose_stats, (&s, &known), list),
    ensures
        list@.len() == 0 ==> r@.len() == 0,
        forall|k: int|
            0 <= k < list@.len() ==> holds(r@, "    - "@ + (#[trigger] list@[k])@ + "\n"@),
{
    reveal(report::diagnoses_text);
    let all = text::texts(list@);
    assert(all.len() == list@.len());
    assert forall|k: int| 0 <= k < list@.len() implies holds(
        r@,
        "    - "@ + (#[trigger] list@[k])@ + "\n"@,
    ) by {
        assert(all[k] == list@[k]@);
        lines_hold_their_diagnoses(all, all.len() as int, k);
        let lines = report::diagnosis_lines(false, all, all.len() as int);
        held_parts_stay_held(
            "  possible bottlenecks:\n"@,
            lines,
            Seq::empty(),
            "    - "@ + list@[k]@ + "\n"@,
        );
        assert("  possible bottlenecks:\n"@ + lines + Seq::empty() =~= r@);
    }
}

} // verus!
