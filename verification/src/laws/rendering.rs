//! What a reader is shown.
use crate::bench::backend::MetricFormat;
use crate::bench::report;
use crate::bench::report::{
    format_metric_value, format_small_rate, progress_bar, progress_rate, shows_progress,
    warns_about_counters,
};
use crate::bench::throughput::Throughput;
use crate::comparison::{
    ComparisonCaseIdentity, ComparisonReport, ComparisonSide, MatchedBenchmark, MeasurementKind,
    ReportDocumentType,
};
use crate::double::DoubleBits;
use crate::laws::texts::stands_at;
use crate::numbers;
use crate::numbers::{NumberStyle, NumberText, NumberTexts};
use crate::policy::{
    ChangeClassification, PolicyCaseEvaluation, PolicyEvaluation, PolicyFinding, RegressionPolicy,
};
use crate::render;
use crate::render::{
    classification_label, document_type_name, environment_description, escape_markdown,
    finding_description, format_percent, format_value, gate_description, inline_text,
    measurement_name, policy_case, policy_description, render_markdown, render_terminal,
    ComparisonAnalysis,
};
use crate::session::{BenchmarkStats, MetricSummary, WorkerCounterSummary};
use crate::suite::show::{suite_gate_description, suite_policy_description};
use crate::suite::SuiteComparisonAnalysis;
use crate::table;
use crate::text;
use vstd::prelude::*;

verus! {

/// Whether a number was recorded in a style.
pub open spec fn tells(entry: NumberText, value: DoubleBits, style: NumberStyle) -> bool {
    entry.value == value && entry.style == style
}

proof fn last_recorded_is_found(list: Seq<NumberText>, value: DoubleBits, style: NumberStyle)
    ensures
        (forall|j: int| 0 <= j < list.len() ==> !tells(#[trigger] list[j], value, style))
            ==> numbers::recorded(list, value, style) == "?"@,
        forall|i: int|
            #![trigger list[i]]
            0 <= i < list.len() && tells(list[i], value, style) && (forall|j: int|
                i < j < list.len() ==> !tells(#[trigger] list[j], value, style))
                ==> numbers::recorded(list, value, style) == list[i].text@,
    decreases list.len(),
{
    if list.len() > 0 {
        let front = list.drop_last();
        let last = list.len() - 1;
        last_recorded_is_found(front, value, style);
        if forall|j: int| 0 <= j < list.len() ==> !tells(#[trigger] list[j], value, style) {
            assert forall|j: int| 0 <= j < front.len() implies !tells(
                #[trigger] front[j],
                value,
                style,
            ) by {
                assert(front[j] == list[j]);
            }
            assert(!tells(list[last], value, style));
        }
        assert forall|i: int|
            #![trigger list[i]]
            0 <= i < list.len() && tells(list[i], value, style) && (forall|j: int|
                i < j < list.len() ==> !tells(#[trigger] list[j], value, style)) implies numbers::recorded(
            list,
            value,
            style,
        ) == list[i].text@ by {
            if i < last {
                assert(!tells(list[last], value, style));
                assert(front[i] == list[i]);
                assert forall|j: int| i < j < front.len() implies !tells(
                    #[trigger] front[j],
                    value,
                    style,
                ) by {
                    assert(front[j] == list[j]);
                }
            }
        }
    }
}

/// A number is written as it was recorded last in that style, and otherwise not
/// known.
pub proof fn numbers_are_written_as_recorded(
    known: NumberTexts,
    value: DoubleBits,
    style: NumberStyle,
    r: String,
    i: int,
)
    requires
        call_ensures(NumberTexts::text, (&known, value, style), r),
    ensures
        (forall|j: int|
            0 <= j < known.list@.len() ==> !tells(#[trigger] known.list@[j], value, style)) ==> r@
            == "?"@,
        0 <= i < known.list@.len() && tells(known.list@[i], value, style) && (forall|j: int|
            i < j < known.list@.len() ==> !tells(#[trigger] known.list@[j], value, style)) ==> r@
            == known.list@[i].text@,
{
    last_recorded_is_found(known.list@, value, style);
    if 0 <= i < known.list@.len() {
        assert(known.list@[i] == known.list@[i]);
    }
}

/// Escaping goes character by character.
pub proof fn escaping_goes_by_character(
    whole: &str,
    front: &str,
    back: &str,
    r: String,
    a: String,
    b: String,
)
    requires
        whole@ == front@ + back@,
        call_ensures(escape_markdown, (whole,), r),
        call_ensures(escape_markdown, (front,), a),
        call_ensures(escape_markdown, (back,), b),
    ensures
        r@ == a@ + b@,
{
    escapes_are_joined(front@, back@);
}

proof fn escapes_are_joined(a: Seq<char>, b: Seq<char>)
    ensures
        render::escaped(a + b) == render::escaped(a) + render::escaped(b),
    decreases b.len(),
{
    if b.len() == 0 {
        assert(a + b =~= a);
        assert(render::escaped(a) + render::escaped(b) =~= render::escaped(a));
    } else {
        escapes_are_joined(a, b.drop_last());
        assert((a + b).drop_last() =~= a + b.drop_last());
        assert((a + b).last() == b.last());
        assert(render::escaped(a + b) =~= render::escaped(a) + render::escaped(b));
    }
}

/// Characters that mean something in a table are written so that they do not;
/// others are written as they are.
pub proof fn special_characters_are_escaped(one: &str, r: String)
    requires
        one@.len() == 1,
        call_ensures(escape_markdown, (one,), r),
    ensures
        ({
            let c = one@[0];
            &&& c == '|' ==> r@ == "\\|"@
            &&& c == '`' ==> r@ == "\\`"@
            &&& c == '*' ==> r@ == "\\*"@
            &&& c == '_' ==> r@ == "\\_"@
            &&& c == '[' ==> r@ == "\\["@
            &&& c == ']' ==> r@ == "\\]"@
            &&& c == '\\' ==> r@ == "\\\\"@
            &&& c == '&' ==> r@ == "&amp;"@
            &&& c == '<' ==> r@ == "&lt;"@
            &&& c == '>' ==> r@ == "&gt;"@
            &&& c == '\n' || c == '\r' ==> r@ == " "@
            &&& c != '|' && c != '`' && c != '*' && c != '_' && c != '[' && c != ']' && c != '\\'
                && c != '&' && c != '<' && c != '>' && c != '\n' && c != '\r' ==> r@ == seq![c]
        }),
{
    assert(one@.drop_last() =~= Seq::<char>::empty());
    reveal_with_fuel(render::escaped, 2);
    assert(render::escaped(one@) =~= render::escaped_char(one@[0]));
}

/// A text is put on one line by writing spaces for control characters.
pub proof fn inline_texts_hold_no_controls(value: &str, r: String)
    requires
        call_ensures(inline_text, (value,), r),
    ensures
        r@.len() == value@.len(),
        forall|i: int|
            #![trigger r@[i]]
            0 <= i < r@.len() ==> r@[i] == (if (value@[i] as u32) < 0x20 || 0x7f <= (
            value@[i] as u32) < 0xa0 {
                ' '
            } else {
                value@[i]
            }),
{
}

/// Each class of change has its own label.
pub proof fn labels_name_their_class(class: ChangeClassification, r: &'static str)
    requires
        call_ensures(classification_label, (class,), r),
    ensures
        class is Improvement ==> r@ == "IMPROVEMENT"@,
        class is Regression ==> r@ == "REGRESSION"@,
        class is NoMaterialChange ==> r@ == "UNCHANGED"@,
        class is Informational ==> r@ == "INFORMATIONAL"@,
        class is Invalid ==> r@ == "INVALID"@,
        class is Inconclusive ==> r@ == "INCONCLUSIVE"@,
{
}

/// Each measurement and each type of document has its own name.
pub proof fn names_name_their_kind(
    measurement: MeasurementKind,
    m: &'static str,
    document: ReportDocumentType,
    d: &'static str,
)
    requires
        call_ensures(measurement_name, (measurement,), m),
        call_ensures(document_type_name, (document,), d),
    ensures
        measurement is Latency ==> m@ == "latency"@,
        measurement is Throughput ==> m@ == "throughput"@,
        measurement is Memory ==> m@ == "memory"@,
        measurement is Occupancy ==> m@ == "occupancy"@,
        measurement is Custom ==> m@ == "custom"@,
        document is NativeBenchmark ==> d@ == "native_benchmark"@,
        document is Series ==> d@ == "series"@,
{
}

/// Values are shown with their unit and percentages with their sign; what is not
/// known is shown as such.
pub proof fn values_are_shown_with_their_unit(
    value: Option<DoubleBits>,
    unit: &str,
    known: NumberTexts,
    v: String,
    p: String,
    line: String,
)
    requires
        call_ensures(format_value, (value, unit, &known), v),
        call_ensures(format_percent, (value, &known), p),
        call_ensures(inline_text, (unit,), line),
    ensures
        value is None ==> v@ == "n/a"@ && p@ == "n/a"@,
        value matches Some(x) ==> v@ == known.spec_text(x, NumberStyle::Fixed { places: 4 }) + " "@
            + line@ && p@ == known.spec_text(x, NumberStyle::Signed { places: 2 }) + "%"@,
{
}

/// The verdict is a failure where the comparison failed, and tells how many cases
/// block. A pass says whether it could have failed.
pub proof fn verdicts_tell_of_failure(evaluation: PolicyEvaluation, r: String)
    requires
        call_ensures(gate_description, (&evaluation,), r),
    ensures
        evaluation.gate_failed ==> r@ == "FAIL ("@ + text::decimal(
            evaluation.summary.blocking as nat,
        ) + " blocking regressions)"@,
        !evaluation.gate_failed && (evaluation.policy.fail_on_regression
            || evaluation.policy.fail_on_invalid) ==> r@ == "PASS (gating enabled)"@,
        !evaluation.gate_failed && !evaluation.policy.fail_on_regression
            && !evaluation.policy.fail_on_invalid ==> r@ == "PASS (advisory only)"@,
{
}

/// The verdict on suites is a failure where any case blocks.
pub proof fn suite_verdicts_tell_of_failure(analysis: SuiteComparisonAnalysis, r: String)
    requires
        call_ensures(suite_gate_description, (&analysis,), r),
    ensures
        analysis.summary.blocking > 0 ==> r@ == "FAIL ("@ + text::decimal(
            analysis.summary.blocking as nat,
        ) + " blocking regressions)"@,
        analysis.summary.blocking == 0 && analysis.policy.fail_on_regression ==> r@
            == "PASS (gating enabled)"@,
        analysis.summary.blocking == 0 && !analysis.policy.fail_on_regression ==> r@
            == "PASS (advisory only)"@,
{
}

/// What a limit is shown as.
pub open spec fn limit_shown(limit: Option<DoubleBits>, style: NumberStyle, known: NumberTexts) -> Seq<char> {
    match limit {
        Some(limit) => known.spec_text(limit, style) + "%"@,
        None => "disabled"@,
    }
}

/// What of a policy is shown behind its mode: its three thresholds.
pub open spec fn thresholds_shown(policy: RegressionPolicy, known: NumberTexts) -> Seq<char> {
    "; material change > "@ + known.spec_text(
        policy.minimum_change_percent,
        NumberStyle::Fixed { places: 2 },
    ) + "%; max CV "@ + limit_shown(
        policy.maximum_cv_percent,
        NumberStyle::Fixed { places: 2 },
        known,
    ) + "; max outliers "@ + limit_shown(
        policy.maximum_outlier_fraction,
        NumberStyle::Hundredfold,
        known,
    )
}

/// A policy is described by what it fails on and by its thresholds.
pub proof fn policies_are_described_by_their_mode(
    evaluation: PolicyEvaluation,
    known: NumberTexts,
    r: String,
)
    requires
        call_ensures(policy_description, (&evaluation, &known), r),
    ensures
        ({
            let policy = evaluation.policy;
            let mode = if policy.fail_on_regression {
                if policy.fail_on_invalid {
                    "regression and invalid-result gating"@
                } else {
                    "regression gating"@
                }
            } else if policy.fail_on_invalid {
                "invalid-result gating"@
            } else {
                "advisory"@
            };
            r@ == mode + thresholds_shown(policy, known)
        }),
{
    let policy = evaluation.policy;
    let mode = render::mode_text(policy);
    assert(render::thresholds_text(mode, policy, &known) =~= mode + thresholds_shown(
        policy,
        known,
    ));
}

/// The policy of suites is described in the same way.
pub proof fn suite_policies_are_described_by_their_mode(
    policy: RegressionPolicy,
    known: NumberTexts,
    r: String,
)
    requires
        call_ensures(suite_policy_description, (&policy, &known), r),
    ensures
        policy.fail_on_regression ==> r@ == "gating"@ + thresholds_shown(policy, known),
        !policy.fail_on_regression ==> r@ == "advisory"@ + thresholds_shown(policy, known),
{
    assert(render::thresholds_text("gating"@, policy, &known) =~= "gating"@ + thresholds_shown(
        policy,
        known,
    ));
    assert(render::thresholds_text("advisory"@, policy, &known) =~= "advisory"@ + thresholds_shown(
        policy,
        known,
    ));
}

/// Where environments agree one runner is named; where they do not both are, the
/// current one first, with the reason why they were compared.
pub proof fn environments_are_described_by_their_runners(comparison: ComparisonReport, r: String)
    requires
        call_ensures(environment_description, (&comparison,), r),
    ensures
        comparison.environment.exact_match ==> r@ == "exact match on runner "@
            + comparison.environment.current_runner_id@,
        !comparison.environment.exact_match && comparison.environment.operator_override is Some
            ==> r@ == "operator override "@ + text::debug_form(
            comparison.environment.operator_override->0.reason@,
        ) + ": "@ + comparison.environment.current_runner_id@ + " vs "@
            + comparison.environment.baseline_runner_id@,
        !comparison.environment.exact_match && comparison.environment.operator_override is None
            ==> r@ == "mismatch: "@ + comparison.environment.current_runner_id@ + " vs "@
            + comparison.environment.baseline_runner_id@,
{
}

/// The name of a side.
pub open spec fn side_shown(side: ComparisonSide) -> Seq<char> {
    match side {
        ComparisonSide::Current => "current"@,
        ComparisonSide::Baseline => "baseline"@,
    }
}

/// A finding names its side, what was found, and then what is allowed.
pub proof fn findings_name_their_side(finding: PolicyFinding, known: NumberTexts, r: String)
    requires
        call_ensures(finding_description, (&finding, &known), r),
    ensures
        finding matches PolicyFinding::InvalidResult { side, reason } ==> r@ == side_shown(side)
            + " result invalid: "@ + reason@,
        finding matches PolicyFinding::HighCoefficientOfVariation {
            side,
            actual_percent,
            maximum_percent,
        } ==> r@ == side_shown(side) + " CV "@ + known.spec_text(
            actual_percent,
            NumberStyle::Fixed { places: 2 },
        ) + "% exceeds "@ + known.spec_text(maximum_percent, NumberStyle::Fixed { places: 2 })
            + "%"@,
        finding matches PolicyFinding::ExcessiveOutlierFraction { side, actual, maximum } ==> r@
            == side_shown(side) + " outliers "@ + known.spec_text(actual, NumberStyle::Hundredfold)
            + "% exceed "@ + known.spec_text(maximum, NumberStyle::Hundredfold) + "%"@,
{
}

proof fn first_place_is_found(
    cases: Seq<PolicyCaseEvaluation>,
    key: crate::comparison::CaseKey,
    from: int,
)
    requires
        0 <= from,
    ensures
        match render::case_place(cases, key, from) {
            Some(i) => from <= i < cases.len() && cases[i].identity.key() == key && forall|j: int|
                from <= j < i ==> (#[trigger] cases[j]).identity.key() != key,
            None => forall|j: int|
                from <= j < cases.len() ==> (#[trigger] cases[j]).identity.key() != key,
        },
    decreases cases.len() - from,
{
    if from < cases.len() && cases[from].identity.key() != key {
        first_place_is_found(cases, key, from + 1);
    }
}

/// The evaluation of a case is found by its identity.
pub proof fn evaluations_are_found_by_identity(
    evaluation: PolicyEvaluation,
    identity: ComparisonCaseIdentity,
    r: Option<&PolicyCaseEvaluation>,
)
    requires
        call_ensures(policy_case, (&evaluation, &identity), r),
    ensures
        r matches Some(case) ==> case.identity.key() == identity.key() && evaluation.cases@.contains(
            *case,
        ),
        r is None ==> forall|j: int|
            0 <= j < evaluation.cases@.len() ==> (#[trigger] evaluation.cases@[j]).identity.key()
                != identity.key(),
{
    first_place_is_found(evaluation.cases@, identity.key(), 0);
}

/// Whether a text stands somewhere in another.
pub open spec fn holds(whole: Seq<char>, part: Seq<char>) -> bool {
    exists|at: int| stands_at(whole, part, at)
}

/// A text holds what stands between its ends.
pub proof fn middle_is_held(front: Seq<char>, part: Seq<char>, back: Seq<char>)
    ensures
        holds(front + part + back, part),
{
    assert(stands_at(front + part + back, part, front.len() as int));
}

/// What a part holds, the whole holds.
pub proof fn held_parts_stay_held(front: Seq<char>, middle: Seq<char>, back: Seq<char>, part: Seq<char>)
    requires
        holds(middle, part),
    ensures
        holds(front + middle + back, part),
{
    let at = choose|at: int| stands_at(middle, part, at);
    let whole = front + middle + back;
    assert forall|i: int| 0 <= i < part.len() implies #[trigger] part[i] == whole[front.len() + at
        + i] by {
        assert(middle[at + i] == part[i]);
    }
    assert(stands_at(whole, part, front.len() + at));
}

/// What a count of changes is shown as.
pub open spec fn changes_shown(evaluation: PolicyEvaluation) -> Seq<char> {
    text::decimal(evaluation.summary.improvements as nat) + " improvements, "@ + text::decimal(
        evaluation.summary.regressions as nat,
    ) + " regressions, "@ + text::decimal(evaluation.summary.no_material_change as nat)
        + " unchanged, "@ + text::decimal(evaluation.summary.informational as nat)
        + " informational, "@ + text::decimal(evaluation.summary.invalid as nat) + " invalid, "@
        + text::decimal(evaluation.summary.inconclusive as nat) + " inconclusive, "@
        + text::decimal(evaluation.summary.unstable as nat) + " unstable"@
}

/// What a count of cases is shown as.
pub open spec fn cases_shown(comparison: ComparisonReport) -> Seq<char> {
    text::decimal(comparison.summary.matched as nat) + " matched, "@ + text::decimal(
        comparison.summary.added as nat,
    ) + " added, "@ + text::decimal(comparison.summary.removed as nat) + " removed"@
}

/// A terminal shows the verdict, the policy, the counts of cases and of changes.
pub proof fn terminals_show_the_verdict(
    analysis: ComparisonAnalysis,
    known: NumberTexts,
    r: String,
    verdict: String,
    policy: String,
)
    requires
        call_ensures(render_terminal, (&analysis, &known), r),
        call_ensures(gate_description, (&analysis.policy,), verdict),
        call_ensures(policy_description, (&analysis.policy, &known), policy),
    ensures
        holds(r@, "gate: "@ + verdict@ + "\n"@),
        holds(r@, "policy: "@ + policy@ + "\n"@),
        holds(r@, cases_shown(analysis.comparison)),
        holds(r@, changes_shown(analysis.policy)),
{
    let comparison = analysis.comparison;
    let evaluation = analysis.policy;
    let counts = render::count_lines(comparison, evaluation);
    let gate = "gate: "@ + verdict@ + "\n"@;
    let rules = "policy: "@ + policy@ + "\n"@;
    let (front, _middle, back) = terminal_parts(analysis, &known, policy@, verdict@);
    middle_is_held(front, rules, counts + gate + back);
    assert(r@ =~= front + rules + (counts + gate + back));
    middle_is_held(front + rules + counts, gate, back);
    assert(r@ =~= (front + rules + counts) + gate + back);
    count_lines_hold_their_counts(comparison, evaluation);
    held_parts_stay_held(front + rules, counts, gate + back, cases_shown(comparison));
    held_parts_stay_held(front + rules, counts, gate + back, changes_shown(evaluation));
    assert(r@ =~= (front + rules) + counts + (gate + back));
}

proof fn terminal_parts(
    analysis: ComparisonAnalysis,
    known: &NumberTexts,
    policy: Seq<char>,
    verdict: Seq<char>,
) -> (parts: (Seq<char>, Seq<char>, Seq<char>))
    requires
        policy == render::policy_text(analysis.policy.policy, known),
        verdict == render::gate_text(analysis.policy),
    ensures
        parts.1 == render::count_lines(analysis.comparison, analysis.policy),
        render::terminal_text(analysis, known) == parts.0 + ("policy: "@ + policy + "\n"@) + parts.1
            + ("gate: "@ + verdict + "\n"@) + parts.2,
        parts.2 == render::cases_section(analysis.comparison.matched@, analysis.policy, known)
            + render::unmatched_section("added"@, analysis.comparison.added@)
            + render::unmatched_section("removed"@, analysis.comparison.removed@),
{
    let front = render::subject_lines(analysis.comparison);
    let middle = render::count_lines(analysis.comparison, analysis.policy);
    let a = render::cases_section(analysis.comparison.matched@, analysis.policy, known);
    let b = render::unmatched_section("added"@, analysis.comparison.added@);
    let c = render::unmatched_section("removed"@, analysis.comparison.removed@);
    ten_texts_join(front, "policy: "@, policy, "\n"@, middle, "gate: "@, verdict, a, b, c);
    (front, middle, a + b + c)
}

proof fn ten_texts_join(
    a: Seq<char>,
    b: Seq<char>,
    c: Seq<char>,
    line: Seq<char>,
    d: Seq<char>,
    e: Seq<char>,
    f: Seq<char>,
    g: Seq<char>,
    h: Seq<char>,
    i: Seq<char>,
)
    ensures
        a + b + c + line + d + e + f + line + g + h + i == a + (b + c + line) + d + (e + f + line) + (
        g + h + i),
{
    assert(a + b + c + line + d + e + f + line + g + h + i =~= a + (b + c + line) + d + (e + f
        + line) + (g + h + i));
}

proof fn seven_texts_join(
    head: Seq<char>,
    n: Seq<char>,
    a: Seq<char>,
    b: Seq<char>,
    m: Seq<char>,
    c: Seq<char>,
    d: Seq<char>,
)
    ensures
        head + n + a + m + b + c + d == head + (n + a + m + b + c + d),
{
    assert(head + n + a + m + b + c + d =~= head + (n + a + m + b + c + d));
}

proof fn fourteen_texts_join(head: Seq<char>, t: Seq<Seq<char>>)
    requires
        t.len() == 14,
    ensures
        head + t[0] + t[1] + t[2] + t[3] + t[4] + t[5] + t[6] + t[7] + t[8] + t[9] + t[10] + t[11]
            + t[12] + t[13] == head + (t[0] + t[1] + t[2] + t[3] + t[4] + t[5] + t[6] + t[7] + t[8]
            + t[9] + t[10] + t[11] + t[12] + t[13]),
{
    let first = t[0] + t[1] + t[2] + t[3] + t[4] + t[5] + t[6];
    assert(head + t[0] + t[1] + t[2] + t[3] + t[4] + t[5] + t[6] =~= head + first);
    assert(head + first + t[7] + t[8] + t[9] + t[10] + t[11] + t[12] + t[13] =~= head + (first
        + t[7] + t[8] + t[9] + t[10] + t[11] + t[12] + t[13]));
}

proof fn count_lines_hold_their_counts(comparison: ComparisonReport, evaluation: PolicyEvaluation)
    ensures
        holds(render::count_lines(comparison, evaluation), cases_shown(comparison)),
        holds(render::count_lines(comparison, evaluation), changes_shown(evaluation)),
{
    let counts = render::count_lines(comparison, evaluation);
    let shown = cases_shown(comparison);
    let moved = changes_shown(evaluation);
    let head = "results: "@;
    let between = "\nclassification: "@;
    let e = evaluation.summary;
    let t = seq![
        text::decimal(e.improvements as nat),
        " improvements, "@,
        text::decimal(e.regressions as nat),
        " regressions, "@,
        text::decimal(e.no_material_change as nat),
        " unchanged, "@,
        text::decimal(e.informational as nat),
        " informational, "@,
        text::decimal(e.invalid as nat),
        " invalid, "@,
        text::decimal(e.inconclusive as nat),
        " inconclusive, "@,
        text::decimal(e.unstable as nat),
        " unstable"@,
    ];
    assert(" removed\nclassification: "@ =~= " removed"@ + between) by {
        reveal_strlit(" removed\nclassification: ");
        reveal_strlit(" removed");
        reveal_strlit("\nclassification: ");
    }
    assert(" unstable\n"@ =~= " unstable"@ + "\n"@) by {
        reveal_strlit(" unstable\n");
        reveal_strlit(" unstable");
        reveal_strlit("\n");
    }
    let n = text::decimal(comparison.summary.matched as nat);
    let m = text::decimal(comparison.summary.added as nat);
    let c = text::decimal(comparison.summary.removed as nat);
    let front = head + n + " matched, "@ + m + " added, "@ + c;
    seven_texts_join(head, n, " matched, "@, " added, "@, m, c, " removed"@);
    assert(front + " removed\nclassification: "@ =~= front + " removed"@ + between);
    let opened = head + shown + between;
    assert(front + " removed\nclassification: "@ == opened);
    fourteen_texts_join(opened, t);
    let all = opened + t[0] + t[1] + t[2] + t[3] + t[4] + t[5] + t[6] + t[7] + t[8] + t[9] + t[10]
        + t[11] + t[12];
    assert(all + " unstable\n"@ =~= all + " unstable"@ + "\n"@);
    assert(all + t[13] == opened + moved);
    assert(counts == all + " unstable\n"@) by {
        reveal(render::count_lines);
    }
    assert(counts == opened + moved + "\n"@);
    middle_is_held(opened, moved, "\n"@);
    assert(counts =~= head + shown + (between + moved + "\n"@));
    middle_is_held(head, shown, between + moved + "\n"@);
}

/// A page shows the verdict, the policy and every count.
pub proof fn pages_show_the_verdict(
    analysis: ComparisonAnalysis,
    known: NumberTexts,
    r: String,
    verdict: String,
    shown: String,
)
    requires
        call_ensures(render_markdown, (&analysis, &known), r),
        call_ensures(gate_description, (&analysis.policy,), verdict),
        shown@ == render::escaped(verdict@),
    ensures
        holds(r@, "- Gate: **"@ + shown@ + "**\n"@),
        holds(
            r@,
            "| Regressions | "@ + text::decimal(analysis.policy.summary.regressions as nat)
                + " |\n"@,
        ),
        holds(
            r@,
            "| Improvements | "@ + text::decimal(analysis.policy.summary.improvements as nat)
                + " |\n"@,
        ),
        holds(
            r@,
            "| Matched | "@ + text::decimal(analysis.comparison.summary.matched as nat) + " |\n"@,
        ),
{
    let comparison = analysis.comparison;
    let evaluation = analysis.policy;
    let items = render::summary_items(analysis, &known);
    let counts = render::counts_table(comparison, evaluation);
    let rest = render::cases_table(comparison.matched@, evaluation, &known)
        + render::unmatched_block("Added cases"@, comparison.added@) + render::unmatched_block(
        "Removed cases"@,
        comparison.removed@,
    );
    assert(r@ =~= items + counts + rest);
    let gate = "- Gate: **"@ + shown@ + "**\n"@;
    let before = "## Benchmark comparison: "@ + render::escaped(comparison.suite@)
        + "\n\n- Current: `"@ + render::document_type_text(comparison.current.document_type)
        + "` `"@ + comparison.current.content_digest@ + "`\n- Baseline: `"@
        + render::document_type_text(comparison.baseline.document_type) + "` `"@
        + comparison.baseline.content_digest@ + "`\n- Environment: "@ + render::escaped(
        render::environment_text(comparison),
    ) + "\n- Policy: "@ + render::escaped(render::policy_text(analysis.policy.policy, &known));
    reveal(render::summary_items);
    reveal_strlit("\n- Gate: **");
    reveal_strlit("- Gate: **");
    reveal_strlit("**\n\n");
    reveal_strlit("**\n");
    reveal_strlit("\n");
    assert("\n- Gate: **"@ =~= "\n"@ + "- Gate: **"@);
    assert("**\n\n"@ =~= "**\n"@ + "\n"@);
    assert(items =~= (before + "\n"@) + gate + "\n"@);
    middle_is_held(before + "\n"@, gate, "\n"@);
    held_parts_stay_held(Seq::empty(), items, counts + rest, gate);
    assert(r@ =~= Seq::empty() + items + (counts + rest));
    counts_are_held(comparison, evaluation);
    held_parts_stay_held(items, counts, rest, count_shown("| Regressions | "@, evaluation.summary.regressions));
    held_parts_stay_held(items, counts, rest, count_shown("| Improvements | "@, evaluation.summary.improvements));
    held_parts_stay_held(items, counts, rest, count_shown("| Matched | "@, comparison.summary.matched));
}

/// A row with a count.
pub open spec fn count_shown(head: Seq<char>, count: usize) -> Seq<char> {
    head + text::decimal(count as nat) + " |\n"@
}

proof fn counts_are_held(comparison: ComparisonReport, evaluation: PolicyEvaluation)
    ensures
        ({
            let counts = render::counts_table(comparison, evaluation);
            &&& holds(counts, count_shown("| Regressions | "@, evaluation.summary.regressions))
            &&& holds(counts, count_shown("| Improvements | "@, evaluation.summary.improvements))
            &&& holds(counts, count_shown("| Matched | "@, comparison.summary.matched))
        }),
{
    reveal(render::counts_table);
    let counts = render::counts_table(comparison, evaluation);
    let head = "| Outcome | Count |\n|---|---:|\n"@;
    let matched = render::count_row("Matched"@, comparison.summary.matched as nat);
    let added = render::count_row("Added"@, comparison.summary.added as nat);
    let removed = render::count_row("Removed"@, comparison.summary.removed as nat);
    let improved = render::count_row("Improvements"@, evaluation.summary.improvements as nat);
    let regressed = render::count_row("Regressions"@, evaluation.summary.regressions as nat);
    let rest = render::count_row(
        "No material change"@,
        evaluation.summary.no_material_change as nat,
    ) + render::count_row("Informational"@, evaluation.summary.informational as nat)
        + render::count_row("Invalid"@, evaluation.summary.invalid as nat) + render::count_row(
        "Inconclusive"@,
        evaluation.summary.inconclusive as nat,
    ) + render::count_row("Unstable"@, evaluation.summary.unstable as nat);
    reveal_strlit("| ");
    reveal_strlit(" | ");
    reveal_strlit("Matched");
    reveal_strlit("| Matched | ");
    reveal_strlit("Improvements");
    reveal_strlit("| Improvements | ");
    reveal_strlit("Regressions");
    reveal_strlit("| Regressions | ");
    assert("| "@ + "Matched"@ + " | "@ =~= "| Matched | "@);
    assert("| "@ + "Improvements"@ + " | "@ =~= "| Improvements | "@);
    assert("| "@ + "Regressions"@ + " | "@ =~= "| Regressions | "@);
    assert(matched == count_shown("| Matched | "@, comparison.summary.matched));
    assert(improved == count_shown("| Improvements | "@, evaluation.summary.improvements));
    assert(regressed == count_shown("| Regressions | "@, evaluation.summary.regressions));
    assert(counts =~= head + matched + (added + removed + improved + regressed + rest));
    middle_is_held(head, matched, added + removed + improved + regressed + rest);
    assert(counts =~= (head + matched + added + removed) + improved + (regressed + rest));
    middle_is_held(head + matched + added + removed, improved, regressed + rest);
    assert(counts =~= (head + matched + added + removed + improved) + regressed + rest);
    middle_is_held(head + matched + added + removed + improved, regressed, rest);
}

proof fn all_case_lines_are_held(
    matched: Seq<MatchedBenchmark>,
    evaluation: PolicyEvaluation,
    known: &NumberTexts,
    count: int,
    k: int,
    part: Seq<char>,
)
    requires
        0 <= k < count <= matched.len(),
        holds(render::case_lines(matched[k], evaluation, known), part),
    ensures
        holds(render::all_case_lines(matched, evaluation, count, known), part),
    decreases count,
{
    let front = render::all_case_lines(matched, evaluation, count - 1, known);
    let last = render::case_lines(matched[count - 1], evaluation, known);
    if k == count - 1 {
        held_parts_stay_held(front, last, Seq::empty(), part);
        assert(front + last + Seq::empty() =~= front + last);
    } else {
        all_case_lines_are_held(matched, evaluation, known, count - 1, k, part);
        held_parts_stay_held(Seq::empty(), front, last, part);
        assert(Seq::empty() + front + last =~= front + last);
    }
}

/// What is shown of a case that both reports have: its baseline, then its current
/// value, then its improvement.
pub open spec fn change_shown(m: MatchedBenchmark, known: NumberTexts) -> Seq<char> {
    render::value_text(m.baseline.primary.value, m.baseline.primary.unit@, &known) + " -> "@
        + render::value_text(m.current.primary.value, m.current.primary.unit@, &known) + " ("@
        + render::percent_text(m.percent_improvement, &known) + ")\n"@
}

proof fn case_line_holds_its_change(
    m: MatchedBenchmark,
    class: ChangeClassification,
    known: NumberTexts,
)
    ensures
        holds(render::case_line(m, class, &known), change_shown(m, known)),
{
    reveal(render::case_line);
    let front = "  "@ + text::left_aligned(render::label_text(class), 18) + " "@ + render::inline(
        m.identity.group_text(),
    ) + "/"@ + render::inline(m.identity.name_text()) + " ["@ + render::measurement_text(
        m.current.primary.measurement,
    ) + " "@ + render::inline(m.current.primary.unit@) + "]: "@;
    let a = render::value_text(m.baseline.primary.value, m.baseline.primary.unit@, &known);
    let b = render::value_text(m.current.primary.value, m.current.primary.unit@, &known);
    let c = render::percent_text(m.percent_improvement, &known);
    six_texts_join(front, a, " -> "@, b, " ("@, c, ")\n"@);
    middle_is_held(front, change_shown(m, known), Seq::empty());
    assert(front + change_shown(m, known) + Seq::empty() =~= front + change_shown(m, known));
}

proof fn six_texts_join(
    front: Seq<char>,
    a: Seq<char>,
    b: Seq<char>,
    c: Seq<char>,
    d: Seq<char>,
    e: Seq<char>,
    f: Seq<char>,
)
    ensures
        front + a + b + c + d + e + f == front + (a + b + c + d + e + f),
{
    assert(front + a + b + c + d + e + f =~= front + (a + b + c + d + e + f));
}

/// A terminal shows of every matched case how it changed, from its baseline to
/// its current value.
pub proof fn terminals_show_every_change(
    analysis: ComparisonAnalysis,
    known: NumberTexts,
    r: String,
    k: int,
)
    requires
        call_ensures(render_terminal, (&analysis, &known), r),
        0 <= k < analysis.comparison.matched@.len(),
    ensures
        holds(r@, change_shown(analysis.comparison.matched@[k], known)),
{
    let matched = analysis.comparison.matched@;
    let evaluation = analysis.policy;
    let m = matched[k];
    let part = change_shown(m, known);
    let case = render::case_evaluation(evaluation, m.identity.key());
    let line = render::case_line(m, render::shown_class(case), &known);
    case_line_holds_its_change(m, render::shown_class(case), known);
    let rest = match case {
        Some(case) => render::finding_lines(case.findings@, case.findings@.len() as int, &known),
        None => Seq::empty(),
    };
    held_parts_stay_held(Seq::empty(), line, rest, part);
    assert(Seq::empty() + line + rest =~= render::case_lines(m, evaluation, &known));
    all_case_lines_are_held(matched, evaluation, &known, matched.len() as int, k, part);
    let lines = render::all_case_lines(matched, evaluation, matched.len() as int, &known);
    held_parts_stay_held("\ncases:\n"@, lines, Seq::empty(), part);
    let section = render::cases_section(matched, evaluation, &known);
    assert("\ncases:\n"@ + lines + Seq::empty() =~= section);
    let (front, middle, back) = terminal_parts(
        analysis,
        &known,
        render::policy_text(evaluation.policy, &known),
        render::gate_text(evaluation),
    );
    let head = front + ("policy: "@ + render::policy_text(evaluation.policy, &known) + "\n"@)
        + middle + ("gate: "@ + render::gate_text(evaluation) + "\n"@);
    let added = render::unmatched_section("added"@, analysis.comparison.added@);
    let removed = render::unmatched_section("removed"@, analysis.comparison.removed@);
    held_parts_stay_held(head, section, added + removed, part);
    assert(head + section + (added + removed) =~= head + (section + added + removed));
}

/// A metric is written as a whole number where it asks for that, and otherwise
/// with three places, or in powers of ten where it is below a thousandth or from
/// a thousand on.
pub proof fn metrics_are_written_by_their_size(
    value: DoubleBits,
    format: MetricFormat,
    known: NumberTexts,
    r: String,
)
    requires
        call_ensures(format_metric_value, (value, format, &known), r),
    ensures
        ({
            let size = if value.bits >= 0x8000_0000_0000_0000 {
                value.bits - 0x8000_0000_0000_0000
            } else {
                value.bits as int
            };
            &&& size >= 0x7ff0_0000_0000_0000 ==> r@ == "n/a"@
            &&& size < 0x7ff0_0000_0000_0000 && format is Integer ==> r@ == known.spec_text(
                value,
                NumberStyle::Whole,
            )
            &&& format is Number && size == 0 ==> r@ == "0"@
            &&& format is Number && 0x3f50_624d_d2f1_a9fc <= size < 0x408f_4000_0000_0000 ==> r@
                == known.spec_text(value, NumberStyle::Fixed { places: 3 })
            &&& format is Number && (0 < size < 0x3f50_624d_d2f1_a9fc || 0x408f_4000_0000_0000
                <= size < 0x7ff0_0000_0000_0000) ==> r@ == known.spec_text(
                value,
                NumberStyle::Scientific,
            )
        }),
{
}

/// A small rate is written with four places from a thousandth on, and below that
/// in powers of ten.
pub proof fn small_rates_are_written_by_their_size(value: DoubleBits, known: NumberTexts, r: String)
    requires
        call_ensures(format_small_rate, (value, &known), r),
    ensures
        ({
            let size = if value.bits >= 0x8000_0000_0000_0000 {
                value.bits - 0x8000_0000_0000_0000
            } else {
                value.bits as int
            };
            &&& size >= 0x7ff0_0000_0000_0000 ==> r@ == "n/a"@
            &&& size == 0 ==> r@ == "0"@
            &&& 0 < size < 0x3f50_624d_d2f1_a9fc ==> r@ == known.spec_text(
                value,
                NumberStyle::Scientific,
            )
            &&& 0x3f50_624d_d2f1_a9fc <= size < 0x7ff0_0000_0000_0000 ==> r@ == known.spec_text(
                value,
                NumberStyle::Fixed { places: 4 },
            )
        }),
{
}

/// Whether a table shows a number beside a label.
pub open spec fn shown_beside(
    rows: report::Rows,
    terminal: bool,
    label: Seq<char>,
    shown: Seq<char>,
) -> bool {
    exists|k: int|
        0 <= k < rows.len() && #[trigger] rows[k].len() == 4 && ((rows[k][0] == report::label_form(
            terminal,
            label,
        ) && rows[k][1] == report::value_form(terminal, shown)) || (rows[k][2]
            == report::label_form(terminal, label) && rows[k][3] == report::value_form(
            terminal,
            shown,
        )))
}

/// A number with a fixed count of places, and what stands behind it.
pub open spec fn fixed(known: NumberTexts, value: DoubleBits, places: u8, unit: Seq<char>) -> Seq<char> {
    known.spec_text(value, NumberStyle::Fixed { places }) + unit
}

/// The table of a benchmark shows each figure beside its own label.
pub proof fn figures_stand_beside_their_labels(
    terminal: bool,
    s: BenchmarkStats,
    label: Seq<char>,
    known: NumberTexts,
)
    ensures
        ({
            let rows = report::full_rows(terminal, s, label, &known);
            &&& shown_beside(
                rows,
                terminal,
                "Throughput"@,
                s.throughput.rate_form(s.throughput_per_sec, &known),
            )
            &&& shown_beside(
                rows,
                terminal,
                "Median Throughput"@,
                s.throughput.rate_form(s.median_throughput_per_sec, &known),
            )
            &&& shown_beside(
                rows,
                terminal,
                "Mean Latency"@,
                fixed(known, s.ns_per_op, 2, " ns/op"@),
            )
            &&& shown_beside(
                rows,
                terminal,
                "Median Latency"@,
                fixed(known, s.median_ns_per_op, 2, " ns/op"@),
            )
            &&& shown_beside(
                rows,
                terminal,
                "P95 Latency"@,
                fixed(known, s.p95_ns_per_op, 2, " ns/op"@),
            )
            &&& shown_beside(
                rows,
                terminal,
                "MAD Latency"@,
                fixed(known, s.mad_ns_per_op, 2, " ns/op"@),
            )
            &&& shown_beside(rows, terminal, "Samples"@, text::decimal(s.samples as nat))
            &&& shown_beside(rows, terminal, "Outliers"@, text::decimal(s.outlier_count as nat))
            &&& shown_beside(rows, terminal, "Operations"@, text::decimal(s.operations as nat))
            &&& shown_beside(
                rows,
                terminal,
                "Total Duration"@,
                fixed(known, s.total_duration_sec, 3, "s"@),
            )
            &&& shown_beside(
                rows,
                terminal,
                "Coefficient Var."@,
                fixed(known, s.cv_percent, 2, "%"@),
            )
            &&& shown_beside(rows, terminal, "Measurement"@, label)
        }),
{
    let rows = report::full_rows(terminal, s, label, &known);
    assert(rows[0].len() == 4 && rows[1].len() == 4 && rows[2].len() == 4 && rows[3].len() == 4
        && rows[4].len() == 4 && rows[5].len() == 4);
}

/// Stalls and cache misses are shown beside their own labels where they are
/// counted.
pub proof fn counters_stand_beside_their_labels(
    terminal: bool,
    s: BenchmarkStats,
    known: NumberTexts,
)
    ensures
        s.has_cycles && s.has_stalled_cycles_frontend ==> {
            let rows = report::stall_rows(terminal, s, &known);
            &&& shown_beside(
                rows,
                terminal,
                "Frontend Stall / op"@,
                fixed(known, s.frontend_stall_cycles_per_op, 4, ""@),
            )
            &&& shown_beside(
                rows,
                terminal,
                "Frontend Stall %"@,
                fixed(known, s.frontend_stall_percent, 2, "%"@),
            )
        },
        s.has_cycles && s.has_stalled_cycles_backend ==> {
            let rows = report::stall_rows(terminal, s, &known);
            &&& shown_beside(
                rows,
                terminal,
                "Backend Stall / op"@,
                fixed(known, s.backend_stall_cycles_per_op, 4, ""@),
            )
            &&& shown_beside(
                rows,
                terminal,
                "Backend Stall %"@,
                fixed(known, s.backend_stall_percent, 2, "%"@),
            )
        },
        !s.has_cycles ==> report::stall_rows(terminal, s, &known).len() == 0,
        !s.has_cache_misses && !s.has_l1i_misses ==> report::cache_rows(terminal, s, &known).len()
            == 0,
        s.has_cache_references && s.has_cache_misses ==> shown_beside(
            report::cache_rows(terminal, s, &known),
            terminal,
            "Cache Miss Rate"@,
            fixed(known, s.cache_miss_percent, 2, "%"@),
        ),
        s.has_branches && s.has_branch_misses ==> shown_beside(
            report::branch_rows(terminal, s, &known),
            terminal,
            "Branch Miss Rate"@,
            fixed(known, s.branch_miss_rate, 4, "%"@),
        ),
        s.has_cycles && s.has_instructions ==> shown_beside(
            report::branch_rows(terminal, s, &known),
            terminal,
            "IPC"@,
            fixed(known, s.ipc, 3, ""@),
        ),
        s.has_cycles ==> shown_beside(
            report::branch_rows(terminal, s, &known),
            terminal,
            "Cycles / op"@,
            fixed(known, s.cycles_per_op, 1, ""@),
        ),
{
    let stalls = report::stall_rows(terminal, s, &known);
    if s.has_cycles && s.has_stalled_cycles_frontend {
        assert(stalls[0].len() == 4);
    }
    if s.has_cycles && s.has_stalled_cycles_backend {
        let at: int = if s.has_stalled_cycles_frontend {
            1
        } else {
            0
        };
        assert(stalls[at].len() == 4);
    }
    let caches = report::cache_rows(terminal, s, &known);
    if s.has_cache_references && s.has_cache_misses {
        assert(caches[0].len() == 4);
    }
    let branches = report::branch_rows(terminal, s, &known);
    if s.has_cycles {
        assert(branches[0].len() == 4);
    }
    if s.has_branches && s.has_branch_misses {
        let at: int = if s.has_cycles {
            2
        } else {
            1
        };
        assert(branches[at].len() == 4);
    }
}

/// A metric's row shows its mean, median, 95th percentile, least and greatest
/// value in that order.
pub proof fn metric_rows_show_their_numbers(
    terminal: bool,
    m: MetricSummary,
    known: NumberTexts,
    mean: String,
    median: String,
    p95: String,
    min: String,
    max: String,
)
    requires
        call_ensures(format_metric_value, (m.mean, m.format, &known), mean),
        call_ensures(format_metric_value, (m.median, m.format, &known), median),
        call_ensures(format_metric_value, (m.p95, m.format, &known), p95),
        call_ensures(format_metric_value, (m.min, m.format, &known), min),
        call_ensures(format_metric_value, (m.max, m.format, &known), max),
    ensures
        ({
            let row = report::metric_row(false, m, false, &known);
            &&& row.len() == 8
            &&& row[0] == (if m.display_name@.len() == 0 {
                m.name@
            } else {
                m.display_name@
            })
            &&& row[1] == mean@
            &&& row[2] == median@
            &&& row[3] == p95@
            &&& row[4] == min@
            &&& row[5] == max@
            &&& row[6] == m.unit@
            &&& row[7] == text::decimal(m.samples as nat)
        }),
{
}

/// Counters are warned of for work of the processor alone.
pub proof fn processors_alone_are_warned_of(s: BenchmarkStats, r: bool)
    requires
        call_ensures(warns_about_counters, (&s,), r),
    ensures
        r <==> s.measurement_domain is Cpu,
{
}

/// A bar of progress tells how many samples of how many were taken, and how many
/// of a hundred that makes, rounded down.
pub proof fn progress_tells_its_share(
    current: usize,
    total: usize,
    rate: &str,
    r: String,
    percent: nat,
)
    requires
        call_ensures(progress_bar, (current, total, rate), r),
        0 < total,
        current <= total,
        percent * total <= current * 100 < (percent + 1) * total,
    ensures
        holds(
            r@,
            text::decimal(percent) + "% ("@ + text::decimal(current as nat) + "/"@ + text::decimal(
                total as nat,
            ) + ") "@ + rate@,
        ),
{
    let share = report::share(current as nat, total as nat, 100);
    let n = current as nat * 100;
    let t = total as nat;
    assert(n / t == percent && percent <= 100) by (nonlinear_arith)
        requires
            t > 0,
            percent * t <= n < (percent + 1) * t,
            n <= 100 * t,
    ;
    assert(share == percent);
    let filled = report::share(current as nat, total as nat, report::PROGRESS_WIDTH as nat);
    let front = "\r\x1b[2K⚡ running ["@ + report::bar(filled, current < total) + text::repeated(
        ' ',
        (report::PROGRESS_WIDTH - filled) as nat,
    ) + "] "@;
    let a = text::decimal(percent);
    let b = text::decimal(current as nat);
    let c = text::decimal(total as nat);
    let told = a + "% ("@ + b + "/"@ + c + ") "@ + rate@;
    seven_parts_join(front, a, "% ("@, b, "/"@, c, ") "@, rate@);
    assert(r@ == front + told);
    middle_is_held(front, told, Seq::empty());
    assert(front + told + Seq::empty() =~= front + told);
}

proof fn seven_parts_join(
    front: Seq<char>,
    a: Seq<char>,
    b: Seq<char>,
    c: Seq<char>,
    d: Seq<char>,
    e: Seq<char>,
    f: Seq<char>,
    g: Seq<char>,
)
    ensures
        front + a + b + c + d + e + f + g == front + (a + b + c + d + e + f + g),
{
    assert(front + a + b + c + d + e + f + g =~= front + (a + b + c + d + e + f + g));
}

/// Progress is shown at every second sample and at the last.
pub proof fn progress_is_shown_now_and_then(sample: usize, target: usize, r: bool)
    requires
        target > 0,
        call_ensures(shows_progress, (sample, target), r),
    ensures
        sample % 2 == 0 ==> r,
        sample + 1 == target ==> r,
        sample % 2 == 1 && sample + 1 != target ==> !r,
{
}

} // verus!
