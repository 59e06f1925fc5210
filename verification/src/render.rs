//! Comparisons and what a policy makes of them, as text.
use crate::comparison::{
    CaseKey, ComparisonCaseIdentity, ComparisonReport, MatchedBenchmark, MeasurementKind,
    ReportDocumentType, UnmatchedBenchmark,
};
use crate::double::DoubleBits;
use crate::numbers::{NumberStyle, NumberTexts};
use crate::policy;
use crate::policy::{
    ChangeClassification, ComparisonExitStatus, OutlierFractions, PolicyCaseEvaluation,
    PolicyError, PolicyEvaluation, PolicyFinding, RegressionPolicy,
};
use crate::text;
use vstd::prelude::*;

verus! {

/// The schema version of a comparison with its policy evaluation.
pub const ANALYSIS_SCHEMA_VERSION: u32 = 1;

/// A comparison with what a policy makes of it.
#[derive(Debug)]
pub struct ComparisonAnalysis {
    pub schema_version: u32,
    pub comparison: ComparisonReport,
    pub policy: PolicyEvaluation,
}

/// A character as Markdown shows it literally, on one line.
pub open spec fn escaped_char(c: char) -> Seq<char> {
    if c == '\\' {
        "\\\\"@
    } else if c == '&' {
        "&amp;"@
    } else if c == '<' {
        "&lt;"@
    } else if c == '>' {
        "&gt;"@
    } else if c == '|' {
        "\\|"@
    } else if c == '`' {
        "\\`"@
    } else if c == '*' {
        "\\*"@
    } else if c == '_' {
        "\\_"@
    } else if c == '[' {
        "\\["@
    } else if c == ']' {
        "\\]"@
    } else if c == '\r' || c == '\n' {
        " "@
    } else {
        seq![c]
    }
}

/// A text as Markdown shows it literally, on one line.
pub open spec fn escaped(s: Seq<char>) -> Seq<char>
    decreases s.len(),
{
    if s.len() == 0 {
        Seq::empty()
    } else {
        escaped(s.drop_last()) + escaped_char(s.last())
    }
}

fn push_escaped(output: &mut String, c: char)
    ensures
        final(output)@ == old(output)@ + escaped_char(c),
{
    if c == '\\' {
        output.append("\\\\");
    } else if c == '&' {
        output.append("&amp;");
    } else if c == '<' {
        output.append("&lt;");
    } else if c == '>' {
        output.append("&gt;");
    } else if c == '|' {
        output.append("\\|");
    } else if c == '`' {
        output.append("\\`");
    } else if c == '*' {
        output.append("\\*");
    } else if c == '_' {
        output.append("\\_");
    } else if c == '[' {
        output.append("\\[");
    } else if c == ']' {
        output.append("\\]");
    } else if c == '\r' || c == '\n' {
        output.append(" ");
    } else {
        output.push(c);
        assert(output@ =~= old(output)@ + escaped_char(c));
    }
}

pub fn escape_markdown(value: &str) -> (r: String)
    ensures
        r@ == escaped(value@),
{
    let chars = text::chars_of(value);
    let mut r = String::new();
    let mut i: usize = 0;
    while i < chars.len()
        invariant
            i <= chars.len(),
            r@ == escaped(chars@.take(i as int)),
        decreases chars.len() - i,
    {
        push_escaped(&mut r, chars[i]);
        i += 1;
        assert(chars@.take(i as int).drop_last() =~= chars@.take(i - 1));
    }
    assert(chars@.take(chars@.len() as int) =~= chars@);
    r
}

/// Whether a character would end a line of Markdown.
pub open spec fn breaks_line(c: char) -> bool {
    c == '\r' || c == '\n'
}

/// Escaped text never breaks its line, so that it cannot end a table row.
pub proof fn escaped_text_stays_on_one_line(s: Seq<char>, i: int)
    requires
        0 <= i < escaped(s).len(),
    ensures
        !breaks_line(escaped(s)[i]),
    decreases s.len(),
{
    if s.len() > 0 {
        let front = escaped(s.drop_last());
        if i < front.len() {
            escaped_text_stays_on_one_line(s.drop_last(), i);
        } else {
            reveal_escapes();
            assert(escaped(s)[i] == escaped_char(s.last())[i - front.len()]);
        }
    }
}

proof fn reveal_escapes()
    ensures
        forall|c: char, i: int|
            0 <= i < escaped_char(c).len() ==> !breaks_line(#[trigger] escaped_char(c)[i]),
        forall|c: char| escaped_char(c).len() > 0,
        forall|c: char| c == '|' ==> #[trigger] escaped_char(c) == seq!['\\', '|'],
        forall|c: char, i: int|
            c != '|' && 0 <= i < escaped_char(c).len() ==> #[trigger] escaped_char(c)[i] != '|',
{
    reveal_strlit("\\\\");
    reveal_strlit("&amp;");
    reveal_strlit("&lt;");
    reveal_strlit("&gt;");
    reveal_strlit("\\|");
    reveal_strlit("\\`");
    reveal_strlit("\\*");
    reveal_strlit("\\_");
    reveal_strlit("\\[");
    reveal_strlit("\\]");
    reveal_strlit(" ");
    assert("\\|"@ =~= seq!['\\', '|']);
}

/// In escaped text every bar stands behind a backslash, so that it cannot end
/// a table cell.
pub proof fn escaped_bars_are_guarded(s: Seq<char>, i: int)
    requires
        0 <= i < escaped(s).len(),
        escaped(s)[i] == '|',
    ensures
        i > 0,
        escaped(s)[i - 1] == '\\',
    decreases s.len(),
{
    if s.len() > 0 {
        let front = escaped(s.drop_last());
        if i < front.len() {
            escaped_bars_are_guarded(s.drop_last(), i);
        } else {
            reveal_escapes();
            let part = escaped_char(s.last());
            assert(escaped(s)[i] == part[i - front.len()]);
            assert(s.last() == '|');
            assert(part == seq!['\\', '|']);
            assert(escaped(s)[i - 1] == part[i - 1 - front.len()]);
        }
    }
}

/// A text on one line: every control character becomes a space.
pub open spec fn inline(s: Seq<char>) -> Seq<char> {
    s.map_values(
        |c: char|
            if text::control(c) {
                ' '
            } else {
                c
            },
    )
}

pub fn inline_text(value: &str) -> (r: String)
    ensures
        r@ == inline(value@),
{
    let chars = text::chars_of(value);
    let mut r = String::new();
    let mut i: usize = 0;
    while i < chars.len()
        invariant
            i <= chars.len(),
            r@ == inline(chars@.take(i as int)),
        decreases chars.len() - i,
    {
        let c = chars[i];
        if text::is_control(c) {
            r.push(' ');
        } else {
            r.push(c);
        }
        i += 1;
        assert(r@ =~= inline(chars@.take(i as int)));
    }
    assert(chars@.take(chars@.len() as int) =~= chars@);
    r
}

/// A text on one line holds no control character, has as many characters as
/// it had, and is left alone when shown again.
pub proof fn inline_text_stays_on_one_line(s: Seq<char>)
    ensures
        inline(s).len() == s.len(),
        forall|i: int| 0 <= i < s.len() ==> !text::control(#[trigger] inline(s)[i]),
        inline(inline(s)) == inline(s),
{
    assert(inline(inline(s)) =~= inline(s));
}

pub open spec fn measurement_text(measurement: MeasurementKind) -> Seq<char> {
    match measurement {
        MeasurementKind::Latency => "latency"@,
        MeasurementKind::Throughput => "throughput"@,
        MeasurementKind::Memory => "memory"@,
        MeasurementKind::Occupancy => "occupancy"@,
        MeasurementKind::Custom => "custom"@,
    }
}

pub fn measurement_name(measurement: MeasurementKind) -> (r: &'static str)
    ensures
        r@ == measurement_text(measurement),
{
    match measurement {
        MeasurementKind::Latency => "latency",
        MeasurementKind::Throughput => "throughput",
        MeasurementKind::Memory => "memory",
        MeasurementKind::Occupancy => "occupancy",
        MeasurementKind::Custom => "custom",
    }
}

pub open spec fn document_type_text(document_type: ReportDocumentType) -> Seq<char> {
    match document_type {
        ReportDocumentType::NativeBenchmark => "native_benchmark"@,
        ReportDocumentType::Series => "series"@,
    }
}

pub fn document_type_name(document_type: ReportDocumentType) -> (r: &'static str)
    ensures
        r@ == document_type_text(document_type),
{
    match document_type {
        ReportDocumentType::NativeBenchmark => "native_benchmark",
        ReportDocumentType::Series => "series",
    }
}

pub open spec fn label_text(classification: ChangeClassification) -> Seq<char> {
    match classification {
        ChangeClassification::Improvement => "IMPROVEMENT"@,
        ChangeClassification::Regression => "REGRESSION"@,
        ChangeClassification::NoMaterialChange => "UNCHANGED"@,
        ChangeClassification::Informational => "INFORMATIONAL"@,
        ChangeClassification::Invalid => "INVALID"@,
        ChangeClassification::Inconclusive => "INCONCLUSIVE"@,
    }
}

pub fn classification_label(classification: ChangeClassification) -> (r: &'static str)
    ensures
        r@ == label_text(classification),
{
    match classification {
        ChangeClassification::Improvement => "IMPROVEMENT",
        ChangeClassification::Regression => "REGRESSION",
        ChangeClassification::NoMaterialChange => "UNCHANGED",
        ChangeClassification::Informational => "INFORMATIONAL",
        ChangeClassification::Invalid => "INVALID",
        ChangeClassification::Inconclusive => "INCONCLUSIVE",
    }
}

/// A value with its unit.
pub open spec fn value_text(value: Option<DoubleBits>, unit: Seq<char>, numbers: &NumberTexts) -> Seq<char> {
    match value {
        Some(value) => numbers.spec_text(value, NumberStyle::Fixed { places: 4 }) + " "@ + inline(
            unit,
        ),
        None => "n/a"@,
    }
}

pub fn format_value(value: Option<DoubleBits>, unit: &str, numbers: &NumberTexts) -> (r: String)
    ensures
        r@ == value_text(value, unit@, numbers),
{
    match value {
        Some(value) => {
            let mut r = numbers.text(value, NumberStyle::Fixed { places: 4 });
            r.append(" ");
            r.append(inline_text(unit).as_str());
            r
        },
        None => "n/a".to_owned(),
    }
}

/// A percentage with its sign.
pub open spec fn percent_text(percent: Option<DoubleBits>, numbers: &NumberTexts) -> Seq<char> {
    match percent {
        Some(percent) => numbers.spec_text(percent, NumberStyle::Signed { places: 2 }) + "%"@,
        None => "n/a"@,
    }
}

pub fn format_percent(percent: Option<DoubleBits>, numbers: &NumberTexts) -> (r: String)
    ensures
        r@ == percent_text(percent, numbers),
{
    match percent {
        Some(percent) => {
            let mut r = numbers.text(percent, NumberStyle::Signed { places: 2 });
            r.append("%");
            r
        },
        None => "n/a".to_owned(),
    }
}

/// A threshold in percent, or that there is none.
pub open spec fn limit_text(limit: Option<DoubleBits>, style: NumberStyle, numbers: &NumberTexts) -> Seq<char> {
    match limit {
        Some(limit) => numbers.spec_text(limit, style) + "%"@,
        None => "disabled"@,
    }
}

fn format_limit(limit: Option<DoubleBits>, style: NumberStyle, numbers: &NumberTexts) -> (r: String)
    ensures
        r@ == limit_text(limit, style, numbers),
{
    match limit {
        Some(limit) => {
            let mut r = numbers.text(limit, style);
            r.append("%");
            r
        },
        None => "disabled".to_owned(),
    }
}

/// The thresholds of a policy, behind the name of its mode.
pub open spec fn thresholds_text(mode: Seq<char>, policy: RegressionPolicy, numbers: &NumberTexts) -> Seq<char> {
    mode + "; material change > "@ + numbers.spec_text(
        policy.minimum_change_percent,
        NumberStyle::Fixed { places: 2 },
    ) + "%; max CV "@ + limit_text(
        policy.maximum_cv_percent,
        NumberStyle::Fixed { places: 2 },
        numbers,
    ) + "; max outliers "@ + limit_text(
        policy.maximum_outlier_fraction,
        NumberStyle::Hundredfold,
        numbers,
    )
}

pub(crate) fn describe_thresholds(mode: &str, policy: &RegressionPolicy, numbers: &NumberTexts) -> (r:
    String)
    ensures
        r@ == thresholds_text(mode@, *policy, numbers),
{
    let mut r = mode.to_owned();
    r.append("; material change > ");
    r.append(
        numbers.text(policy.minimum_change_percent, NumberStyle::Fixed { places: 2 }).as_str(),
    );
    r.append("%; max CV ");
    r.append(
        format_limit(
            policy.maximum_cv_percent,
            NumberStyle::Fixed { places: 2 },
            numbers,
        ).as_str(),
    );
    r.append("; max outliers ");
    r.append(
        format_limit(policy.maximum_outlier_fraction, NumberStyle::Hundredfold, numbers).as_str(),
    );
    r
}

/// What a policy gates on.
pub open spec fn mode_text(policy: RegressionPolicy) -> Seq<char> {
    if policy.fail_on_regression && policy.fail_on_invalid {
        "regression and invalid-result gating"@
    } else if policy.fail_on_regression {
        "regression gating"@
    } else if policy.fail_on_invalid {
        "invalid-result gating"@
    } else {
        "advisory"@
    }
}

/// A policy as text.
pub open spec fn policy_text(policy: RegressionPolicy, numbers: &NumberTexts) -> Seq<char> {
    thresholds_text(mode_text(policy), policy, numbers)
}

pub fn policy_description(evaluation: &PolicyEvaluation, numbers: &NumberTexts) -> (r: String)
    ensures
        r@ == policy_text(evaluation.policy, numbers),
{
    let policy = &evaluation.policy;
    let mode = if policy.fail_on_regression && policy.fail_on_invalid {
        "regression and invalid-result gating"
    } else if policy.fail_on_regression {
        "regression gating"
    } else if policy.fail_on_invalid {
        "invalid-result gating"
    } else {
        "advisory"
    };
    describe_thresholds(mode, policy, numbers)
}

/// How the outcome is described.
pub open spec fn verdict_text(failed: bool, blocking: nat, gating: bool) -> Seq<char> {
    if failed {
        "FAIL ("@ + text::decimal(blocking) + " blocking regressions)"@
    } else if gating {
        "PASS (gating enabled)"@
    } else {
        "PASS (advisory only)"@
    }
}

pub(crate) fn describe_verdict(failed: bool, blocking: usize, gating: bool) -> (r: String)
    ensures
        r@ == verdict_text(failed, blocking as nat, gating),
{
    if failed {
        let mut r = "FAIL (".to_owned();
        r.append(text::decimal_text(blocking as u64).as_str());
        r.append(" blocking regressions)");
        r
    } else if gating {
        "PASS (gating enabled)".to_owned()
    } else {
        "PASS (advisory only)".to_owned()
    }
}

pub open spec fn gate_text(evaluation: PolicyEvaluation) -> Seq<char> {
    verdict_text(
        evaluation.gate_failed,
        evaluation.summary.blocking as nat,
        evaluation.policy.fail_on_regression || evaluation.policy.fail_on_invalid,
    )
}

pub fn gate_description(evaluation: &PolicyEvaluation) -> (r: String)
    ensures
        r@ == gate_text(*evaluation),
{
    describe_verdict(
        evaluation.gate_failed,
        evaluation.summary.blocking,
        evaluation.policy.fail_on_regression || evaluation.policy.fail_on_invalid,
    )
}

/// How the environments of a comparison relate.
pub open spec fn environment_text(comparison: ComparisonReport) -> Seq<char> {
    let environment = comparison.environment;
    if environment.exact_match {
        "exact match on runner "@ + environment.current_runner_id@
    } else {
        match environment.operator_override {
            Some(given) => "operator override "@ + text::debug_form(given.reason@) + ": "@
                + environment.current_runner_id@ + " vs "@ + environment.baseline_runner_id@,
            None => "mismatch: "@ + environment.current_runner_id@ + " vs "@
                + environment.baseline_runner_id@,
        }
    }
}

pub fn environment_description(comparison: &ComparisonReport) -> (r: String)
    ensures
        r@ == environment_text(*comparison),
{
    let environment = &comparison.environment;
    if environment.exact_match {
        let mut r = "exact match on runner ".to_owned();
        r.append(environment.current_runner_id.as_str());
        return r;
    }
    match &environment.operator_override {
        Some(given) => {
            let mut r = "operator override ".to_owned();
            r.append(text::debug_text(given.reason.as_str()).as_str());
            r.append(": ");
            r.append(environment.current_runner_id.as_str());
            r.append(" vs ");
            r.append(environment.baseline_runner_id.as_str());
            r
        },
        None => {
            let mut r = "mismatch: ".to_owned();
            r.append(environment.current_runner_id.as_str());
            r.append(" vs ");
            r.append(environment.baseline_runner_id.as_str());
            r
        },
    }
}

/// An observation as text.
pub open spec fn finding_text(finding: policy::Finding, numbers: &NumberTexts) -> Seq<char> {
    match finding {
        policy::Finding::Invalid { side, reason } => side.text() + " result invalid: "@ + reason,
        policy::Finding::Variation { side, actual, maximum } => side.text() + " CV "@
            + numbers.spec_text(actual, NumberStyle::Fixed { places: 2 }) + "% exceeds "@
            + numbers.spec_text(maximum, NumberStyle::Fixed { places: 2 }) + "%"@,
        policy::Finding::Outliers { side, actual, maximum } => side.text() + " outliers "@
            + numbers.spec_text(actual, NumberStyle::Hundredfold) + "% exceed "@
            + numbers.spec_text(maximum, NumberStyle::Hundredfold) + "%"@,
    }
}

pub fn finding_description(finding: &PolicyFinding, numbers: &NumberTexts) -> (r: String)
    ensures
        r@ == finding_text(finding@, numbers),
{
    match finding {
        PolicyFinding::InvalidResult { side, reason } => {
            let mut r = side.name().to_owned();
            r.append(" result invalid: ");
            r.append(reason.as_str());
            r
        },
        PolicyFinding::HighCoefficientOfVariation { side, actual_percent, maximum_percent } => {
            let mut r = side.name().to_owned();
            r.append(" CV ");
            r.append(numbers.text(*actual_percent, NumberStyle::Fixed { places: 2 }).as_str());
            r.append("% exceeds ");
            r.append(numbers.text(*maximum_percent, NumberStyle::Fixed { places: 2 }).as_str());
            r.append("%");
            r
        },
        PolicyFinding::ExcessiveOutlierFraction { side, actual, maximum } => {
            let mut r = side.name().to_owned();
            r.append(" outliers ");
            r.append(numbers.text(*actual, NumberStyle::Hundredfold).as_str());
            r.append("% exceed ");
            r.append(numbers.text(*maximum, NumberStyle::Hundredfold).as_str());
            r.append("%");
            r
        },
    }
}

/// Where a case is first evaluated.
pub open spec fn case_place(cases: Seq<PolicyCaseEvaluation>, key: CaseKey, from: int) -> Option<int>
    decreases cases.len() - from,
{
    if from < 0 || from >= cases.len() {
        None
    } else if cases[from].identity.key() == key {
        Some(from)
    } else {
        case_place(cases, key, from + 1)
    }
}

/// The evaluation of a case, if there is one.
pub open spec fn case_evaluation(evaluation: PolicyEvaluation, key: CaseKey) -> Option<
    PolicyCaseEvaluation,
> {
    match case_place(evaluation.cases@, key, 0) {
        Some(i) => Some(evaluation.cases@[i]),
        None => None,
    }
}

proof fn place_in_range(cases: Seq<PolicyCaseEvaluation>, key: CaseKey, from: int)
    requires
        0 <= from,
    ensures
        case_place(cases, key, from) matches Some(i) ==> from <= i < cases.len(),
    decreases cases.len() - from,
{
    if from < cases.len() {
        place_in_range(cases, key, from + 1);
    }
}

pub fn policy_case<'a>(evaluation: &'a PolicyEvaluation, identity: &ComparisonCaseIdentity) -> (r:
    Option<&'a PolicyCaseEvaluation>)
    ensures
        r is Some == case_evaluation(*evaluation, identity.key()) is Some,
        r matches Some(case) ==> case_evaluation(*evaluation, identity.key()) == Some(*case),
{
    let ghost key = identity.key();
    let mut i: usize = 0;
    while i < evaluation.cases.len()
        invariant
            i <= evaluation.cases.len(),
            key == identity.key(),
            case_place(evaluation.cases@, key, 0) == case_place(evaluation.cases@, key, i as int),
        decreases evaluation.cases.len() - i,
    {
        if evaluation.cases[i].identity.same(identity) {
            return Some(&evaluation.cases[i]);
        }
        i += 1;
    }
    None
}

/// The classification that a case is shown with.
pub open spec fn shown_class(evaluation: Option<PolicyCaseEvaluation>) -> ChangeClassification {
    match evaluation {
        Some(case) => case.classification,
        None => ChangeClassification::Inconclusive,
    }
}

/// The first `count` observations, one to a line.
pub open spec fn finding_lines(findings: Seq<PolicyFinding>, count: int, numbers: &NumberTexts) -> Seq<char>
    decreases count,
{
    if count <= 0 || count > findings.len() {
        Seq::empty()
    } else {
        finding_lines(findings, count - 1, numbers) + "    - "@ + inline(
            finding_text(findings[count - 1]@, numbers),
        ) + "\n"@
    }
}

/// A matched case on the terminal.
#[verifier::opaque]
pub open spec fn case_line(
    matched: MatchedBenchmark,
    class: ChangeClassification,
    numbers: &NumberTexts,
) -> Seq<char> {
    "  "@ + text::left_aligned(label_text(class), 18) + " "@ + inline(
        matched.identity.group_text(),
    ) + "/"@ + inline(matched.identity.name_text()) + " ["@ + measurement_text(
        matched.current.primary.measurement,
    ) + " "@ + inline(matched.current.primary.unit@) + "]: "@ + value_text(
        matched.baseline.primary.value,
        matched.baseline.primary.unit@,
        numbers,
    ) + " -> "@ + value_text(
        matched.current.primary.value,
        matched.current.primary.unit@,
        numbers,
    ) + " ("@ + percent_text(matched.percent_improvement, numbers) + ")\n"@
}

fn push_case_line(
    output: &mut String,
    matched: &MatchedBenchmark,
    class: ChangeClassification,
    numbers: &NumberTexts,
)
    ensures
        final(output)@ == old(output)@ + case_line(*matched, class, numbers),
{
    let mut line = "  ".to_owned();
    line.append(text::align_left(classification_label(class), 18).as_str());
    line.append(" ");
    line.append(inline_text(matched.identity.group()).as_str());
    line.append("/");
    line.append(inline_text(matched.identity.name()).as_str());
    line.append(" [");
    line.append(measurement_name(matched.current.primary.measurement));
    line.append(" ");
    line.append(inline_text(matched.current.primary.unit.as_str()).as_str());
    line.append("]: ");
    line.append(
        format_value(
            matched.baseline.primary.value,
            matched.baseline.primary.unit.as_str(),
            numbers,
        ).as_str(),
    );
    line.append(" -> ");
    line.append(
        format_value(
            matched.current.primary.value,
            matched.current.primary.unit.as_str(),
            numbers,
        ).as_str(),
    );
    line.append(" (");
    line.append(format_percent(matched.percent_improvement, numbers).as_str());
    line.append(")\n");
    proof {
        reveal(case_line);
    }
    output.append(line.as_str());
}

fn push_findings(output: &mut String, findings: &Vec<PolicyFinding>, numbers: &NumberTexts)
    ensures
        final(output)@ == old(output)@ + finding_lines(
            findings@,
            findings@.len() as int,
            numbers,
        ),
{
    let ghost start = output@;
    let mut i: usize = 0;
    assert(output@ =~= start + finding_lines(findings@, 0, numbers));
    while i < findings.len()
        invariant
            i <= findings.len(),
            output@ == start + finding_lines(findings@, i as int, numbers),
        decreases findings.len() - i,
    {
        output.append("    - ");
        output.append(inline_text(finding_description(&findings[i], numbers).as_str()).as_str());
        output.append("\n");
        i += 1;
        assert(output@ =~= start + finding_lines(findings@, i as int, numbers));
    }
}

/// A matched case and its observations on the terminal.
pub open spec fn case_lines(
    matched: MatchedBenchmark,
    evaluation: PolicyEvaluation,
    numbers: &NumberTexts,
) -> Seq<char> {
    let case = case_evaluation(evaluation, matched.identity.key());
    case_line(matched, shown_class(case), numbers) + match case {
        Some(case) => finding_lines(case.findings@, case.findings@.len() as int, numbers),
        None => Seq::empty(),
    }
}

/// The first `count` matched cases on the terminal.
pub open spec fn all_case_lines(
    matched: Seq<MatchedBenchmark>,
    evaluation: PolicyEvaluation,
    count: int,
    numbers: &NumberTexts,
) -> Seq<char>
    decreases count,
{
    if count <= 0 || count > matched.len() {
        Seq::empty()
    } else {
        all_case_lines(matched, evaluation, count - 1, numbers) + case_lines(
            matched[count - 1],
            evaluation,
            numbers,
        )
    }
}

/// The matched cases on the terminal, if there are any.
pub open spec fn cases_section(
    matched: Seq<MatchedBenchmark>,
    evaluation: PolicyEvaluation,
    numbers: &NumberTexts,
) -> Seq<char> {
    if matched.len() == 0 {
        Seq::empty()
    } else {
        "\ncases:\n"@ + all_case_lines(matched, evaluation, matched.len() as int, numbers)
    }
}

fn push_cases(
    output: &mut String,
    matched: &Vec<MatchedBenchmark>,
    evaluation: &PolicyEvaluation,
    numbers: &NumberTexts,
)
    ensures
        final(output)@ == old(output)@ + cases_section(matched@, *evaluation, numbers),
{
    if matched.len() == 0 {
        assert(output@ =~= old(output)@ + cases_section(matched@, *evaluation, numbers));
        return;
    }
    let mut part = "\ncases:\n".to_owned();
    let mut i: usize = 0;
    assert(part@ =~= "\ncases:\n"@ + all_case_lines(matched@, *evaluation, 0, numbers));
    while i < matched.len()
        invariant
            i <= matched.len(),
            part@ == "\ncases:\n"@ + all_case_lines(matched@, *evaluation, i as int, numbers),
        decreases matched.len() - i,
    {
        let case = policy_case(evaluation, &matched[i].identity);
        let class = match case {
            Some(case) => case.classification,
            None => ChangeClassification::Inconclusive,
        };
        push_case_line(&mut part, &matched[i], class, numbers);
        match case {
            Some(case) => {
                push_findings(&mut part, &case.findings, numbers);
            },
            None => {},
        }
        i += 1;
        assert(part@ =~= "\ncases:\n"@ + all_case_lines(matched@, *evaluation, i as int, numbers));
    }
    output.append(part.as_str());
}

/// An unmatched case on the terminal.
pub open spec fn unmatched_line(case: UnmatchedBenchmark) -> Seq<char> {
    "  "@ + inline(case.identity.group_text()) + "/"@ + inline(case.identity.name_text()) + " ["@
        + measurement_text(case.measurement.primary.measurement) + " "@ + inline(
        case.measurement.primary.unit@,
    ) + "]\n"@
}

pub open spec fn unmatched_lines(cases: Seq<UnmatchedBenchmark>, count: int) -> Seq<char>
    decreases count,
{
    if count <= 0 || count > cases.len() {
        Seq::empty()
    } else {
        unmatched_lines(cases, count - 1) + unmatched_line(cases[count - 1])
    }
}

/// The unmatched cases of one side on the terminal, if there are any.
pub open spec fn unmatched_section(heading: Seq<char>, cases: Seq<UnmatchedBenchmark>) -> Seq<char> {
    if cases.len() == 0 {
        Seq::empty()
    } else {
        "\n"@ + heading + ":\n"@ + unmatched_lines(cases, cases.len() as int)
    }
}

pub fn render_unmatched_terminal(
    output: &mut String,
    heading: &str,
    cases: &Vec<UnmatchedBenchmark>,
)
    ensures
        final(output)@ == old(output)@ + unmatched_section(heading@, cases@),
{
    if cases.len() == 0 {
        assert(output@ =~= old(output)@ + unmatched_section(heading@, cases@));
        return;
    }
    let mut part = "\n".to_owned();
    part.append(heading);
    part.append(":\n");
    let ghost head = part@;
    let mut i: usize = 0;
    assert(part@ =~= head + unmatched_lines(cases@, 0));
    while i < cases.len()
        invariant
            i <= cases.len(),
            part@ == head + unmatched_lines(cases@, i as int),
        decreases cases.len() - i,
    {
        let case = &cases[i];
        let mut line = "  ".to_owned();
        line.append(inline_text(case.identity.group()).as_str());
        line.append("/");
        line.append(inline_text(case.identity.name()).as_str());
        line.append(" [");
        line.append(measurement_name(case.measurement.primary.measurement));
        line.append(" ");
        line.append(inline_text(case.measurement.primary.unit.as_str()).as_str());
        line.append("]\n");
        assert(line@ == unmatched_line(*case));
        part.append(line.as_str());
        i += 1;
        assert(part@ =~= head + unmatched_lines(cases@, i as int));
    }
    output.append(part.as_str());
}

/// What is compared, on the terminal.
#[verifier::opaque]
pub open spec fn subject_lines(comparison: ComparisonReport) -> Seq<char> {
    "micromeasure comparison: "@ + inline(comparison.suite@) + "\ncurrent:  "@ + document_type_text(
        comparison.current.document_type,
    ) + " "@ + comparison.current.content_digest@ + "\nbaseline: "@ + document_type_text(
        comparison.baseline.document_type,
    ) + " "@ + comparison.baseline.content_digest@ + "\nenvironment: "@ + inline(
        environment_text(comparison),
    ) + "\n"@
}

/// The counts of a comparison, on the terminal.
#[verifier::opaque]
pub open spec fn count_lines(comparison: ComparisonReport, evaluation: PolicyEvaluation) -> Seq<char> {
    "results: "@ + text::decimal(comparison.summary.matched as nat) + " matched, "@ + text::decimal(
        comparison.summary.added as nat,
    ) + " added, "@ + text::decimal(comparison.summary.removed as nat)
        + " removed\nclassification: "@ + text::decimal(evaluation.summary.improvements as nat)
        + " improvements, "@ + text::decimal(evaluation.summary.regressions as nat)
        + " regressions, "@ + text::decimal(evaluation.summary.no_material_change as nat)
        + " unchanged, "@ + text::decimal(evaluation.summary.informational as nat)
        + " informational, "@ + text::decimal(evaluation.summary.invalid as nat) + " invalid, "@
        + text::decimal(evaluation.summary.inconclusive as nat) + " inconclusive, "@
        + text::decimal(evaluation.summary.unstable as nat) + " unstable\n"@
}

fn render_subject(comparison: &ComparisonReport) -> (r: String)
    ensures
        r@ == subject_lines(*comparison),
{
    let mut r = "micromeasure comparison: ".to_owned();
    r.append(inline_text(comparison.suite.as_str()).as_str());
    r.append("\ncurrent:  ");
    r.append(document_type_name(comparison.current.document_type));
    r.append(" ");
    r.append(comparison.current.content_digest.as_str());
    r.append("\nbaseline: ");
    r.append(document_type_name(comparison.baseline.document_type));
    r.append(" ");
    r.append(comparison.baseline.content_digest.as_str());
    r.append("\nenvironment: ");
    r.append(inline_text(environment_description(comparison).as_str()).as_str());
    r.append("\n");
    proof {
        reveal(subject_lines);
    }
    r
}

fn render_counts(comparison: &ComparisonReport, evaluation: &PolicyEvaluation) -> (r: String)
    ensures
        r@ == count_lines(*comparison, *evaluation),
{
    let mut r = "results: ".to_owned();
    r.append(text::decimal_text(comparison.summary.matched as u64).as_str());
    r.append(" matched, ");
    r.append(text::decimal_text(comparison.summary.added as u64).as_str());
    r.append(" added, ");
    r.append(text::decimal_text(comparison.summary.removed as u64).as_str());
    r.append(" removed\nclassification: ");
    r.append(text::decimal_text(evaluation.summary.improvements as u64).as_str());
    r.append(" improvements, ");
    r.append(text::decimal_text(evaluation.summary.regressions as u64).as_str());
    r.append(" regressions, ");
    r.append(text::decimal_text(evaluation.summary.no_material_change as u64).as_str());
    r.append(" unchanged, ");
    r.append(text::decimal_text(evaluation.summary.informational as u64).as_str());
    r.append(" informational, ");
    r.append(text::decimal_text(evaluation.summary.invalid as u64).as_str());
    r.append(" invalid, ");
    r.append(text::decimal_text(evaluation.summary.inconclusive as u64).as_str());
    r.append(" inconclusive, ");
    r.append(text::decimal_text(evaluation.summary.unstable as u64).as_str());
    r.append(" unstable\n");
    proof {
        reveal(count_lines);
    }
    r
}

/// A comparison for the log of a job.
pub open spec fn terminal_text(analysis: ComparisonAnalysis, numbers: &NumberTexts) -> Seq<char> {
    let comparison = analysis.comparison;
    let evaluation = analysis.policy;
    subject_lines(comparison) + "policy: "@ + policy_text(evaluation.policy, numbers) + "\n"@
        + count_lines(comparison, evaluation) + "gate: "@ + gate_text(evaluation) + "\n"@
        + cases_section(comparison.matched@, evaluation, numbers) + unmatched_section(
        "added"@,
        comparison.added@,
    ) + unmatched_section("removed"@, comparison.removed@)
}

pub fn render_terminal(analysis: &ComparisonAnalysis, numbers: &NumberTexts) -> (r: String)
    ensures
        r@ == terminal_text(*analysis, numbers),
{
    let comparison = &analysis.comparison;
    let evaluation = &analysis.policy;
    let mut output = render_subject(comparison);
    output.append("policy: ");
    output.append(policy_description(evaluation, numbers).as_str());
    output.append("\n");
    output.append(render_counts(comparison, evaluation).as_str());
    output.append("gate: ");
    output.append(gate_description(evaluation).as_str());
    output.append("\n");
    push_cases(&mut output, &comparison.matched, evaluation, numbers);
    render_unmatched_terminal(&mut output, "added", &comparison.added);
    render_unmatched_terminal(&mut output, "removed", &comparison.removed);
    output
}

/// A row of the table of counts.
pub open spec fn count_row(label: Seq<char>, count: nat) -> Seq<char> {
    "| "@ + label + " | "@ + text::decimal(count) + " |\n"@
}

pub(crate) fn push_count_row(output: &mut String, label: &str, count: usize)
    ensures
        final(output)@ == old(output)@ + count_row(label@, count as nat),
{
    let mut row = "| ".to_owned();
    row.append(label);
    row.append(" | ");
    row.append(text::decimal_text(count as u64).as_str());
    row.append(" |\n");
    output.append(row.as_str());
}

/// The observations on a case in one cell: a dash where there are none.
pub open spec fn findings_cell(evaluation: Option<PolicyCaseEvaluation>, numbers: &NumberTexts) -> Seq<char> {
    match evaluation {
        Some(case) => {
            let joined = text::joined(
                case.findings@.map_values(|f: PolicyFinding| finding_text(f@, numbers)),
                "; "@,
            );
            if joined.len() == 0 {
                "—"@
            } else {
                joined
            }
        },
        None => "—"@,
    }
}

fn join_findings(findings: &Vec<PolicyFinding>, numbers: &NumberTexts) -> (r: String)
    ensures
        r@ == text::joined(
            findings@.map_values(|f: PolicyFinding| finding_text(f@, numbers)),
            "; "@,
        ),
{
    let mut texts: Vec<String> = Vec::new();
    let mut i: usize = 0;
    while i < findings.len()
        invariant
            i <= findings.len(),
            texts@.len() == i,
            forall|j: int|
                0 <= j < i ==> (#[trigger] texts@[j])@ == finding_text(findings@[j]@, numbers),
        decreases findings.len() - i,
    {
        texts.push(finding_description(&findings[i], numbers));
        i += 1;
    }
    assert(text::texts(texts@) =~= findings@.map_values(
        |f: PolicyFinding| finding_text(f@, numbers),
    ));
    text::join(&texts, "; ")
}

fn render_findings_cell(evaluation: Option<&PolicyCaseEvaluation>, numbers: &NumberTexts) -> (r:
    String)
    ensures
        r@ == findings_cell(
            match evaluation {
                Some(case) => Some(*case),
                None => None,
            },
            numbers,
        ),
{
    match evaluation {
        Some(case) => {
            let joined = join_findings(&case.findings, numbers);
            if text::chars_of(joined.as_str()).len() == 0 {
                "—".to_owned()
            } else {
                joined
            }
        },
        None => "—".to_owned(),
    }
}

/// A matched case as a row of Markdown.
#[verifier::opaque]
pub open spec fn case_row(
    matched: MatchedBenchmark,
    evaluation: Option<PolicyCaseEvaluation>,
    numbers: &NumberTexts,
) -> Seq<char> {
    "| "@ + escaped(matched.identity.group_text()) + "/"@ + escaped(matched.identity.name_text())
        + " | "@ + measurement_text(matched.current.primary.measurement) + " "@ + escaped(
        matched.current.primary.unit@,
    ) + " | "@ + escaped(
        value_text(matched.baseline.primary.value, matched.baseline.primary.unit@, numbers),
    ) + " | "@ + escaped(
        value_text(matched.current.primary.value, matched.current.primary.unit@, numbers),
    ) + " | "@ + escaped(percent_text(matched.percent_improvement, numbers)) + " | "@ + escaped(
        shown_class(evaluation).text(),
    ) + " | "@ + escaped(findings_cell(evaluation, numbers)) + " |\n"@
}

fn push_case_row(
    output: &mut String,
    matched: &MatchedBenchmark,
    evaluation: Option<&PolicyCaseEvaluation>,
    numbers: &NumberTexts,
)
    ensures
        final(output)@ == old(output)@ + case_row(
            *matched,
            match evaluation {
                Some(case) => Some(*case),
                None => None,
            },
            numbers,
        ),
{
    let class = match evaluation {
        Some(case) => case.classification,
        None => ChangeClassification::Inconclusive,
    };
    let mut row = "| ".to_owned();
    row.append(escape_markdown(matched.identity.group()).as_str());
    row.append("/");
    row.append(escape_markdown(matched.identity.name()).as_str());
    row.append(" | ");
    row.append(measurement_name(matched.current.primary.measurement));
    row.append(" ");
    row.append(escape_markdown(matched.current.primary.unit.as_str()).as_str());
    row.append(" | ");
    row.append(
        escape_markdown(
            format_value(
                matched.baseline.primary.value,
                matched.baseline.primary.unit.as_str(),
                numbers,
            ).as_str(),
        ).as_str(),
    );
    row.append(" | ");
    row.append(
        escape_markdown(
            format_value(
                matched.current.primary.value,
                matched.current.primary.unit.as_str(),
                numbers,
            ).as_str(),
        ).as_str(),
    );
    row.append(" | ");
    row.append(
        escape_markdown(format_percent(matched.percent_improvement, numbers).as_str()).as_str(),
    );
    row.append(" | ");
    row.append(escape_markdown(class.name()).as_str());
    row.append(" | ");
    row.append(escape_markdown(render_findings_cell(evaluation, numbers).as_str()).as_str());
    row.append(" |\n");
    proof {
        reveal(case_row);
    }
    output.append(row.as_str());
}

/// The first `count` matched cases as rows of Markdown.
pub open spec fn case_rows(
    matched: Seq<MatchedBenchmark>,
    evaluation: PolicyEvaluation,
    count: int,
    numbers: &NumberTexts,
) -> Seq<char>
    decreases count,
{
    if count <= 0 || count > matched.len() {
        Seq::empty()
    } else {
        case_rows(matched, evaluation, count - 1, numbers) + case_row(
            matched[count - 1],
            case_evaluation(evaluation, matched[count - 1].identity.key()),
            numbers,
        )
    }
}

/// The table of matched cases, if there are any.
pub open spec fn cases_table(
    matched: Seq<MatchedBenchmark>,
    evaluation: PolicyEvaluation,
    numbers: &NumberTexts,
) -> Seq<char> {
    if matched.len() == 0 {
        Seq::empty()
    } else {
        "\n| Case | Measurement | Baseline | Current | Improvement | Classification | Findings |\n|---|---|---:|---:|---:|---|---|\n"@
            + case_rows(matched, evaluation, matched.len() as int, numbers)
    }
}

fn push_cases_table(
    output: &mut String,
    matched: &Vec<MatchedBenchmark>,
    evaluation: &PolicyEvaluation,
    numbers: &NumberTexts,
)
    ensures
        final(output)@ == old(output)@ + cases_table(matched@, *evaluation, numbers),
{
    if matched.len() == 0 {
        assert(output@ =~= old(output)@ + cases_table(matched@, *evaluation, numbers));
        return;
    }
    let mut part =
        "\n| Case | Measurement | Baseline | Current | Improvement | Classification | Findings |\n|---|---|---:|---:|---:|---|---|\n".to_owned();
    let ghost head = part@;
    let mut i: usize = 0;
    assert(part@ =~= head + case_rows(matched@, *evaluation, 0, numbers));
    while i < matched.len()
        invariant
            i <= matched.len(),
            part@ == head + case_rows(matched@, *evaluation, i as int, numbers),
        decreases matched.len() - i,
    {
        let case = policy_case(evaluation, &matched[i].identity);
        push_case_row(&mut part, &matched[i], case, numbers);
        i += 1;
        assert(part@ =~= head + case_rows(matched@, *evaluation, i as int, numbers));
    }
    output.append(part.as_str());
}

/// An unmatched case as an item of Markdown.
pub open spec fn unmatched_item(case: UnmatchedBenchmark) -> Seq<char> {
    "- "@ + escaped(case.identity.group_text()) + "/"@ + escaped(case.identity.name_text())
        + " — "@ + measurement_text(case.measurement.primary.measurement) + " "@ + escaped(
        case.measurement.primary.unit@,
    ) + "\n"@
}

pub open spec fn unmatched_items(cases: Seq<UnmatchedBenchmark>, count: int) -> Seq<char>
    decreases count,
{
    if count <= 0 || count > cases.len() {
        Seq::empty()
    } else {
        unmatched_items(cases, count - 1) + unmatched_item(cases[count - 1])
    }
}

/// The unmatched cases of one side as Markdown, if there are any.
pub open spec fn unmatched_block(heading: Seq<char>, cases: Seq<UnmatchedBenchmark>) -> Seq<char> {
    if cases.len() == 0 {
        Seq::empty()
    } else {
        "\n### "@ + heading + "\n\n"@ + unmatched_items(cases, cases.len() as int)
    }
}

pub fn render_unmatched_markdown(
    output: &mut String,
    heading: &str,
    cases: &Vec<UnmatchedBenchmark>,
)
    ensures
        final(output)@ == old(output)@ + unmatched_block(heading@, cases@),
{
    if cases.len() == 0 {
        assert(output@ =~= old(output)@ + unmatched_block(heading@, cases@));
        return;
    }
    let mut part = "\n### ".to_owned();
    part.append(heading);
    part.append("\n\n");
    let ghost head = part@;
    let mut i: usize = 0;
    assert(part@ =~= head + unmatched_items(cases@, 0));
    while i < cases.len()
        invariant
            i <= cases.len(),
            part@ == head + unmatched_items(cases@, i as int),
        decreases cases.len() - i,
    {
        let case = &cases[i];
        let mut item = "- ".to_owned();
        item.append(escape_markdown(case.identity.group()).as_str());
        item.append("/");
        item.append(escape_markdown(case.identity.name()).as_str());
        item.append(" — ");
        item.append(measurement_name(case.measurement.primary.measurement));
        item.append(" ");
        item.append(escape_markdown(case.measurement.primary.unit.as_str()).as_str());
        item.append("\n");
        assert(item@ == unmatched_item(*case));
        part.append(item.as_str());
        i += 1;
        assert(part@ =~= head + unmatched_items(cases@, i as int));
    }
    output.append(part.as_str());
}

/// What is compared, and how it came out, as Markdown.
#[verifier::opaque]
pub open spec fn summary_items(analysis: ComparisonAnalysis, numbers: &NumberTexts) -> Seq<char> {
    let comparison = analysis.comparison;
    "## Benchmark comparison: "@ + escaped(comparison.suite@) + "\n\n- Current: `"@
        + document_type_text(comparison.current.document_type) + "` `"@
        + comparison.current.content_digest@ + "`\n- Baseline: `"@ + document_type_text(
        comparison.baseline.document_type,
    ) + "` `"@ + comparison.baseline.content_digest@ + "`\n- Environment: "@ + escaped(
        environment_text(comparison),
    ) + "\n- Policy: "@ + escaped(policy_text(analysis.policy.policy, numbers)) + "\n- Gate: **"@
        + escaped(gate_text(analysis.policy)) + "**\n\n"@
}

fn render_summary_items(analysis: &ComparisonAnalysis, numbers: &NumberTexts) -> (r: String)
    ensures
        r@ == summary_items(*analysis, numbers),
{
    let comparison = &analysis.comparison;
    let mut r = "## Benchmark comparison: ".to_owned();
    r.append(escape_markdown(comparison.suite.as_str()).as_str());
    r.append("\n\n- Current: `");
    r.append(document_type_name(comparison.current.document_type));
    r.append("` `");
    r.append(comparison.current.content_digest.as_str());
    r.append("`\n- Baseline: `");
    r.append(document_type_name(comparison.baseline.document_type));
    r.append("` `");
    r.append(comparison.baseline.content_digest.as_str());
    r.append("`\n- Environment: ");
    r.append(escape_markdown(environment_description(comparison).as_str()).as_str());
    r.append("\n- Policy: ");
    r.append(escape_markdown(policy_description(&analysis.policy, numbers).as_str()).as_str());
    r.append("\n- Gate: **");
    r.append(escape_markdown(gate_description(&analysis.policy).as_str()).as_str());
    r.append("**\n\n");
    proof {
        reveal(summary_items);
    }
    r
}

/// The table of counts.
#[verifier::opaque]
pub open spec fn counts_table(comparison: ComparisonReport, evaluation: PolicyEvaluation) -> Seq<char> {
    "| Outcome | Count |\n|---|---:|\n"@ + count_row(
        "Matched"@,
        comparison.summary.matched as nat,
    ) + count_row("Added"@, comparison.summary.added as nat) + count_row(
        "Removed"@,
        comparison.summary.removed as nat,
    ) + count_row("Improvements"@, evaluation.summary.improvements as nat) + count_row(
        "Regressions"@,
        evaluation.summary.regressions as nat,
    ) + count_row("No material change"@, evaluation.summary.no_material_change as nat)
        + count_row("Informational"@, evaluation.summary.informational as nat) + count_row(
        "Invalid"@,
        evaluation.summary.invalid as nat,
    ) + count_row("Inconclusive"@, evaluation.summary.inconclusive as nat) + count_row(
        "Unstable"@,
        evaluation.summary.unstable as nat,
    )
}

fn render_counts_table(comparison: &ComparisonReport, evaluation: &PolicyEvaluation) -> (r: String)
    ensures
        r@ == counts_table(*comparison, *evaluation),
{
    let mut r = "| Outcome | Count |\n|---|---:|\n".to_owned();
    push_count_row(&mut r, "Matched", comparison.summary.matched);
    push_count_row(&mut r, "Added", comparison.summary.added);
    push_count_row(&mut r, "Removed", comparison.summary.removed);
    push_count_row(&mut r, "Improvements", evaluation.summary.improvements);
    push_count_row(&mut r, "Regressions", evaluation.summary.regressions);
    push_count_row(&mut r, "No material change", evaluation.summary.no_material_change);
    push_count_row(&mut r, "Informational", evaluation.summary.informational);
    push_count_row(&mut r, "Invalid", evaluation.summary.invalid);
    push_count_row(&mut r, "Inconclusive", evaluation.summary.inconclusive);
    push_count_row(&mut r, "Unstable", evaluation.summary.unstable);
    proof {
        reveal(counts_table);
    }
    r
}

/// A comparison for an annotation or a persisted summary.
pub open spec fn markdown_text(analysis: ComparisonAnalysis, numbers: &NumberTexts) -> Seq<char> {
    let comparison = analysis.comparison;
    summary_items(analysis, numbers) + counts_table(comparison, analysis.policy) + cases_table(
        comparison.matched@,
        analysis.policy,
        numbers,
    ) + unmatched_block("Added cases"@, comparison.added@) + unmatched_block(
        "Removed cases"@,
        comparison.removed@,
    )
}

pub fn render_markdown(analysis: &ComparisonAnalysis, numbers: &NumberTexts) -> (r: String)
    ensures
        r@ == markdown_text(*analysis, numbers),
{
    let comparison = &analysis.comparison;
    let mut output = render_summary_items(analysis, numbers);
    output.append(render_counts_table(comparison, &analysis.policy).as_str());
    push_cases_table(&mut output, &comparison.matched, &analysis.policy, numbers);
    render_unmatched_markdown(&mut output, "Added cases", &comparison.added);
    render_unmatched_markdown(&mut output, "Removed cases", &comparison.removed);
    output
}

impl ComparisonAnalysis {
    /// Bundles a comparison with what a policy makes of it.
    pub fn new(comparison: ComparisonReport, policy: &RegressionPolicy, fractions: &OutlierFractions) -> (r:
        Result<ComparisonAnalysis, PolicyError>)
        ensures
            r is Err == policy.problem() is Some,
            r matches Err(e) ==> e.reason_text() == policy.problem()->0,
            r matches Ok(analysis) ==> {
                &&& analysis.schema_version == ANALYSIS_SCHEMA_VERSION
                &&& analysis.comparison == comparison
                &&& policy::evaluated(analysis.policy, comparison, *policy, *fractions)
            },
    {
        match policy.evaluate(&comparison, fractions) {
            Ok(evaluation) => Ok(
                ComparisonAnalysis {
                    schema_version: ANALYSIS_SCHEMA_VERSION,
                    comparison,
                    policy: evaluation,
                },
            ),
            Err(error) => Err(error),
        }
    }

    pub fn exit_status(&self) -> (r: ComparisonExitStatus)
        ensures
            r == if self.policy.gate_failed {
                ComparisonExitStatus::RegressionGateFailed
            } else {
                ComparisonExitStatus::Success
            },
    {
        self.policy.exit_status()
    }

    pub fn render_terminal(&self, numbers: &NumberTexts) -> (r: String)
        ensures
            r@ == terminal_text(*self, numbers),
    {
        render_terminal(self, numbers)
    }

    pub fn render_markdown(&self, numbers: &NumberTexts) -> (r: String)
        ensures
            r@ == markdown_text(*self, numbers),
    {
        render_markdown(self, numbers)
    }
}

impl ComparisonReport {
    /// Applies a policy; the comparison is kept as it is.
    pub fn analyze(self, policy: &RegressionPolicy, fractions: &OutlierFractions) -> (r: Result<
        ComparisonAnalysis,
        PolicyError,
    >)
        ensures
            r is Err == policy.problem() is Some,
            r matches Err(e) ==> e.reason_text() == policy.problem()->0,
            r matches Ok(analysis) ==> {
                &&& analysis.schema_version == ANALYSIS_SCHEMA_VERSION
                &&& analysis.comparison == self
                &&& policy::evaluated(analysis.policy, self, *policy, *fractions)
            },
    {
        ComparisonAnalysis::new(self, policy, fractions)
    }
}

/// The text of the outcome and the status of the process say the same: both say
/// that it failed, or neither does.
pub proof fn renderers_agree_with_the_status(evaluation: PolicyEvaluation)
    ensures
        evaluation.gate_failed <==> gate_text(evaluation)[0] == 'F',
{
    reveal_strlit("FAIL (");
    reveal_strlit("PASS (gating enabled)");
    reveal_strlit("PASS (advisory only)");
}

} // verus!
