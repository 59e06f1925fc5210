//! The comparison of suites as text.
use crate::comparison::ReportReference;
use crate::numbers::NumberTexts;
use crate::policy::RegressionPolicy;
use crate::render;
use crate::render::{
    describe_thresholds, describe_verdict, document_type_name, escape_markdown, inline_text,
    push_count_row, ComparisonAnalysis,
};
use crate::suite::{SuiteComparisonAnalysis, SuiteComparisonSummary};
use crate::text;
use vstd::prelude::*;

verus! {

/// How the combined outcome is described.
pub open spec fn suite_gate_text(analysis: SuiteComparisonAnalysis) -> Seq<char> {
    render::verdict_text(
        analysis.summary.blocking > 0,
        analysis.summary.blocking as nat,
        analysis.policy.fail_on_regression,
    )
}

pub fn suite_gate_description(analysis: &SuiteComparisonAnalysis) -> (r: String)
    ensures
        r@ == suite_gate_text(*analysis),
{
    describe_verdict(
        analysis.summary.blocking > 0,
        analysis.summary.blocking,
        analysis.policy.fail_on_regression,
    )
}

/// The policy of a comparison of suites.
pub open spec fn suite_policy_text(policy: RegressionPolicy, numbers: &NumberTexts) -> Seq<char> {
    render::thresholds_text(
        if policy.fail_on_regression {
            "gating"@
        } else {
            "advisory"@
        },
        policy,
        numbers,
    )
}

pub fn suite_policy_description(policy: &RegressionPolicy, numbers: &NumberTexts) -> (r: String)
    ensures
        r@ == suite_policy_text(*policy, numbers),
{
    let mode = if policy.fail_on_regression {
        "gating"
    } else {
        "advisory"
    };
    describe_thresholds(mode, policy, numbers)
}

/// The suite of a reference, or that it names none.
pub open spec fn named_suite(reference: ReportReference) -> Seq<char> {
    match reference.suite {
        Some(suite) => suite@,
        None => "<missing>"@,
    }
}

fn suite_or_missing(reference: &ReportReference) -> (r: &str)
    ensures
        r@ == named_suite(*reference),
{
    match &reference.suite {
        Some(suite) => suite.as_str(),
        None => "<missing>",
    }
}

/// A reference on the terminal.
pub open spec fn reference_line(reference: ReportReference) -> Seq<char> {
    "  "@ + render::inline(named_suite(reference)) + " ["@ + render::document_type_text(
        reference.document_type,
    ) + " "@ + reference.content_digest@ + "]\n"@
}

pub open spec fn reference_lines(references: Seq<ReportReference>, count: int) -> Seq<char>
    decreases count,
{
    if count <= 0 || count > references.len() {
        Seq::empty()
    } else {
        reference_lines(references, count - 1) + reference_line(references[count - 1])
    }
}

/// The suites of one side only on the terminal, if there are any.
pub open spec fn reference_section(heading: Seq<char>, references: Seq<ReportReference>) -> Seq<char> {
    if references.len() == 0 {
        Seq::empty()
    } else {
        "\n"@ + heading + ":\n"@ + reference_lines(references, references.len() as int)
    }
}

pub fn render_suite_references_terminal(
    output: &mut String,
    heading: &str,
    references: &Vec<ReportReference>,
)
    ensures
        final(output)@ == old(output)@ + reference_section(heading@, references@),
{
    if references.len() == 0 {
        assert(output@ =~= old(output)@ + reference_section(heading@, references@));
        return;
    }
    let mut part = "\n".to_owned();
    part.append(heading);
    part.append(":\n");
    let ghost head = part@;
    let mut i: usize = 0;
    assert(part@ =~= head + reference_lines(references@, 0));
    while i < references.len()
        invariant
            i <= references.len(),
            part@ == head + reference_lines(references@, i as int),
        decreases references.len() - i,
    {
        let reference = &references[i];
        let mut line = "  ".to_owned();
        line.append(inline_text(suite_or_missing(reference)).as_str());
        line.append(" [");
        line.append(document_type_name(reference.document_type));
        line.append(" ");
        line.append(reference.content_digest.as_str());
        line.append("]\n");
        assert(line@ == reference_line(*reference));
        part.append(line.as_str());
        i += 1;
        assert(part@ =~= head + reference_lines(references@, i as int));
    }
    output.append(part.as_str());
}

/// A reference as an item of Markdown.
pub open spec fn reference_item(reference: ReportReference) -> Seq<char> {
    "- "@ + render::escaped(named_suite(reference)) + " — "@ + render::document_type_text(
        reference.document_type,
    ) + " `"@ + reference.content_digest@ + "`\n"@
}

pub open spec fn reference_items(references: Seq<ReportReference>, count: int) -> Seq<char>
    decreases count,
{
    if count <= 0 || count > references.len() {
        Seq::empty()
    } else {
        reference_items(references, count - 1) + reference_item(references[count - 1])
    }
}

/// The suites of one side only as Markdown, if there are any.
pub open spec fn reference_block(heading: Seq<char>, references: Seq<ReportReference>) -> Seq<char> {
    if references.len() == 0 {
        Seq::empty()
    } else {
        "\n## "@ + heading + "\n\n"@ + reference_items(references, references.len() as int)
    }
}

pub fn render_suite_references_markdown(
    output: &mut String,
    heading: &str,
    references: &Vec<ReportReference>,
)
    ensures
        final(output)@ == old(output)@ + reference_block(heading@, references@),
{
    if references.len() == 0 {
        assert(output@ =~= old(output)@ + reference_block(heading@, references@));
        return;
    }
    let mut part = "\n## ".to_owned();
    part.append(heading);
    part.append("\n\n");
    let ghost head = part@;
    let mut i: usize = 0;
    assert(part@ =~= head + reference_items(references@, 0));
    while i < references.len()
        invariant
            i <= references.len(),
            part@ == head + reference_items(references@, i as int),
        decreases references.len() - i,
    {
        let reference = &references[i];
        let mut item = "- ".to_owned();
        item.append(escape_markdown(suite_or_missing(reference)).as_str());
        item.append(" — ");
        item.append(document_type_name(reference.document_type));
        item.append(" `");
        item.append(reference.content_digest.as_str());
        item.append("`\n");
        assert(item@ == reference_item(*reference));
        part.append(item.as_str());
        i += 1;
        assert(part@ =~= head + reference_items(references@, i as int));
    }
    output.append(part.as_str());
}

/// The counts of suites and cases on the terminal.
#[verifier::opaque]
pub open spec fn suite_count_lines(summary: SuiteComparisonSummary) -> Seq<char> {
    "suites: "@ + text::decimal(summary.matched_suites as nat) + " matched, "@ + text::decimal(
        summary.added_suites as nat,
    ) + " added, "@ + text::decimal(summary.removed_suites as nat) + " removed\ncases: "@
        + text::decimal(summary.matched_cases as nat) + " matched, "@ + text::decimal(
        summary.added_cases as nat,
    ) + " added, "@ + text::decimal(summary.removed_cases as nat) + " removed\n"@
}

fn render_suite_counts(summary: &SuiteComparisonSummary) -> (r: String)
    ensures
        r@ == suite_count_lines(*summary),
{
    let mut r = "suites: ".to_owned();
    r.append(text::decimal_text(summary.matched_suites as u64).as_str());
    r.append(" matched, ");
    r.append(text::decimal_text(summary.added_suites as u64).as_str());
    r.append(" added, ");
    r.append(text::decimal_text(summary.removed_suites as u64).as_str());
    r.append(" removed\ncases: ");
    r.append(text::decimal_text(summary.matched_cases as u64).as_str());
    r.append(" matched, ");
    r.append(text::decimal_text(summary.added_cases as u64).as_str());
    r.append(" added, ");
    r.append(text::decimal_text(summary.removed_cases as u64).as_str());
    r.append(" removed\n");
    proof {
        reveal(suite_count_lines);
    }
    r
}

/// The counts of classifications on the terminal.
#[verifier::opaque]
pub open spec fn suite_class_line(summary: SuiteComparisonSummary) -> Seq<char> {
    "classification: "@ + text::decimal(summary.improvements as nat) + " improvements, "@
        + text::decimal(summary.regressions as nat) + " regressions, "@ + text::decimal(
        summary.no_material_change as nat,
    ) + " unchanged, "@ + text::decimal(summary.informational as nat) + " informational, "@
        + text::decimal(summary.invalid as nat) + " invalid, "@ + text::decimal(
        summary.inconclusive as nat,
    ) + " inconclusive, "@ + text::decimal(summary.unstable as nat) + " unstable\n"@
}

fn render_suite_classes(summary: &SuiteComparisonSummary) -> (r: String)
    ensures
        r@ == suite_class_line(*summary),
{
    let mut r = "classification: ".to_owned();
    r.append(text::decimal_text(summary.improvements as u64).as_str());
    r.append(" improvements, ");
    r.append(text::decimal_text(summary.regressions as u64).as_str());
    r.append(" regressions, ");
    r.append(text::decimal_text(summary.no_material_change as u64).as_str());
    r.append(" unchanged, ");
    r.append(text::decimal_text(summary.informational as u64).as_str());
    r.append(" informational, ");
    r.append(text::decimal_text(summary.invalid as u64).as_str());
    r.append(" invalid, ");
    r.append(text::decimal_text(summary.inconclusive as u64).as_str());
    r.append(" inconclusive, ");
    r.append(text::decimal_text(summary.unstable as u64).as_str());
    r.append(" unstable\n");
    proof {
        reveal(suite_class_line);
    }
    r
}

/// The first `count` comparisons on the terminal, each behind an empty line.
pub open spec fn comparisons_terminal(
    comparisons: Seq<ComparisonAnalysis>,
    count: int,
    numbers: &NumberTexts,
) -> Seq<char>
    decreases count,
{
    if count <= 0 || count > comparisons.len() {
        Seq::empty()
    } else {
        comparisons_terminal(comparisons, count - 1, numbers) + "\n"@ + render::terminal_text(
            comparisons[count - 1],
            numbers,
        )
    }
}

/// The first `count` comparisons as Markdown, each behind an empty line.
pub open spec fn comparisons_markdown(
    comparisons: Seq<ComparisonAnalysis>,
    count: int,
    numbers: &NumberTexts,
) -> Seq<char>
    decreases count,
{
    if count <= 0 || count > comparisons.len() {
        Seq::empty()
    } else {
        comparisons_markdown(comparisons, count - 1, numbers) + "\n"@ + render::markdown_text(
            comparisons[count - 1],
            numbers,
        )
    }
}

/// The table of counts.
#[verifier::opaque]
pub open spec fn suite_counts_table(summary: SuiteComparisonSummary) -> Seq<char> {
    "| Outcome | Count |\n|---|---:|\n"@ + render::count_row(
        "Matched suites"@,
        summary.matched_suites as nat,
    ) + render::count_row("Added suites"@, summary.added_suites as nat) + render::count_row(
        "Removed suites"@,
        summary.removed_suites as nat,
    ) + render::count_row("Matched cases"@, summary.matched_cases as nat) + render::count_row(
        "Added cases"@,
        summary.added_cases as nat,
    ) + render::count_row("Removed cases"@, summary.removed_cases as nat) + render::count_row(
        "Improvements"@,
        summary.improvements as nat,
    ) + render::count_row("Regressions"@, summary.regressions as nat) + render::count_row(
        "No material change"@,
        summary.no_material_change as nat,
    ) + render::count_row("Informational"@, summary.informational as nat) + render::count_row(
        "Invalid"@,
        summary.invalid as nat,
    ) + render::count_row("Inconclusive"@, summary.inconclusive as nat) + render::count_row(
        "Unstable"@,
        summary.unstable as nat,
    ) + render::count_row("Blocking"@, summary.blocking as nat)
}

fn render_suite_counts_table(summary: &SuiteComparisonSummary) -> (r: String)
    ensures
        r@ == suite_counts_table(*summary),
{
    let mut r = "| Outcome | Count |\n|---|---:|\n".to_owned();
    push_count_row(&mut r, "Matched suites", summary.matched_suites);
    push_count_row(&mut r, "Added suites", summary.added_suites);
    push_count_row(&mut r, "Removed suites", summary.removed_suites);
    push_count_row(&mut r, "Matched cases", summary.matched_cases);
    push_count_row(&mut r, "Added cases", summary.added_cases);
    push_count_row(&mut r, "Removed cases", summary.removed_cases);
    push_count_row(&mut r, "Improvements", summary.improvements);
    push_count_row(&mut r, "Regressions", summary.regressions);
    push_count_row(&mut r, "No material change", summary.no_material_change);
    push_count_row(&mut r, "Informational", summary.informational);
    push_count_row(&mut r, "Invalid", summary.invalid);
    push_count_row(&mut r, "Inconclusive", summary.inconclusive);
    push_count_row(&mut r, "Unstable", summary.unstable);
    push_count_row(&mut r, "Blocking", summary.blocking);
    proof {
        reveal(suite_counts_table);
    }
    r
}

/// A comparison of suites for the log of a job.
pub open spec fn suite_terminal_text(analysis: SuiteComparisonAnalysis, numbers: &NumberTexts) -> Seq<char> {
    "micromeasure suite comparison\n"@ + suite_count_lines(analysis.summary) + "policy: "@
        + suite_policy_text(analysis.policy, numbers) + "\n"@ + suite_class_line(analysis.summary)
        + "gate: "@ + suite_gate_text(analysis) + "\n"@ + reference_section(
        "added suites"@,
        analysis.added_suites@,
    ) + reference_section("removed suites"@, analysis.removed_suites@) + comparisons_terminal(
        analysis.comparisons@,
        analysis.comparisons@.len() as int,
        numbers,
    )
}

/// A comparison of suites for an annotation or a persisted summary.
pub open spec fn suite_markdown_text(analysis: SuiteComparisonAnalysis, numbers: &NumberTexts) -> Seq<char> {
    "# Benchmark suite comparison\n\n- Policy: "@ + render::escaped(
        suite_policy_text(analysis.policy, numbers),
    ) + "\n- Gate: **"@ + render::escaped(suite_gate_text(analysis)) + "**\n\n"@
        + suite_counts_table(analysis.summary) + reference_block(
        "Added suites"@,
        analysis.added_suites@,
    ) + reference_block("Removed suites"@, analysis.removed_suites@) + comparisons_markdown(
        analysis.comparisons@,
        analysis.comparisons@.len() as int,
        numbers,
    )
}

impl SuiteComparisonAnalysis {
    #[verifier::rlimit(60)]
    #[verifier::spinoff_prover]
    pub fn render_terminal(&self, numbers: &NumberTexts) -> (r: String)
        ensures
            r@ == suite_terminal_text(*self, numbers),
    {
        let mut output = "micromeasure suite comparison\n".to_owned();
        output.append(render_suite_counts(&self.summary).as_str());
        output.append("policy: ");
        output.append(suite_policy_description(&self.policy, numbers).as_str());
        output.append("\n");
        output.append(render_suite_classes(&self.summary).as_str());
        output.append("gate: ");
        output.append(suite_gate_description(self).as_str());
        output.append("\n");
        render_suite_references_terminal(&mut output, "added suites", &self.added_suites);
        render_suite_references_terminal(&mut output, "removed suites", &self.removed_suites);
        let ghost head = output@;
        let mut i: usize = 0;
        assert(output@ =~= head + comparisons_terminal(self.comparisons@, 0, numbers));
        while i < self.comparisons.len()
            invariant
                i <= self.comparisons.len(),
                output@ == head + comparisons_terminal(self.comparisons@, i as int, numbers),
            decreases self.comparisons.len() - i,
        {
            output.append("\n");
            output.append(self.comparisons[i].render_terminal(numbers).as_str());
            i += 1;
            assert(output@ =~= head + comparisons_terminal(self.comparisons@, i as int, numbers));
        }
        output
    }

    #[verifier::rlimit(60)]
    #[verifier::spinoff_prover]
    pub fn render_markdown(&self, numbers: &NumberTexts) -> (r: String)
        ensures
            r@ == suite_markdown_text(*self, numbers),
    {
        let mut output = "# Benchmark suite comparison\n\n- Policy: ".to_owned();
        output.append(
            escape_markdown(suite_policy_description(&self.policy, numbers).as_str()).as_str(),
        );
        output.append("\n- Gate: **");
        output.append(escape_markdown(suite_gate_description(self).as_str()).as_str());
        output.append("**\n\n");
        output.append(render_suite_counts_table(&self.summary).as_str());
        render_suite_references_markdown(&mut output, "Added suites", &self.added_suites);
        render_suite_references_markdown(&mut output, "Removed suites", &self.removed_suites);
        let ghost head = output@;
        let mut i: usize = 0;
        assert(output@ =~= head + comparisons_markdown(self.comparisons@, 0, numbers));
        while i < self.comparisons.len()
            invariant
                i <= self.comparisons.len(),
                output@ == head + comparisons_markdown(self.comparisons@, i as int, numbers),
            decreases self.comparisons.len() - i,
        {
            output.append("\n");
            output.append(self.comparisons[i].render_markdown(numbers).as_str());
            i += 1;
            assert(output@ =~= head + comparisons_markdown(self.comparisons@, i as int, numbers));
        }
        output
    }
}

} // verus!
