//! Comparing several reports at once, each with the one of the same suite.
use crate::comparison::ReportReference;
use crate::policy::{ComparisonExitStatus, RegressionPolicy};
use crate::render::ComparisonAnalysis;
use vstd::prelude::*;

pub mod compare;
pub mod error;
pub mod load;
pub mod show;

verus! {

/// The schema version of a comparison of suites.
pub const SUITE_ANALYSIS_SCHEMA_VERSION: u32 = 1;

/// What a set of reports is read for.
#[derive(Clone, Copy, Debug, PartialEq, Eq, Structural)]
pub enum ReportInputRole {
    Current,
    Baseline,
    Validation,
}

impl ReportInputRole {
    pub open spec fn text(self) -> Seq<char> {
        match self {
            ReportInputRole::Current => "current"@,
            ReportInputRole::Baseline => "baseline"@,
            ReportInputRole::Validation => "validation"@,
        }
    }

    pub fn name(self) -> (r: &'static str)
        ensures
            r@ == self.text(),
    {
        match self {
            ReportInputRole::Current => "current",
            ReportInputRole::Baseline => "baseline",
            ReportInputRole::Validation => "validation",
        }
    }
}

/// The counts of all suites together.
#[derive(Clone, Copy, Debug, PartialEq, Eq, Structural)]
pub struct SuiteComparisonSummary {
    pub matched_suites: usize,
    pub added_suites: usize,
    pub removed_suites: usize,
    pub matched_cases: usize,
    pub added_cases: usize,
    pub removed_cases: usize,
    pub improvements: usize,
    pub regressions: usize,
    pub no_material_change: usize,
    pub informational: usize,
    pub invalid: usize,
    pub inconclusive: usize,
    pub unstable: usize,
    pub blocking: usize,
}

/// What became of every suite.
#[derive(Debug)]
pub struct SuiteComparisonAnalysis {
    pub schema_version: u32,
    pub policy: RegressionPolicy,
    pub comparisons: Vec<ComparisonAnalysis>,
    pub added_suites: Vec<ReportReference>,
    pub removed_suites: Vec<ReportReference>,
    pub summary: SuiteComparisonSummary,
}

/// The sum of one count over all comparisons.
pub open spec fn total(
    comparisons: Seq<ComparisonAnalysis>,
    part: spec_fn(ComparisonAnalysis) -> usize,
) -> nat
    decreases comparisons.len(),
{
    if comparisons.len() == 0 {
        0
    } else {
        total(comparisons.drop_last(), part) + part(comparisons.last()) as nat
    }
}

/// A sum as far as it can be held: the largest count where it is larger.
pub open spec fn held(sum: nat) -> usize {
    if sum > usize::MAX {
        usize::MAX
    } else {
        sum as usize
    }
}

pub open spec fn matched_cases_of(analysis: ComparisonAnalysis) -> usize {
    analysis.comparison.summary.matched
}

pub open spec fn added_cases_of(analysis: ComparisonAnalysis) -> usize {
    analysis.comparison.summary.added
}

pub open spec fn removed_cases_of(analysis: ComparisonAnalysis) -> usize {
    analysis.comparison.summary.removed
}

pub open spec fn blocking_of(analysis: ComparisonAnalysis) -> usize {
    analysis.policy.summary.blocking
}

/// The counts of all suites together.
pub open spec fn summary_of(
    comparisons: Seq<ComparisonAnalysis>,
    added: nat,
    removed: nat,
) -> SuiteComparisonSummary {
    SuiteComparisonSummary {
        matched_suites: comparisons.len() as usize,
        added_suites: added as usize,
        removed_suites: removed as usize,
        matched_cases: held(total(comparisons, |a: ComparisonAnalysis| matched_cases_of(a))),
        added_cases: held(total(comparisons, |a: ComparisonAnalysis| added_cases_of(a))),
        removed_cases: held(total(comparisons, |a: ComparisonAnalysis| removed_cases_of(a))),
        improvements: held(
            total(comparisons, |a: ComparisonAnalysis| a.policy.summary.improvements),
        ),
        regressions: held(
            total(comparisons, |a: ComparisonAnalysis| a.policy.summary.regressions),
        ),
        no_material_change: held(
            total(comparisons, |a: ComparisonAnalysis| a.policy.summary.no_material_change),
        ),
        informational: held(
            total(comparisons, |a: ComparisonAnalysis| a.policy.summary.informational),
        ),
        invalid: held(total(comparisons, |a: ComparisonAnalysis| a.policy.summary.invalid)),
        inconclusive: held(
            total(comparisons, |a: ComparisonAnalysis| a.policy.summary.inconclusive),
        ),
        unstable: held(total(comparisons, |a: ComparisonAnalysis| a.policy.summary.unstable)),
        blocking: held(total(comparisons, |a: ComparisonAnalysis| blocking_of(a))),
    }
}

fn add_held(a: usize, b: usize) -> (r: usize)
    ensures
        r == held((a + b) as nat),
{
    if b > usize::MAX - a {
        usize::MAX
    } else {
        a + b
    }
}

proof fn total_step(
    comparisons: Seq<ComparisonAnalysis>,
    part: spec_fn(ComparisonAnalysis) -> usize,
    i: int,
)
    requires
        0 <= i < comparisons.len(),
    ensures
        held(total(comparisons.take(i + 1), part)) == held(
            (held(total(comparisons.take(i), part)) + part(comparisons[i])) as nat,
        ),
{
    assert(comparisons.take(i + 1).drop_last() =~= comparisons.take(i));
}

/// Adds up the counts of all suites.
#[verifier::rlimit(40)]
pub fn summarize(
    comparisons: &Vec<ComparisonAnalysis>,
    added_suites: &Vec<ReportReference>,
    removed_suites: &Vec<ReportReference>,
) -> (r: SuiteComparisonSummary)
    ensures
        r == summary_of(comparisons@, added_suites@.len(), removed_suites@.len()),
{
    let mut s = SuiteComparisonSummary {
        matched_suites: comparisons.len(),
        added_suites: added_suites.len(),
        removed_suites: removed_suites.len(),
        matched_cases: 0,
        added_cases: 0,
        removed_cases: 0,
        improvements: 0,
        regressions: 0,
        no_material_change: 0,
        informational: 0,
        invalid: 0,
        inconclusive: 0,
        unstable: 0,
        blocking: 0,
    };
    let ghost first = s;
    let mut i: usize = 0;
    while i < comparisons.len()
        invariant
            i <= comparisons.len(),
            first.matched_suites == comparisons@.len(),
            first.added_suites == added_suites@.len(),
            first.removed_suites == removed_suites@.len(),
            s == (SuiteComparisonSummary {
                matched_suites: first.matched_suites,
                ..summary_of(
                    comparisons@.take(i as int),
                    added_suites@.len(),
                    removed_suites@.len(),
                )
            }),
        decreases comparisons.len() - i,
    {
        let a = &comparisons[i];
        proof {
            let c = comparisons@;
            let k = i as int;
            total_step(c, |a: ComparisonAnalysis| matched_cases_of(a), k);
            total_step(c, |a: ComparisonAnalysis| added_cases_of(a), k);
            total_step(c, |a: ComparisonAnalysis| removed_cases_of(a), k);
            total_step(c, |a: ComparisonAnalysis| a.policy.summary.improvements, k);
            total_step(c, |a: ComparisonAnalysis| a.policy.summary.regressions, k);
            total_step(c, |a: ComparisonAnalysis| a.policy.summary.no_material_change, k);
            total_step(c, |a: ComparisonAnalysis| a.policy.summary.informational, k);
            total_step(c, |a: ComparisonAnalysis| a.policy.summary.invalid, k);
            total_step(c, |a: ComparisonAnalysis| a.policy.summary.inconclusive, k);
            total_step(c, |a: ComparisonAnalysis| a.policy.summary.unstable, k);
            total_step(c, |a: ComparisonAnalysis| blocking_of(a), k);
        }
        s = SuiteComparisonSummary {
            matched_suites: s.matched_suites,
            added_suites: s.added_suites,
            removed_suites: s.removed_suites,
            matched_cases: add_held(s.matched_cases, a.comparison.summary.matched),
            added_cases: add_held(s.added_cases, a.comparison.summary.added),
            removed_cases: add_held(s.removed_cases, a.comparison.summary.removed),
            improvements: add_held(s.improvements, a.policy.summary.improvements),
            regressions: add_held(s.regressions, a.policy.summary.regressions),
            no_material_change: add_held(
                s.no_material_change,
                a.policy.summary.no_material_change,
            ),
            informational: add_held(s.informational, a.policy.summary.informational),
            invalid: add_held(s.invalid, a.policy.summary.invalid),
            inconclusive: add_held(s.inconclusive, a.policy.summary.inconclusive),
            unstable: add_held(s.unstable, a.policy.summary.unstable),
            blocking: add_held(s.blocking, a.policy.summary.blocking),
        };
        i += 1;
    }
    assert(comparisons@.take(comparisons@.len() as int) =~= comparisons@);
    s
}

impl SuiteComparisonAnalysis {
    pub fn exit_status(&self) -> (r: ComparisonExitStatus)
        ensures
            r == if self.summary.blocking > 0 {
                ComparisonExitStatus::RegressionGateFailed
            } else {
                ComparisonExitStatus::Success
            },
    {
        if self.summary.blocking > 0 {
            ComparisonExitStatus::RegressionGateFailed
        } else {
            ComparisonExitStatus::Success
        }
    }
}

/// The combined outcome is a failure exactly when some suite has a blocking case.
pub proof fn one_blocking_suite_is_enough(comparisons: Seq<ComparisonAnalysis>, added: nat, removed: nat)
    ensures
        summary_of(comparisons, added, removed).blocking > 0 <==> exists|i: int|
            0 <= i < comparisons.len() && blocking_of(#[trigger] comparisons[i]) > 0,
    decreases comparisons.len(),
{
    let part = |a: ComparisonAnalysis| blocking_of(a);
    if comparisons.len() > 0 {
        let front = comparisons.drop_last();
        one_blocking_suite_is_enough(front, added, removed);
        if blocking_of(comparisons.last()) > 0 {
            assert(blocking_of(comparisons[comparisons.len() - 1]) > 0);
        }
        if exists|i: int| 0 <= i < front.len() && blocking_of(#[trigger] front[i]) > 0 {
            let i = choose|i: int| 0 <= i < front.len() && blocking_of(#[trigger] front[i]) > 0;
            assert(blocking_of(comparisons[i]) > 0);
        }
        if exists|i: int| 0 <= i < comparisons.len() && blocking_of(#[trigger] comparisons[i]) > 0 {
            let i = choose|i: int|
                0 <= i < comparisons.len() && blocking_of(#[trigger] comparisons[i]) > 0;
            if i < comparisons.len() - 1 {
                assert(blocking_of(front[i]) > 0);
            }
        }
    }
}

} // verus!
