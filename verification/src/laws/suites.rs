//! What becomes of the suites of two inputs.
use crate::comparison::document::ReportDocument;
use crate::comparison::engine::Changes;
use crate::comparison::normalize::SampleStatistics;
use crate::comparison::{ComparisonOptions, ReportDocumentType, ReportReference};
use crate::laws::comparison as documents;
use crate::policy::{ComparisonExitStatus, OutlierFractions, RegressionPolicy};
use crate::render::ComparisonAnalysis;
use crate::suite;
use crate::suite::compare;
use crate::suite::compare::compare_report_inputs;
use crate::suite::error::{SuiteComparisonError, SuiteFailure};
use crate::suite::load;
use crate::suite::load::{
    load_report_input, LoadedReport, LoadedReportInput, ReadFile, ReportInputKind,
};
use crate::suite::{
    summarize, ReportInputRole, SuiteComparisonAnalysis, SuiteComparisonSummary,
};
use crate::text;
use vstd::prelude::*;

verus! {

/// The least of a sum and of the largest count that can be held.
pub open spec fn capped(sum: int) -> int {
    if sum > usize::MAX {
        usize::MAX as int
    } else {
        sum
    }
}

/// One more suite adds its counts to the sums, each to its own, and no suites
/// have none.
pub proof fn summaries_add_one_suite_at_a_time(
    comparisons: &Vec<ComparisonAnalysis>,
    more: &Vec<ComparisonAnalysis>,
    one: ComparisonAnalysis,
    added: &Vec<ReportReference>,
    removed: &Vec<ReportReference>,
    before: SuiteComparisonSummary,
    after: SuiteComparisonSummary,
)
    requires
        call_ensures(summarize, (comparisons, added, removed), before),
        call_ensures(summarize, (more, added, removed), after),
        more@ == comparisons@.push(one),
    ensures
        after.matched_suites == more@.len(),
        after.added_suites == added@.len(),
        after.removed_suites == removed@.len(),
        after.matched_cases == capped(before.matched_cases + one.comparison.summary.matched),
        after.added_cases == capped(before.added_cases + one.comparison.summary.added),
        after.removed_cases == capped(before.removed_cases + one.comparison.summary.removed),
        after.improvements == capped(before.improvements + one.policy.summary.improvements),
        after.regressions == capped(before.regressions + one.policy.summary.regressions),
        after.no_material_change == capped(
            before.no_material_change + one.policy.summary.no_material_change,
        ),
        after.informational == capped(before.informational + one.policy.summary.informational),
        after.invalid == capped(before.invalid + one.policy.summary.invalid),
        after.inconclusive == capped(before.inconclusive + one.policy.summary.inconclusive),
        after.unstable == capped(before.unstable + one.policy.summary.unstable),
        after.blocking == capped(before.blocking + one.policy.summary.blocking),
        comparisons@.len() == 0 ==> before.matched_cases == 0 && before.added_cases == 0
            && before.removed_cases == 0 && before.improvements == 0 && before.regressions == 0
            && before.no_material_change == 0 && before.informational == 0 && before.invalid == 0
            && before.inconclusive == 0 && before.unstable == 0 && before.blocking == 0,
{
    assert(more@.drop_last() =~= comparisons@);
    assert(more@.len() == more.len());
    assert(added@.len() == added.len());
    assert(removed@.len() == removed.len());
}

proof fn blocking_sums_show(comparisons: Seq<ComparisonAnalysis>, added: nat, removed: nat)
    ensures
        suite::summary_of(comparisons, added, removed).blocking > 0 <==> exists|i: int|
            0 <= i < comparisons.len() && (#[trigger] comparisons[i]).policy.summary.blocking > 0,
{
    suite::one_blocking_suite_is_enough(comparisons, added, removed);
    if exists|i: int|
        0 <= i < comparisons.len() && suite::blocking_of(#[trigger] comparisons[i]) > 0 {
        let i = choose|i: int|
            0 <= i < comparisons.len() && suite::blocking_of(#[trigger] comparisons[i]) > 0;
        assert(comparisons[i].policy.summary.blocking > 0);
    }
    if exists|i: int|
        0 <= i < comparisons.len() && (#[trigger] comparisons[i]).policy.summary.blocking > 0 {
        let i = choose|i: int|
            0 <= i < comparisons.len() && (#[trigger] comparisons[i]).policy.summary.blocking > 0;
        assert(suite::blocking_of(comparisons[i]) > 0);
    }
}

/// The suite of a loaded report.
pub open spec fn suite_of(loaded: LoadedReport) -> Option<Seq<char>> {
    documents::suite(loaded.document)
}

/// Whether some reports have one of a suite.
pub open spec fn has(documents: Seq<LoadedReport>, suite: Option<Seq<char>>) -> bool {
    exists|i: int| 0 <= i < documents.len() && suite_of(#[trigger] documents[i]) == suite
}

proof fn suites_of_comparable_reports(documents: Seq<LoadedReport>)
    requires
        load::all_comparable(documents),
    ensures
        forall|i: int|
            0 <= i < documents.len() ==> suite_of(#[trigger] documents[i]) == Some(
                documents[i].suite(),
            ),
{
    assert forall|i: int| 0 <= i < documents.len() implies suite_of(#[trigger] documents[i])
        == Some(documents[i].suite()) by {
        assert(documents[i].document.lone_obstacle() is None);
    }
}

proof fn having_is_finding(documents: Seq<LoadedReport>, suite: Seq<char>)
    requires
        load::all_comparable(documents),
    ensures
        compare::has_suite(documents, suite) <==> has(documents, Some(suite)),
{
    suites_of_comparable_reports(documents);
    compare::place_finds_suites(documents, suite, 0);
    if compare::has_suite(documents, suite) {
        let i = compare::suite_place(documents, suite, 0)->0;
        assert(suite_of(documents[i]) == Some(suite));
    }
}

proof fn shared_places_are_shared(
    documents: Seq<LoadedReport>,
    others: Seq<LoadedReport>,
    count: int,
)
    requires
        0 <= count <= documents.len(),
    ensures
        forall|k: int|
            0 <= k < compare::shared(documents, others, count).len() ==> 0
                <= #[trigger] compare::shared(documents, others, count)[k] < count
                && compare::has_suite(
                others,
                documents[compare::shared(documents, others, count)[k]].suite(),
            ),
        forall|k: int|
            0 <= k < compare::lacking(documents, others, count).len() ==> 0
                <= #[trigger] compare::lacking(documents, others, count)[k] < count
                && !compare::has_suite(
                others,
                documents[compare::lacking(documents, others, count)[k]].suite(),
            ),
        forall|i: int|
            0 <= i < count && compare::has_suite(others, (#[trigger] documents[i]).suite())
                ==> compare::shared(documents, others, count).contains(i),
        forall|i: int|
            0 <= i < count && !compare::has_suite(others, (#[trigger] documents[i]).suite())
                ==> compare::lacking(documents, others, count).contains(i),
    decreases count,
{
    if count > 0 {
        shared_places_are_shared(documents, others, count - 1);
        let a = compare::shared(documents, others, count - 1);
        let b = compare::lacking(documents, others, count - 1);
        assert forall|i: int|
            0 <= i < count && compare::has_suite(others, (
            #[trigger] documents[i]).suite()) implies compare::shared(
            documents,
            others,
            count,
        ).contains(i) by {
            let all = compare::shared(documents, others, count);
            if i == count - 1 {
                assert(all[all.len() - 1] == i);
            } else {
                assert(a.contains(i));
                let k = choose|k: int| 0 <= k < a.len() && a[k] == i;
                assert(all[k] == i);
            }
        }
        assert forall|i: int|
            0 <= i < count && !compare::has_suite(others, (
            #[trigger] documents[i]).suite()) implies compare::lacking(
            documents,
            others,
            count,
        ).contains(i) by {
            let all = compare::lacking(documents, others, count);
            if i == count - 1 {
                assert(all[all.len() - 1] == i);
            } else {
                assert(b.contains(i));
                let k = choose|k: int| 0 <= k < b.len() && b[k] == i;
                assert(all[k] == i);
            }
        }
    }
}

/// The suites that both inputs have are compared, those that only the current
/// input has are added, and those that only the baseline has removed, whatever
/// the suites; where both must have the same suites, none is added or removed.
pub proof fn suites_are_compared_added_or_removed(
    current: &LoadedReportInput,
    baseline: &LoadedReportInput,
    options: &ComparisonOptions,
    policy: &RegressionPolicy,
    statistics: &SampleStatistics,
    changes: &Changes,
    fractions: &OutlierFractions,
    result: Result<SuiteComparisonAnalysis, SuiteComparisonError>,
)
    requires
        current.well_formed(),
        baseline.well_formed(),
        call_ensures(
            compare_report_inputs,
            (current, baseline, options, policy, statistics, changes, fractions),
            result,
        ),
        result is Ok,
    ensures
        ({
            let analysis = result->Ok_0;
            &&& analysis.comparisons@.len() + analysis.added_suites@.len()
                == current.documents@.len()
            &&& forall|k: int|
                0 <= k < analysis.comparisons@.len() ==> has(
                    current.documents@,
                    Some((#[trigger] analysis.comparisons@[k]).comparison.suite@),
                ) && has(
                    baseline.documents@,
                    Some(analysis.comparisons@[k].comparison.suite@),
                )
            &&& forall|i: int|
                0 <= i < current.documents@.len() && has(
                    baseline.documents@,
                    suite_of(#[trigger] current.documents@[i]),
                ) ==> exists|k: int|
                    0 <= k < analysis.comparisons@.len() && Some(
                        (#[trigger] analysis.comparisons@[k]).comparison.suite@,
                    ) == suite_of(current.documents@[i])
            &&& options.require_same_suite_set ==> analysis.added_suites@.len() == 0
                && analysis.removed_suites@.len() == 0
            &&& analysis.policy == *policy
            &&& forall|k: int|
                0 <= k < analysis.comparisons@.len() ==> (
                #[trigger] analysis.comparisons@[k]).policy.policy == *policy
            &&& analysis.summary.matched_suites == analysis.comparisons@.len()
            &&& analysis.summary.added_suites == analysis.added_suites@.len()
            &&& analysis.summary.removed_suites == analysis.removed_suites@.len()
        }),
{
    let analysis = result->Ok_0;
    let c = current.documents@;
    let b = baseline.documents@;
    let n = c.len() as int;
    shared_places_are_shared(c, b, n);
    compare::every_suite_is_accounted_for(c, b, n);
    suites_of_comparable_reports(c);
    suites_of_comparable_reports(b);
    assert(analysis.comparisons@.len() == analysis.comparisons.len());
    assert(analysis.added_suites@.len() == analysis.added_suites.len());
    assert(analysis.removed_suites@.len() == analysis.removed_suites.len());
    let places = compare::shared(c, b, n);
    assert forall|k: int| 0 <= k < analysis.comparisons@.len() implies Some(
        (#[trigger] analysis.comparisons@[k]).comparison.suite@,
    ) == suite_of(c[places[k]]) && analysis.comparisons@[k].policy.policy == *policy by {
        let i = places[k];
        compare::place_finds_suites(b, c[i].suite(), 0);
        let j = compare::suite_place(b, c[i].suite(), 0)->0;
        assert(compare::analysis_of(
            analysis.comparisons@[k],
            c[i],
            b[j],
            *options,
            *policy,
            *statistics,
            *changes,
            *fractions,
        ));
        compared_suites_are_named(
            analysis.comparisons@[k].comparison,
            c[i].document,
            b[j].document,
            *options,
            *statistics,
            *changes,
        );
    }
    assert forall|k: int| 0 <= k < analysis.comparisons@.len() implies has(
        c,
        Some((#[trigger] analysis.comparisons@[k]).comparison.suite@),
    ) && has(b, Some(analysis.comparisons@[k].comparison.suite@)) by {
        let i = places[k];
        assert(suite_of(c[i]) == Some(analysis.comparisons@[k].comparison.suite@));
        having_is_finding(b, c[i].suite());
    }
    assert forall|i: int| 0 <= i < c.len() && has(b, suite_of(#[trigger] c[i])) implies exists|
        k: int,
    |
        0 <= k < analysis.comparisons@.len() && Some(
            (#[trigger] analysis.comparisons@[k]).comparison.suite@,
        ) == suite_of(c[i]) by {
        having_is_finding(b, c[i].suite());
        assert(places.contains(i));
        let k = choose|k: int| 0 <= k < places.len() && places[k] == i;
        assert(Some(analysis.comparisons@[k].comparison.suite@) == suite_of(c[i]));
    }
}

proof fn compared_suites_are_named(
    report: crate::comparison::ComparisonReport,
    current: ReportDocument,
    baseline: ReportDocument,
    options: ComparisonOptions,
    statistics: SampleStatistics,
    changes: Changes,
)
    requires
        crate::comparison::compare::compared(
            report,
            current,
            baseline,
            options,
            statistics,
            changes,
        ),
    ensures
        report.suite@ == current.standing().suite,
{
    let (c, b) = choose|
        c: crate::comparison::normalize::NormalizedReport,
        b: crate::comparison::normalize::NormalizedReport,
    | #[trigger]
        current.normalizes_to(c, statistics) && #[trigger] baseline.normalizes_to(b, statistics)
            && crate::comparison::engine::comparison_of(
            report,
            c,
            current.spec_reference(),
            b,
            baseline.spec_reference(),
            options,
            changes,
        );
    crate::comparison::compare::normalizing_keeps_standing(current, c, statistics);
}

/// Which kind of report one is said to be where it is referred to.
pub open spec fn kind_of(loaded: LoadedReport) -> ReportDocumentType {
    match loaded.document {
        ReportDocument::Native { reference, .. } => reference.document_type,
        ReportDocument::Series { reference, .. } => reference.document_type,
    }
}

proof fn listed_suites_are_lacking(documents: Seq<LoadedReport>, others: Seq<LoadedReport>)
    requires
        load::all_comparable(documents),
        load::all_comparable(others),
    ensures
        forall|suite: Seq<char>| #[trigger]
            compare::suites_at(documents, compare::only_in(documents, others)).contains(suite)
                <==> has(documents, Some(suite)) && !(has(others, Some(suite))),
{
    let n = documents.len() as int;
    let places = compare::only_in(documents, others);
    let names = compare::suites_at(documents, places);
    shared_places_are_shared(documents, others, n);
    suites_of_comparable_reports(documents);
    assert forall|suite: Seq<char>| #[trigger] names.contains(suite) <==> has(
        documents,
        Some(suite),
    ) && !(has(others, Some(suite))) by {
        having_is_finding(others, suite);
        if names.contains(suite) {
            let k = choose|k: int| 0 <= k < names.len() && names[k] == suite;
            assert(suite_of(documents[places[k]]) == Some(suite));
        }
        if has(documents, Some(suite)) && !(has(others, Some(suite))) {
            let i = choose|i: int|
                0 <= i < documents.len() && suite_of(#[trigger] documents[i]) == Some(suite);
            assert(documents[i].suite() == suite);
            assert(places.contains(i));
            let k = choose|k: int| 0 <= k < places.len() && places[k] == i;
            assert(names[k] == suite);
        }
    }
}

proof fn failing_suites_differ(
    current: Seq<LoadedReport>,
    baseline: Seq<LoadedReport>,
    options: ComparisonOptions,
    policy: RegressionPolicy,
    from: int,
)
    requires
        load::all_comparable(current),
        load::all_comparable(baseline),
        0 <= from <= current.len(),
    ensures
        compare::first_suite_failure(current, baseline, options, policy, from) matches Some(
            failure,
        ) ==> {
            &&& !(failure is SuiteSetsDiffer)
            &&& failure matches SuiteFailure::KindsDiffer { suite, current: a, baseline: b } ==> (
            exists|i: int, j: int|
                0 <= i < current.len() && 0 <= j < baseline.len() && suite_of(
                    #[trigger] current[i],
                ) == Some(suite) && suite_of(#[trigger] baseline[j]) == Some(suite)
                    && kind_of(current[i]) == a && kind_of(baseline[j]) == b && a != b)
        },
        compare::first_suite_failure(current, baseline, options, policy, from) is None ==> (forall|
            i: int,
            j: int,
        |
            from <= i < current.len() && 0 <= j < baseline.len() && suite_of(
                #[trigger] current[i],
            ) == suite_of(#[trigger] baseline[j]) ==> exists|m: int|
                0 <= m < baseline.len() && suite_of(#[trigger] baseline[m]) == suite_of(current[i])
                    && kind_of(baseline[m]) == kind_of(current[i])),
    decreases current.len() - from,
{
    if from < current.len() {
        failing_suites_differ(current, baseline, options, policy, from + 1);
        suites_of_comparable_reports(current);
        suites_of_comparable_reports(baseline);
        let suite = current[from].suite();
        compare::place_finds_suites(baseline, suite, 0);
        assert(suite_of(current[from]) == Some(suite));
        if compare::suite_place(baseline, suite, 0) is Some {
            let m = compare::suite_place(baseline, suite, 0)->0;
            assert(suite_of(baseline[m]) == Some(suite));
            assert(kind_of(current[from])
                == current[from].document.spec_reference().document_type);
            assert(kind_of(baseline[m]) == baseline[m].document.spec_reference().document_type);
        }
    }
}

/// A refusal to compare the suites of two inputs is true: the suites named as
/// added are those that only the current input has, those named as removed those
/// that only the baseline has, and the kinds named are those of the two reports
/// of a suite that both inputs have. The inputs need the same suites only where
/// that is asked for, and where it is they are refused unless they have them.
pub proof fn suite_refusals_are_true(
    current: &LoadedReportInput,
    baseline: &LoadedReportInput,
    options: &ComparisonOptions,
    policy: &RegressionPolicy,
    statistics: &SampleStatistics,
    changes: &Changes,
    fractions: &OutlierFractions,
    result: Result<SuiteComparisonAnalysis, SuiteComparisonError>,
)
    requires
        current.well_formed(),
        baseline.well_formed(),
        call_ensures(
            compare_report_inputs,
            (current, baseline, options, policy, statistics, changes, fractions),
            result,
        ),
    ensures
        result matches Err(SuiteComparisonError::SuiteSetMismatch { added, removed }) ==> {
            &&& options.require_same_suite_set
            &&& added@.len() + removed@.len() > 0
            &&& forall|suite: Seq<char>| #[trigger]
                text::texts(added@).contains(suite) <==> has(current.documents@, Some(suite))
                    && !(has(baseline.documents@, Some(suite)))
            &&& forall|suite: Seq<char>| #[trigger]
                text::texts(removed@).contains(suite) <==> has(baseline.documents@, Some(suite))
                    && !(has(current.documents@, Some(suite)))
        },
        result matches Err(
            SuiteComparisonError::DocumentTypeMismatch { suite, current: a, baseline: b },
        ) ==> a != b && (exists|i: int, j: int|
            0 <= i < current.documents@.len() && 0 <= j < baseline.documents@.len() && suite_of(
                #[trigger] current.documents@[i],
            ) == Some(suite@) && suite_of(#[trigger] baseline.documents@[j]) == Some(suite@)
                && kind_of(current.documents@[i]) == a && kind_of(baseline.documents@[j]) == b),
        result is Ok && options.require_same_suite_set ==> forall|suite: Option<Seq<char>>| #[trigger]
            has(current.documents@, suite) <==> has(baseline.documents@, suite),
        result is Ok && current.kind == ReportInputKind::File && baseline.kind
            == ReportInputKind::File ==> suite_of(current.documents@[0]) == suite_of(
            baseline.documents@[0],
        ),
        result is Ok ==> forall|i: int, j: int|
            0 <= i < current.documents@.len() && 0 <= j < baseline.documents@.len() && suite_of(
                #[trigger] current.documents@[i],
            ) == suite_of(#[trigger] baseline.documents@[j]) ==> exists|m: int|
                0 <= m < baseline.documents@.len() && suite_of(#[trigger] baseline.documents@[m])
                    == suite_of(current.documents@[i]) && kind_of(baseline.documents@[m])
                    == kind_of(current.documents@[i]),
{
    let c = current.documents@;
    let b = baseline.documents@;
    listed_suites_are_lacking(c, b);
    listed_suites_are_lacking(b, c);
    failing_suites_differ(c, b, *options, *policy, 0);
    suites_of_comparable_reports(c);
    suites_of_comparable_reports(b);
    match result {
        Err(SuiteComparisonError::SuiteSetMismatch { added, removed }) => {
            assert(text::texts(added@).len() == added@.len());
            assert(text::texts(removed@).len() == removed@.len());
        },
        Err(_) => {},
        Ok(_) => {
            if options.require_same_suite_set {
                let added = compare::suites_at(c, compare::only_in(c, b));
                let removed = compare::suites_at(b, compare::only_in(b, c));
                assert(added.len() == 0 && removed.len() == 0);
                assert forall|suite: Option<Seq<char>>| #[trigger] has(c, suite) <==> has(
                    b,
                    suite,
                ) by {
                    if suite is Some {
                        assert(!added.contains(suite->0));
                        assert(!removed.contains(suite->0));
                    }
                }
            }
        },
    }
}

/// A comparison of suites fails exactly where a suite has a case that blocks.
pub proof fn one_suite_can_fail_the_comparison(
    analysis: &SuiteComparisonAnalysis,
    status: ComparisonExitStatus,
    summary: SuiteComparisonSummary,
)
    requires
        call_ensures(SuiteComparisonAnalysis::exit_status, (analysis,), status),
        call_ensures(
            summarize,
            (&analysis.comparisons, &analysis.added_suites, &analysis.removed_suites),
            summary,
        ),
        analysis.summary == summary,
    ensures
        status == ComparisonExitStatus::RegressionGateFailed <==> exists|i: int|
            0 <= i < analysis.comparisons@.len() && (
            #[trigger] analysis.comparisons@[i]).policy.summary.blocking > 0,
        status == ComparisonExitStatus::RegressionGateFailed || status
            == ComparisonExitStatus::Success,
{
    blocking_sums_show(
        analysis.comparisons@,
        analysis.added_suites@.len(),
        analysis.removed_suites@.len(),
    );
}

} // verus!
