//! Comparing the reports of two inputs, suite by suite.
use crate::comparison::compare;
use crate::comparison::compare::compare_reports;
use crate::comparison::engine::Changes;
use crate::comparison::error::{ComparisonError, Obstacle};
use crate::comparison::normalize::SampleStatistics;
use crate::comparison::{ComparisonOptions, ReportReference};
use crate::policy;
use crate::policy::{OutlierFractions, RegressionPolicy};
use crate::render::{ComparisonAnalysis, ANALYSIS_SCHEMA_VERSION};
use crate::suite;
use crate::suite::error::{SuiteComparisonError, SuiteFailure};
use crate::suite::load;
use crate::suite::load::{LoadedReport, LoadedReportInput, ReportInputKind};
use crate::suite::{summarize, SuiteComparisonAnalysis, SUITE_ANALYSIS_SCHEMA_VERSION};
use crate::text;
use vstd::prelude::*;

verus! {

/// What is wrong with the request itself, before any report is read.
pub open spec fn request_failure(options: ComparisonOptions, policy: RegressionPolicy) -> Option<SuiteFailure> {
    if options.environment_override matches Some(given) && text::blank(given.reason@) {
        Some(SuiteFailure::Comparison { suite: None, obstacle: Obstacle::BlankOverride })
    } else {
        match policy.problem() {
            Some(reason) => Some(SuiteFailure::Policy { suite: None, reason }),
            None => None,
        }
    }
}

/// Accepts the options and the policy of a comparison of suites.
pub fn check_request(options: &ComparisonOptions, policy: &RegressionPolicy) -> (r: Result<
    (),
    SuiteComparisonError,
>)
    ensures
        r is Err == request_failure(*options, *policy) is Some,
        r matches Err(e) ==> e@ == request_failure(*options, *policy)->0,
{
    match &options.environment_override {
        Some(given) => {
            if text::is_blank(given.reason.as_str()) {
                return Err(
                    SuiteComparisonError::Comparison {
                        suite: None,
                        source: Box::new(ComparisonError::InvalidEnvironmentOverride),
                    },
                );
            }
        },
        None => {},
    }
    match policy.validate() {
        Ok(()) => Ok(()),
        Err(source) => Err(SuiteComparisonError::Policy { suite: None, source }),
    }
}

/// Where a suite is among some reports.
pub open spec fn suite_place(documents: Seq<LoadedReport>, suite: Seq<char>, from: int) -> Option<int>
    decreases documents.len() - from,
{
    if from < 0 || from >= documents.len() {
        None
    } else if documents[from].suite() == suite {
        Some(from)
    } else {
        suite_place(documents, suite, from + 1)
    }
}

/// Whether some reports hold a suite.
pub open spec fn has_suite(documents: Seq<LoadedReport>, suite: Seq<char>) -> bool {
    suite_place(documents, suite, 0) is Some
}

/// A suite is found exactly when a report has it.
pub proof fn place_finds_suites(documents: Seq<LoadedReport>, suite: Seq<char>, from: int)
    requires
        from >= 0,
    ensures
        suite_place(documents, suite, from) matches Some(i) ==> from <= i < documents.len()
            && documents[i].suite() == suite,
        suite_place(documents, suite, from) is None ==> forall|i: int|
            from <= i < documents.len() ==> (#[trigger] documents[i]).suite() != suite,
    decreases documents.len() - from,
{
    if from < documents.len() {
        place_finds_suites(documents, suite, from + 1);
    }
}

fn find_suite(documents: &Vec<LoadedReport>, suite: &str) -> (r: Option<usize>)
    requires
        load::all_comparable(documents@),
    ensures
        r is Some == has_suite(documents@, suite@),
        r matches Some(i) ==> suite_place(documents@, suite@, 0) == Some(i as int) && i
            < documents@.len(),
{
    let mut i: usize = 0;
    while i < documents.len()
        invariant
            i <= documents.len(),
            load::all_comparable(documents@),
            suite_place(documents@, suite@, 0) == suite_place(documents@, suite@, i as int),
        decreases documents.len() - i,
    {
        assert(documents@[i as int].document.lone_obstacle() is None);
        if text::same(documents[i].document.suite_name(), suite) {
            return Some(i);
        }
        i += 1;
    }
    None
}

/// The places of the first `count` reports whose suite the others lack.
pub open spec fn lacking(documents: Seq<LoadedReport>, others: Seq<LoadedReport>, count: int) -> Seq<int>
    decreases count,
{
    if count <= 0 || count > documents.len() {
        Seq::empty()
    } else if has_suite(others, documents[count - 1].suite()) {
        lacking(documents, others, count - 1)
    } else {
        lacking(documents, others, count - 1).push(count - 1)
    }
}

/// The places of the reports whose suite the others lack.
pub open spec fn only_in(documents: Seq<LoadedReport>, others: Seq<LoadedReport>) -> Seq<int> {
    lacking(documents, others, documents.len() as int)
}

/// The places of the first `count` reports whose suite the others have too.
pub open spec fn shared(documents: Seq<LoadedReport>, others: Seq<LoadedReport>, count: int) -> Seq<int>
    decreases count,
{
    if count <= 0 || count > documents.len() {
        Seq::empty()
    } else if has_suite(others, documents[count - 1].suite()) {
        shared(documents, others, count - 1).push(count - 1)
    } else {
        shared(documents, others, count - 1)
    }
}

/// The suites at some places.
pub open spec fn suites_at(documents: Seq<LoadedReport>, places: Seq<int>) -> Seq<Seq<char>> {
    places.map_values(|i: int| documents[i].suite())
}

/// The references at some places.
pub open spec fn references_at(
    list: Seq<ReportReference>,
    documents: Seq<LoadedReport>,
    places: Seq<int>,
) -> bool {
    &&& list.len() == places.len()
    &&& forall|k: int|
        0 <= k < places.len() ==> (#[trigger] list[k]).like(
            &documents[places[k]].document.spec_reference(),
        )
}

/// Why the reports of one suite cannot be compared.
pub open spec fn suite_failure(
    current: LoadedReport,
    baseline: LoadedReport,
    options: ComparisonOptions,
    policy: RegressionPolicy,
) -> Option<SuiteFailure> {
    let current_kind = current.document.spec_reference().document_type;
    let baseline_kind = baseline.document.spec_reference().document_type;
    if current_kind != baseline_kind {
        Some(
            SuiteFailure::KindsDiffer {
                suite: current.suite(),
                current: current_kind,
                baseline: baseline_kind,
            },
        )
    } else {
        match compare::document_obstacle(current.document, baseline.document, options) {
            Some(obstacle) => Some(
                SuiteFailure::Comparison { suite: Some(current.suite()), obstacle },
            ),
            None => match policy.problem() {
                Some(reason) => Some(
                    SuiteFailure::Policy { suite: Some(current.suite()), reason },
                ),
                None => None,
            },
        }
    }
}

/// Why the first suite from `from` on that cannot be compared cannot be.
pub open spec fn first_suite_failure(
    current: Seq<LoadedReport>,
    baseline: Seq<LoadedReport>,
    options: ComparisonOptions,
    policy: RegressionPolicy,
    from: int,
) -> Option<SuiteFailure>
    decreases current.len() - from,
{
    if from < 0 || from >= current.len() {
        None
    } else {
        match suite_place(baseline, current[from].suite(), 0) {
            Some(j) => if suite_failure(current[from], baseline[j], options, policy) is Some {
                suite_failure(current[from], baseline[j], options, policy)
            } else {
                first_suite_failure(current, baseline, options, policy, from + 1)
            },
            None => first_suite_failure(current, baseline, options, policy, from + 1),
        }
    }
}

/// Two single reports of different suites.
pub open spec fn file_failure(current: LoadedReportInput, baseline: LoadedReportInput) -> Option<SuiteFailure> {
    if current.kind == ReportInputKind::File && baseline.kind == ReportInputKind::File
        && current.documents@[0].suite() != baseline.documents@[0].suite() {
        Some(
            SuiteFailure::Comparison {
                suite: None,
                obstacle: Obstacle::SuitesDiffer {
                    current: current.documents@[0].suite(),
                    baseline: baseline.documents@[0].suite(),
                },
            },
        )
    } else {
        None
    }
}

/// Two inputs with different suites where they may not have them.
pub open spec fn set_failure(
    current: Seq<LoadedReport>,
    baseline: Seq<LoadedReport>,
    options: ComparisonOptions,
) -> Option<SuiteFailure> {
    let added = only_in(current, baseline);
    let removed = only_in(baseline, current);
    if options.require_same_suite_set && (added.len() > 0 || removed.len() > 0) {
        Some(
            SuiteFailure::SuiteSetsDiffer {
                added: suites_at(current, added),
                removed: suites_at(baseline, removed),
            },
        )
    } else {
        None
    }
}

/// Why two inputs cannot be compared, if they cannot.
pub open spec fn inputs_failure(
    current: LoadedReportInput,
    baseline: LoadedReportInput,
    options: ComparisonOptions,
    policy: RegressionPolicy,
) -> Option<SuiteFailure> {
    if request_failure(options, policy) is Some {
        request_failure(options, policy)
    } else if file_failure(current, baseline) is Some {
        file_failure(current, baseline)
    } else if set_failure(current.documents@, baseline.documents@, options) is Some {
        set_failure(current.documents@, baseline.documents@, options)
    } else {
        first_suite_failure(current.documents@, baseline.documents@, options, policy, 0)
    }
}

/// Whether an analysis is that of the reports of one suite.
pub open spec fn analysis_of(
    analysis: ComparisonAnalysis,
    current: LoadedReport,
    baseline: LoadedReport,
    options: ComparisonOptions,
    policy: RegressionPolicy,
    statistics: SampleStatistics,
    changes: Changes,
    fractions: OutlierFractions,
) -> bool {
    &&& analysis.schema_version == ANALYSIS_SCHEMA_VERSION
    &&& compare::compared(
        analysis.comparison,
        current.document,
        baseline.document,
        options,
        statistics,
        changes,
    )
    &&& policy::evaluated(analysis.policy, analysis.comparison, policy, fractions)
}

/// The analyses of the suites at some places.
pub open spec fn analyses_at(
    list: Seq<ComparisonAnalysis>,
    current: Seq<LoadedReport>,
    baseline: Seq<LoadedReport>,
    places: Seq<int>,
    options: ComparisonOptions,
    policy: RegressionPolicy,
    statistics: SampleStatistics,
    changes: Changes,
    fractions: OutlierFractions,
) -> bool {
    &&& list.len() == places.len()
    &&& forall|k: int|
        0 <= k < places.len() ==> analysis_of(
            #[trigger] list[k],
            current[places[k]],
            baseline[suite_place(baseline, current[places[k]].suite(), 0)->0],
            options,
            policy,
            statistics,
            changes,
            fractions,
        )
}

fn compare_suite(
    current: &LoadedReport,
    baseline: &LoadedReport,
    options: &ComparisonOptions,
    policy: &RegressionPolicy,
    statistics: &SampleStatistics,
    changes: &Changes,
    fractions: &OutlierFractions,
) -> (r: Result<ComparisonAnalysis, SuiteComparisonError>)
    requires
        current.document.lone_obstacle() is None,
    ensures
        r is Err == suite_failure(*current, *baseline, *options, *policy) is Some,
        r matches Err(e) ==> e@ == suite_failure(*current, *baseline, *options, *policy)->0,
        r matches Ok(analysis) ==> analysis_of(
            analysis,
            *current,
            *baseline,
            *options,
            *policy,
            *statistics,
            *changes,
            *fractions,
        ),
{
    let current_kind = current.document.reference().document_type;
    let baseline_kind = baseline.document.reference().document_type;
    let suite = current.document.suite_name();
    if current_kind != baseline_kind {
        return Err(
            SuiteComparisonError::DocumentTypeMismatch {
                suite: suite.to_owned(),
                current: current_kind,
                baseline: baseline_kind,
            },
        );
    }
    let comparison = match compare_reports(
        &current.document,
        &baseline.document,
        options,
        statistics,
        changes,
    ) {
        Ok(comparison) => comparison,
        Err(source) => {
            return Err(
                SuiteComparisonError::Comparison {
                    suite: Some(suite.to_owned()),
                    source: Box::new(source),
                },
            );
        },
    };
    match comparison.analyze(policy, fractions) {
        Ok(analysis) => Ok(analysis),
        Err(source) => Err(
            SuiteComparisonError::Policy { suite: Some(suite.to_owned()), source },
        ),
    }
}

fn compare_shared_suites(
    current: &Vec<LoadedReport>,
    baseline: &Vec<LoadedReport>,
    options: &ComparisonOptions,
    policy: &RegressionPolicy,
    statistics: &SampleStatistics,
    changes: &Changes,
    fractions: &OutlierFractions,
) -> (r: Result<Vec<ComparisonAnalysis>, SuiteComparisonError>)
    requires
        load::all_comparable(current@),
        load::all_comparable(baseline@),
    ensures
        r is Err == first_suite_failure(current@, baseline@, *options, *policy, 0) is Some,
        r matches Err(e) ==> e@ == first_suite_failure(
            current@,
            baseline@,
            *options,
            *policy,
            0,
        )->0,
        r matches Ok(list) ==> analyses_at(
            list@,
            current@,
            baseline@,
            shared(current@, baseline@, current@.len() as int),
            *options,
            *policy,
            *statistics,
            *changes,
            *fractions,
        ),
{
    let mut list: Vec<ComparisonAnalysis> = Vec::new();
    let mut i: usize = 0;
    while i < current.len()
        invariant
            i <= current.len(),
            load::all_comparable(current@),
            load::all_comparable(baseline@),
            first_suite_failure(current@, baseline@, *options, *policy, 0) == first_suite_failure(
                current@,
                baseline@,
                *options,
                *policy,
                i as int,
            ),
            analyses_at(
                list@,
                current@,
                baseline@,
                shared(current@, baseline@, i as int),
                *options,
                *policy,
                *statistics,
                *changes,
                *fractions,
            ),
        decreases current.len() - i,
    {
        assert(current@[i as int].document.lone_obstacle() is None);
        let ghost before = shared(current@, baseline@, i as int);
        match find_suite(baseline, current[i].document.suite_name()) {
            Some(j) => {
                match compare_suite(
                    &current[i],
                    &baseline[j],
                    options,
                    policy,
                    statistics,
                    changes,
                    fractions,
                ) {
                    Ok(analysis) => {
                        list.push(analysis);
                    },
                    Err(error) => {
                        return Err(error);
                    },
                }
                assert(shared(current@, baseline@, i + 1) == before.push(i as int));
            },
            None => {
                assert(shared(current@, baseline@, i + 1) == before);
            },
        }
        i += 1;
    }
    Ok(list)
}

fn suites_only_in(documents: &Vec<LoadedReport>, others: &Vec<LoadedReport>) -> (r: (
    Vec<ReportReference>,
    Vec<String>,
))
    requires
        load::all_comparable(documents@),
        load::all_comparable(others@),
    ensures
        references_at(r.0@, documents@, only_in(documents@, others@)),
        text::texts(r.1@) == suites_at(documents@, only_in(documents@, others@)),
{
    let mut references: Vec<ReportReference> = Vec::new();
    let mut names: Vec<String> = Vec::new();
    let mut i: usize = 0;
    assert(text::texts(names@) =~= suites_at(documents@, lacking(documents@, others@, 0)));
    while i < documents.len()
        invariant
            i <= documents.len(),
            load::all_comparable(documents@),
            load::all_comparable(others@),
            references_at(references@, documents@, lacking(documents@, others@, i as int)),
            text::texts(names@) == suites_at(
                documents@,
                lacking(documents@, others@, i as int),
            ),
        decreases documents.len() - i,
    {
        assert(documents@[i as int].document.lone_obstacle() is None);
        let ghost before = lacking(documents@, others@, i as int);
        let suite = documents[i].document.suite_name();
        if find_suite(others, suite).is_none() {
            references.push(documents[i].document.reference().duplicate());
            names.push(suite.to_owned());
            assert(lacking(documents@, others@, i + 1) == before.push(i as int));
            assert(text::texts(names@) =~= suites_at(documents@, before).push(suite@));
            assert(text::texts(names@) =~= suites_at(
                documents@,
                lacking(documents@, others@, i + 1),
            ));
        } else {
            assert(lacking(documents@, others@, i + 1) == before);
        }
        i += 1;
    }
    (references, names)
}

/// Compares two inputs that were accepted.
pub fn compare_report_inputs(
    current: &LoadedReportInput,
    baseline: &LoadedReportInput,
    options: &ComparisonOptions,
    policy: &RegressionPolicy,
    statistics: &SampleStatistics,
    changes: &Changes,
    fractions: &OutlierFractions,
) -> (r: Result<SuiteComparisonAnalysis, SuiteComparisonError>)
    requires
        current.well_formed(),
        baseline.well_formed(),
    ensures
        r is Err == inputs_failure(*current, *baseline, *options, *policy) is Some,
        r matches Err(e) ==> e@ == inputs_failure(*current, *baseline, *options, *policy)->0,
        r matches Ok(analysis) ==> {
            &&& analysis.schema_version == SUITE_ANALYSIS_SCHEMA_VERSION
            &&& analysis.policy == *policy
            &&& analyses_at(
                analysis.comparisons@,
                current.documents@,
                baseline.documents@,
                shared(
                    current.documents@,
                    baseline.documents@,
                    current.documents@.len() as int,
                ),
                *options,
                *policy,
                *statistics,
                *changes,
                *fractions,
            )
            &&& references_at(
                analysis.added_suites@,
                current.documents@,
                only_in(current.documents@, baseline.documents@),
            )
            &&& references_at(
                analysis.removed_suites@,
                baseline.documents@,
                only_in(baseline.documents@, current.documents@),
            )
            &&& analysis.summary == suite::summary_of(
                analysis.comparisons@,
                analysis.added_suites@.len(),
                analysis.removed_suites@.len(),
            )
        },
{
    match check_request(options, policy) {
        Ok(()) => {},
        Err(error) => {
            return Err(error);
        },
    }
    if current.kind == ReportInputKind::File && baseline.kind == ReportInputKind::File {
        assert(current.documents@[0].document.lone_obstacle() is None);
        assert(baseline.documents@[0].document.lone_obstacle() is None);
        let a = current.documents[0].document.suite_name();
        let b = baseline.documents[0].document.suite_name();
        if !text::same(a, b) {
            return Err(
                SuiteComparisonError::Comparison {
                    suite: None,
                    source: Box::new(
                        ComparisonError::SuiteMismatch {
                            current: a.to_owned(),
                            baseline: b.to_owned(),
                        },
                    ),
                },
            );
        }
    }
    let (added_suites, added) = suites_only_in(&current.documents, &baseline.documents);
    let (removed_suites, removed) = suites_only_in(&baseline.documents, &current.documents);
    proof {
        assert(text::texts(added@).len() == added@.len());
        assert(text::texts(removed@).len() == removed@.len());
    }
    if options.require_same_suite_set && (added.len() > 0 || removed.len() > 0) {
        return Err(SuiteComparisonError::SuiteSetMismatch { added, removed });
    }
    match compare_shared_suites(
        &current.documents,
        &baseline.documents,
        options,
        policy,
        statistics,
        changes,
        fractions,
    ) {
        Ok(comparisons) => {
            let summary = summarize(&comparisons, &added_suites, &removed_suites);
            Ok(
                SuiteComparisonAnalysis {
                    schema_version: SUITE_ANALYSIS_SCHEMA_VERSION,
                    policy: *policy,
                    comparisons,
                    added_suites,
                    removed_suites,
                    summary,
                },
            )
        },
        Err(error) => Err(error),
    }
}

/// Every suite of an input is either compared or counted as found on one side
/// only.
pub proof fn every_suite_is_accounted_for(
    documents: Seq<LoadedReport>,
    others: Seq<LoadedReport>,
    count: int,
)
    requires
        0 <= count <= documents.len(),
    ensures
        shared(documents, others, count).len() + lacking(documents, others, count).len() == count,
    decreases count,
{
    if count > 0 {
        every_suite_is_accounted_for(documents, others, count - 1);
    }
}

} // verus!
