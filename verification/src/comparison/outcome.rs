//! When two comparisons come to the same, and what has no part in it.
use crate::comparison::compare;
use crate::comparison::compare::compare_reports;
use crate::comparison::document::ReportDocument;
use crate::comparison::engine;
use crate::comparison::engine::Changes;
use crate::comparison::error::ComparisonError;
use crate::comparison::normalize;
use crate::comparison::normalize::{
    NormalizedCase, NormalizedMetric, NormalizedReport, SampleStatistics,
};
use crate::comparison::pairing;
use crate::comparison::{
    ComparisonCaseSnapshot, ComparisonOptions, ComparisonReport, EnvironmentComparison,
    MatchedBenchmark, MetricComparison, ReportReference, UnmatchedBenchmark,
};
use crate::context;
use crate::context::ReportContext;
use crate::series::SeriesReport;
use crate::session::BenchmarkReport;
use crate::text;
use vstd::prelude::*;

verus! {

/// The same evidence of a case.
pub open spec fn same_snapshot(a: ComparisonCaseSnapshot, b: ComparisonCaseSnapshot) -> bool {
    &&& a.primary.like(&b.primary)
    &&& a.statistics == b.statistics
    &&& a.native == b.native
    &&& a.validity == b.validity
    &&& a.provenance@ == b.provenance@
}

/// The same change of a metric.
pub open spec fn same_metric_change(a: MetricComparison, b: MetricComparison) -> bool {
    &&& a.name@ == b.name@
    &&& a.unit@ == b.unit@
    &&& a.section@ == b.section@
    &&& a.display_name@ == b.display_name@
    &&& a.format == b.format
    &&& a.current_median == b.current_median
    &&& a.baseline_median == b.baseline_median
    &&& a.absolute_change == b.absolute_change
    &&& a.percent_change == b.percent_change
}

/// The same matched case.
pub open spec fn same_match(a: MatchedBenchmark, b: MatchedBenchmark) -> bool {
    &&& a.identity.key() == b.identity.key()
    &&& same_snapshot(a.current, b.current)
    &&& same_snapshot(a.baseline, b.baseline)
    &&& a.absolute_change == b.absolute_change
    &&& a.percent_improvement == b.percent_improvement
    &&& text::texts(a.stability_warnings@) == text::texts(b.stability_warnings@)
    &&& a.metric_changes@.len() == b.metric_changes@.len()
    &&& forall|k: int|
        0 <= k < a.metric_changes@.len() ==> same_metric_change(
            #[trigger] a.metric_changes@[k],
            b.metric_changes@[k],
        )
}

/// The same unmatched case.
pub open spec fn same_unmatched(a: UnmatchedBenchmark, b: UnmatchedBenchmark) -> bool {
    &&& a.identity.key() == b.identity.key()
    &&& same_snapshot(a.measurement, b.measurement)
}

/// The same unmatched cases in the same order.
pub open spec fn same_unmatched_list(
    a: Seq<UnmatchedBenchmark>,
    b: Seq<UnmatchedBenchmark>,
) -> bool {
    &&& a.len() == b.len()
    &&& forall|k: int| 0 <= k < a.len() ==> same_unmatched(#[trigger] a[k], b[k])
}

/// The same relation of environments.
pub open spec fn same_environments(a: EnvironmentComparison, b: EnvironmentComparison) -> bool {
    &&& a.current_runner_id@ == b.current_runner_id@
    &&& a.baseline_runner_id@ == b.baseline_runner_id@
    &&& a.current_environment@ == b.current_environment@
    &&& a.baseline_environment@ == b.baseline_environment@
    &&& a.exact_match == b.exact_match
    &&& a.operator_override == b.operator_override
}

/// Two comparisons that say the same of everything but the documents they
/// refer to: suite, environments, matched, added and removed cases, and counts.
pub open spec fn same_comparison(a: ComparisonReport, b: ComparisonReport) -> bool {
    &&& a.schema_version == b.schema_version
    &&& a.suite@ == b.suite@
    &&& same_environments(a.environment, b.environment)
    &&& a.matched@.len() == b.matched@.len()
    &&& forall|k: int|
        0 <= k < a.matched@.len() ==> same_match(#[trigger] a.matched@[k], b.matched@[k])
    &&& same_unmatched_list(a.added@, b.added@)
    &&& same_unmatched_list(a.removed@, b.removed@)
    &&& a.summary == b.summary
}

/// Two outcomes that are equal errors, or comparisons that say the same.
pub open spec fn same_outcome(
    a: Result<ComparisonReport, ComparisonError>,
    b: Result<ComparisonReport, ComparisonError>,
) -> bool {
    match (a, b) {
        (Ok(x), Ok(y)) => same_comparison(x, y),
        (Err(e), Err(f)) => e@ == f@,
        _ => false,
    }
}

/// The same metric of a case.
pub open spec fn same_case_metric(a: NormalizedMetric, b: NormalizedMetric) -> bool {
    &&& a.name@ == b.name@
    &&& a.unit@ == b.unit@
    &&& a.section@ == b.section@
    &&& a.display_name@ == b.display_name@
    &&& a.format == b.format
    &&& a.median == b.median
}

/// The same case.
pub open spec fn same_case(a: NormalizedCase, b: NormalizedCase) -> bool {
    &&& a.identity.key() == b.identity.key()
    &&& a.primary.like(&b.primary)
    &&& a.statistics == b.statistics
    &&& a.native == b.native
    &&& a.validity == b.validity
    &&& a.provenance@ == b.provenance@
    &&& a.metrics@.len() == b.metrics@.len()
    &&& forall|i: int|
        0 <= i < a.metrics@.len() ==> same_case_metric(#[trigger] a.metrics@[i], b.metrics@[i])
}

/// The same report.
pub open spec fn same_report(a: NormalizedReport, b: NormalizedReport) -> bool {
    &&& a.suite@ == b.suite@
    &&& a.runner_id@ == b.runner_id@
    &&& a.environment@ == b.environment@
    &&& a.validity == b.validity
    &&& a.cases@.len() == b.cases@.len()
    &&& forall|i: int| 0 <= i < a.cases@.len() ==> same_case(#[trigger] a.cases@[i], b.cases@[i])
}

proof fn metric_keys_agree(a: NormalizedCase, b: NormalizedCase)
    requires
        same_case(a, b),
    ensures
        pairing::keys_of(a.metrics@) == pairing::keys_of(b.metrics@),
{
    let x = pairing::keys_of(a.metrics@);
    let y = pairing::keys_of(b.metrics@);
    assert forall|i: int| 0 <= i < x.len() implies x[i] == y[i] by {
        assert(same_case_metric(a.metrics@[i], b.metrics@[i]));
    }
    assert(x =~= y);
}

proof fn standings_agree(a: NormalizedReport, b: NormalizedReport)
    requires
        same_report(a, b),
    ensures
        a.standing() == b.standing(),
{
    let x = a.standing().keys;
    let y = b.standing().keys;
    assert forall|i: int| 0 <= i < x.len() implies x[i] == y[i] by {
        assert(same_case(a.cases@[i], b.cases@[i]));
    }
    assert(x =~= y);
}

proof fn matches_agree(
    x: MatchedBenchmark,
    y: MatchedBenchmark,
    current: NormalizedCase,
    other_current: NormalizedCase,
    baseline: NormalizedCase,
    other_baseline: NormalizedCase,
    changes: Changes,
)
    requires
        same_case(current, other_current),
        same_case(baseline, other_baseline),
        engine::matched_of(x, current, baseline, changes),
        engine::matched_of(y, other_current, other_baseline, changes),
    ensures
        same_match(x, y),
{
    metric_keys_agree(current, other_current);
    metric_keys_agree(baseline, other_baseline);
    let pairs = engine::metric_pairs(current, baseline);
    assert forall|k: int| 0 <= k < x.metric_changes@.len() implies same_metric_change(
        #[trigger] x.metric_changes@[k],
        y.metric_changes@[k],
    ) by {
        pairing::pairs_share_keys(
            pairing::keys_of(current.metrics@),
            pairing::keys_of(baseline.metrics@),
            k,
        );
        assert(same_case_metric(
            current.metrics@[pairs[k].0],
            other_current.metrics@[pairs[k].0],
        ));
        assert(same_case_metric(
            baseline.metrics@[pairs[k].1],
            other_baseline.metrics@[pairs[k].1],
        ));
        assert(engine::metric_change_of(
            y.metric_changes@[k],
            other_current.metrics@[pairs[k].0],
            other_baseline.metrics@[pairs[k].1],
            changes,
        ));
    }
}

proof fn unmatched_agree(
    x: Seq<UnmatchedBenchmark>,
    y: Seq<UnmatchedBenchmark>,
    cases: Seq<NormalizedCase>,
    other_cases: Seq<NormalizedCase>,
    places: Seq<int>,
)
    requires
        cases.len() == other_cases.len(),
        forall|i: int| 0 <= i < cases.len() ==> same_case(#[trigger] cases[i], other_cases[i]),
        forall|k: int| 0 <= k < places.len() ==> 0 <= #[trigger] places[k] < cases.len(),
        engine::unmatched_list(x, cases, places),
        engine::unmatched_list(y, other_cases, places),
    ensures
        same_unmatched_list(x, y),
{
    assert forall|k: int| 0 <= k < x.len() implies same_unmatched(#[trigger] x[k], y[k]) by {
        assert(0 <= places[k] < cases.len());
        assert(same_case(cases[places[k]], other_cases[places[k]]));
        assert(engine::unmatched_of(y[k], other_cases[places[k]]));
    }
}

/// What two reports come to is decided by what they hold: equal reports have
/// equal comparisons.
pub proof fn equal_reports_compare_alike(
    x: ComparisonReport,
    y: ComparisonReport,
    current: NormalizedReport,
    other_current: NormalizedReport,
    baseline: NormalizedReport,
    other_baseline: NormalizedReport,
    references: (ReportReference, ReportReference),
    other_references: (ReportReference, ReportReference),
    options: ComparisonOptions,
    changes: Changes,
)
    requires
        same_report(current, other_current),
        same_report(baseline, other_baseline),
        engine::comparison_of(
            x,
            current,
            references.0,
            baseline,
            references.1,
            options,
            changes,
        ),
        engine::comparison_of(
            y,
            other_current,
            other_references.0,
            other_baseline,
            other_references.1,
            options,
            changes,
        ),
    ensures
        same_comparison(x, y),
{
    standings_agree(current, other_current);
    standings_agree(baseline, other_baseline);
    let c = current.standing();
    let b = baseline.standing();
    engine::places_in_range(c, b);
    let pairs = engine::case_pairs(c, b);
    assert forall|k: int| 0 <= k < x.matched@.len() implies same_match(
        #[trigger] x.matched@[k],
        y.matched@[k],
    ) by {
        assert(0 <= pairs[k].0 < c.keys.len() && 0 <= pairs[k].1 < b.keys.len());
        assert(same_case(current.cases@[pairs[k].0], other_current.cases@[pairs[k].0]));
        assert(same_case(baseline.cases@[pairs[k].1], other_baseline.cases@[pairs[k].1]));
        assert(engine::matched_of(
            y.matched@[k],
            other_current.cases@[pairs[k].0],
            other_baseline.cases@[pairs[k].1],
            changes,
        ));
        matches_agree(
            x.matched@[k],
            y.matched@[k],
            current.cases@[pairs[k].0],
            other_current.cases@[pairs[k].0],
            baseline.cases@[pairs[k].1],
            other_baseline.cases@[pairs[k].1],
            changes,
        );
    }
    unmatched_agree(
        x.added@,
        y.added@,
        current.cases@,
        other_current.cases@,
        engine::added_cases(c, b),
    );
    unmatched_agree(
        x.removed@,
        y.removed@,
        baseline.cases@,
        other_baseline.cases@,
        engine::removed_cases(c, b),
    );
}

/// Two native reports that differ at most in their provenance: where and when
/// they were captured, and from which sources.
pub open spec fn natives_but_for_provenance(a: BenchmarkReport, b: BenchmarkReport) -> bool {
    &&& a.suite == b.suite
    &&& a.schema_version == b.schema_version
    &&& a.hostname@ == b.hostname@
    &&& a.context.runner_id@ == b.context.runner_id@
    &&& a.context.environment@ == b.context.environment@
    &&& a.results@ == b.results@
}

/// Two series reports that differ at most in the provenance of the reports,
/// neither of which has a blank entry there.
pub open spec fn series_but_for_provenance(a: SeriesReport, b: SeriesReport) -> bool {
    &&& b == (SeriesReport {
        context: ReportContext { provenance: b.context.provenance, ..a.context },
        ..a
    })
    &&& context::map_problem("provenance"@, a.context.provenance.pairs(), 0) is None
    &&& context::map_problem("provenance"@, b.context.provenance.pairs(), 0) is None
}

/// Two documents of one kind that differ at most in the provenance of their
/// reports, and in the references to them.
pub open spec fn documents_but_for_provenance(a: ReportDocument, b: ReportDocument) -> bool {
    match (a, b) {
        (
            ReportDocument::Native { report: x, .. },
            ReportDocument::Native { report: y, .. },
        ) => natives_but_for_provenance(x, y),
        (
            ReportDocument::Series { report: x, .. },
            ReportDocument::Series { report: y, .. },
        ) => series_but_for_provenance(x, y),
        _ => false,
    }
}

proof fn native_forms_agree(
    a: BenchmarkReport,
    b: BenchmarkReport,
    x: NormalizedReport,
    y: NormalizedReport,
    statistics: SampleStatistics,
)
    requires
        natives_but_for_provenance(a, b),
        normalize::native_report(x, a, statistics),
        normalize::native_report(y, b, statistics),
    ensures
        same_report(x, y),
{
    assert forall|i: int| 0 <= i < x.cases@.len() implies same_case(
        #[trigger] x.cases@[i],
        y.cases@[i],
    ) by {
        let numbers = statistics.of_native(a.results@[i]);
        assert(normalize::native_case(x.cases@[i], a.results@[i], numbers));
        assert(normalize::native_case(y.cases@[i], a.results@[i], numbers));
        let summaries = a.results@[i].stats.metrics@;
        assert forall|j: int| 0 <= j < x.cases@[i].metrics@.len() implies same_case_metric(
            #[trigger] x.cases@[i].metrics@[j],
            y.cases@[i].metrics@[j],
        ) by {
            assert(normalize::metric_of(y.cases@[i].metrics@[j], summaries[j]));
        }
    }
}

proof fn series_forms_agree(
    a: SeriesReport,
    b: SeriesReport,
    x: NormalizedReport,
    y: NormalizedReport,
    statistics: SampleStatistics,
)
    requires
        series_but_for_provenance(a, b),
        normalize::series_report(x, a, statistics),
        normalize::series_report(y, b, statistics),
    ensures
        same_report(x, y),
{
    assert forall|i: int| 0 <= i < x.cases@.len() implies same_case(
        #[trigger] x.cases@[i],
        y.cases@[i],
    ) by {
        let numbers = statistics.of_series(a.results@[i]);
        assert(normalize::series_case(x.cases@[i], a.results@[i], numbers));
        assert(normalize::series_case(y.cases@[i], a.results@[i], numbers));
    }
}

proof fn series_standings_agree(a: SeriesReport, b: SeriesReport)
    requires
        series_but_for_provenance(a, b),
    ensures
        compare::series_standing(a) == compare::series_standing(b),
        a.problem() == b.problem(),
{
    assert(compare::series_standing(a).keys =~= compare::series_standing(b).keys);
}

/// Provenance never takes part in a comparison of native reports: with another
/// provenance on either side the comparison fails with the same error, or comes
/// to the same.
pub proof fn provenance_leaves_the_comparison(
    current: BenchmarkReport,
    persisted: Seq<u8>,
    baseline: BenchmarkReport,
    baseline_persisted: Seq<u8>,
    outcome: Result<ComparisonReport, ComparisonError>,
    other_current: BenchmarkReport,
    other_persisted: Seq<u8>,
    other_baseline: BenchmarkReport,
    other_baseline_persisted: Seq<u8>,
    other_outcome: Result<ComparisonReport, ComparisonError>,
    options: ComparisonOptions,
    statistics: SampleStatistics,
    changes: Changes,
)
    requires
        natives_but_for_provenance(current, other_current),
        natives_but_for_provenance(baseline, other_baseline),
        compare::native_outcome(
            outcome,
            current,
            persisted,
            baseline,
            baseline_persisted,
            options,
            statistics,
            changes,
        ),
        compare::native_outcome(
            other_outcome,
            other_current,
            other_persisted,
            other_baseline,
            other_baseline_persisted,
            options,
            statistics,
            changes,
        ),
    ensures
        same_outcome(outcome, other_outcome),
{
    compare::provenance_never_matters(current, other_current);
    compare::provenance_never_matters(baseline, other_baseline);
    if outcome is Ok {
        let x = outcome->Ok_0;
        let y = other_outcome->Ok_0;
        let (c, cr, b, br) = choose|
            c: NormalizedReport,
            cr: ReportReference,
            b: NormalizedReport,
            br: ReportReference,
        |
            #![trigger engine::comparison_of(x, c, cr, b, br, options, changes)]
            {
                &&& normalize::native_report(c, current, statistics)
                &&& normalize::native_report(b, baseline, statistics)
                &&& cr.of_native(current, persisted, None)
                &&& br.of_native(baseline, baseline_persisted, None)
                &&& engine::comparison_of(x, c, cr, b, br, options, changes)
            };
        let (d, dr, e, er) = choose|
            d: NormalizedReport,
            dr: ReportReference,
            e: NormalizedReport,
            er: ReportReference,
        |
            #![trigger engine::comparison_of(y, d, dr, e, er, options, changes)]
            {
                &&& normalize::native_report(d, other_current, statistics)
                &&& normalize::native_report(e, other_baseline, statistics)
                &&& dr.of_native(other_current, other_persisted, None)
                &&& er.of_native(other_baseline, other_baseline_persisted, None)
                &&& engine::comparison_of(y, d, dr, e, er, options, changes)
            };
        native_forms_agree(current, other_current, c, d, statistics);
        native_forms_agree(baseline, other_baseline, b, e, statistics);
        equal_reports_compare_alike(x, y, c, d, b, e, (cr, br), (dr, er), options, changes);
    }
}

/// Provenance never takes part in a comparison of series reports: with another
/// provenance on either side the comparison fails with the same error, or comes
/// to the same.
pub proof fn provenance_leaves_the_series(
    current: SeriesReport,
    persisted: Seq<u8>,
    baseline: SeriesReport,
    baseline_persisted: Seq<u8>,
    outcome: Result<ComparisonReport, ComparisonError>,
    other_current: SeriesReport,
    other_persisted: Seq<u8>,
    other_baseline: SeriesReport,
    other_baseline_persisted: Seq<u8>,
    other_outcome: Result<ComparisonReport, ComparisonError>,
    options: ComparisonOptions,
    statistics: SampleStatistics,
    changes: Changes,
)
    requires
        series_but_for_provenance(current, other_current),
        series_but_for_provenance(baseline, other_baseline),
        compare::series_outcome(
            outcome,
            current,
            persisted,
            baseline,
            baseline_persisted,
            options,
            statistics,
            changes,
        ),
        compare::series_outcome(
            other_outcome,
            other_current,
            other_persisted,
            other_baseline,
            other_baseline_persisted,
            options,
            statistics,
            changes,
        ),
    ensures
        same_outcome(outcome, other_outcome),
{
    series_standings_agree(current, other_current);
    series_standings_agree(baseline, other_baseline);
    if outcome is Ok {
        let x = outcome->Ok_0;
        let y = other_outcome->Ok_0;
        let (c, cr, b, br) = choose|
            c: NormalizedReport,
            cr: ReportReference,
            b: NormalizedReport,
            br: ReportReference,
        |
            #![trigger engine::comparison_of(x, c, cr, b, br, options, changes)]
            {
                &&& normalize::series_report(c, current, statistics)
                &&& normalize::series_report(b, baseline, statistics)
                &&& cr.of_series(current, persisted, None)
                &&& br.of_series(baseline, baseline_persisted, None)
                &&& engine::comparison_of(x, c, cr, b, br, options, changes)
            };
        let (d, dr, e, er) = choose|
            d: NormalizedReport,
            dr: ReportReference,
            e: NormalizedReport,
            er: ReportReference,
        |
            #![trigger engine::comparison_of(y, d, dr, e, er, options, changes)]
            {
                &&& normalize::series_report(d, other_current, statistics)
                &&& normalize::series_report(e, other_baseline, statistics)
                &&& dr.of_series(other_current, other_persisted, None)
                &&& er.of_series(other_baseline, other_baseline_persisted, None)
                &&& engine::comparison_of(y, d, dr, e, er, options, changes)
            };
        series_forms_agree(current, other_current, c, d, statistics);
        series_forms_agree(baseline, other_baseline, b, e, statistics);
        equal_reports_compare_alike(x, y, c, d, b, e, (cr, br), (dr, er), options, changes);
    }
}

proof fn documents_agree(
    a: ReportDocument,
    b: ReportDocument,
    x: NormalizedReport,
    y: NormalizedReport,
    statistics: SampleStatistics,
)
    requires
        documents_but_for_provenance(a, b),
        a.normalizes_to(x, statistics),
        b.normalizes_to(y, statistics),
    ensures
        same_report(x, y),
{
    match (a, b) {
        (
            ReportDocument::Native { report: r, .. },
            ReportDocument::Native { report: s, .. },
        ) => {
            native_forms_agree(r, s, x, y, statistics);
        },
        (
            ReportDocument::Series { report: r, .. },
            ReportDocument::Series { report: s, .. },
        ) => {
            series_forms_agree(r, s, x, y, statistics);
        },
        _ => {},
    }
}

proof fn document_obstacles_agree(a: ReportDocument, b: ReportDocument)
    requires
        documents_but_for_provenance(a, b),
    ensures
        a.standing() == b.standing(),
        forall|side| #[trigger] a.obstacle(side) == b.obstacle(side),
{
    match (a, b) {
        (
            ReportDocument::Native { report: r, .. },
            ReportDocument::Native { report: s, .. },
        ) => {
            compare::provenance_never_matters(r, s);
            assert(forall|side| #[trigger]
                a.obstacle(side) == normalize::native_obstacle(r, side));
        },
        (
            ReportDocument::Series { report: r, .. },
            ReportDocument::Series { report: s, .. },
        ) => {
            series_standings_agree(r, s);
        },
        _ => {},
    }
}

/// Provenance never takes part in a comparison of documents, of either kind:
/// with another provenance on either side the comparison fails with the same
/// error, or comes to the same.
pub proof fn provenance_leaves_the_documents(
    current: ReportDocument,
    baseline: ReportDocument,
    outcome: Result<ComparisonReport, ComparisonError>,
    other_current: ReportDocument,
    other_baseline: ReportDocument,
    other_outcome: Result<ComparisonReport, ComparisonError>,
    options: ComparisonOptions,
    statistics: SampleStatistics,
    changes: Changes,
)
    requires
        documents_but_for_provenance(current, other_current),
        documents_but_for_provenance(baseline, other_baseline),
        compare::document_outcome(
            outcome,
            current,
            baseline,
            options,
            statistics,
            changes,
        ),
        compare::document_outcome(
            other_outcome,
            other_current,
            other_baseline,
            options,
            statistics,
            changes,
        ),
    ensures
        same_outcome(outcome, other_outcome),
{
    document_obstacles_agree(current, other_current);
    document_obstacles_agree(baseline, other_baseline);
    if outcome is Ok {
        let x = outcome->Ok_0;
        let y = other_outcome->Ok_0;
        let (c, b) = choose|c: NormalizedReport, b: NormalizedReport| #[trigger]
            current.normalizes_to(c, statistics) && #[trigger] baseline.normalizes_to(
                b,
                statistics,
            ) && engine::comparison_of(
                x,
                c,
                current.spec_reference(),
                b,
                baseline.spec_reference(),
                options,
                changes,
            );
        let (d, e) = choose|d: NormalizedReport, e: NormalizedReport| #[trigger]
            other_current.normalizes_to(d, statistics) && #[trigger] other_baseline.normalizes_to(
                e,
                statistics,
            ) && engine::comparison_of(
                y,
                d,
                other_current.spec_reference(),
                e,
                other_baseline.spec_reference(),
                options,
                changes,
            );
        documents_agree(current, other_current, c, d, statistics);
        documents_agree(baseline, other_baseline, b, e, statistics);
        equal_reports_compare_alike(
            x,
            y,
            c,
            d,
            b,
            e,
            (current.spec_reference(), baseline.spec_reference()),
            (other_current.spec_reference(), other_baseline.spec_reference()),
            options,
            changes,
        );
    }
}

/// Comparing two native reports in memory comes to the same as comparing the
/// documents that hold them.
pub proof fn native_reports_compare_like_their_documents(
    current: &BenchmarkReport,
    persisted: &[u8],
    baseline: &BenchmarkReport,
    baseline_persisted: &[u8],
    references: (ReportReference, ReportReference),
    options: &ComparisonOptions,
    statistics: &SampleStatistics,
    changes: &Changes,
    result: Result<ComparisonReport, ComparisonError>,
    document_result: Result<ComparisonReport, ComparisonError>,
)
    requires
        call_ensures(
            BenchmarkReport::compare,
            (current, persisted, baseline, baseline_persisted, options, statistics, changes),
            result,
        ),
        call_ensures(
            compare_reports,
            (
                &ReportDocument::Native { report: *current, reference: references.0 },
                &ReportDocument::Native { report: *baseline, reference: references.1 },
                options,
                statistics,
                changes,
            ),
            document_result,
        ),
    ensures
        result is Ok <==> document_result is Ok,
        result is Ok ==> same_comparison(result->Ok_0, document_result->Ok_0),
        result is Ok ==> result->Ok_0.current.suite == current.suite,
        result is Ok ==> result->Ok_0.baseline.capture_time@ == baseline.timestamp@,
{
    let first = ReportDocument::Native { report: *current, reference: references.0 };
    let second = ReportDocument::Native { report: *baseline, reference: references.1 };
    if result is Ok {
        let x = result->Ok_0;
        let y = document_result->Ok_0;
        let (c, cr, b, br) = choose|
            c: NormalizedReport,
            cr: ReportReference,
            b: NormalizedReport,
            br: ReportReference,
        |
            #![trigger engine::comparison_of(x, c, cr, b, br, *options, *changes)]
            {
                &&& normalize::native_report(c, *current, *statistics)
                &&& normalize::native_report(b, *baseline, *statistics)
                &&& cr.of_native(*current, persisted@, None)
                &&& br.of_native(*baseline, baseline_persisted@, None)
                &&& engine::comparison_of(x, c, cr, b, br, *options, *changes)
            };
        let (d, e) = choose|d: NormalizedReport, e: NormalizedReport| #[trigger]
            first.normalizes_to(d, *statistics) && #[trigger] second.normalizes_to(e, *statistics)
                && engine::comparison_of(
                y,
                d,
                first.spec_reference(),
                e,
                second.spec_reference(),
                *options,
                *changes,
            );
        native_forms_agree(*current, *current, c, d, *statistics);
        native_forms_agree(*baseline, *baseline, b, e, *statistics);
        equal_reports_compare_alike(
            x,
            y,
            c,
            d,
            b,
            e,
            (cr, br),
            (first.spec_reference(), second.spec_reference()),
            *options,
            *changes,
        );
    }
}

/// Comparing two series reports in memory comes to the same as comparing the
/// documents that hold them.
pub proof fn series_reports_compare_like_their_documents(
    current: &SeriesReport,
    persisted: &[u8],
    baseline: &SeriesReport,
    baseline_persisted: &[u8],
    references: (ReportReference, ReportReference),
    options: &ComparisonOptions,
    statistics: &SampleStatistics,
    changes: &Changes,
    result: Result<ComparisonReport, ComparisonError>,
    document_result: Result<ComparisonReport, ComparisonError>,
)
    requires
        call_ensures(
            SeriesReport::compare,
            (current, persisted, baseline, baseline_persisted, options, statistics, changes),
            result,
        ),
        call_ensures(
            compare_reports,
            (
                &ReportDocument::Series { report: *current, reference: references.0 },
                &ReportDocument::Series { report: *baseline, reference: references.1 },
                options,
                statistics,
                changes,
            ),
            document_result,
        ),
    ensures
        result is Ok <==> document_result is Ok,
        result is Ok ==> same_comparison(result->Ok_0, document_result->Ok_0),
        result is Ok ==> result->Ok_0.current.suite == Some(current.suite),
        result is Ok ==> result->Ok_0.baseline.capture_time@ == baseline.timestamp@,
{
    let first = ReportDocument::Series { report: *current, reference: references.0 };
    let second = ReportDocument::Series { report: *baseline, reference: references.1 };
    if result is Ok {
        let x = result->Ok_0;
        let y = document_result->Ok_0;
        let (c, cr, b, br) = choose|
            c: NormalizedReport,
            cr: ReportReference,
            b: NormalizedReport,
            br: ReportReference,
        |
            #![trigger engine::comparison_of(x, c, cr, b, br, *options, *changes)]
            {
                &&& normalize::series_report(c, *current, *statistics)
                &&& normalize::series_report(b, *baseline, *statistics)
                &&& cr.of_series(*current, persisted@, None)
                &&& br.of_series(*baseline, baseline_persisted@, None)
                &&& engine::comparison_of(x, c, cr, b, br, *options, *changes)
            };
        let (d, e) = choose|d: NormalizedReport, e: NormalizedReport| #[trigger]
            first.normalizes_to(d, *statistics) && #[trigger] second.normalizes_to(e, *statistics)
                && engine::comparison_of(
                y,
                d,
                first.spec_reference(),
                e,
                second.spec_reference(),
                *options,
                *changes,
            );
        series_forms_agree(*current, *current, c, d, *statistics);
        series_forms_agree(*baseline, *baseline, b, e, *statistics);
        equal_reports_compare_alike(
            x,
            y,
            c,
            d,
            b,
            e,
            (cr, br),
            (first.spec_reference(), second.spec_reference()),
            *options,
            *changes,
        );
    }
}

} // verus!
