//! Comparing evidence documents, and reports in memory.
use crate::comparison;
use crate::comparison::document::ReportDocument;
use crate::comparison::engine;
use crate::comparison::engine::{
    compare_normalized_reports, reject_duplicate_identities, validate_report_validity,
    validate_runner, Changes, Standing,
};
use crate::comparison::error::{ComparisonError, Obstacle};
use crate::comparison::normalize;
use crate::comparison::normalize::{
    normalize_document, normalize_native_report, normalize_series_report, NormalizedReport,
    SampleStatistics,
};
use crate::comparison::pairing;
use crate::comparison::{ComparisonOptions, ComparisonReport, ComparisonSide, ReportReference};
use crate::series::{SeriesReport, SERIES_SCHEMA_VERSION};
use crate::session::{BenchmarkReport, REPORT_SCHEMA_VERSION};
use crate::text;
use vstd::prelude::*;

verus! {

/// The standing of a native report.
pub open spec fn native_standing(report: BenchmarkReport) -> Standing {
    Standing {
        suite: report.suite->0@,
        runner: normalize::runner_of(report),
        environment: report.context.environment@,
        invalid: None,
        keys: Seq::new(
            report.results@.len(),
            |i: int| comparison::native_key(report.results@[i]),
        ),
    }
}

/// The standing of a series report.
pub open spec fn series_standing(report: SeriesReport) -> Standing {
    Standing {
        suite: report.suite@,
        runner: report.context.runner_id@,
        environment: report.context.environment@,
        invalid: engine::invalidity(report.validity),
        keys: Seq::new(
            report.results@.len(),
            |i: int| comparison::series_key(report.results@[i]),
        ),
    }
}

impl ReportDocument {
    pub open spec fn standing(&self) -> Standing {
        match self {
            ReportDocument::Native { report, .. } => native_standing(*report),
            ReportDocument::Series { report, .. } => series_standing(*report),
        }
    }
}

proof fn native_keeps_standing(
    normalized: NormalizedReport,
    report: BenchmarkReport,
    statistics: SampleStatistics,
)
    requires
        normalize::native_report(normalized, report, statistics),
    ensures
        normalized.standing() == native_standing(report),
{
    let a = normalized.standing().keys;
    let b = native_standing(report).keys;
    assert forall|i: int| 0 <= i < a.len() implies a[i] == b[i] by {
        assert(normalize::native_case(
            normalized.cases@[i],
            report.results@[i],
            statistics.of_native(report.results@[i]),
        ));
    }
    assert(a =~= b);
}

proof fn series_keeps_standing(
    normalized: NormalizedReport,
    report: SeriesReport,
    statistics: SampleStatistics,
)
    requires
        normalize::series_report(normalized, report, statistics),
    ensures
        normalized.standing() == series_standing(report),
{
    let a = normalized.standing().keys;
    let b = series_standing(report).keys;
    assert forall|i: int| 0 <= i < a.len() implies a[i] == b[i] by {
        assert(normalize::series_case(
            normalized.cases@[i],
            report.results@[i],
            statistics.of_series(report.results@[i]),
        ));
    }
    assert(a =~= b);
}

/// Normalizing a document keeps what decides whether it can be compared.
pub proof fn normalizing_keeps_standing(
    document: ReportDocument,
    normalized: NormalizedReport,
    statistics: SampleStatistics,
)
    requires
        document.normalizes_to(normalized, statistics),
    ensures
        normalized.standing() == document.standing(),
{
    match document {
        ReportDocument::Native { report, .. } => {
            native_keeps_standing(normalized, report, statistics);
        },
        ReportDocument::Series { report, .. } => {
            series_keeps_standing(normalized, report, statistics);
        },
    }
}

/// What stands in the way of comparing two documents, if anything.
pub open spec fn document_obstacle(
    current: ReportDocument,
    baseline: ReportDocument,
    options: ComparisonOptions,
) -> Option<Obstacle> {
    engine::first_obstacle(
        current.obstacle(ComparisonSide::Current),
        engine::first_obstacle(
            baseline.obstacle(ComparisonSide::Baseline),
            engine::obstacle_between(current.standing(), baseline.standing(), options),
        ),
    )
}

/// Whether a report is the comparison of two documents.
pub open spec fn compared(
    report: ComparisonReport,
    current: ReportDocument,
    baseline: ReportDocument,
    options: ComparisonOptions,
    statistics: SampleStatistics,
    changes: Changes,
) -> bool {
    exists|c: NormalizedReport, b: NormalizedReport| #[trigger]
        current.normalizes_to(c, statistics) && #[trigger] baseline.normalizes_to(
            b,
            statistics,
        ) && engine::comparison_of(
            report,
            c,
            current.spec_reference(),
            b,
            baseline.spec_reference(),
            options,
            changes,
        )
}

/// Whether a result is that of comparing two documents: the error that reports
/// what stands in the way, or else their comparison.
pub open spec fn document_outcome(
    r: Result<ComparisonReport, ComparisonError>,
    current: ReportDocument,
    baseline: ReportDocument,
    options: ComparisonOptions,
    statistics: SampleStatistics,
    changes: Changes,
) -> bool {
    &&& r is Err == document_obstacle(current, baseline, options) is Some
    &&& r matches Err(e) ==> e@ == document_obstacle(current, baseline, options)->0
    &&& r matches Ok(report) ==> compared(
        report,
        current,
        baseline,
        options,
        statistics,
        changes,
    )
}

/// Compares two documents, given the statistics of their samples and the
/// changes between their values.
pub fn compare_reports(
    current: &ReportDocument,
    baseline: &ReportDocument,
    options: &ComparisonOptions,
    statistics: &SampleStatistics,
    changes: &Changes,
) -> (r: Result<ComparisonReport, ComparisonError>)
    ensures
        document_outcome(r, *current, *baseline, *options, *statistics, *changes),
{
    let c = match normalize_document(current, statistics, ComparisonSide::Current) {
        Ok(normalized) => normalized,
        Err(error) => {
            return Err(error);
        },
    };
    let b = match normalize_document(baseline, statistics, ComparisonSide::Baseline) {
        Ok(normalized) => normalized,
        Err(error) => {
            return Err(error);
        },
    };
    proof {
        normalizing_keeps_standing(*current, c, *statistics);
        normalizing_keeps_standing(*baseline, b, *statistics);
    }
    compare_normalized_reports(
        &c,
        current.reference(),
        &b,
        baseline.reference(),
        options,
        changes,
    )
}

/// The first repeated case of a document.
pub open spec fn repeated_case(standing: Standing, side: ComparisonSide) -> Option<Obstacle> {
    engine::duplicate_obstacle(standing.keys, side)
}

impl ReportDocument {
    /// Why the document could be compared with none, itself included: its own
    /// obstacle, its invalidity, an unknown runner, no results at all, or a
    /// case that occurs twice.
    pub open spec fn lone_obstacle(&self) -> Option<Obstacle> {
        let side = ComparisonSide::Current;
        engine::first_obstacle(
            self.obstacle(side),
            engine::first_obstacle(
                engine::validity_obstacle(self.standing().invalid, side),
                if engine::unknown_runner(self.standing().runner) {
                    Some(Obstacle::UnknownRunner { side })
                } else if self.spec_case_count() == 0 {
                    Some(Obstacle::Empty { side })
                } else {
                    repeated_case(self.standing(), side)
                },
            ),
        )
    }

    /// Accepts a document that can be compared with its like.
    pub fn validate_for_comparison(&self) -> (r: Result<(), ComparisonError>)
        ensures
            r is Err == self.lone_obstacle() is Some,
            r matches Err(e) ==> e@ == self.lone_obstacle()->0,
    {
        let statistics = SampleStatistics::new();
        let normalized = match normalize_document(self, &statistics, ComparisonSide::Current) {
            Ok(normalized) => normalized,
            Err(error) => {
                return Err(error);
            },
        };
        proof {
            normalizing_keeps_standing(*self, normalized, statistics);
        }
        validate_report_validity(&normalized.validity, ComparisonSide::Current)?;
        validate_runner(normalized.runner_id.as_str(), ComparisonSide::Current)?;
        if normalized.cases.len() == 0 {
            return Err(ComparisonError::EmptyResultSet { side: ComparisonSide::Current });
        }
        reject_duplicate_identities(&normalized.cases, ComparisonSide::Current)
    }
}

/// The schema of a native report has to be the supported one.
pub open spec fn native_schema_obstacle(report: BenchmarkReport, side: ComparisonSide) -> Option<
    Obstacle,
> {
    if report.schema_version != REPORT_SCHEMA_VERSION {
        Some(
            Obstacle::Schema {
                side,
                found: report.schema_version,
                supported: REPORT_SCHEMA_VERSION,
            },
        )
    } else {
        None
    }
}

/// Why a report in memory has no persisted form, given what came of writing it.
pub open spec fn writing_obstacle(written: Result<Vec<u8>, String>, side: ComparisonSide) -> Option<
    Obstacle,
> {
    match written {
        Ok(_) => None,
        Err(message) => Some(Obstacle::Reference { side, message: message@ }),
    }
}

fn accept_written(written: Result<Vec<u8>, String>, side: ComparisonSide) -> (r: Result<
    Vec<u8>,
    ComparisonError,
>)
    ensures
        r is Err == writing_obstacle(written, side) is Some,
        r matches Err(e) ==> e@ == writing_obstacle(written, side)->0,
        r matches Ok(bytes) ==> written == Ok::<Vec<u8>, String>(bytes),
{
    match written {
        Ok(bytes) => Ok(bytes),
        Err(message) => Err(ComparisonError::ReferenceSerialization { side, message }),
    }
}

fn check_native_schema(report: &BenchmarkReport, side: ComparisonSide) -> (r: Result<
    (),
    ComparisonError,
>)
    ensures
        r is Err == native_schema_obstacle(*report, side) is Some,
        r matches Err(e) ==> e@ == native_schema_obstacle(*report, side)->0,
{
    if report.schema_version != REPORT_SCHEMA_VERSION {
        return Err(
            ComparisonError::UnsupportedSchema {
                side,
                found: report.schema_version,
                supported: REPORT_SCHEMA_VERSION,
            },
        );
    }
    Ok(())
}

fn check_series_report(report: &SeriesReport, side: ComparisonSide) -> (r: Result<
    (),
    ComparisonError,
>)
    ensures
        r is Err == normalize::series_obstacle(*report, side) is Some,
        r matches Err(e) ==> e@ == normalize::series_obstacle(*report, side)->0,
{
    if report.schema_version != SERIES_SCHEMA_VERSION {
        return Err(
            ComparisonError::UnsupportedSchema {
                side,
                found: report.schema_version,
                supported: SERIES_SCHEMA_VERSION,
            },
        );
    }
    match report.validate() {
        Ok(()) => Ok(()),
        Err(error) => Err(ComparisonError::InvalidReport { side, reason: error.message }),
    }
}

/// What stands in the way of comparing two native reports in memory.
pub open spec fn native_comparison_obstacle(
    current: BenchmarkReport,
    baseline: BenchmarkReport,
    options: ComparisonOptions,
) -> Option<Obstacle> {
    engine::first_obstacle(
        native_schema_obstacle(current, ComparisonSide::Current),
        engine::first_obstacle(
            native_schema_obstacle(baseline, ComparisonSide::Baseline),
            engine::first_obstacle(
                normalize::native_obstacle(current, ComparisonSide::Current),
                engine::first_obstacle(
                    normalize::native_obstacle(baseline, ComparisonSide::Baseline),
                    engine::obstacle_between(
                        native_standing(current),
                        native_standing(baseline),
                        options,
                    ),
                ),
            ),
        ),
    )
}

/// Whether a report is the comparison of two native reports in memory.
pub open spec fn natives_compared(
    report: ComparisonReport,
    current: BenchmarkReport,
    persisted: Seq<u8>,
    baseline: BenchmarkReport,
    baseline_persisted: Seq<u8>,
    options: ComparisonOptions,
    statistics: SampleStatistics,
    changes: Changes,
) -> bool {
    exists|c: NormalizedReport, cr: ReportReference, b: NormalizedReport, br: ReportReference|
        #![trigger engine::comparison_of(report, c, cr, b, br, options, changes)]
        {
            &&& normalize::native_report(c, current, statistics)
            &&& normalize::native_report(b, baseline, statistics)
            &&& cr.of_native(current, persisted, None)
            &&& br.of_native(baseline, baseline_persisted, None)
            &&& engine::comparison_of(report, c, cr, b, br, options, changes)
        }
}

/// Whether a result is that of comparing two native reports in memory.
pub open spec fn native_outcome(
    r: Result<ComparisonReport, ComparisonError>,
    current: BenchmarkReport,
    persisted: Seq<u8>,
    baseline: BenchmarkReport,
    baseline_persisted: Seq<u8>,
    options: ComparisonOptions,
    statistics: SampleStatistics,
    changes: Changes,
) -> bool {
    let obstacle = native_comparison_obstacle(current, baseline, options);
    &&& r is Err == obstacle is Some
    &&& r matches Err(e) ==> e@ == obstacle->0
    &&& r matches Ok(report) ==> natives_compared(
        report,
        current,
        persisted,
        baseline,
        baseline_persisted,
        options,
        statistics,
        changes,
    )
}

impl BenchmarkReport {
    /// The persisted form of the report, given what came of writing it.
    pub fn persisted_form(&self, written: Result<Vec<u8>, String>, side: ComparisonSide) -> (r:
        Result<Vec<u8>, ComparisonError>)
        ensures
            ({
                let obstacle = engine::first_obstacle(
                    native_schema_obstacle(*self, side),
                    writing_obstacle(written, side),
                );
                &&& r is Err == obstacle is Some
                &&& r matches Err(e) ==> e@ == obstacle->0
                &&& r matches Ok(bytes) ==> written == Ok::<Vec<u8>, String>(bytes)
            }),
    {
        match check_native_schema(self, side) {
            Ok(()) => accept_written(written, side),
            Err(error) => Err(error),
        }
    }

    /// Compares two native reports in memory, given their persisted forms, the
    /// statistics of their samples and the changes between their values.
    pub fn compare(
        &self,
        persisted: &[u8],
        baseline: &BenchmarkReport,
        baseline_persisted: &[u8],
        options: &ComparisonOptions,
        statistics: &SampleStatistics,
        changes: &Changes,
    ) -> (r: Result<ComparisonReport, ComparisonError>)
        ensures
            native_outcome(
                r,
                *self,
                persisted@,
                *baseline,
                baseline_persisted@,
                *options,
                *statistics,
                *changes,
            ),
    {
        match check_native_schema(self, ComparisonSide::Current) {
            Ok(()) => {},
            Err(error) => {
                return Err(error);
            },
        }
        match check_native_schema(baseline, ComparisonSide::Baseline) {
            Ok(()) => {},
            Err(error) => {
                return Err(error);
            },
        }
        let c = match normalize_native_report(self, statistics, ComparisonSide::Current) {
            Ok(normalized) => normalized,
            Err(error) => {
                return Err(error);
            },
        };
        let b = match normalize_native_report(baseline, statistics, ComparisonSide::Baseline) {
            Ok(normalized) => normalized,
            Err(error) => {
                return Err(error);
            },
        };
        proof {
            native_keeps_standing(c, *self, *statistics);
            native_keeps_standing(b, *baseline, *statistics);
        }
        let cr = ReportReference::native(self, persisted, None);
        let br = ReportReference::native(baseline, baseline_persisted, None);
        compare_normalized_reports(&c, &cr, &b, &br, options, changes)
    }
}

/// What stands in the way of comparing two series reports in memory.
pub open spec fn series_comparison_obstacle(
    current: SeriesReport,
    baseline: SeriesReport,
    options: ComparisonOptions,
) -> Option<Obstacle> {
    engine::first_obstacle(
        normalize::series_obstacle(current, ComparisonSide::Current),
        engine::first_obstacle(
            normalize::series_obstacle(baseline, ComparisonSide::Baseline),
            engine::obstacle_between(series_standing(current), series_standing(baseline), options),
        ),
    )
}

/// Whether a report is the comparison of two series reports in memory.
pub open spec fn series_compared(
    report: ComparisonReport,
    current: SeriesReport,
    persisted: Seq<u8>,
    baseline: SeriesReport,
    baseline_persisted: Seq<u8>,
    options: ComparisonOptions,
    statistics: SampleStatistics,
    changes: Changes,
) -> bool {
    exists|c: NormalizedReport, cr: ReportReference, b: NormalizedReport, br: ReportReference|
        #![trigger engine::comparison_of(report, c, cr, b, br, options, changes)]
        {
            &&& normalize::series_report(c, current, statistics)
            &&& normalize::series_report(b, baseline, statistics)
            &&& cr.of_series(current, persisted, None)
            &&& br.of_series(baseline, baseline_persisted, None)
            &&& engine::comparison_of(report, c, cr, b, br, options, changes)
        }
}

/// Whether a result is that of comparing two series reports in memory.
pub open spec fn series_outcome(
    r: Result<ComparisonReport, ComparisonError>,
    current: SeriesReport,
    persisted: Seq<u8>,
    baseline: SeriesReport,
    baseline_persisted: Seq<u8>,
    options: ComparisonOptions,
    statistics: SampleStatistics,
    changes: Changes,
) -> bool {
    let obstacle = series_comparison_obstacle(current, baseline, options);
    &&& r is Err == obstacle is Some
    &&& r matches Err(e) ==> e@ == obstacle->0
    &&& r matches Ok(report) ==> series_compared(
        report,
        current,
        persisted,
        baseline,
        baseline_persisted,
        options,
        statistics,
        changes,
    )
}

impl SeriesReport {
    /// The persisted form of the report, given what came of writing it.
    pub fn persisted_form(&self, written: Result<Vec<u8>, String>, side: ComparisonSide) -> (r:
        Result<Vec<u8>, ComparisonError>)
        ensures
            ({
                let obstacle = engine::first_obstacle(
                    normalize::series_obstacle(*self, side),
                    writing_obstacle(written, side),
                );
                &&& r is Err == obstacle is Some
                &&& r matches Err(e) ==> e@ == obstacle->0
                &&& r matches Ok(bytes) ==> written == Ok::<Vec<u8>, String>(bytes)
            }),
    {
        match check_series_report(self, side) {
            Ok(()) => accept_written(written, side),
            Err(error) => Err(error),
        }
    }

    /// Compares two series reports in memory, given their persisted forms, the
    /// statistics of their samples and the changes between their values.
    pub fn compare(
        &self,
        persisted: &[u8],
        baseline: &SeriesReport,
        baseline_persisted: &[u8],
        options: &ComparisonOptions,
        statistics: &SampleStatistics,
        changes: &Changes,
    ) -> (r: Result<ComparisonReport, ComparisonError>)
        ensures
            series_outcome(
                r,
                *self,
                persisted@,
                *baseline,
                baseline_persisted@,
                *options,
                *statistics,
                *changes,
            ),
    {
        match check_series_report(self, ComparisonSide::Current) {
            Ok(()) => {},
            Err(error) => {
                return Err(error);
            },
        }
        match check_series_report(baseline, ComparisonSide::Baseline) {
            Ok(()) => {},
            Err(error) => {
                return Err(error);
            },
        }
        let c = match normalize_series_report(self, statistics, ComparisonSide::Current) {
            Ok(normalized) => normalized,
            Err(error) => {
                return Err(error);
            },
        };
        let b = match normalize_series_report(baseline, statistics, ComparisonSide::Baseline) {
            Ok(normalized) => normalized,
            Err(error) => {
                return Err(error);
            },
        };
        proof {
            series_keeps_standing(c, *self, *statistics);
            series_keeps_standing(b, *baseline, *statistics);
        }
        let cr = ReportReference::series(self, persisted, None);
        let br = ReportReference::series(baseline, baseline_persisted, None);
        compare_normalized_reports(&c, &cr, &b, &br, options, changes)
    }
}

/// Where and when a native report was captured, and from which sources, has
/// no part in what it can be compared with.
pub proof fn provenance_never_matters(a: BenchmarkReport, b: BenchmarkReport)
    requires
        a.suite == b.suite,
        a.schema_version == b.schema_version,
        a.hostname@ == b.hostname@,
        a.context.runner_id@ == b.context.runner_id@,
        a.context.environment@ == b.context.environment@,
        a.results@ == b.results@,
    ensures
        native_standing(a) == native_standing(b),
        forall|side: ComparisonSide| #[trigger]
            normalize::native_obstacle(a, side) == normalize::native_obstacle(b, side),
{
    assert(native_standing(a).keys =~= native_standing(b).keys);
}

/// The provenance of a series result has no part in which case it is.
pub proof fn series_provenance_never_matters(
    a: crate::series::SeriesResult,
    b: crate::series::SeriesResult,
)
    requires
        a == (crate::series::SeriesResult { provenance: a.provenance, ..b }),
    ensures
        comparison::series_key(a) == comparison::series_key(b),
{
}

/// A document that is accepted by itself can be compared with itself, under
/// any options whose override is not blank, and every case of it is matched.
pub proof fn comparison_is_reflexive(document: ReportDocument, options: ComparisonOptions)
    requires
        document.lone_obstacle() is None,
        options.environment_override matches Some(given) ==> !text::blank(given.reason@),
    ensures
        document_obstacle(document, document, options) is None,
        engine::case_pairs(document.standing(), document.standing()) == Seq::new(
            document.spec_case_count(),
            |i: int| (i, i),
        ),
        engine::added_cases(document.standing(), document.standing()).len() == 0,
        engine::removed_cases(document.standing(), document.standing()).len() == 0,
{
    let keys = document.standing().keys;
    engine::no_repeat_means_distinct(keys);
    pairing::pairing_is_reflexive(keys);
    pairing::pairing_is_a_partition(keys, keys);
}

/// Where two documents can be compared in part, every case is either matched
/// or counted as added or removed.
pub proof fn every_case_is_accounted_for(current: Standing, baseline: Standing)
    ensures
        engine::case_pairs(current, baseline).len() + engine::added_cases(current, baseline).len()
            == current.keys.len(),
        engine::case_pairs(current, baseline).len() + engine::removed_cases(
            current,
            baseline,
        ).len() == baseline.keys.len(),
{
    pairing::pairing_is_a_partition(current.keys, baseline.keys);
}

/// In an accepted comparison a case of the current report is matched exactly
/// when the baseline has a case with the same identity.
pub proof fn matching_goes_by_identity(
    current: Standing,
    baseline: Standing,
    options: ComparisonOptions,
    i: int,
)
    requires
        engine::obstacle_between(current, baseline, options) is None,
        0 <= i < current.keys.len(),
    ensures
        pairing::paired_current(engine::case_pairs(current, baseline), i)
            <==> baseline.keys.contains(current.keys[i]),
{
    engine::no_repeat_means_distinct(current.keys);
    engine::no_repeat_means_distinct(baseline.keys);
    pairing::distinct_keys_decide(current.keys, baseline.keys, i);
}

/// Reports of different runners or environments are compared only for a
/// stated reason, and reports of different suites never.
pub proof fn accepted_comparisons_are_justified(
    current: Standing,
    baseline: Standing,
    options: ComparisonOptions,
)
    requires
        engine::obstacle_between(current, baseline, options) is None,
    ensures
        current.suite == baseline.suite,
        !engine::unknown_runner(current.runner),
        !engine::unknown_runner(baseline.runner),
        current.invalid is None,
        baseline.invalid is None,
        (current.runner == baseline.runner && current.environment == baseline.environment) || (
        options.environment_override matches Some(given) && !text::blank(given.reason@)),
{
}

/// Unless parts may be compared, an accepted comparison is one of two reports
/// with the same cases.
pub proof fn whole_comparisons_share_all_cases(
    current: Standing,
    baseline: Standing,
    options: ComparisonOptions,
)
    requires
        engine::obstacle_between(current, baseline, options) is None,
        !options.allow_partial_result_set,
    ensures
        current.keys.len() == baseline.keys.len(),
        forall|key| #[trigger] current.keys.contains(key) <==> baseline.keys.contains(key),
{
    pairing::complete_pairing_shares_keys(current.keys, baseline.keys);
}

/// Where a document was found, and what its bytes are, has no part in what it
/// can be compared with.
pub proof fn references_never_matter(a: ReportDocument, b: ReportDocument)
    requires
        match (a, b) {
            (
                ReportDocument::Native { report: x, .. },
                ReportDocument::Native { report: y, .. },
            ) => x == y,
            (
                ReportDocument::Series { report: x, .. },
                ReportDocument::Series { report: y, .. },
            ) => x == y,
            _ => false,
        },
    ensures
        a.standing() == b.standing(),
        forall|side: ComparisonSide| #[trigger] a.obstacle(side) == b.obstacle(side),
        forall|normalized: NormalizedReport, statistics: SampleStatistics| #[trigger]
            a.normalizes_to(normalized, statistics) == b.normalizes_to(normalized, statistics),
{
}

/// A comparison records what it was justified with, and both environments.
pub proof fn justifications_are_recorded(
    report: ComparisonReport,
    current: ReportDocument,
    baseline: ReportDocument,
    options: ComparisonOptions,
    statistics: SampleStatistics,
    changes: Changes,
)
    requires
        compared(
            report,
            current,
            baseline,
            options,
            statistics,
            changes,
        ),
    ensures
        report.environment.operator_override == options.environment_override,
        report.environment.current_runner_id@ == current.standing().runner,
        report.environment.baseline_runner_id@ == baseline.standing().runner,
        report.environment.current_environment@ == current.standing().environment,
        report.environment.baseline_environment@ == baseline.standing().environment,
{
    let (c, b) = choose|c: NormalizedReport, b: NormalizedReport| #[trigger]
        current.normalizes_to(c, statistics) && #[trigger] baseline.normalizes_to(
            b,
            statistics,
        ) && engine::comparison_of(
            report,
            c,
            current.spec_reference(),
            b,
            baseline.spec_reference(),
            options,
            changes,
        );
    normalizing_keeps_standing(current, c, statistics);
    normalizing_keeps_standing(baseline, b, statistics);
}

} // verus!
