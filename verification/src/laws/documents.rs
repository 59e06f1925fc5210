//! What a report says of itself, and what a comparison says of its two reports.
use crate::comparison::compare;
use crate::comparison::compare::compare_reports;
use crate::comparison::document;
use crate::comparison::document::{
    check_document, document_kind, native_schema, render_hex, series_schema, sha256_digest,
    validate_schema, JsonContent, JsonField, ReportDocument,
};
use crate::comparison::engine;
use crate::comparison::engine::Changes;
use crate::comparison::error::{ComparisonError, ReportError};
use crate::comparison::normalize::{NormalizedReport, SampleStatistics};
use crate::comparison::{
    BenchmarkCaseIdentity, ComparisonCaseIdentity, ComparisonCaseSnapshot, ComparisonOptions,
    ComparisonReport, ComparisonSide, ReportDocumentType, ReportReference, SeriesCaseIdentity,
};
use crate::laws::comparison::{environment, runner, soundness_is_the_lack_of_obstacles, suite};
use crate::series::{SeriesReport, SeriesResult, ValidityStatus};
use crate::session::{BenchmarkReport, BenchmarkResult};
use crate::text;
use vstd::prelude::*;

verus! {

/// The number that a hexadecimal digit stands for.
pub open spec fn nibble(c: char) -> int {
    if '0' <= c <= '9' {
        c as int - 0x30
    } else if 'a' <= c <= 'f' {
        c as int - 0x57
    } else {
        -1
    }
}

proof fn hex_digits_stand_for_bytes(bytes: Seq<u8>)
    ensures
        document::hex_text(bytes).len() == 2 * bytes.len(),
        forall|i: int|
            0 <= i < bytes.len() ==> #[trigger] bytes[i] == 16 * nibble(
                document::hex_text(bytes)[2 * i],
            ) + nibble(document::hex_text(bytes)[2 * i + 1]),
    decreases bytes.len(),
{
    if bytes.len() > 0 {
        let front = bytes.drop_last();
        hex_digits_stand_for_bytes(front);
        let before = document::hex_text(front);
        let whole = document::hex_text(bytes);
        let last = bytes.last();
        let n = before.len() as int;
        assert(whole[n] == document::hex_digit((last / 16) as nat));
        assert(whole[n + 1] == document::hex_digit((last % 16) as nat));
        nibbles_are_digits((last / 16) as nat);
        nibbles_are_digits((last % 16) as nat);
        assert forall|i: int| 0 <= i < bytes.len() implies #[trigger] bytes[i] == 16 * nibble(
            whole[2 * i],
        ) + nibble(whole[2 * i + 1]) by {
            if i < front.len() {
                assert(front[i] == bytes[i]);
                assert(whole[2 * i] == before[2 * i]);
                assert(whole[2 * i + 1] == before[2 * i + 1]);
            }
        }
    }
}

proof fn nibbles_are_digits(n: nat)
    requires
        n < 16,
    ensures
        nibble(document::hex_digit(n)) == n,
{
}

/// Bytes are written in two hexadecimal digits each, the higher one first.
pub proof fn bytes_are_written_in_two_digits(bytes: &[u8], r: String)
    requires
        call_ensures(render_hex, (bytes,), r),
    ensures
        r@.len() == 2 * bytes@.len(),
        forall|i: int|
            0 <= i < bytes@.len() ==> #[trigger] bytes@[i] == 16 * nibble(r@[2 * i]) + nibble(
                r@[2 * i + 1],
            ),
{
    hex_digits_stand_for_bytes(bytes@);
}

/// A digest names its algorithm, and is written in 64 digits; the same bytes have
/// the same digest.
pub proof fn digests_name_their_algorithm(bytes: &[u8], r: String, again: String)
    requires
        call_ensures(sha256_digest, (bytes,), r),
        call_ensures(sha256_digest, (bytes,), again),
    ensures
        r@ == again@,
        r@.len() == 71,
        r@.subrange(0, 7) == "sha256:"@,
{
    reveal_strlit("sha256:");
    assert(r@.subrange(0, 7) =~= "sha256:"@);
}

/// A document without a type is a native one, one of the series type is a series,
/// and any other is refused.
pub proof fn types_tell_documents_apart(
    member: JsonField,
    path: Option<String>,
    r: Result<ReportDocumentType, ReportError>,
)
    requires
        call_ensures(document_kind, (&member, &path), r),
    ensures
        member is Absent <==> r == Ok::<ReportDocumentType, ReportError>(
            ReportDocumentType::NativeBenchmark,
        ),
        (member matches JsonField::Text { content } && content@ == "micromeasure-series"@) <==> r
            == Ok::<ReportDocumentType, ReportError>(ReportDocumentType::Series),
        member matches JsonField::Text { content } ==> (content@ != "micromeasure-series"@ ==> (
        r matches Err(ReportError::UnsupportedDocumentType { path: at, found }) && at == path
            && found@ == content@)),
        !(member is Absent) && !(member is Text) ==> (r matches Err(
            ReportError::InvalidReport { path: at, .. },
        ) && at == path),
{
}

/// The version of a schema that a member states.
pub open spec fn states(member: JsonField, version: u32) -> bool {
    member matches JsonField::Number { unsigned: Some(n) } && n == version
}

/// A native document is of the first schema, which it need not state.
pub proof fn native_documents_are_of_the_first_schema(
    member: JsonField,
    path: Option<String>,
    r: Result<(), ReportError>,
)
    requires
        call_ensures(native_schema, (&member, &path), r),
    ensures
        r is Ok <==> member is Absent || states(member, 1),
        r matches Err(ReportError::UnsupportedSchema { path: at, found, supported }) ==> at == path
            && states(member, found) && found != 1 && supported == 1,
        forall|v: u32|
            v != 1 && #[trigger] states(member, v) ==> (r matches Err(
                ReportError::UnsupportedSchema { .. },
            )),
{
}

/// A series document states its type and the first schema.
pub proof fn series_documents_state_type_and_schema(
    kind: JsonField,
    version: JsonField,
    path: Option<String>,
    r: Result<(), ReportError>,
)
    requires
        call_ensures(series_schema, (&kind, &version, &path), r),
    ensures
        r is Ok <==> (kind matches JsonField::Text { content } && content@
            == "micromeasure-series"@) && states(version, 1),
        r matches Err(ReportError::UnsupportedSchema { path: at, found, supported }) ==> at == path
            && states(version, found) && found != 1 && supported == 1,
{
}

/// The first schema alone is supported.
pub proof fn only_the_first_schema_is_supported(
    version: u32,
    path: Option<String>,
    r: Result<(), ReportError>,
)
    requires
        call_ensures(validate_schema, (version, &path), r),
    ensures
        r is Ok <==> version == 1,
        r matches Err(e) ==> (e matches ReportError::UnsupportedSchema { path: at, found, supported }
            && at == path && found == version && supported == 1),
{
}

/// What a document is, by its bytes: its type and its schema decide.
pub proof fn documents_are_known_by_type_and_schema(
    bytes: &[u8],
    path: Option<String>,
    r: Result<ReportDocumentType, ReportError>,
)
    requires
        call_ensures(check_document, (bytes, &path), r),
    ensures
        ({
            let kind = document::json_member_of(bytes@, "document_type"@);
            let version = document::json_member_of(bytes@, "schema_version"@);
            let first = version == Ok::<JsonContent, Seq<char>>(
                JsonContent::Number { unsigned: Some(1) },
            );
            let unstated = version == Ok::<JsonContent, Seq<char>>(JsonContent::Absent);
            let native = kind == Ok::<JsonContent, Seq<char>>(JsonContent::Absent);
            let series = kind == Ok::<JsonContent, Seq<char>>(
                JsonContent::Text { content: "micromeasure-series"@ },
            );
            &&& r == Ok::<ReportDocumentType, ReportError>(ReportDocumentType::NativeBenchmark)
                <==> native && (first || unstated)
            &&& r == Ok::<ReportDocumentType, ReportError>(ReportDocumentType::Series) <==> series
                && first
            &&& kind is Err ==> (r matches Err(ReportError::MalformedJson { path: at, .. }) && at
                == path)
        }),
{
}

/// A reference to a native report names its type, suite, time, digest and path,
/// and its provenance with the commit where that is not given already.
pub proof fn native_references_name_their_report(
    report: BenchmarkReport,
    bytes: &[u8],
    path: Option<String>,
    r: ReportReference,
    digest: String,
)
    requires
        call_ensures(ReportReference::native, (&report, bytes, path), r),
        call_ensures(sha256_digest, (bytes,), digest),
    ensures
        r.document_type is NativeBenchmark,
        r.schema_version == report.schema_version,
        r.suite == report.suite,
        r.content_digest@ == digest@,
        r.capture_time@ == report.timestamp@,
        r.display_path == path,
        forall|key: Seq<char>|
            #![trigger r.source_provenance@.contains_key(key)]
            report.context.provenance@.contains_key(key) ==> r.source_provenance@.contains_key(key)
                && r.source_provenance@[key] == report.context.provenance@[key],
        report.git_commit matches Some(commit) ==> (!report.context.provenance@.contains_key(
            "commit"@,
        ) ==> r.source_provenance@.contains_key("commit"@) && r.source_provenance@["commit"@]
            == commit@),
        report.git_commit is None ==> r.source_provenance@ == report.context.provenance@,
        forall|key: Seq<char>|
            #![trigger r.source_provenance@.contains_key(key)]
            key != "commit"@ && r.source_provenance@.contains_key(key)
                ==> report.context.provenance@.contains_key(key),
{
}

/// A reference to a series names its type, suite, time, digest, path and
/// provenance.
pub proof fn series_references_name_their_report(
    report: SeriesReport,
    bytes: &[u8],
    path: Option<String>,
    r: ReportReference,
    digest: String,
)
    requires
        call_ensures(ReportReference::series, (&report, bytes, path), r),
        call_ensures(sha256_digest, (bytes,), digest),
    ensures
        r.document_type is Series,
        r.schema_version == report.schema_version,
        r.suite matches Some(name) && name@ == report.suite@,
        r.content_digest@ == digest@,
        r.capture_time@ == report.timestamp@,
        r.display_path == path,
        r.source_provenance@ == report.context.provenance@,
{
}

/// A document gives back the report that it was made of, and only as what it is.
pub proof fn documents_give_their_report_back(
    report: BenchmarkReport,
    bytes: &[u8],
    path: Option<String>,
    loaded: ReportDocument,
    native: Option<&BenchmarkReport>,
    other: Option<&SeriesReport>,
    reference: &ReportReference,
    made: Result<ReportDocument, ReportError>,
)
    requires
        call_ensures(ReportDocument::loaded_native, (report, bytes, path), loaded),
        call_ensures(ReportDocument::as_native, (&loaded,), native),
        call_ensures(ReportDocument::as_series, (&loaded,), other),
        call_ensures(ReportDocument::reference, (&loaded,), reference),
        call_ensures(ReportDocument::from_native, (report, bytes), made),
    ensures
        native == Some(&report),
        other is None,
        reference.document_type is NativeBenchmark,
        reference.display_path == path,
        reference.capture_time@ == report.timestamp@,
        made is Ok <==> report.schema_version == 1,
        made matches Ok(document) ==> (document matches ReportDocument::Native { report: held, .. }
            && held == report),
{
}

/// The same of a series, which is checked first.
pub proof fn series_documents_give_their_report_back(
    report: SeriesReport,
    bytes: &[u8],
    path: Option<String>,
    loaded: Result<ReportDocument, ReportError>,
    made: Result<ReportDocument, ReportError>,
)
    requires
        call_ensures(ReportDocument::loaded_series, (report, bytes, path), loaded),
        call_ensures(ReportDocument::from_series, (report, bytes), made),
    ensures
        loaded is Ok <==> made is Ok,
        loaded matches Ok(document) ==> (document matches ReportDocument::Series {
            report: held,
            reference,
        } && held == report && reference.document_type is Series && reference.display_path == path),
        made matches Ok(document) ==> (document matches ReportDocument::Series {
            report: held,
            reference,
        } && held == report && reference.document_type is Series && reference.display_path
            is None),
{
}

/// What is to be warned of on one side of a case.
pub open spec fn warned(side: Seq<char>, shown: ComparisonCaseSnapshot) -> Seq<Seq<char>> {
    if shown.validity.status is Invalid {
        seq![
            side + " result is invalid: "@ + match shown.validity.reason {
                Some(reason) => reason@,
                None => "no reason supplied"@,
            },
        ]
    } else if shown.primary.value is None {
        seq![side + " primary measurement is not finite"@]
    } else {
        seq![]
    }
}

/// A comparison names its two reports, their suite, their runners and their
/// environments, says whether those agree, and warns of cases that are invalid or
/// without a number.
pub proof fn comparisons_name_their_reports(
    current: &ReportDocument,
    baseline: &ReportDocument,
    options: &ComparisonOptions,
    statistics: &SampleStatistics,
    changes: &Changes,
    result: Result<ComparisonReport, ComparisonError>,
)
    requires
        call_ensures(compare_reports, (current, baseline, options, statistics, changes), result),
    ensures
        result matches Ok(report) ==> {
            let a = current.spec_reference();
            let b = baseline.spec_reference();
            &&& report.schema_version == 1
            &&& report.current.document_type == a.document_type
            &&& report.current.content_digest@ == a.content_digest@
            &&& report.current.capture_time@ == a.capture_time@
            &&& report.current.display_path == a.display_path
            &&& report.current.source_provenance@ == a.source_provenance@
            &&& report.baseline.document_type == b.document_type
            &&& report.baseline.content_digest@ == b.content_digest@
            &&& report.baseline.capture_time@ == b.capture_time@
            &&& report.baseline.display_path == b.display_path
            &&& report.baseline.source_provenance@ == b.source_provenance@
            &&& suite(*current) == Some(report.suite@)
            &&& report.environment.current_runner_id@ == runner(*current)
            &&& report.environment.baseline_runner_id@ == runner(*baseline)
            &&& report.environment.current_environment@ == environment(*current)
            &&& report.environment.baseline_environment@ == environment(*baseline)
            &&& report.environment.exact_match <==> runner(*current) == runner(*baseline)
                && environment(*current) == environment(*baseline)
            &&& report.environment.operator_override == options.environment_override
            &&& forall|k: int|
                0 <= k < report.matched@.len() ==> text::texts(
                    (#[trigger] report.matched@[k]).stability_warnings@,
                ) == warned("current"@, report.matched@[k].current) + warned(
                    "baseline"@,
                    report.matched@[k].baseline,
                )
        },
{
    if let Ok(report) = result {
        let (c, b) = choose|c: NormalizedReport, b: NormalizedReport| #[trigger]
            current.normalizes_to(c, *statistics) && #[trigger] baseline.normalizes_to(
                b,
                *statistics,
            ) && engine::comparison_of(
                report,
                c,
                current.spec_reference(),
                b,
                baseline.spec_reference(),
                *options,
                *changes,
            );
        compare::normalizing_keeps_standing(*current, c, *statistics);
        compare::normalizing_keeps_standing(*baseline, b, *statistics);
        soundness_is_the_lack_of_obstacles(*current, ComparisonSide::Current);
        soundness_is_the_lack_of_obstacles(*baseline, ComparisonSide::Baseline);
        let pairs = engine::case_pairs(c.standing(), b.standing());
        assert forall|k: int| 0 <= k < report.matched@.len() implies text::texts(
            (#[trigger] report.matched@[k]).stability_warnings@,
        ) == warned("current"@, report.matched@[k].current) + warned(
            "baseline"@,
            report.matched@[k].baseline,
        ) by {
            assert(engine::matched_of(
                report.matched@[k],
                c.cases@[pairs[k].0],
                b.cases@[pairs[k].1],
                *changes,
            ));
        }
    }
}

/// A case is known by everything that tells it apart: two identities are the same
/// where none of it differs.
pub proof fn native_cases_are_known_by_all_their_parts(
    result: BenchmarkResult,
    identity: BenchmarkCaseIdentity,
    other: BenchmarkCaseIdentity,
    same: bool,
)
    requires
        call_ensures(BenchmarkCaseIdentity::from_result, (&result,), identity),
        call_ensures(BenchmarkCaseIdentity::same, (&identity, &other), same),
    ensures
        same <==> {
            &&& result.group@ == other.group@
            &&& result.name@ == other.name@
            &&& result.kind == other.kind
            &&& result.stats.throughput.amount() == other.throughput.amount()
            &&& result.stats.throughput.unit_text() == other.throughput.unit_text()
            &&& result.stats.measurement_domain == other.measurement_domain
            &&& result.metadata@ == other.metadata@
        },
{
}

/// The same of the cases of a series.
pub proof fn series_cases_are_known_by_all_their_parts(
    result: SeriesResult,
    identity: SeriesCaseIdentity,
    other: SeriesCaseIdentity,
    same: bool,
)
    requires
        call_ensures(SeriesCaseIdentity::from_result, (&result,), identity),
        call_ensures(SeriesCaseIdentity::same, (&identity, &other), same),
    ensures
        same <==> {
            &&& result.group@ == other.group@
            &&& result.name@ == other.name@
            &&& result.measurement == other.measurement
            &&& result.unit@ == other.unit@
            &&& result.direction == other.direction
            &&& result.dimensions@ == other.dimensions@
        },
{
}

/// Options of a comparison start strict, and each of them is set alone.
pub proof fn comparisons_start_strict(
    usual: ComparisonOptions,
    options: ComparisonOptions,
    yes: bool,
    partial: ComparisonOptions,
    sets: ComparisonOptions,
    reason: String,
    excused: ComparisonOptions,
)
    requires
        call_ensures(<ComparisonOptions as Default>::default, (), usual),
        call_ensures(ComparisonOptions::allow_partial_result_set, (options, yes), partial),
        call_ensures(ComparisonOptions::require_same_suite_set, (options, yes), sets),
        call_ensures(ComparisonOptions::with_environment_override, (options, reason), excused),
    ensures
        !usual.allow_partial_result_set && !usual.require_same_suite_set
            && usual.environment_override is None,
        partial.allow_partial_result_set == yes && partial.require_same_suite_set
            == options.require_same_suite_set && partial.environment_override
            == options.environment_override,
        sets.require_same_suite_set == yes && sets.allow_partial_result_set
            == options.allow_partial_result_set && sets.environment_override
            == options.environment_override,
        excused.environment_override matches Some(given) && given.reason@ == reason@,
        excused.allow_partial_result_set == options.allow_partial_result_set
            && excused.require_same_suite_set == options.require_same_suite_set,
{
}

} // verus!
