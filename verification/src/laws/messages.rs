//! What errors say: whom they are about, and which of two things is which.
use crate::bench::calibration::RuntimeOptionError;
use crate::bench::ConcurrentCaseError;
use crate::comparison::error;
use crate::comparison::error::{ComparisonError, ReportError};
use crate::comparison::{ComparisonSide, ReportDocumentType};
use crate::context::ContextError;
use crate::laws::rendering::side_shown;
use crate::policy::PolicyError;
use crate::suite::error::SuiteComparisonError;
use crate::suite::ReportInputRole;
use crate::text;
use vstd::prelude::*;

verus! {

/// Two things that do not agree are named in their order, the current one first.
pub proof fn mismatches_name_the_current_first(e: ComparisonError, r: String)
    requires
        call_ensures(ComparisonError::message, (&e,), r),
    ensures
        e matches ComparisonError::SuiteMismatch { current, baseline } ==> r@
            == "suite mismatch: current report is "@ + text::debug_form(current@)
            + ", baseline report is "@ + text::debug_form(baseline@),
        e matches ComparisonError::RunnerMismatch { current, baseline } ==> r@
            == "runner mismatch: current report is from "@ + text::debug_form(current@)
            + ", baseline report is from "@ + text::debug_form(baseline@),
        e matches ComparisonError::EnvironmentMismatch { current, baseline } ==> r@
            == "comparison environment mismatch: current is "@ + error::map_text(current.pairs())
            + ", baseline is "@ + error::map_text(baseline.pairs()),
        e matches ComparisonError::ResultSetMismatch { added, removed } ==> r@
            == "result sets differ: "@ + text::decimal(added as nat) + " current-only and "@
            + text::decimal(removed as nat) + " baseline-only benchmarks"@,
{
}

/// What is wrong with one side is said of that side.
pub proof fn faults_name_their_side(e: ComparisonError, r: String)
    requires
        call_ensures(ComparisonError::message, (&e,), r),
    ensures
        e matches ComparisonError::UnsupportedSchema { side, found, supported } ==> r@
            == side_shown(side) + " report uses schema version "@ + text::decimal(found as nat)
            + ", but this version supports "@ + text::decimal(supported as nat),
        e matches ComparisonError::MissingSuite { side } ==> r@ == side_shown(side)
            + " report has no suite identity"@,
        e matches ComparisonError::UnknownRunner { side } ==> r@ == side_shown(side)
            + " report has no known runner identity"@,
        e matches ComparisonError::DuplicateIdentity { side, identity } ==> r@ == side_shown(side)
            + " report contains duplicate benchmark identity "@ + identity.group_text() + "/"@
            + identity.name_text(),
        e matches ComparisonError::EmptyResultSet { side } ==> r@ == side_shown(side)
            + " report contains no benchmark results"@,
        e matches ComparisonError::InvalidReport { side, reason } ==> r@ == side_shown(side)
            + " report is invalid: "@ + reason@,
        e matches ComparisonError::ReferenceSerialization { side, message } ==> r@
            == "failed to identify "@ + side_shown(side) + " report: "@ + message@,
        e is InvalidEnvironmentOverride ==> r@ == "environment override reason must not be empty"@,
{
}

/// Where a report was read from.
pub open spec fn place_shown(path: Option<String>) -> Seq<char> {
    match path {
        Some(place) => " at "@ + place@,
        None => ""@,
    }
}

/// A report that cannot be used is named by its path, where it has one.
pub proof fn report_errors_name_their_path(e: ReportError, r: String)
    requires
        call_ensures(ReportError::message, (&e,), r),
    ensures
        e matches ReportError::Io { path, message } ==> r@ == "failed to read report "@ + path@
            + ": "@ + message@,
        e matches ReportError::MalformedJson { path, message } ==> r@ == "malformed JSON"@
            + place_shown(path) + ": "@ + message@,
        e matches ReportError::MalformedReport { path, message } ==> r@
            == "malformed benchmark report"@ + place_shown(path) + ": "@ + message@,
        e matches ReportError::InvalidSchemaVersion { path } ==> r@ == "benchmark report"@
            + place_shown(path) + " has an invalid schema_version"@,
        e matches ReportError::UnsupportedSchema { path, found, supported } ==> r@ == "report"@
            + place_shown(path) + " uses schema version "@ + text::decimal(found as nat)
            + ", but this version supports "@ + text::decimal(supported as nat),
        e matches ReportError::UnsupportedDocumentType { path, found } ==> r@
            == "unsupported report document_type "@ + text::debug_form(found@) + place_shown(path),
        e matches ReportError::InvalidReport { path, reason } ==> r@ == "invalid report"@
            + place_shown(path) + ": "@ + reason@,
{
}

/// The name of a type of document, as its variants are called.
pub open spec fn type_shown(kind: ReportDocumentType) -> Seq<char> {
    match kind {
        ReportDocumentType::NativeBenchmark => "NativeBenchmark"@,
        ReportDocumentType::Series => "Series"@,
    }
}

/// The name of an input's part.
pub open spec fn role_shown(role: ReportInputRole) -> Seq<char> {
    match role {
        ReportInputRole::Current => "current"@,
        ReportInputRole::Baseline => "baseline"@,
        ReportInputRole::Validation => "validation"@,
    }
}

/// Errors about suites name the suite and both sides in their order: a type
/// changes from the baseline's to the current one.
pub proof fn suite_errors_name_their_suite(
    e: SuiteComparisonError,
    r: String,
)
    requires
        call_ensures(SuiteComparisonError::message, (&e,), r),
    ensures
        e matches SuiteComparisonError::DocumentTypeMismatch { suite, current, baseline } ==> r@
            == "suite "@ + text::debug_form(suite@) + " changes document type from "@ + type_shown(
            baseline,
        ) + " to "@ + type_shown(current),
        e matches SuiteComparisonError::SuiteSetMismatch { added, removed } ==> r@
            == "suite sets differ: current-only ["@ + text::joined(text::texts(added@), ", "@)
            + "] and baseline-only ["@ + text::joined(text::texts(removed@), ", "@) + "]"@,
        e matches SuiteComparisonError::DuplicateSuite { role, suite, first, second } ==> r@
            == role_shown(role) + " input contains duplicate suite "@ + text::debug_form(suite@)
            + ": "@ + first@ + " and "@ + second@,
        e matches SuiteComparisonError::NoReports { path } ==> r@ == "no JSON reports found under "@
            + path@,
        e matches SuiteComparisonError::UnsupportedInput { path } ==> r@ == path@
            + " is not a report file or directory"@,
        e matches SuiteComparisonError::InputIo { path, message } ==> r@ == "failed to inspect "@
            + path@ + ": "@ + message@,
{
}

/// An error within another is told in its own words.
pub proof fn inner_errors_speak_for_themselves(
    e: SuiteComparisonError,
    r: String,
    report: String,
    comparison: String,
    policy: String,
)
    requires
        call_ensures(SuiteComparisonError::message, (&e,), r),
        e matches SuiteComparisonError::Report(inner) ==> call_ensures(
            ReportError::message,
            (&inner,),
            report,
        ),
        e matches SuiteComparisonError::InvalidDocument { path, source } ==> call_ensures(
            ComparisonError::message,
            (&*source,),
            comparison,
        ),
        e matches SuiteComparisonError::Comparison { suite, source } ==> call_ensures(
            ComparisonError::message,
            (&*source,),
            comparison,
        ),
        e matches SuiteComparisonError::Policy { suite, source } ==> call_ensures(
            PolicyError::message,
            (&source,),
            policy,
        ),
    ensures
        e is Report ==> r@ == report@,
        e matches SuiteComparisonError::InvalidDocument { path, .. } ==> r@ == "report "@ + path@
            + " is not comparable: "@ + comparison@,
        e matches SuiteComparisonError::Comparison { suite: Some(name), .. } ==> r@
            == "failed to compare suite "@ + text::debug_form(name@) + ": "@ + comparison@,
        e matches SuiteComparisonError::Comparison { suite: None, .. } ==> r@ == comparison@,
        e matches SuiteComparisonError::Policy { suite: Some(name), .. } ==> r@
            == "failed to evaluate suite "@ + text::debug_form(name@) + ": "@ + policy@,
        e matches SuiteComparisonError::Policy { suite: None, .. } ==> r@ == policy@,
{
}

/// A policy that cannot be applied says why.
pub proof fn policy_errors_say_why(e: PolicyError, r: String)
    requires
        call_ensures(PolicyError::message, (&e,), r),
    ensures
        e matches PolicyError::InvalidConfiguration { reason } ==> r@
            == "invalid regression policy: "@ + reason@,
{
}

/// A context that cannot be used names its path, where it has one.
pub proof fn context_errors_name_their_path(e: ContextError, r: String)
    requires
        call_ensures(ContextError::message, (&e,), r),
    ensures
        e matches ContextError::Io { path, message } ==> r@ == "failed to read report context "@
            + path@ + ": "@ + message@,
        e matches ContextError::Malformed { path, message } ==> r@
            == "malformed report context at "@ + path@ + ": "@ + message@,
        e matches ContextError::Invalid { path: Some(path), reason } ==> r@
            == "invalid report context at "@ + path@ + ": "@ + reason@,
        e matches ContextError::Invalid { path: None, reason } ==> r@ == "invalid report context: "@
            + reason@,
{
}

/// Options that cannot be used name the option at fault.
pub proof fn option_errors_name_the_option(
    e: RuntimeOptionError,
    r: &'static str,
    c: ConcurrentCaseError,
    s: &'static str,
)
    requires
        call_ensures(RuntimeOptionError::message, (&e,), r),
        call_ensures(ConcurrentCaseError::message, (&c,), s),
    ensures
        e is NoWarmUp ==> r@ == "warm_up_duration must be > 0"@,
        e is NoBenchmarkTime ==> r@ == "benchmark_duration must be > 0"@,
        e is NoMinimum ==> r@ == "min_samples must be > 0"@,
        e is NoMaximum ==> r@ == "max_samples must be > 0"@,
        e is MinimumAboveMaximum ==> r@ == "min_samples must be <= max_samples"@,
        c is NoSampleTime ==> s@ == "concurrent benchmark sample_duration must be > 0"@,
        c is NoThreads ==> s@ == "concurrent benchmark requires at least one worker thread"@,
{
}

} // verus!
