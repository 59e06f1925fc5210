//! Why reports cannot be compared suite by suite.
use crate::comparison::error::{ComparisonError, Obstacle, ReportError};
use crate::comparison::ReportDocumentType;
use crate::policy::PolicyError;
use crate::suite::ReportInputRole;
use crate::text;
use vstd::prelude::*;

verus! {

/// A failure to load, accept or compare the reports of a directory or a file.
#[allow(inconsistent_fields)]
#[derive(Debug)]
pub enum SuiteComparisonError {
    InputIo { path: String, message: String },
    UnsupportedInput { path: String },
    NoReports { path: String },
    Report(ReportError),
    InvalidDocument { path: String, source: Box<ComparisonError> },
    DuplicateSuite { role: ReportInputRole, suite: String, first: String, second: String },
    DocumentTypeMismatch {
        suite: String,
        current: ReportDocumentType,
        baseline: ReportDocumentType,
    },
    SuiteSetMismatch { added: Vec<String>, removed: Vec<String> },
    Comparison { suite: Option<String>, source: Box<ComparisonError> },
    Policy { suite: Option<String>, source: PolicyError },
}

/// The contents of a failure.
#[allow(inconsistent_fields)]
pub ghost enum SuiteFailure {
    InputIo { path: Seq<char>, message: Seq<char> },
    UnsupportedInput { path: Seq<char> },
    NoReports { path: Seq<char> },
    Report { error: ReportError },
    InvalidDocument { path: Seq<char>, obstacle: Obstacle },
    DuplicateSuite {
        role: ReportInputRole,
        suite: Seq<char>,
        first: Seq<char>,
        second: Seq<char>,
    },
    KindsDiffer {
        suite: Seq<char>,
        current: ReportDocumentType,
        baseline: ReportDocumentType,
    },
    SuiteSetsDiffer { added: Seq<Seq<char>>, removed: Seq<Seq<char>> },
    Comparison { suite: Option<Seq<char>>, obstacle: Obstacle },
    Policy { suite: Option<Seq<char>>, reason: Seq<char> },
}

/// A text that may be missing, by its characters.
pub open spec fn optional_text(value: Option<String>) -> Option<Seq<char>> {
    match value {
        Some(text) => Some(text@),
        None => None,
    }
}

impl View for SuiteComparisonError {
    type V = SuiteFailure;

    open spec fn view(&self) -> SuiteFailure {
        match self {
            SuiteComparisonError::InputIo { path, message } => SuiteFailure::InputIo {
                path: path@,
                message: message@,
            },
            SuiteComparisonError::UnsupportedInput { path } => SuiteFailure::UnsupportedInput {
                path: path@,
            },
            SuiteComparisonError::NoReports { path } => SuiteFailure::NoReports { path: path@ },
            SuiteComparisonError::Report(error) => SuiteFailure::Report { error: *error },
            SuiteComparisonError::InvalidDocument { path, source } =>
                SuiteFailure::InvalidDocument { path: path@, obstacle: source@ },
            SuiteComparisonError::DuplicateSuite { role, suite, first, second } =>
                SuiteFailure::DuplicateSuite {
                role: *role,
                suite: suite@,
                first: first@,
                second: second@,
            },
            SuiteComparisonError::DocumentTypeMismatch { suite, current, baseline } =>
                SuiteFailure::KindsDiffer {
                suite: suite@,
                current: *current,
                baseline: *baseline,
            },
            SuiteComparisonError::SuiteSetMismatch { added, removed } =>
                SuiteFailure::SuiteSetsDiffer {
                added: text::texts(added@),
                removed: text::texts(removed@),
            },
            SuiteComparisonError::Comparison { suite, source } => SuiteFailure::Comparison {
                suite: optional_text(*suite),
                obstacle: source@,
            },
            SuiteComparisonError::Policy { suite, source } => SuiteFailure::Policy {
                suite: optional_text(*suite),
                reason: source.reason_text(),
            },
        }
    }
}

/// The kind of a document, as it is called in code.
pub open spec fn kind_text(kind: ReportDocumentType) -> Seq<char> {
    match kind {
        ReportDocumentType::NativeBenchmark => "NativeBenchmark"@,
        ReportDocumentType::Series => "Series"@,
    }
}

fn kind_name(kind: ReportDocumentType) -> (r: &'static str)
    ensures
        r@ == kind_text(kind),
{
    match kind {
        ReportDocumentType::NativeBenchmark => "NativeBenchmark",
        ReportDocumentType::Series => "Series",
    }
}

/// A message about a suite, or about the whole input where none is named.
pub open spec fn about_suite(prefix: Seq<char>, suite: Option<String>, message: Seq<char>) -> Seq<char> {
    match suite {
        Some(suite) => prefix + text::debug_form(suite@) + ": "@ + message,
        None => message,
    }
}

fn name_suite(prefix: &str, suite: &Option<String>, message: String) -> (r: String)
    ensures
        r@ == about_suite(prefix@, *suite, message@),
{
    match suite {
        Some(suite) => {
            let mut r = prefix.to_owned();
            r.append(text::debug_text(suite.as_str()).as_str());
            r.append(": ");
            r.append(message.as_str());
            r
        },
        None => message,
    }
}

impl SuiteComparisonError {
    pub open spec fn message_text(&self) -> Seq<char> {
        match self {
            SuiteComparisonError::InputIo { path, message } => "failed to inspect "@ + path@ + ": "@
                + message@,
            SuiteComparisonError::UnsupportedInput { path } => path@
                + " is not a report file or directory"@,
            SuiteComparisonError::NoReports { path } => "no JSON reports found under "@ + path@,
            SuiteComparisonError::Report(error) => error.message_text(),
            SuiteComparisonError::InvalidDocument { path, source } => "report "@ + path@
                + " is not comparable: "@ + source.message_text(),
            SuiteComparisonError::DuplicateSuite { role, suite, first, second } => role.text()
                + " input contains duplicate suite "@ + text::debug_form(suite@) + ": "@ + first@
                + " and "@ + second@,
            SuiteComparisonError::DocumentTypeMismatch { suite, current, baseline } => "suite "@
                + text::debug_form(suite@) + " changes document type from "@ + kind_text(*baseline)
                + " to "@ + kind_text(*current),
            SuiteComparisonError::SuiteSetMismatch { added, removed } =>
                "suite sets differ: current-only ["@ + text::joined(text::texts(added@), ", "@)
                + "] and baseline-only ["@ + text::joined(text::texts(removed@), ", "@) + "]"@,
            SuiteComparisonError::Comparison { suite, source } => about_suite(
                "failed to compare suite "@,
                *suite,
                source.message_text(),
            ),
            SuiteComparisonError::Policy { suite, source } => about_suite(
                "failed to evaluate suite "@,
                *suite,
                source.message_text(),
            ),
        }
    }

    /// The error as text.
    pub fn message(&self) -> (r: String)
        ensures
            r@ == self.message_text(),
    {
        match self {
            SuiteComparisonError::InputIo { path, message } => {
                let mut r = "failed to inspect ".to_owned();
                r.append(path.as_str());
                r.append(": ");
                r.append(message.as_str());
                r
            },
            SuiteComparisonError::UnsupportedInput { path } => {
                let mut r = path.clone();
                r.append(" is not a report file or directory");
                r
            },
            SuiteComparisonError::NoReports { path } => {
                let mut r = "no JSON reports found under ".to_owned();
                r.append(path.as_str());
                r
            },
            SuiteComparisonError::Report(error) => error.message(),
            SuiteComparisonError::InvalidDocument { path, source } => {
                let mut r = "report ".to_owned();
                r.append(path.as_str());
                r.append(" is not comparable: ");
                r.append(source.message().as_str());
                r
            },
            SuiteComparisonError::DuplicateSuite { role, suite, first, second } => {
                let mut r = role.name().to_owned();
                r.append(" input contains duplicate suite ");
                r.append(text::debug_text(suite.as_str()).as_str());
                r.append(": ");
                r.append(first.as_str());
                r.append(" and ");
                r.append(second.as_str());
                r
            },
            SuiteComparisonError::DocumentTypeMismatch { suite, current, baseline } => {
                let mut r = "suite ".to_owned();
                r.append(text::debug_text(suite.as_str()).as_str());
                r.append(" changes document type from ");
                r.append(kind_name(*baseline));
                r.append(" to ");
                r.append(kind_name(*current));
                r
            },
            SuiteComparisonError::SuiteSetMismatch { added, removed } => {
                let mut r = "suite sets differ: current-only [".to_owned();
                r.append(text::join(added, ", ").as_str());
                r.append("] and baseline-only [");
                r.append(text::join(removed, ", ").as_str());
                r.append("]");
                r
            },
            SuiteComparisonError::Comparison { suite, source } => name_suite(
                "failed to compare suite ",
                suite,
                source.message(),
            ),
            SuiteComparisonError::Policy { suite, source } => name_suite(
                "failed to evaluate suite ",
                suite,
                source.message(),
            ),
        }
    }
}

} // verus!
