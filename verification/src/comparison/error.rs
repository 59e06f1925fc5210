//! Why a document cannot be read, and why two cannot be compared.
use crate::comparison::{CaseKey, ComparisonCaseIdentity, ComparisonSide};
use crate::text;
use crate::text_map;
use crate::text_map::TextMap;
use vstd::prelude::*;

verus! {

/// A failure to load or to interpret a persisted report.
#[allow(inconsistent_fields)]
#[derive(Debug)]
pub enum ReportError {
    Io { path: String, message: String },
    MalformedJson { path: Option<String>, message: String },
    MalformedReport { path: Option<String>, message: String },
    InvalidSchemaVersion { path: Option<String> },
    UnsupportedSchema { path: Option<String>, found: u32, supported: u32 },
    UnsupportedDocumentType { path: Option<String>, found: String },
    InvalidReport { path: Option<String>, reason: String },
}

/// Where a document came from, as messages say it.
pub open spec fn origin_text(path: Option<String>) -> Seq<char> {
    match path {
        Some(place) => " at "@ + place@,
        None => ""@,
    }
}

pub fn path_suffix(path: &Option<String>) -> (r: String)
    ensures
        r@ == origin_text(*path),
{
    match path {
        Some(place) => {
            let mut r = " at ".to_owned();
            r.append(place.as_str());
            r
        },
        None => "".to_owned(),
    }
}

impl ReportError {
    pub open spec fn message_text(&self) -> Seq<char> {
        match self {
            ReportError::Io { path, message } => "failed to read report "@ + path@ + ": "@
                + message@,
            ReportError::MalformedJson { path, message } => "malformed JSON"@ + origin_text(
                *path,
            ) + ": "@ + message@,
            ReportError::MalformedReport { path, message } => "malformed benchmark report"@
                + origin_text(*path) + ": "@ + message@,
            ReportError::InvalidSchemaVersion { path } => "benchmark report"@ + origin_text(
                *path,
            ) + " has an invalid schema_version"@,
            ReportError::UnsupportedSchema { path, found, supported } => "report"@ + origin_text(
                *path,
            ) + " uses schema version "@ + text::decimal(*found as nat)
                + ", but this version supports "@ + text::decimal(*supported as nat),
            ReportError::UnsupportedDocumentType { path, found } =>
                "unsupported report document_type "@ + text::debug_form(found@) + origin_text(
                *path,
            ),
            ReportError::InvalidReport { path, reason } => "invalid report"@ + origin_text(
                *path,
            ) + ": "@ + reason@,
        }
    }

    /// The error as text.
    pub fn message(&self) -> (r: String)
        ensures
            r@ == self.message_text(),
    {
        match self {
            ReportError::Io { path, message } => {
                let mut r = "failed to read report ".to_owned();
                r.append(path.as_str());
                r.append(": ");
                r.append(message.as_str());
                r
            },
            ReportError::MalformedJson { path, message } => {
                let mut r = "malformed JSON".to_owned();
                r.append(path_suffix(path).as_str());
                r.append(": ");
                r.append(message.as_str());
                r
            },
            ReportError::MalformedReport { path, message } => {
                let mut r = "malformed benchmark report".to_owned();
                r.append(path_suffix(path).as_str());
                r.append(": ");
                r.append(message.as_str());
                r
            },
            ReportError::InvalidSchemaVersion { path } => {
                let mut r = "benchmark report".to_owned();
                r.append(path_suffix(path).as_str());
                r.append(" has an invalid schema_version");
                r
            },
            ReportError::UnsupportedSchema { path, found, supported } => {
                let mut r = "report".to_owned();
                r.append(path_suffix(path).as_str());
                r.append(" uses schema version ");
                r.append(text::decimal_text(*found as u64).as_str());
                r.append(", but this version supports ");
                r.append(text::decimal_text(*supported as u64).as_str());
                r
            },
            ReportError::UnsupportedDocumentType { path, found } => {
                let mut r = "unsupported report document_type ".to_owned();
                r.append(text::debug_text(found.as_str()).as_str());
                r.append(path_suffix(path).as_str());
                r
            },
            ReportError::InvalidReport { path, reason } => {
                let mut r = "invalid report".to_owned();
                r.append(path_suffix(path).as_str());
                r.append(": ");
                r.append(reason.as_str());
                r
            },
        }
    }
}

/// Why two readable reports cannot be compared.
#[allow(inconsistent_fields)]
#[derive(Debug)]
pub enum ComparisonError {
    UnsupportedSchema { side: ComparisonSide, found: u32, supported: u32 },
    MissingSuite { side: ComparisonSide },
    SuiteMismatch { current: String, baseline: String },
    UnknownRunner { side: ComparisonSide },
    RunnerMismatch { current: String, baseline: String },
    EnvironmentMismatch { current: TextMap, baseline: TextMap },
    InvalidEnvironmentOverride,
    DuplicateIdentity { side: ComparisonSide, identity: ComparisonCaseIdentity },
    EmptyResultSet { side: ComparisonSide },
    InvalidReport { side: ComparisonSide, reason: String },
    ResultSetMismatch { added: usize, removed: usize },
    ReferenceSerialization { side: ComparisonSide, message: String },
}

/// Why two reports cannot be compared, by contents.
#[allow(inconsistent_fields)]
pub ghost enum Obstacle {
    Schema { side: ComparisonSide, found: u32, supported: u32 },
    NoSuite { side: ComparisonSide },
    SuitesDiffer { current: Seq<char>, baseline: Seq<char> },
    UnknownRunner { side: ComparisonSide },
    RunnersDiffer { current: Seq<char>, baseline: Seq<char> },
    EnvironmentsDiffer {
        current: Map<Seq<char>, Seq<char>>,
        baseline: Map<Seq<char>, Seq<char>>,
    },
    BlankOverride,
    Duplicate { side: ComparisonSide, key: CaseKey },
    Empty { side: ComparisonSide },
    Invalid { side: ComparisonSide, reason: Seq<char> },
    ResultSetsDiffer { added: nat, removed: nat },
    Reference { side: ComparisonSide, message: Seq<char> },
}

impl View for ComparisonError {
    type V = Obstacle;

    open spec fn view(&self) -> Obstacle {
        match self {
            ComparisonError::UnsupportedSchema { side, found, supported } => Obstacle::Schema {
                side: *side,
                found: *found,
                supported: *supported,
            },
            ComparisonError::MissingSuite { side } => Obstacle::NoSuite { side: *side },
            ComparisonError::SuiteMismatch { current, baseline } => Obstacle::SuitesDiffer {
                current: current@,
                baseline: baseline@,
            },
            ComparisonError::UnknownRunner { side } => Obstacle::UnknownRunner { side: *side },
            ComparisonError::RunnerMismatch { current, baseline } => Obstacle::RunnersDiffer {
                current: current@,
                baseline: baseline@,
            },
            ComparisonError::EnvironmentMismatch { current, baseline } =>
                Obstacle::EnvironmentsDiffer { current: current@, baseline: baseline@ },
            ComparisonError::InvalidEnvironmentOverride => Obstacle::BlankOverride,
            ComparisonError::DuplicateIdentity { side, identity } => Obstacle::Duplicate {
                side: *side,
                key: identity.key(),
            },
            ComparisonError::EmptyResultSet { side } => Obstacle::Empty { side: *side },
            ComparisonError::InvalidReport { side, reason } => Obstacle::Invalid {
                side: *side,
                reason: reason@,
            },
            ComparisonError::ResultSetMismatch { added, removed } => Obstacle::ResultSetsDiffer {
                added: *added as nat,
                removed: *removed as nat,
            },
            ComparisonError::ReferenceSerialization { side, message } => Obstacle::Reference {
                side: *side,
                message: message@,
            },
        }
    }
}

/// The first `count` entries of a map, as a list between braces.
pub open spec fn entries_text(pairs: Seq<text_map::Pair>, count: int) -> Seq<char>
    decreases count,
{
    if count <= 0 || count > pairs.len() {
        ""@
    } else {
        entries_text(pairs, count - 1) + (if count == 1 {
            ""@
        } else {
            ", "@
        }) + text::debug_form(pairs[count - 1].0) + ": "@ + text::debug_form(pairs[count - 1].1)
    }
}

/// A map as text: its entries in the order of their keys.
pub open spec fn map_text(pairs: Seq<text_map::Pair>) -> Seq<char> {
    "{"@ + entries_text(pairs, pairs.len() as int) + "}"@
}

pub fn render_map(map: &TextMap) -> (r: String)
    ensures
        r@ == map_text(map.pairs()),
{
    let entries = map.entries();
    let ghost pairs = map.pairs();
    let mut r = "{".to_owned();
    proof {
        reveal_strlit("");
    }
    assert(r@ =~= "{"@ + entries_text(pairs, 0));
    let mut i: usize = 0;
    while i < entries.len()
        invariant
            i <= entries.len(),
            pairs == text_map::pairs_of(entries@),
            r@ == "{"@ + entries_text(pairs, i as int),
        decreases entries.len() - i,
    {
        let ghost before = r@;
        if i > 0 {
            r.append(", ");
        } else {
            r.append("");
        }
        r.append(text::debug_text(entries[i].0.as_str()).as_str());
        r.append(": ");
        r.append(text::debug_text(entries[i].1.as_str()).as_str());
        i += 1;
        assert(r@ =~= "{"@ + entries_text(pairs, i as int)) by {
            assert(pairs[i - 1] == (entries@[i - 1].0@, entries@[i - 1].1@));
        }
    }
    r.append("}");
    r
}

impl ComparisonError {
    pub open spec fn message_text(&self) -> Seq<char> {
        match self {
            ComparisonError::UnsupportedSchema { side, found, supported } => side.text()
                + " report uses schema version "@ + text::decimal(*found as nat)
                + ", but this version supports "@ + text::decimal(*supported as nat),
            ComparisonError::MissingSuite { side } => side.text()
                + " report has no suite identity"@,
            ComparisonError::SuiteMismatch { current, baseline } =>
                "suite mismatch: current report is "@ + text::debug_form(current@)
                + ", baseline report is "@ + text::debug_form(baseline@),
            ComparisonError::UnknownRunner { side } => side.text()
                + " report has no known runner identity"@,
            ComparisonError::RunnerMismatch { current, baseline } =>
                "runner mismatch: current report is from "@ + text::debug_form(current@)
                + ", baseline report is from "@ + text::debug_form(baseline@),
            ComparisonError::EnvironmentMismatch { current, baseline } =>
                "comparison environment mismatch: current is "@ + map_text(current.pairs())
                + ", baseline is "@ + map_text(baseline.pairs()),
            ComparisonError::InvalidEnvironmentOverride =>
                "environment override reason must not be empty"@,
            ComparisonError::DuplicateIdentity { side, identity } => side.text()
                + " report contains duplicate benchmark identity "@ + identity.group_text() + "/"@
                + identity.name_text(),
            ComparisonError::EmptyResultSet { side } => side.text()
                + " report contains no benchmark results"@,
            ComparisonError::InvalidReport { side, reason } => side.text() + " report is invalid: "@
                + reason@,
            ComparisonError::ResultSetMismatch { added, removed } => "result sets differ: "@
                + text::decimal(*added as nat) + " current-only and "@ + text::decimal(
                *removed as nat,
            ) + " baseline-only benchmarks"@,
            ComparisonError::ReferenceSerialization { side, message } => "failed to identify "@
                + side.text() + " report: "@ + message@,
        }
    }

    /// The error as text.
    pub fn message(&self) -> (r: String)
        ensures
            r@ == self.message_text(),
    {
        match self {
            ComparisonError::UnsupportedSchema { side, found, supported } => {
                let mut r = side.name().to_owned();
                r.append(" report uses schema version ");
                r.append(text::decimal_text(*found as u64).as_str());
                r.append(", but this version supports ");
                r.append(text::decimal_text(*supported as u64).as_str());
                r
            },
            ComparisonError::MissingSuite { side } => {
                let mut r = side.name().to_owned();
                r.append(" report has no suite identity");
                r
            },
            ComparisonError::SuiteMismatch { current, baseline } => {
                let mut r = "suite mismatch: current report is ".to_owned();
                r.append(text::debug_text(current.as_str()).as_str());
                r.append(", baseline report is ");
                r.append(text::debug_text(baseline.as_str()).as_str());
                r
            },
            ComparisonError::UnknownRunner { side } => {
                let mut r = side.name().to_owned();
                r.append(" report has no known runner identity");
                r
            },
            ComparisonError::RunnerMismatch { current, baseline } => {
                let mut r = "runner mismatch: current report is from ".to_owned();
                r.append(text::debug_text(current.as_str()).as_str());
                r.append(", baseline report is from ");
                r.append(text::debug_text(baseline.as_str()).as_str());
                r
            },
            ComparisonError::EnvironmentMismatch { current, baseline } => {
                let mut r = "comparison environment mismatch: current is ".to_owned();
                r.append(render_map(current).as_str());
                r.append(", baseline is ");
                r.append(render_map(baseline).as_str());
                r
            },
            ComparisonError::InvalidEnvironmentOverride =>
                "environment override reason must not be empty".to_owned(),
            ComparisonError::DuplicateIdentity { side, identity } => {
                let mut r = side.name().to_owned();
                r.append(" report contains duplicate benchmark identity ");
                r.append(identity.group());
                r.append("/");
                r.append(identity.name());
                r
            },
            ComparisonError::EmptyResultSet { side } => {
                let mut r = side.name().to_owned();
                r.append(" report contains no benchmark results");
                r
            },
            ComparisonError::InvalidReport { side, reason } => {
                let mut r = side.name().to_owned();
                r.append(" report is invalid: ");
                r.append(reason.as_str());
                r
            },
            ComparisonError::ResultSetMismatch { added, removed } => {
                let mut r = "result sets differ: ".to_owned();
                r.append(text::decimal_text(*added as u64).as_str());
                r.append(" current-only and ");
                r.append(text::decimal_text(*removed as u64).as_str());
                r.append(" baseline-only benchmarks");
                r
            },
            ComparisonError::ReferenceSerialization { side, message } => {
                let mut r = "failed to identify ".to_owned();
                r.append(side.name());
                r.append(" report: ");
                r.append(message.as_str());
                r
            },
        }
    }
}

} // verus!
