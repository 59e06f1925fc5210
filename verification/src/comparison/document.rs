//! Evidence documents: what they are recognised by, and how they are referred to.
use crate::comparison::error;
use crate::comparison::error::ReportError;
use crate::comparison::{ReportDocumentType, ReportReference};
use crate::series::{SeriesReport, SERIES_DOCUMENT_TYPE, SERIES_SCHEMA_VERSION};
use crate::session::{BenchmarkReport, REPORT_SCHEMA_VERSION};
use crate::text;
use sha2::{Digest, Sha256};
use vstd::prelude::*;

verus! {

/// What `Sha256::digest` gives for some bytes.
pub uninterp spec fn sha256_of(bytes: Seq<u8>) -> Seq<u8>;

/// Calls `Sha256::digest` of the `sha2` crate. The digest has 32 bytes and
/// depends on the bytes alone; how it is computed is left to the crate.
#[verifier::external_body]
fn sha256(bytes: &[u8]) -> (digest: Vec<u8>)
    ensures
        digest@ == sha256_of(bytes@),
        digest@.len() == 32,
{
    Sha256::digest(bytes).to_vec()
}

/// The digit for a number below 16.
pub open spec fn hex_digit(n: nat) -> char {
    if n < 10 {
        (48 + n) as char
    } else {
        (87 + n) as char
    }
}

/// The bytes in hexadecimal digits, two for each byte.
pub open spec fn hex_text(bytes: Seq<u8>) -> Seq<char>
    decreases bytes.len(),
{
    if bytes.len() == 0 {
        Seq::empty()
    } else {
        hex_text(bytes.drop_last()).push(hex_digit((bytes.last() / 16) as nat)).push(
            hex_digit((bytes.last() % 16) as nat),
        )
    }
}

fn push_hex_digit(text: &mut String, n: u8)
    requires
        n < 16,
    ensures
        final(text)@ == old(text)@.push(hex_digit(n as nat)),
{
    let c: char = if n < 10 {
        (48 + n) as char
    } else {
        (87 + n) as char
    };
    text.push(c);
}

pub fn render_hex(bytes: &[u8]) -> (r: String)
    ensures
        r@ == hex_text(bytes@),
{
    let mut r = String::new();
    let mut i: usize = 0;
    while i < bytes.len()
        invariant
            i <= bytes.len(),
            r@ == hex_text(bytes@.take(i as int)),
        decreases bytes.len() - i,
    {
        let b: u8 = bytes[i];
        push_hex_digit(&mut r, b / 16);
        push_hex_digit(&mut r, b % 16);
        i += 1;
        assert(bytes@.take(i as int).drop_last() =~= bytes@.take(i - 1));
    }
    assert(bytes@.take(bytes@.len() as int) =~= bytes@);
    r
}

/// Different bytes have different hexadecimal texts.
pub proof fn hex_is_injective(a: Seq<u8>, b: Seq<u8>)
    requires
        hex_text(a) == hex_text(b),
    ensures
        a == b,
    decreases a.len(),
{
    hex_length(a);
    hex_length(b);
    if a.len() == 0 {
        assert(a =~= b);
    } else {
        let x = hex_text(a);
        let y = hex_text(b);
        assert(x.drop_last().drop_last() =~= hex_text(a.drop_last()));
        assert(y.drop_last().drop_last() =~= hex_text(b.drop_last()));
        hex_is_injective(a.drop_last(), b.drop_last());
        assert(x[x.len() - 1] == hex_digit((a.last() % 16) as nat));
        assert(y[y.len() - 1] == hex_digit((b.last() % 16) as nat));
        assert(x[x.len() - 2] == hex_digit((a.last() / 16) as nat));
        assert(y[y.len() - 2] == hex_digit((b.last() / 16) as nat));
        assert(a.last() == b.last());
        assert(a =~= a.drop_last().push(a.last()));
        assert(b =~= b.drop_last().push(b.last()));
    }
}

/// The digest of a document as references hold it.
pub open spec fn digest_text(bytes: Seq<u8>) -> Seq<char> {
    "sha256:"@ + hex_text(sha256_of(bytes))
}

pub fn sha256_digest(bytes: &[u8]) -> (r: String)
    ensures
        r@ == digest_text(bytes@),
        r@.len() == "sha256:"@.len() + 64,
{
    let digest = sha256(bytes);
    let mut r = "sha256:".to_owned();
    r.append(render_hex(digest.as_slice()).as_str());
    proof {
        hex_length(digest@);
    }
    r
}

proof fn hex_length(bytes: Seq<u8>)
    ensures
        hex_text(bytes).len() == 2 * bytes.len(),
    decreases bytes.len(),
{
    if bytes.len() > 0 {
        hex_length(bytes.drop_last());
    }
}

/// A member of a JSON object, as far as documents are told apart by it.
#[derive(Debug)]
pub enum JsonField {
    Absent,
    Null,
    Bool,
    Number { unsigned: Option<u64> },
    Text { content: String },
    Array,
    Object,
}

/// The contents of a member.
pub ghost enum JsonContent {
    Absent,
    Null,
    Bool,
    Number { unsigned: Option<u64> },
    Text { content: Seq<char> },
    Array,
    Object,
}

impl View for JsonField {
    type V = JsonContent;

    open spec fn view(&self) -> JsonContent {
        match self {
            JsonField::Absent => JsonContent::Absent,
            JsonField::Null => JsonContent::Null,
            JsonField::Bool => JsonContent::Bool,
            JsonField::Number { unsigned } => JsonContent::Number { unsigned: *unsigned },
            JsonField::Text { content } => JsonContent::Text { content: content@ },
            JsonField::Array => JsonContent::Array,
            JsonField::Object => JsonContent::Object,
        }
    }
}

/// A member or an error, by contents.
pub open spec fn read_as(r: Result<JsonField, String>) -> Result<JsonContent, Seq<char>> {
    match r {
        Ok(field) => Ok(field@),
        Err(message) => Err(message@),
    }
}

/// What `serde_json` reads of some bytes: the member of that name, or the
/// text of the error where the bytes are no JSON.
pub uninterp spec fn json_member_of(bytes: Seq<u8>, name: Seq<char>) -> Result<
    JsonContent,
    Seq<char>,
>;

/// Calls `serde_json::from_slice` for a `serde_json::Value`, then `Value::get`.
/// What they give depends on the bytes and the name alone; the grammar of JSON
/// and the texts of its errors are left to the crate.
#[verifier::external_body]
fn json_member(bytes: &[u8], name: &str) -> (r: Result<JsonField, String>)
    ensures
        read_as(r) == json_member_of(bytes@, name@),
{
    let value: serde_json::Value = serde_json::from_slice(bytes).map_err(|e| e.to_string())?;
    Ok(
        match value.get(name) {
            None => JsonField::Absent,
            Some(serde_json::Value::Null) => JsonField::Null,
            Some(serde_json::Value::Bool(_)) => JsonField::Bool,
            Some(serde_json::Value::Number(n)) => JsonField::Number { unsigned: n.as_u64() },
            Some(serde_json::Value::String(s)) => JsonField::Text { content: s.clone() },
            Some(serde_json::Value::Array(_)) => JsonField::Array,
            Some(serde_json::Value::Object(_)) => JsonField::Object,
        },
    )
}

/// The directory that a member of the metadata of a build names, if it is a text.
pub open spec fn directory_in(member: Result<JsonContent, Seq<char>>) -> Option<Seq<char>> {
    match member {
        Ok(JsonContent::Text { content }) => Some(content),
        _ => None,
    }
}

pub fn named_directory(member: Result<JsonField, String>) -> (r: Option<String>)
    ensures
        r is Some == directory_in(read_as(member)) is Some,
        r matches Some(directory) ==> directory@ == directory_in(read_as(member))->0,
{
    match member {
        Ok(JsonField::Text { content }) => Some(content),
        _ => None,
    }
}

/// The target directory that the metadata of a build names, if they name one.
pub fn built_target_directory(metadata: &[u8]) -> (r: Option<String>)
    ensures
        match json_member_of(metadata@, "target_directory"@) {
            Ok(JsonContent::Text { content }) => r matches Some(directory) && directory@
                == content,
            _ => r is None,
        },
{
    named_directory(json_member(metadata, "target_directory"))
}

/// Why a document is not accepted, in terms of its members.
pub ghost enum Refusal {
    Json { message: Seq<char> },
    SchemaVersion,
    Schema { found: u32, supported: u32 },
    DocumentType { kind: Seq<char> },
    Reason { reason: Seq<char> },
}

/// Whether an error reports a refusal of the document at `path`.
pub open spec fn reports(error: ReportError, refusal: Refusal, path: Option<String>) -> bool {
    match refusal {
        Refusal::Json { message } => {
            &&& error matches ReportError::MalformedJson { path: p, message: m }
            &&& p == path
            &&& m@ == message
        },
        Refusal::SchemaVersion => error == (ReportError::InvalidSchemaVersion { path }),
        Refusal::Schema { found, supported } => error == (ReportError::UnsupportedSchema {
            path,
            found,
            supported,
        }),
        Refusal::DocumentType { kind } => {
            &&& error matches ReportError::UnsupportedDocumentType { path: p, found: f }
            &&& p == path
            &&& f@ == kind
        },
        Refusal::Reason { reason } => {
            &&& error matches ReportError::InvalidReport { path: p, reason: r }
            &&& p == path
            &&& r@ == reason
        },
    }
}

/// Whether a result is that of a rule: its value, or an error that reports its
/// refusal.
pub open spec fn follows<T>(
    r: Result<T, ReportError>,
    rule: Result<T, Refusal>,
    path: Option<String>,
) -> bool {
    match rule {
        Ok(value) => r == Ok::<T, ReportError>(value),
        Err(refusal) => r is Err && reports(r->Err_0, refusal, path),
    }
}

/// The kind of a document, by its member `document_type`: a native report has none.
pub open spec fn kind_rule(member: JsonContent) -> Result<ReportDocumentType, Refusal> {
    match member {
        JsonContent::Absent => Ok(ReportDocumentType::NativeBenchmark),
        JsonContent::Text { content } => if content == SERIES_DOCUMENT_TYPE@ {
            Ok(ReportDocumentType::Series)
        } else {
            Err(Refusal::DocumentType { kind: content })
        },
        _ => Err(Refusal::Reason { reason: "document_type must be a string"@ }),
    }
}

pub fn document_kind(member: &JsonField, path: &Option<String>) -> (r: Result<
    ReportDocumentType,
    ReportError,
>)
    ensures
        follows(r, kind_rule(member@), *path),
{
    match member {
        JsonField::Absent => Ok(ReportDocumentType::NativeBenchmark),
        JsonField::Text { content } => {
            if text::same(content.as_str(), SERIES_DOCUMENT_TYPE) {
                Ok(ReportDocumentType::Series)
            } else {
                Err(
                    ReportError::UnsupportedDocumentType {
                        path: text::clone_optional(path),
                        found: content.clone(),
                    },
                )
            }
        },
        _ => Err(
            ReportError::InvalidReport {
                path: text::clone_optional(path),
                reason: "document_type must be a string".to_owned(),
            },
        ),
    }
}

/// The version that a member states, if it is one.
pub open spec fn stated_version(member: JsonContent) -> Option<u32> {
    match member {
        JsonContent::Number { unsigned: Some(n) } => if n <= u32::MAX {
            Some(n as u32)
        } else {
            None
        },
        _ => None,
    }
}

fn version_of(member: &JsonField) -> (r: Option<u32>)
    ensures
        r == stated_version(member@),
{
    match member {
        JsonField::Number { unsigned: Some(n) } => {
            if *n <= u32::MAX as u64 {
                Some(*n as u32)
            } else {
                None
            }
        },
        _ => None,
    }
}

/// Accepts one schema version.
pub open spec fn version_rule(version: u32, supported: u32) -> Result<(), Refusal> {
    if version == supported {
        Ok(())
    } else {
        Err(Refusal::Schema { found: version, supported })
    }
}

/// Accepts the schema version of native reports.
pub fn validate_schema(version: u32, path: &Option<String>) -> (r: Result<(), ReportError>)
    ensures
        follows(r, version_rule(version, REPORT_SCHEMA_VERSION), *path),
{
    if version != REPORT_SCHEMA_VERSION {
        return Err(
            ReportError::UnsupportedSchema {
                path: text::clone_optional(path),
                found: version,
                supported: REPORT_SCHEMA_VERSION,
            },
        );
    }
    Ok(())
}

/// A native report states the supported version, or none.
pub open spec fn native_rule(member: JsonContent) -> Result<(), Refusal> {
    if member is Absent {
        version_rule(REPORT_SCHEMA_VERSION, REPORT_SCHEMA_VERSION)
    } else {
        match stated_version(member) {
            Some(version) => version_rule(version, REPORT_SCHEMA_VERSION),
            None => Err(Refusal::SchemaVersion),
        }
    }
}

pub fn native_schema(member: &JsonField, path: &Option<String>) -> (r: Result<(), ReportError>)
    ensures
        follows(r, native_rule(member@), *path),
{
    match member {
        JsonField::Absent => validate_schema(REPORT_SCHEMA_VERSION, path),
        _ => match version_of(member) {
            Some(version) => validate_schema(version, path),
            None => Err(
                ReportError::InvalidSchemaVersion { path: text::clone_optional(path) },
            ),
        },
    }
}

/// A series report names its type and states the supported version.
pub open spec fn series_rule(kind: JsonContent, version: JsonContent) -> Result<(), Refusal> {
    match kind {
        JsonContent::Text { content } => if content != SERIES_DOCUMENT_TYPE@ {
            Err(Refusal::DocumentType { kind: content })
        } else {
            match stated_version(version) {
                Some(version) => version_rule(version, SERIES_SCHEMA_VERSION),
                None => Err(Refusal::SchemaVersion),
            }
        },
        _ => Err(
            Refusal::Reason {
                reason: "document_type must be "@ + text::debug_form(SERIES_DOCUMENT_TYPE@),
            },
        ),
    }
}

pub fn series_schema(kind: &JsonField, version: &JsonField, path: &Option<String>) -> (r: Result<
    (),
    ReportError,
>)
    ensures
        follows(r, series_rule(kind@, version@), *path),
{
    match kind {
        JsonField::Text { content } => {
            if !text::same(content.as_str(), SERIES_DOCUMENT_TYPE) {
                return Err(
                    ReportError::UnsupportedDocumentType {
                        path: text::clone_optional(path),
                        found: content.clone(),
                    },
                );
            }
            match version_of(version) {
                Some(version) => {
                    if version != SERIES_SCHEMA_VERSION {
                        return Err(
                            ReportError::UnsupportedSchema {
                                path: text::clone_optional(path),
                                found: version,
                                supported: SERIES_SCHEMA_VERSION,
                            },
                        );
                    }
                    Ok(())
                },
                None => Err(
                    ReportError::InvalidSchemaVersion { path: text::clone_optional(path) },
                ),
            }
        },
        _ => {
            let mut reason = "document_type must be ".to_owned();
            reason.append(text::debug_text(SERIES_DOCUMENT_TYPE).as_str());
            Err(ReportError::InvalidReport { path: text::clone_optional(path), reason })
        },
    }
}

fn member_of(bytes: &[u8], name: &str, path: &Option<String>) -> (r: Result<JsonField, ReportError>)
    ensures
        r is Ok == json_member_of(bytes@, name@) is Ok,
        r matches Ok(field) ==> json_member_of(bytes@, name@) == Ok::<JsonContent, Seq<char>>(
            field@,
        ),
        r matches Err(error) ==> reports(
            error,
            Refusal::Json { message: json_member_of(bytes@, name@)->Err_0 },
            *path,
        ),
{
    match json_member(bytes, name) {
        Ok(field) => Ok(field),
        Err(message) => Err(
            ReportError::MalformedJson { path: text::clone_optional(path), message },
        ),
    }
}

/// The rule for the bytes of a native report.
pub open spec fn native_document_rule(version: Result<JsonContent, Seq<char>>) -> Result<(), Refusal> {
    match version {
        Ok(version) => native_rule(version),
        Err(message) => Err(Refusal::Json { message }),
    }
}

/// Accepts the bytes of a native report, as far as its schema goes.
pub fn check_native(bytes: &[u8], path: &Option<String>) -> (r: Result<(), ReportError>)
    ensures
        follows(r, native_document_rule(json_member_of(bytes@, "schema_version"@)), *path),
{
    match member_of(bytes, "schema_version", path) {
        Ok(version) => native_schema(&version, path),
        Err(error) => Err(error),
    }
}

/// The rule for the bytes of a series report.
pub open spec fn series_document_rule(
    kind: Result<JsonContent, Seq<char>>,
    version: Result<JsonContent, Seq<char>>,
) -> Result<(), Refusal> {
    match kind {
        Ok(kind) => match version {
            Ok(version) => series_rule(kind, version),
            Err(message) => Err(Refusal::Json { message }),
        },
        Err(message) => Err(Refusal::Json { message }),
    }
}

/// Accepts the bytes of a series report, as far as its type and schema go.
pub fn check_series(bytes: &[u8], path: &Option<String>) -> (r: Result<(), ReportError>)
    ensures
        follows(
            r,
            series_document_rule(
                json_member_of(bytes@, "document_type"@),
                json_member_of(bytes@, "schema_version"@),
            ),
            *path,
        ),
{
    match member_of(bytes, "document_type", path) {
        Ok(kind) => match member_of(bytes, "schema_version", path) {
            Ok(version) => series_schema(&kind, &version, path),
            Err(error) => Err(error),
        },
        Err(error) => Err(error),
    }
}

/// The rule for the bytes of any document: its kind, if its schema is accepted.
pub open spec fn document_rule(
    kind: Result<JsonContent, Seq<char>>,
    version: Result<JsonContent, Seq<char>>,
) -> Result<ReportDocumentType, Refusal> {
    match kind {
        Err(message) => Err(Refusal::Json { message }),
        Ok(member) => match kind_rule(member) {
            Err(refusal) => Err(refusal),
            Ok(ReportDocumentType::Series) => match series_document_rule(kind, version) {
                Ok(()) => Ok(ReportDocumentType::Series),
                Err(refusal) => Err(refusal),
            },
            Ok(ReportDocumentType::NativeBenchmark) => match native_document_rule(version) {
                Ok(()) => Ok(ReportDocumentType::NativeBenchmark),
                Err(refusal) => Err(refusal),
            },
        },
    }
}

/// Tells which kind of report some bytes hold, and accepts its schema.
pub fn check_document(bytes: &[u8], path: &Option<String>) -> (r: Result<
    ReportDocumentType,
    ReportError,
>)
    ensures
        follows(
            r,
            document_rule(
                json_member_of(bytes@, "document_type"@),
                json_member_of(bytes@, "schema_version"@),
            ),
            *path,
        ),
{
    let member = match member_of(bytes, "document_type", path) {
        Ok(member) => member,
        Err(error) => {
            return Err(error);
        },
    };
    match document_kind(&member, path) {
        Err(error) => Err(error),
        Ok(ReportDocumentType::Series) => match check_series(bytes, path) {
            Ok(()) => Ok(ReportDocumentType::Series),
            Err(error) => Err(error),
        },
        Ok(ReportDocumentType::NativeBenchmark) => match check_native(bytes, path) {
            Ok(()) => Ok(ReportDocumentType::NativeBenchmark),
            Err(error) => Err(error),
        },
    }
}

/// The provenance of a native report: its context's, with the commit of the
/// working copy where the context names none.
pub open spec fn native_provenance(report: BenchmarkReport) -> Map<Seq<char>, Seq<char>> {
    match report.git_commit {
        Some(commit) => if report.context.provenance@.contains_key("commit"@) {
            report.context.provenance@
        } else {
            report.context.provenance@.insert("commit"@, commit@)
        },
        None => report.context.provenance@,
    }
}

impl ReportReference {
    /// What a reference says of a native report that was held by some bytes.
    pub open spec fn of_native(&self, report: BenchmarkReport, bytes: Seq<u8>, path: Option<String>) -> bool {
        &&& self.document_type == ReportDocumentType::NativeBenchmark
        &&& self.schema_version == report.schema_version
        &&& self.suite == report.suite
        &&& self.content_digest@ == digest_text(bytes)
        &&& self.capture_time@ == report.timestamp@
        &&& self.source_provenance@ == native_provenance(report)
        &&& self.display_path == path
    }

    /// What a reference says of a series report that was held by some bytes.
    pub open spec fn of_series(&self, report: SeriesReport, bytes: Seq<u8>, path: Option<String>) -> bool {
        &&& self.document_type == ReportDocumentType::Series
        &&& self.schema_version == report.schema_version
        &&& self.suite == Some(report.suite)
        &&& self.content_digest@ == digest_text(bytes)
        &&& self.capture_time@ == report.timestamp@
        &&& self.source_provenance@ == report.context.provenance@
        &&& self.display_path == path
    }

    pub fn native(report: &BenchmarkReport, bytes: &[u8], path: Option<String>) -> (r: ReportReference)
        ensures
            r.of_native(*report, bytes@, path),
    {
        let provenance = report.context.provenance.duplicate();
        let source_provenance = match &report.git_commit {
            Some(commit) => provenance.inserted_if_absent("commit".to_owned(), commit.clone()),
            None => provenance,
        };
        ReportReference {
            document_type: ReportDocumentType::NativeBenchmark,
            schema_version: report.schema_version,
            suite: text::clone_optional(&report.suite),
            content_digest: sha256_digest(bytes),
            capture_time: report.timestamp.clone(),
            source_provenance,
            display_path: path,
        }
    }

    pub fn series(report: &SeriesReport, bytes: &[u8], path: Option<String>) -> (r: ReportReference)
        ensures
            r.of_series(*report, bytes@, path),
    {
        ReportReference {
            document_type: ReportDocumentType::Series,
            schema_version: report.schema_version,
            suite: Some(report.suite.clone()),
            content_digest: sha256_digest(bytes),
            capture_time: report.timestamp.clone(),
            source_provenance: report.context.provenance.duplicate(),
            display_path: path,
        }
    }
}

/// A loaded report with the reference to it.
#[allow(inconsistent_fields)]
#[derive(Debug)]
pub enum ReportDocument {
    Native { report: BenchmarkReport, reference: ReportReference },
    Series { report: SeriesReport, reference: ReportReference },
}

/// The rule for a series report that was read.
pub open spec fn series_report_rule(report: SeriesReport) -> Result<(), Refusal> {
    match report.problem() {
        Some(reason) => Err(Refusal::Reason { reason }),
        None => Ok(()),
    }
}

/// Accepts a series report that keeps its rules.
pub fn validate_series_report(report: &SeriesReport, path: &Option<String>) -> (r: Result<
    (),
    ReportError,
>)
    ensures
        follows(r, series_report_rule(*report), *path),
{
    match report.validate() {
        Ok(()) => Ok(()),
        Err(error) => Err(
            ReportError::InvalidReport { path: text::clone_optional(path), reason: error.message },
        ),
    }
}

impl ReportDocument {
    /// Whether the document is a native report that some bytes held.
    pub open spec fn holds_native(
        &self,
        report: BenchmarkReport,
        bytes: Seq<u8>,
        path: Option<String>,
    ) -> bool {
        &&& self matches ReportDocument::Native { report: held, reference }
        &&& held == report
        &&& reference.of_native(report, bytes, path)
    }

    /// Whether the document is a series report that some bytes held.
    pub open spec fn holds_series(
        &self,
        report: SeriesReport,
        bytes: Seq<u8>,
        path: Option<String>,
    ) -> bool {
        &&& self matches ReportDocument::Series { report: held, reference }
        &&& held == report
        &&& reference.of_series(report, bytes, path)
    }

    /// A native report that was read from the bytes of a file.
    pub fn loaded_native(report: BenchmarkReport, bytes: &[u8], path: Option<String>) -> (r:
        ReportDocument)
        ensures
            r.holds_native(report, bytes@, path),
    {
        let reference = ReportReference::native(&report, bytes, path);
        ReportDocument::Native { report, reference }
    }

    /// A series report that was read from the bytes of a file.
    pub fn loaded_series(report: SeriesReport, bytes: &[u8], path: Option<String>) -> (r: Result<
        ReportDocument,
        ReportError,
    >)
        ensures
            r is Ok == report.problem() is None,
            r matches Ok(document) ==> document.holds_series(report, bytes@, path),
            r matches Err(error) ==> reports(
                error,
                Refusal::Reason { reason: report.problem()->0 },
                path,
            ),
    {
        match validate_series_report(&report, &path) {
            Ok(()) => {
                let reference = ReportReference::series(&report, bytes, path);
                Ok(ReportDocument::Series { report, reference })
            },
            Err(error) => Err(error),
        }
    }

    /// A native report in memory, with the bytes of its persisted form.
    pub fn from_native(report: BenchmarkReport, bytes: &[u8]) -> (r: Result<
        ReportDocument,
        ReportError,
    >)
        ensures
            r is Ok == (report.schema_version == REPORT_SCHEMA_VERSION),
            r matches Ok(document) ==> document.holds_native(report, bytes@, None),
            r matches Err(error) ==> reports(
                error,
                Refusal::Schema { found: report.schema_version, supported: REPORT_SCHEMA_VERSION },
                None,
            ),
    {
        match validate_schema(report.schema_version, &None) {
            Ok(()) => Ok(ReportDocument::loaded_native(report, bytes, None)),
            Err(error) => Err(error),
        }
    }

    /// A series report in memory, with the bytes of its persisted form.
    pub fn from_series(report: SeriesReport, bytes: &[u8]) -> (r: Result<
        ReportDocument,
        ReportError,
    >)
        ensures
            r is Ok == report.problem() is None,
            r matches Ok(document) ==> document.holds_series(report, bytes@, None),
            r matches Err(error) ==> reports(
                error,
                Refusal::Reason { reason: report.problem()->0 },
                None,
            ),
    {
        ReportDocument::loaded_series(report, bytes, None)
    }

    pub fn as_native(&self) -> (r: Option<&BenchmarkReport>)
        ensures
            r == match self {
                ReportDocument::Native { report, .. } => Some(report),
                ReportDocument::Series { .. } => None,
            },
    {
        match self {
            ReportDocument::Native { report, .. } => Some(report),
            ReportDocument::Series { .. } => None,
        }
    }

    pub fn as_series(&self) -> (r: Option<&SeriesReport>)
        ensures
            r == match self {
                ReportDocument::Native { .. } => None,
                ReportDocument::Series { report, .. } => Some(report),
            },
    {
        match self {
            ReportDocument::Native { .. } => None,
            ReportDocument::Series { report, .. } => Some(report),
        }
    }

    pub open spec fn spec_reference(&self) -> ReportReference {
        match self {
            ReportDocument::Native { reference, .. } => *reference,
            ReportDocument::Series { reference, .. } => *reference,
        }
    }

    pub fn reference(&self) -> (r: &ReportReference)
        ensures
            *r == self.spec_reference(),
    {
        match self {
            ReportDocument::Native { reference, .. } => reference,
            ReportDocument::Series { reference, .. } => reference,
        }
    }
}

/// A document that states the supported version of its kind is accepted as that kind.
pub proof fn supported_documents_are_accepted(version: JsonContent)
    requires
        stated_version(version) == Some(SERIES_SCHEMA_VERSION),
    ensures
        document_rule(
            Ok(JsonContent::Text { content: SERIES_DOCUMENT_TYPE@ }),
            Ok(version),
        ) == Ok::<ReportDocumentType, Refusal>(ReportDocumentType::Series),
        document_rule(Ok(JsonContent::Absent), Ok(version)) == Ok::<ReportDocumentType, Refusal>(
            ReportDocumentType::NativeBenchmark,
        ),
        document_rule(Ok(JsonContent::Absent), Ok(JsonContent::Absent)) == Ok::<
            ReportDocumentType,
            Refusal,
        >(ReportDocumentType::NativeBenchmark),
{
}

} // verus!
