//! Portable raw-sample reports of measurements that others orchestrate.
use crate::comparison::{MeasurementDirection, MeasurementKind};
use crate::context;
use crate::context::{find_map_problem, ReportContext};
use crate::double::DoubleBits;
use crate::text;
use crate::text_map::TextMap;
use vstd::prelude::*;

verus! {

/// The document type that a series report must name.
pub const SERIES_DOCUMENT_TYPE: &'static str = "micromeasure-series";

/// The schema version of series reports.
pub const SERIES_SCHEMA_VERSION: u32 = 1;

/// Whether evidence passed its correctness checks.
#[derive(Clone, Copy, Debug, PartialEq, Eq, Structural)]
pub enum ValidityStatus {
    Valid,
    Invalid,
}

impl Default for ValidityStatus {
    fn default() -> (r: ValidityStatus)
        ensures
            r == ValidityStatus::Valid,
    {
        ValidityStatus::Valid
    }
}

/// The correctness of a report or of one result.
#[derive(Debug)]
pub struct Validity {
    pub status: ValidityStatus,
    pub reason: Option<String>,
}

impl Default for Validity {
    fn default() -> (r: Validity)
        ensures
            r.status == ValidityStatus::Valid,
            r.reason is None,
    {
        Validity::valid()
    }
}

/// The first of two problems.
pub open spec fn first_of(a: Option<Seq<char>>, b: Option<Seq<char>>) -> Option<Seq<char>> {
    if a is Some {
        a
    } else {
        b
    }
}

impl Validity {
    pub fn valid() -> (r: Validity)
        ensures
            r.status == ValidityStatus::Valid,
            r.reason is None,
    {
        Validity { status: ValidityStatus::Valid, reason: None }
    }

    pub fn invalid(reason: String) -> (r: Validity)
        ensures
            r.status == ValidityStatus::Invalid,
            r.reason == Some(reason),
    {
        Validity { status: ValidityStatus::Invalid, reason: Some(reason) }
    }

    pub fn is_valid(&self) -> (r: bool)
        ensures
            r == (self.status == ValidityStatus::Valid),
    {
        self.status == ValidityStatus::Valid
    }

    /// Evidence that is invalid says why.
    pub open spec fn problem(&self, location: Seq<char>) -> Option<Seq<char>> {
        if self.status == ValidityStatus::Invalid && (self.reason matches Some(reason)
            ==> text::blank(reason@)) {
            Some(location + " validity is invalid but has no non-empty reason"@)
        } else {
            None
        }
    }

    pub fn validate(&self, location: &str) -> (r: Result<(), SeriesValidationError>)
        ensures
            r is Ok == self.problem(location@) is None,
            r matches Err(e) ==> e.message@ == self.problem(location@)->0,
    {
        let explained = match &self.reason {
            Some(reason) => !text::is_blank(reason.as_str()),
            None => false,
        };
        if self.status == ValidityStatus::Invalid && !explained {
            let mut message = location.to_owned();
            message.append(" validity is invalid but has no non-empty reason");
            return Err(SeriesValidationError::new(message));
        }
        Ok(())
    }

    /// The reason, or a stand-in where none was given.
    pub open spec fn reason_text(&self) -> Seq<char> {
        match self.reason {
            Some(reason) => reason@,
            None => "no reason supplied"@,
        }
    }

    pub fn reason_or_default(&self) -> (r: String)
        ensures
            r@ == self.reason_text(),
    {
        match &self.reason {
            Some(reason) => reason.clone(),
            None => "no reason supplied".to_owned(),
        }
    }

    /// A copy.
    pub fn duplicate(&self) -> (r: Validity)
        ensures
            r == *self,
    {
        Validity {
            status: self.status,
            reason: match &self.reason {
                Some(reason) => Some(reason.clone()),
                None => None,
            },
        }
    }
}

/// Why a readable series report is not accepted.
#[derive(Debug)]
pub struct SeriesValidationError {
    pub message: String,
}

impl SeriesValidationError {
    pub fn new(message: String) -> (r: SeriesValidationError)
        ensures
            r.message == message,
    {
        SeriesValidationError { message }
    }
}

/// The problem of a field that is blank.
pub open spec fn blank_problem(field: Seq<char>, value: Seq<char>, location: Seq<char>) -> Option<
    Seq<char>,
> {
    if text::blank(value) {
        Some(location + " "@ + field + " must not be empty"@)
    } else {
        None
    }
}

pub fn validate_nonempty(field: &str, value: &str, location: &str) -> (r: Result<
    (),
    SeriesValidationError,
>)
    ensures
        r is Ok == blank_problem(field@, value@, location@) is None,
        r matches Err(e) ==> e.message@ == blank_problem(field@, value@, location@)->0,
{
    if text::is_blank(value) {
        let mut message = location.to_owned();
        message.append(" ");
        message.append(field);
        message.append(" must not be empty");
        return Err(SeriesValidationError::new(message));
    }
    Ok(())
}

/// The problem of a map of a result.
pub open spec fn located_map_problem(name: Seq<char>, values: &TextMap, location: Seq<char>) -> Option<
    Seq<char>,
> {
    context::map_problem(location + " "@ + name, values.pairs(), 0)
}

pub fn validate_map(name: &str, values: &TextMap, location: &str) -> (r: Result<
    (),
    SeriesValidationError,
>)
    ensures
        r is Ok == located_map_problem(name@, values, location@) is None,
        r matches Err(e) ==> e.message@ == located_map_problem(name@, values, location@)->0,
{
    let mut located = location.to_owned();
    located.append(" ");
    located.append(name);
    match find_map_problem(located.as_str(), values) {
        Some(message) => Err(SeriesValidationError::new(message)),
        None => Ok(()),
    }
}

/// The raw observations of one measurement, in the order in which they were made.
#[derive(Debug)]
pub struct SeriesResult {
    pub group: String,
    pub name: String,
    pub measurement: MeasurementKind,
    pub unit: String,
    pub direction: MeasurementDirection,
    pub samples: Vec<DoubleBits>,
    pub validity: Validity,
    pub dimensions: TextMap,
    pub provenance: TextMap,
}

/// Every sample is a finite number.
pub open spec fn all_finite(samples: Seq<DoubleBits>) -> bool {
    forall|i: int| 0 <= i < samples.len() ==> (#[trigger] samples[i]).finite()
}

fn samples_are_finite(samples: &Vec<DoubleBits>) -> (r: bool)
    ensures
        r == all_finite(samples@),
{
    let mut i: usize = 0;
    while i < samples.len()
        invariant
            i <= samples.len(),
            forall|j: int| 0 <= j < i ==> (#[trigger] samples@[j]).finite(),
        decreases samples.len() - i,
    {
        if !samples[i].is_finite() {
            assert(!samples@[i as int].finite());
            return false;
        }
        i += 1;
    }
    true
}

impl SeriesResult {
    pub fn new(
        group: String,
        name: String,
        measurement: MeasurementKind,
        unit: String,
        direction: MeasurementDirection,
        samples: Vec<DoubleBits>,
    ) -> (r: SeriesResult)
        ensures
            r.group == group,
            r.name == name,
            r.measurement == measurement,
            r.unit == unit,
            r.direction == direction,
            r.samples == samples,
            r.validity.status == ValidityStatus::Valid,
            r.validity.reason is None,
            r.dimensions@ == Map::<Seq<char>, Seq<char>>::empty(),
            r.provenance@ == Map::<Seq<char>, Seq<char>>::empty(),
    {
        SeriesResult {
            group,
            name,
            measurement,
            unit,
            direction,
            samples,
            validity: Validity::valid(),
            dimensions: TextMap::new(),
            provenance: TextMap::new(),
        }
    }

    pub fn with_validity(self, validity: Validity) -> (r: SeriesResult)
        ensures
            r == (SeriesResult { validity, ..self }),
    {
        SeriesResult { validity, ..self }
    }

    pub fn with_dimension(self, key: String, value: String) -> (r: SeriesResult)
        ensures
            r == (SeriesResult { dimensions: r.dimensions, ..self }),
            r.dimensions@ == self.dimensions@.insert(key@, value@),
    {
        let SeriesResult {
            group,
            name,
            measurement,
            unit,
            direction,
            samples,
            validity,
            dimensions,
            provenance,
        } = self;
        SeriesResult {
            group,
            name,
            measurement,
            unit,
            direction,
            samples,
            validity,
            dimensions: dimensions.inserted(key, value),
            provenance,
        }
    }

    pub fn with_provenance(self, key: String, value: String) -> (r: SeriesResult)
        ensures
            r == (SeriesResult { provenance: r.provenance, ..self }),
            r.provenance@ == self.provenance@.insert(key@, value@),
    {
        let SeriesResult {
            group,
            name,
            measurement,
            unit,
            direction,
            samples,
            validity,
            dimensions,
            provenance,
        } = self;
        SeriesResult {
            group,
            name,
            measurement,
            unit,
            direction,
            samples,
            validity,
            dimensions,
            provenance: provenance.inserted(key, value),
        }
    }

    /// How a result is named in messages.
    pub open spec fn location(&self, index: nat) -> Seq<char> {
        "result "@ + text::decimal(index) + " ("@ + self.group@ + "/"@ + self.name@ + ")"@
    }

    /// The problem with the samples: a valid result without any, or one that
    /// is not a finite number.
    pub open spec fn sample_problem(&self, location: Seq<char>) -> Option<Seq<char>> {
        if self.validity.status == ValidityStatus::Valid && self.samples@.len() == 0 {
            Some(location + " is valid but has no samples"@)
        } else if !all_finite(self.samples@) {
            Some(location + " contains a non-finite sample"@)
        } else {
            None
        }
    }

    /// What is wrong with the result, if anything.
    pub open spec fn problem(&self, index: nat) -> Option<Seq<char>> {
        let location = self.location(index);
        first_of(
            blank_problem("group"@, self.group@, location),
            first_of(
                blank_problem("name"@, self.name@, location),
                first_of(
                    blank_problem("unit"@, self.unit@, location),
                    first_of(
                        self.validity.problem(location),
                        first_of(
                            located_map_problem("dimensions"@, &self.dimensions, location),
                            first_of(
                                located_map_problem("provenance"@, &self.provenance, location),
                                self.sample_problem(location),
                            ),
                        ),
                    ),
                ),
            ),
        )
    }

    pub fn validate(&self, index: usize) -> (r: Result<(), SeriesValidationError>)
        ensures
            r is Ok == self.problem(index as nat) is None,
            r matches Err(e) ==> e.message@ == self.problem(index as nat)->0,
    {
        let mut location = "result ".to_owned();
        location.append(text::decimal_text(index as u64).as_str());
        location.append(" (");
        location.append(self.group.as_str());
        location.append("/");
        location.append(self.name.as_str());
        location.append(")");
        validate_nonempty("group", self.group.as_str(), location.as_str())?;
        validate_nonempty("name", self.name.as_str(), location.as_str())?;
        validate_nonempty("unit", self.unit.as_str(), location.as_str())?;
        self.validity.validate(location.as_str())?;
        validate_map("dimensions", &self.dimensions, location.as_str())?;
        validate_map("provenance", &self.provenance, location.as_str())?;
        if self.validity.is_valid() && self.samples.len() == 0 {
            location.append(" is valid but has no samples");
            return Err(SeriesValidationError::new(location));
        }
        if !samples_are_finite(&self.samples) {
            location.append(" contains a non-finite sample");
            return Err(SeriesValidationError::new(location));
        }
        Ok(())
    }
}

/// A portable report of raw samples.
#[derive(Debug)]
pub struct SeriesReport {
    pub document_type: String,
    pub schema_version: u32,
    pub timestamp: String,
    pub suite: String,
    pub validity: Validity,
    pub context: ReportContext,
    pub results: Vec<SeriesResult>,
}

/// What is wrong with the first wrong result from `from` on, if any.
pub open spec fn results_problem(results: Seq<SeriesResult>, from: int) -> Option<Seq<char>>
    decreases results.len() - from,
{
    if from < 0 || from >= results.len() {
        None
    } else if results[from].problem(from as nat) is Some {
        results[from].problem(from as nat)
    } else {
        results_problem(results, from + 1)
    }
}

impl SeriesReport {
    pub fn new(
        timestamp: String,
        suite: String,
        context: ReportContext,
        results: Vec<SeriesResult>,
    ) -> (r: SeriesReport)
        ensures
            r.document_type@ == SERIES_DOCUMENT_TYPE@,
            r.schema_version == SERIES_SCHEMA_VERSION,
            r.timestamp == timestamp,
            r.suite == suite,
            r.validity.status == ValidityStatus::Valid,
            r.validity.reason is None,
            r.context == context,
            r.results == results,
    {
        SeriesReport {
            document_type: SERIES_DOCUMENT_TYPE.to_owned(),
            schema_version: SERIES_SCHEMA_VERSION,
            timestamp,
            suite,
            validity: Validity::valid(),
            context,
            results,
        }
    }

    pub fn with_validity(self, validity: Validity) -> (r: SeriesReport)
        ensures
            r == (SeriesReport { validity, ..self }),
    {
        SeriesReport { validity, ..self }
    }

    pub open spec fn type_problem(&self) -> Option<Seq<char>> {
        if self.document_type@ != SERIES_DOCUMENT_TYPE@ {
            Some(
                "document_type must be "@ + text::debug_form(SERIES_DOCUMENT_TYPE@) + ", found "@
                    + text::debug_form(self.document_type@),
            )
        } else {
            None
        }
    }

    pub open spec fn schema_problem(&self) -> Option<Seq<char>> {
        if self.schema_version != SERIES_SCHEMA_VERSION {
            Some(
                "unsupported series schema version "@ + text::decimal(self.schema_version as nat)
                    + "; supported version is "@ + text::decimal(SERIES_SCHEMA_VERSION as nat),
            )
        } else {
            None
        }
    }

    pub open spec fn context_problem(&self) -> Option<Seq<char>> {
        match self.context.problem() {
            Some(reason) => Some("invalid report context: "@ + reason),
            None => None,
        }
    }

    pub open spec fn emptiness_problem(&self) -> Option<Seq<char>> {
        if self.validity.status == ValidityStatus::Valid && self.results@.len() == 0 {
            Some("valid series report must contain at least one result"@)
        } else {
            None
        }
    }

    /// What is wrong with the report, if anything: the first broken rule.
    pub open spec fn problem(&self) -> Option<Seq<char>> {
        first_of(
            self.type_problem(),
            first_of(
                self.schema_problem(),
                first_of(
                    blank_problem("timestamp"@, self.timestamp@, "report"@),
                    first_of(
                        blank_problem("suite"@, self.suite@, "report"@),
                        first_of(
                            blank_problem(
                                "runner_id"@,
                                self.context.runner_id@,
                                "report context"@,
                            ),
                            first_of(
                                self.context_problem(),
                                first_of(
                                    self.validity.problem("report"@),
                                    first_of(
                                        self.emptiness_problem(),
                                        results_problem(self.results@, 0),
                                    ),
                                ),
                            ),
                        ),
                    ),
                ),
            ),
        )
    }

    /// Accepts the report, or says which rule it breaks first.
    pub fn validate(&self) -> (r: Result<(), SeriesValidationError>)
        ensures
            r is Ok == self.problem() is None,
            r matches Err(e) ==> e.message@ == self.problem()->0,
    {
        if !text::same(self.document_type.as_str(), SERIES_DOCUMENT_TYPE) {
            let mut message = "document_type must be ".to_owned();
            message.append(text::debug_text(SERIES_DOCUMENT_TYPE).as_str());
            message.append(", found ");
            message.append(text::debug_text(self.document_type.as_str()).as_str());
            return Err(SeriesValidationError::new(message));
        }
        if self.schema_version != SERIES_SCHEMA_VERSION {
            let mut message = "unsupported series schema version ".to_owned();
            message.append(text::decimal_text(self.schema_version as u64).as_str());
            message.append("; supported version is ");
            message.append(text::decimal_text(SERIES_SCHEMA_VERSION as u64).as_str());
            return Err(SeriesValidationError::new(message));
        }
        validate_nonempty("timestamp", self.timestamp.as_str(), "report")?;
        validate_nonempty("suite", self.suite.as_str(), "report")?;
        validate_nonempty("runner_id", self.context.runner_id.as_str(), "report context")?;
        match self.context.validate() {
            Ok(()) => {},
            Err(error) => {
                return Err(SeriesValidationError::new(error.message()));
            },
        }
        self.validity.validate("report")?;
        if self.validity.is_valid() && self.results.len() == 0 {
            return Err(
                SeriesValidationError::new(
                    "valid series report must contain at least one result".to_owned(),
                ),
            );
        }
        let mut index: usize = 0;
        while index < self.results.len()
            invariant
                index <= self.results.len(),
                results_problem(self.results@, 0) == results_problem(self.results@, index as int),
                self.problem() == results_problem(self.results@, 0),
            decreases self.results.len() - index,
        {
            match self.results[index].validate(index) {
                Ok(()) => {},
                Err(error) => {
                    return Err(error);
                },
            }
            index += 1;
        }
        Ok(())
    }
}

/// An accepted report names its suite and its runner, and every valid result
/// of it has samples, all of them finite numbers.
pub proof fn accepted_series_is_usable(report: SeriesReport, i: int)
    requires
        report.problem() is None,
        0 <= i < report.results@.len(),
    ensures
        !text::blank(report.suite@),
        !text::blank(report.context.runner_id@),
        report.results@[i].validity.status == ValidityStatus::Valid ==> report.results@[i].samples@.len()
            > 0,
        all_finite(report.results@[i].samples@),
        report.results@[i].validity.status == ValidityStatus::Invalid
            ==> (report.results@[i].validity.reason matches Some(reason) && !text::blank(reason@)),
{
    no_later_problem(report.results@, 0, i);
}

proof fn no_later_problem(results: Seq<SeriesResult>, from: int, i: int)
    requires
        0 <= from <= i < results.len(),
        results_problem(results, from) is None,
    ensures
        results[i].problem(i as nat) is None,
    decreases i - from,
{
    if from < i {
        no_later_problem(results, from + 1, i);
    }
}

} // verus!
