//! Accepting the reports of one input, one for each suite.
use crate::comparison::document::ReportDocument;
use crate::comparison::error::ReportError;
use crate::comparison::ReportReference;
use crate::order;
use crate::paths;
use crate::suite::error::{SuiteComparisonError, SuiteFailure};
use crate::suite::ReportInputRole;
use crate::text;
use vstd::prelude::*;

verus! {

/// Whether an input is one report or a directory of them.
#[derive(Clone, Copy, Debug, PartialEq, Eq, Structural)]
pub enum ReportInputKind {
    File,
    Directory,
}

/// What an entry of a directory is.
#[derive(Clone, Copy, Debug, PartialEq, Eq, Structural)]
pub enum EntryKind {
    Link,
    Directory,
    File,
    Other,
}

/// What becomes of an entry of a directory.
#[derive(Clone, Copy, Debug, PartialEq, Eq, Structural)]
pub enum EntryUse {
    Ignore,
    Search,
    Read,
}

/// Links are not followed, directories are searched, and of the files those
/// that are called JSON are read.
pub open spec fn use_of(kind: EntryKind, extension: Option<Seq<char>>) -> EntryUse {
    match kind {
        EntryKind::Directory => EntryUse::Search,
        EntryKind::File => match extension {
            Some(extension) => if text::ascii_lower_all(extension) == text::ascii_lower_all(
                "json"@,
            ) {
                EntryUse::Read
            } else {
                EntryUse::Ignore
            },
            None => EntryUse::Ignore,
        },
        EntryKind::Link | EntryKind::Other => EntryUse::Ignore,
    }
}

pub fn entry_use(kind: EntryKind, extension: Option<&str>) -> (r: EntryUse)
    ensures
        r == use_of(
            kind,
            match extension {
                Some(extension) => Some(extension@),
                None => None,
            },
        ),
{
    match kind {
        EntryKind::Directory => EntryUse::Search,
        EntryKind::File => match extension {
            Some(extension) => {
                if text::same_ignoring_case(extension, "json") {
                    EntryUse::Read
                } else {
                    EntryUse::Ignore
                }
            },
            None => EntryUse::Ignore,
        },
        _ => EntryUse::Ignore,
    }
}

/// A report with the place it was read from.
#[derive(Debug)]
pub struct LoadedReport {
    pub path: String,
    pub document: ReportDocument,
}

impl LoadedReport {
    /// The suite of the report.
    pub open spec fn suite(&self) -> Seq<char> {
        self.document.standing().suite
    }
}

/// Every report is fit for comparison.
pub open spec fn all_comparable(documents: Seq<LoadedReport>) -> bool {
    forall|i: int|
        0 <= i < documents.len() ==> (#[trigger] documents[i]).document.lone_obstacle() is None
}

/// The reports come in the order of their suites, each suite once.
pub open spec fn one_per_suite(documents: Seq<LoadedReport>) -> bool {
    forall|i: int, j: int|
        0 <= i < j < documents.len() ==> text::less(
            (#[trigger] documents[i]).suite(),
            (#[trigger] documents[j]).suite(),
        )
}

/// The reports of an input, one for each suite.
#[derive(Debug)]
pub struct LoadedReportInput {
    pub kind: ReportInputKind,
    pub documents: Vec<LoadedReport>,
}

impl LoadedReportInput {
    pub open spec fn well_formed(&self) -> bool {
        &&& self.documents@.len() > 0
        &&& all_comparable(self.documents@)
        &&& one_per_suite(self.documents@)
    }
}

impl ReportDocument {
    /// The suite of a document; empty where it names none.
    pub fn suite_name(&self) -> (r: &str)
        ensures
            r@ == match self {
                ReportDocument::Native { report, .. } => match report.suite {
                    Some(suite) => suite@,
                    None => ""@,
                },
                ReportDocument::Series { report, .. } => report.suite@,
            },
    {
        match self {
            ReportDocument::Native { report, .. } => match &report.suite {
                Some(suite) => suite.as_str(),
                None => "",
            },
            ReportDocument::Series { report, .. } => report.suite.as_str(),
        }
    }
}

/// A file of an input, and what reading it gave.
#[derive(Debug)]
pub struct ReadFile {
    pub path: String,
    pub outcome: Result<ReportDocument, ReportError>,
}

/// Why one file is refused: it could not be read, or is not fit for comparison.
pub open spec fn file_failure(file: ReadFile) -> Option<SuiteFailure> {
    match file.outcome {
        Err(error) => Some(SuiteFailure::Report { error }),
        Ok(document) => match document.lone_obstacle() {
            Some(obstacle) => Some(SuiteFailure::InvalidDocument { path: file.path@, obstacle }),
            None => None,
        },
    }
}

/// Why the first refused file from `from` on is refused.
pub open spec fn first_file_failure(files: Seq<ReadFile>, from: int) -> Option<SuiteFailure>
    decreases files.len() - from,
{
    if from < 0 || from >= files.len() {
        None
    } else if file_failure(files[from]) is Some {
        file_failure(files[from])
    } else {
        first_file_failure(files, from + 1)
    }
}

/// Files come in the order of their paths.
pub open spec fn file_order() -> spec_fn(ReadFile, ReadFile) -> bool {
    |a: ReadFile, b: ReadFile| paths::before(a.path@, b.path@)
}

/// The files in the order of their paths.
pub open spec fn by_path(files: Seq<ReadFile>) -> Seq<ReadFile> {
    order::arranged(files, file_order())
}

/// Whether a report comes before another: its suite does, or the suite is the
/// same and its path does.
pub open spec fn report_before(a: LoadedReport, b: LoadedReport) -> bool {
    text::less(a.suite(), b.suite()) || (a.suite() == b.suite() && paths::before(a.path@, b.path@))
}

/// Reports come in the order of their suites, and then of their paths.
pub open spec fn report_order() -> spec_fn(LoadedReport, LoadedReport) -> bool {
    |a: LoadedReport, b: LoadedReport| report_before(a, b)
}

/// The reports in the order of their suites, and then of their paths.
pub open spec fn arranged(list: Seq<LoadedReport>) -> Seq<LoadedReport> {
    order::arranged(list, report_order())
}

/// The suites do not go back, nor do the paths within a suite.
pub open spec fn reports_ordered(list: Seq<LoadedReport>) -> bool {
    forall|i: int, j: int|
        0 <= i < j < list.len() ==> {
            &&& text::at_most((#[trigger] list[i]).suite(), (#[trigger] list[j]).suite())
            &&& list[i].suite() == list[j].suite() ==> !paths::before(list[j].path@, list[i].path@)
        }
}

proof fn file_order_orders()
    ensures
        order::orders(file_order()),
{
    let before = file_order();
    assert forall|a: ReadFile, b: ReadFile| #[trigger] before(a, b) implies !before(b, a) by {
        paths::before_is_total(a.path@, b.path@);
    }
    assert forall|a: ReadFile, b: ReadFile, c: ReadFile|
        !(#[trigger] before(b, a)) && !(#[trigger] before(c, b)) implies !before(c, a) by {
        paths::stays_behind(a.path@, b.path@, c.path@);
    }
}

proof fn report_order_orders()
    ensures
        order::orders(report_order()),
{
    let before = report_order();
    assert forall|a: LoadedReport, b: LoadedReport| #[trigger] before(a, b) implies !before(
        b,
        a,
    ) by {
        text::less_is_total(a.suite(), b.suite());
        paths::before_is_total(a.path@, b.path@);
    }
    assert forall|a: LoadedReport, b: LoadedReport, c: LoadedReport|
        !(#[trigger] before(b, a)) && !(#[trigger] before(c, b)) implies !before(c, a) by {
        text::less_is_total(a.suite(), b.suite());
        text::less_is_total(b.suite(), c.suite());
        text::less_is_total(a.suite(), c.suite());
        text::at_most_is_transitive(a.suite(), b.suite(), c.suite());
        if a.suite() == c.suite() {
            if a.suite() != b.suite() {
                assert(text::less(a.suite(), b.suite()));
                assert(text::less(b.suite(), c.suite()));
            }
            paths::stays_behind(a.path@, b.path@, c.path@);
        }
    }
}

/// Arranging keeps every file, and no path comes before one in front of it.
pub proof fn files_come_in_path_order(files: Seq<ReadFile>)
    ensures
        by_path(files).to_multiset() == files.to_multiset(),
        by_path(files).len() == files.len(),
        forall|i: int, j: int|
            0 <= i < j < files.len() ==> !paths::before(
                (#[trigger] by_path(files)[j]).path@,
                (#[trigger] by_path(files)[i]).path@,
            ),
{
    file_order_orders();
    order::arranging_orders(files, file_order());
    let before = file_order();
    assert forall|i: int, j: int| 0 <= i < j < files.len() implies !paths::before(
        (#[trigger] by_path(files)[j]).path@,
        (#[trigger] by_path(files)[i]).path@,
    ) by {
        assert(!before(by_path(files)[j], by_path(files)[i]));
    }
}

/// Arranging keeps every report, and puts the suites, and the paths within a
/// suite, in order.
pub proof fn arranging_orders(list: Seq<LoadedReport>)
    ensures
        arranged(list).to_multiset() == list.to_multiset(),
        arranged(list).len() == list.len(),
        reports_ordered(arranged(list)),
{
    report_order_orders();
    order::arranging_orders(list, report_order());
    let before = report_order();
    let after = arranged(list);
    assert forall|i: int, j: int| 0 <= i < j < after.len() implies {
        &&& text::at_most((#[trigger] after[i]).suite(), (#[trigger] after[j]).suite())
        &&& after[i].suite() == after[j].suite() ==> !paths::before(after[j].path@, after[i].path@)
    } by {
        assert(!before(after[j], after[i]));
    }
}

/// The first place from `from` on that repeats the suite before it.
pub open spec fn repeated_suite(list: Seq<LoadedReport>, from: int) -> Option<int>
    decreases list.len() - from,
{
    if from < 1 || from >= list.len() {
        None
    } else if list[from].suite() == list[from - 1].suite() {
        Some(from)
    } else {
        repeated_suite(list, from + 1)
    }
}

/// What was read of every file, where all of it was.
pub open spec fn loaded_files(files: Seq<ReadFile>) -> Seq<LoadedReport> {
    files.map_values(
        |file: ReadFile| LoadedReport { path: file.path, document: file.outcome->Ok_0 },
    )
}

/// The reports of some files, where all of them were read: in the order of
/// their suites, and then of their paths.
pub open spec fn reports_of(files: Seq<ReadFile>) -> Seq<LoadedReport> {
    arranged(loaded_files(by_path(files)))
}

/// Two reports of the same suite, once the reports are in order.
pub open spec fn duplicate_failure(list: Seq<LoadedReport>, role: ReportInputRole) -> Option<SuiteFailure> {
    match repeated_suite(list, 1) {
        Some(i) => Some(
            SuiteFailure::DuplicateSuite {
                role,
                suite: list[i].suite(),
                first: list[i - 1].path@,
                second: list[i].path@,
            },
        ),
        None => None,
    }
}

/// Why an input is refused, if it is: it has no files, or a file is refused,
/// or a suite has more than one report. The files are looked at in the order
/// of their paths.
pub open spec fn input_failure(path: Seq<char>, role: ReportInputRole, files: Seq<ReadFile>) -> Option<
    SuiteFailure,
> {
    if files.len() == 0 {
        Some(SuiteFailure::NoReports { path })
    } else if first_file_failure(by_path(files), 0) is Some {
        first_file_failure(by_path(files), 0)
    } else {
        duplicate_failure(reports_of(files), role)
    }
}

/// Of two reports of the same suite, the one named first does not come behind
/// the other in the order of paths.
pub proof fn duplicates_are_named_in_path_order(files: Seq<ReadFile>, role: ReportInputRole)
    ensures
        duplicate_failure(reports_of(files), role) matches Some(
            SuiteFailure::DuplicateSuite { first, second, .. },
        ) ==> !paths::before(second, first),
{
    arranging_orders(loaded_files(by_path(files)));
    repeat_is_inside(reports_of(files), 1);
}

proof fn repeat_is_inside(list: Seq<LoadedReport>, from: int)
    requires
        from >= 1,
    ensures
        repeated_suite(list, from) matches Some(i) ==> from <= i < list.len() && list[i].suite()
            == list[i - 1].suite(),
    decreases list.len() - from,
{
    if from < list.len() {
        repeat_is_inside(list, from + 1);
    }
}

fn find_file_place(files: &Vec<ReadFile>, file: &ReadFile) -> (r: usize)
    ensures
        r == order::place_of(files@, *file, file_order(), 0),
        r <= files@.len(),
{
    let mut i: usize = 0;
    while i < files.len()
        invariant
            i <= files@.len(),
            order::place_of(files@, *file, file_order(), 0) == order::place_of(
                files@,
                *file,
                file_order(),
                i as int,
            ),
        decreases files@.len() - i,
    {
        let ghost before = file_order();
        if paths::path_before(file.path.as_str(), files[i].path.as_str()) {
            assert(before(*file, files@[i as int]));
            return i;
        }
        assert(!before(*file, files@[i as int]));
        i += 1;
    }
    i
}

fn sort_by_path(files: Vec<ReadFile>) -> (r: Vec<ReadFile>)
    ensures
        r@ == by_path(files@),
{
    let ghost all = files@;
    let mut rest = files;
    let mut list: Vec<ReadFile> = Vec::new();
    let ghost mut i: int = 0;
    assert(all.take(0) =~= Seq::<ReadFile>::empty());
    while rest.len() > 0
        invariant
            all == files@,
            0 <= i <= all.len(),
            rest@ == all.skip(i),
            list@ == by_path(all.take(i)),
        decreases rest@.len(),
    {
        let file = rest.remove(0);
        let place: usize = find_file_place(&list, &file);
        list.insert(place, file);
        proof {
            assert(all.take(i + 1).drop_last() =~= all.take(i));
            assert(all.take(i + 1).last() == all[i]);
            assert(rest@ =~= all.skip(i + 1));
            i = i + 1;
        }
    }
    assert(all.take(all.len() as int) =~= all);
    list
}

fn find_place(list: &Vec<LoadedReport>, report: &LoadedReport) -> (r: usize)
    requires
        all_comparable(list@),
        report.document.lone_obstacle() is None,
    ensures
        r == order::place_of(list@, *report, report_order(), 0),
        r <= list@.len(),
{
    let mut i: usize = 0;
    while i < list.len()
        invariant
            i <= list@.len(),
            all_comparable(list@),
            report.document.lone_obstacle() is None,
            order::place_of(list@, *report, report_order(), 0) == order::place_of(
                list@,
                *report,
                report_order(),
                i as int,
            ),
        decreases list@.len() - i,
    {
        let ghost before = report_order();
        assert(list@[i as int].document.lone_obstacle() is None);
        let suite = report.document.suite_name();
        let other = list[i].document.suite_name();
        if text::comes_before(suite, other) || (text::same(suite, other) && paths::path_before(
            report.path.as_str(),
            list[i].path.as_str(),
        )) {
            assert(before(*report, list@[i as int]));
            return i;
        }
        assert(!before(*report, list@[i as int]));
        i += 1;
    }
    i
}

proof fn first_failure_from(files: Seq<ReadFile>, i: int)
    requires
        0 <= i <= files.len(),
        forall|j: int| 0 <= j < i ==> file_failure(#[trigger] files[j]) is None,
    ensures
        first_file_failure(files, 0) == first_file_failure(files, i),
    decreases i,
{
    if i > 0 {
        first_failure_from(files, i - 1);
        assert(file_failure(files[i - 1]) is None);
    }
}

fn arrange_files(files: Vec<ReadFile>) -> (r: Result<Vec<LoadedReport>, SuiteComparisonError>)
    ensures
        r is Err == first_file_failure(files@, 0) is Some,
        r matches Err(e) ==> e@ == first_file_failure(files@, 0)->0,
        r matches Ok(list) ==> {
            &&& list@ == arranged(loaded_files(files@))
            &&& all_comparable(list@)
        },
{
    let ghost all = files@;
    let ghost loaded = loaded_files(all);
    let mut rest = files;
    let mut list: Vec<LoadedReport> = Vec::new();
    let ghost mut i: int = 0;
    assert(loaded.take(0) =~= Seq::<LoadedReport>::empty());
    while rest.len() > 0
        invariant
            all == files@,
            0 <= i <= all.len(),
            rest@ == all.skip(i),
            loaded == loaded_files(all),
            forall|j: int| 0 <= j < i ==> file_failure(#[trigger] all[j]) is None,
            list@ == arranged(loaded.take(i)),
            all_comparable(list@),
        decreases rest.len(),
    {
        let file = rest.remove(0);
        assert(file == all[i]);
        proof {
            first_failure_from(all, i);
        }
        let document = match file.outcome {
            Ok(document) => document,
            Err(error) => {
                return Err(SuiteComparisonError::Report(error));
            },
        };
        match document.validate_for_comparison() {
            Ok(()) => {},
            Err(source) => {
                return Err(
                    SuiteComparisonError::InvalidDocument {
                        path: file.path,
                        source: Box::new(source),
                    },
                );
            },
        }
        let report = LoadedReport { path: file.path, document };
        let place: usize = find_place(&list, &report);
        let ghost before = list@;
        list.insert(place, report);
        proof {
            assert forall|k: int| 0 <= k < list@.len() implies (#[trigger] list@[k]).document.lone_obstacle() is None by {
                if k < place {
                    assert(list@[k] == before[k]);
                } else if k > place {
                    assert(list@[k] == before[k - 1]);
                }
            }
            assert(loaded[i] == report);
            assert(loaded.take(i + 1).drop_last() =~= loaded.take(i));
            assert(loaded.take(i + 1).last() == loaded[i]);
            assert(rest@ =~= all.skip(i + 1));
            i = i + 1;
        }
    }
    proof {
        first_failure_from(all, all.len() as int);
        assert(loaded.take(all.len() as int) =~= loaded);
    }
    Ok(list)
}

fn reject_repeated_suites(list: &Vec<LoadedReport>, role: ReportInputRole) -> (r: Result<
    (),
    SuiteComparisonError,
>)
    requires
        all_comparable(list@),
    ensures
        r is Err == duplicate_failure(list@, role) is Some,
        r matches Err(e) ==> e@ == duplicate_failure(list@, role)->0,
{
    let mut i: usize = 1;
    while i < list.len()
        invariant
            1 <= i,
            all_comparable(list@),
            repeated_suite(list@, 1) == repeated_suite(list@, i as int),
        decreases list.len() - i,
    {
        assert(list@[i as int].document.lone_obstacle() is None);
        assert(list@[i - 1].document.lone_obstacle() is None);
        if text::same(list[i].document.suite_name(), list[i - 1].document.suite_name()) {
            return Err(
                SuiteComparisonError::DuplicateSuite {
                    role,
                    suite: list[i].document.suite_name().to_owned(),
                    first: list[i - 1].path.clone(),
                    second: list[i].path.clone(),
                },
            );
        }
        i += 1;
    }
    Ok(())
}

proof fn repeat_facts(list: Seq<LoadedReport>, from: int)
    requires
        from >= 1,
        repeated_suite(list, from) is None,
    ensures
        forall|i: int|
            from <= i < list.len() ==> (#[trigger] list[i]).suite() != list[i - 1].suite(),
    decreases list.len() - from,
{
    if from < list.len() {
        repeat_facts(list, from + 1);
    }
}

proof fn no_repeat_is_strict(list: Seq<LoadedReport>)
    requires
        reports_ordered(list),
        repeated_suite(list, 1) is None,
    ensures
        one_per_suite(list),
{
    repeat_facts(list, 1);
    assert forall|i: int, j: int| 0 <= i < j < list.len() implies text::less(
        (#[trigger] list[i]).suite(),
        (#[trigger] list[j]).suite(),
    ) by {
        if i < j - 1 {
            assert(text::at_most(list[i].suite(), list[j - 1].suite()));
        }
        assert(text::at_most(list[j - 1].suite(), list[j].suite()));
        assert(list[j].suite() != list[j - 1].suite());
        text::less_is_total(list[j - 1].suite(), list[j].suite());
        text::less_is_total(list[i].suite(), list[j - 1].suite());
        if text::less(list[i].suite(), list[j - 1].suite()) {
            text::less_is_transitive(list[i].suite(), list[j - 1].suite(), list[j].suite());
        }
    }
}

/// Accepts the files of an input, in whatever order they come.
pub fn load_report_input(
    path: &str,
    role: ReportInputRole,
    kind: ReportInputKind,
    files: Vec<ReadFile>,
) -> (r: Result<LoadedReportInput, SuiteComparisonError>)
    ensures
        r is Err == input_failure(path@, role, files@) is Some,
        r matches Err(e) ==> e@ == input_failure(path@, role, files@)->0,
        r matches Ok(input) ==> {
            &&& input.kind == kind
            &&& input.documents@ == reports_of(files@)
            &&& input.well_formed()
        },
{
    if files.len() == 0 {
        return Err(SuiteComparisonError::NoReports { path: path.to_owned() });
    }
    let ghost all = by_path(files@);
    match arrange_files(sort_by_path(files)) {
        Err(error) => Err(error),
        Ok(documents) => {
            proof {
                arranging_orders(loaded_files(all));
            }
            match reject_repeated_suites(&documents, role) {
                Ok(()) => {
                    proof {
                        no_repeat_is_strict(documents@);
                    }
                    Ok(LoadedReportInput { kind, documents })
                },
                Err(error) => Err(error),
            }
        },
    }
}

/// The references to the reports of an input.
pub open spec fn references_of(list: Seq<ReportReference>, documents: Seq<LoadedReport>) -> bool {
    &&& list.len() == documents.len()
    &&& forall|i: int|
        0 <= i < list.len() ==> (#[trigger] list[i]).like(
            &documents[i].document.spec_reference(),
        )
}

/// Accepts an input, and refers to its reports in the order of their suites.
pub fn validate_report_input(path: &str, kind: ReportInputKind, files: Vec<ReadFile>) -> (r: Result<
    Vec<ReportReference>,
    SuiteComparisonError,
>)
    ensures
        r is Err == input_failure(path@, ReportInputRole::Validation, files@) is Some,
        r matches Err(e) ==> e@ == input_failure(path@, ReportInputRole::Validation, files@)->0,
        r matches Ok(references) ==> references_of(references@, reports_of(files@)),
{
    let input = match load_report_input(path, ReportInputRole::Validation, kind, files) {
        Ok(input) => input,
        Err(error) => {
            return Err(error);
        },
    };
    let mut references: Vec<ReportReference> = Vec::new();
    let mut i: usize = 0;
    while i < input.documents.len()
        invariant
            i <= input.documents.len(),
            references@.len() == i,
            forall|j: int|
                0 <= j < i ==> (#[trigger] references@[j]).like(
                    &input.documents@[j].document.spec_reference(),
                ),
        decreases input.documents.len() - i,
    {
        references.push(input.documents[i].document.reference().duplicate());
        i += 1;
    }
    Ok(references)
}

} // verus!
