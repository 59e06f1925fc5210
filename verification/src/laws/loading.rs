//! Which files make up an input, and what is wrong with those that do not.
use crate::comparison::compare;
use crate::comparison::document::ReportDocument;
use crate::comparison::engine;
use crate::comparison::error::ReportError;
use crate::comparison::{ComparisonSide, ReportReference};
use crate::laws::comparison::{case_count, sound, soundness_is_the_lack_of_obstacles, suite};
use crate::laws::texts;
use crate::paths;
use crate::paths::{path_before, path_parts};
use crate::suite::error::{SuiteComparisonError, SuiteFailure};
use crate::suite::load;
use crate::suite::load::{
    entry_use, load_report_input, EntryKind, EntryUse, LoadedReport, LoadedReportInput, ReadFile,
    ReportInputKind,
};
use crate::suite::ReportInputRole;
use crate::text;
use vstd::prelude::*;

verus! {

/// Directories are searched and files of reports are read; links and everything
/// else are left alone.
pub proof fn only_reports_are_read(kind: EntryKind, extension: Option<&str>, r: EntryUse)
    requires
        call_ensures(entry_use, (kind, extension), r),
    ensures
        r is Search <==> kind is Directory,
        r is Read <==> kind is File && extension is Some && extension->0@.len() == 4 && (
        extension->0@[0] == 'j' || extension->0@[0] == 'J') && (extension->0@[1] == 's'
            || extension->0@[1] == 'S') && (extension->0@[2] == 'o' || extension->0@[2] == 'O') && (
        extension->0@[3] == 'n' || extension->0@[3] == 'N'),
{
    reveal_strlit("json");
    let want = text::ascii_lower_all("json"@);
    assert(want.len() == 4 && want[0] == 'j' && want[1] == 's' && want[2] == 'o' && want[3] == 'n');
    if let Some(given) = extension {
        let have = text::ascii_lower_all(given@);
        assert(have.len() == given@.len());
        if given@.len() == 4 {
            assert(have[0] == texts::small(given@[0]));
            assert(have[1] == texts::small(given@[1]));
            assert(have[2] == texts::small(given@[2]));
            assert(have[3] == texts::small(given@[3]));
            if have[0] == 'j' && have[1] == 's' && have[2] == 'o' && have[3] == 'n' {
                assert(have =~= want);
            }
        }
        if have == want {
            assert(have[0] == want[0] && have[1] == want[1] && have[2] == want[2] && have[3]
                == want[3]);
        }
    }
}

/// A file that holds a report which can be compared.
pub open spec fn fit(file: ReadFile) -> bool {
    file.outcome matches Ok(document) && sound(document) && case_count(document) > 0
}

/// Whether two files hold reports of one suite.
pub open spec fn same_suite(a: ReadFile, b: ReadFile) -> bool {
    suite(a.outcome->Ok_0) == suite(b.outcome->Ok_0)
}

proof fn fitness_is_the_lack_of_failure(file: ReadFile)
    ensures
        load::file_failure(file) is None <==> fit(file),
        fit(file) ==> suite(file.outcome->Ok_0) == Some(file.outcome->Ok_0.standing().suite),
        load::file_failure(file) matches Some(failure) ==> match failure {
            SuiteFailure::Report { error } => file.outcome == Err::<
                ReportDocument,
                ReportError,
            >(error),
            SuiteFailure::InvalidDocument { path, .. } => path == file.path@ && file.outcome is Ok,
            _ => false,
        },
{
    if let Ok(document) = file.outcome {
        soundness_is_the_lack_of_obstacles(document, ComparisonSide::Current);
        engine::no_repeat_means_distinct(document.standing().keys);
    }
}

proof fn first_failures_are_found(files: Seq<ReadFile>, from: int)
    requires
        0 <= from,
    ensures
        match load::first_file_failure(files, from) {
            None => forall|i: int| from <= i < files.len() ==> fit(#[trigger] files[i]),
            Some(failure) => exists|i: int|
                from <= i < files.len() && load::file_failure(#[trigger] files[i]) == Some(failure),
        },
    decreases files.len() - from,
{
    if from < files.len() {
        fitness_is_the_lack_of_failure(files[from]);
        if load::file_failure(files[from]) is None {
            first_failures_are_found(files, from + 1);
        } else {
            assert(load::file_failure(files[from]) == load::first_file_failure(files, from));
        }
    }
}

proof fn same_contents<T>(a: Seq<T>, b: Seq<T>)
    requires
        a.to_multiset() == b.to_multiset(),
    ensures
        forall|x: T| #[trigger] a.contains(x) <==> b.contains(x),
{
    broadcast use vstd::seq_lib::group_to_multiset_ensures;

    assert forall|x: T| #[trigger] a.contains(x) <==> b.contains(x) by {
        vstd::seq_lib::to_multiset_contains(a, x);
        vstd::seq_lib::to_multiset_contains(b, x);
    }
}

/// Whether a loaded report is what a file holds.
pub open spec fn comes_from(report: LoadedReport, file: ReadFile) -> bool {
    file.path@ == report.path@ && (file.outcome matches Ok(document) && document == report.document)
}

/// The place of a file in the order of paths.
proof fn sorted_place(files: Seq<ReadFile>, i: int) -> (s: int)
    requires
        0 <= i < files.len(),
    ensures
        0 <= s < load::by_path(files).len(),
        load::by_path(files)[s] == files[i],
{
    let sorted = load::by_path(files);
    load::files_come_in_path_order(files);
    same_contents(sorted, files);
    assert(files.contains(files[i]));
    assert(sorted.contains(files[i]));
    choose|s: int| 0 <= s < sorted.len() && sorted[s] == files[i]
}

/// The place among all files of one in the order of paths.
proof fn file_place(files: Seq<ReadFile>, s: int) -> (i: int)
    requires
        0 <= s < load::by_path(files).len(),
    ensures
        0 <= i < files.len(),
        files[i] == load::by_path(files)[s],
{
    let sorted = load::by_path(files);
    load::files_come_in_path_order(files);
    same_contents(sorted, files);
    assert(sorted.contains(sorted[s]));
    assert(files.contains(sorted[s]));
    choose|i: int| 0 <= i < files.len() && files[i] == sorted[s]
}

/// The file of a report.
proof fn file_of_report(files: Seq<ReadFile>, k: int) -> (i: int)
    requires
        load::first_file_failure(load::by_path(files), 0) is None,
        0 <= k < load::reports_of(files).len(),
    ensures
        0 <= i < files.len(),
        fit(files[i]),
        comes_from(load::reports_of(files)[k], files[i]),
        suite(files[i].outcome->Ok_0) == Some(load::reports_of(files)[k].suite()),
{
    let sorted = load::by_path(files);
    let loaded = load::loaded_files(sorted);
    let all = load::reports_of(files);
    load::arranging_orders(loaded);
    same_contents(all, loaded);
    first_failures_are_found(sorted, 0);
    assert(all.contains(all[k]));
    assert(loaded.contains(all[k]));
    let s = choose|s: int| 0 <= s < loaded.len() && loaded[s] == all[k];
    assert(fit(sorted[s]));
    fitness_is_the_lack_of_failure(sorted[s]);
    file_place(files, s)
}

/// The report of a file.
proof fn report_of_file(files: Seq<ReadFile>, i: int) -> (k: int)
    requires
        load::first_file_failure(load::by_path(files), 0) is None,
        0 <= i < files.len(),
    ensures
        0 <= k < load::reports_of(files).len(),
        fit(files[i]),
        comes_from(load::reports_of(files)[k], files[i]),
{
    let sorted = load::by_path(files);
    let loaded = load::loaded_files(sorted);
    let all = load::reports_of(files);
    load::arranging_orders(loaded);
    same_contents(all, loaded);
    first_failures_are_found(sorted, 0);
    let s = sorted_place(files, i);
    assert(fit(sorted[s]));
    assert(loaded.contains(loaded[s]));
    assert(all.contains(loaded[s]));
    choose|k: int| 0 <= k < all.len() && all[k] == loaded[s]
}

/// Whether some report comes from a file.
pub open spec fn has_report(documents: Seq<LoadedReport>, file: ReadFile) -> bool {
    exists|k: int| 0 <= k < documents.len() && comes_from(#[trigger] documents[k], file)
}

/// Whether a report comes from some file.
pub open spec fn has_file(files: Seq<ReadFile>, report: LoadedReport) -> bool {
    exists|i: int| 0 <= i < files.len() && comes_from(report, #[trigger] files[i])
}

/// An input that loads holds one report of every file, all of them fit to be
/// compared and no two of one suite, in the order of their suites.
pub proof fn inputs_hold_every_file(
    path: &str,
    role: ReportInputRole,
    kind: ReportInputKind,
    files: Vec<ReadFile>,
    r: Result<LoadedReportInput, SuiteComparisonError>,
)
    requires
        call_ensures(load_report_input, (path, role, kind, files), r),
    ensures
        r matches Ok(input) ==> {
            &&& input.kind == kind
            &&& input.documents@.len() == files@.len() > 0
            &&& forall|i: int|
                0 <= i < files@.len() ==> fit(#[trigger] files@[i]) && has_report(
                    input.documents@,
                    files@[i],
                )
            &&& forall|k: int|
                0 <= k < input.documents@.len() ==> has_file(files@, #[trigger] input.documents@[k])
            &&& forall|k: int, m: int|
                0 <= k < m < input.documents@.len() ==> text::less(
                    suite((#[trigger] input.documents@[k]).document)->0,
                    suite((#[trigger] input.documents@[m]).document)->0,
                )
        },
{
    if let Ok(input) = r {
        let all = input.documents@;
        load::files_come_in_path_order(files@);
        load::arranging_orders(load::loaded_files(load::by_path(files@)));
        assert forall|i: int| 0 <= i < files@.len() implies fit(#[trigger] files@[i])
            && has_report(all, files@[i]) by {
            let k = report_of_file(files@, i);
            assert(comes_from(all[k], files@[i]));
        }
        assert forall|k: int| 0 <= k < all.len() implies has_file(files@, #[trigger] all[k]) by {
            let i = file_of_report(files@, k);
            assert(comes_from(all[k], files@[i]));
        }
        assert forall|k: int, m: int| 0 <= k < m < all.len() implies text::less(
            suite((#[trigger] all[k]).document)->0,
            suite((#[trigger] all[m]).document)->0,
        ) by {
            let i = file_of_report(files@, k);
            let j = file_of_report(files@, m);
            assert(text::less(all[k].suite(), all[m].suite()));
        }
    }
}

/// A file that could not be read, for a reason.
pub open spec fn unread(files: Seq<ReadFile>, error: ReportError) -> bool {
    exists|i: int|
        0 <= i < files.len() && (#[trigger] files[i]).outcome == Err::<ReportDocument, ReportError>(
            error,
        )
}

/// A file at a path that was read and does not fit.
pub open spec fn unfit(files: Seq<ReadFile>, path: Seq<char>) -> bool {
    exists|i: int|
        0 <= i < files.len() && (#[trigger] files[i]).path@ == path && files[i].outcome is Ok
            && !fit(files[i])
}

/// A file at a path with a report of a suite.
pub open spec fn has_suite(files: Seq<ReadFile>, path: Seq<char>, name: Seq<char>) -> bool {
    exists|i: int|
        0 <= i < files.len() && (#[trigger] files[i]).path@ == path && fit(files[i]) && suite(
            files[i].outcome->Ok_0,
        ) == Some(name)
}

/// An input is refused for what is wrong with it: no file at all, a file that
/// could not be read or does not fit, or two files of one suite.
pub proof fn refused_inputs_have_a_fault(
    path: &str,
    role: ReportInputRole,
    kind: ReportInputKind,
    files: Vec<ReadFile>,
    r: Result<LoadedReportInput, SuiteComparisonError>,
)
    requires
        call_ensures(load_report_input, (path, role, kind, files), r),
    ensures
        files@.len() == 0 <==> (r matches Err(SuiteComparisonError::NoReports { .. })),
        r matches Err(SuiteComparisonError::NoReports { path: named }) ==> named@ == path@,
        r matches Err(SuiteComparisonError::Report(error)) ==> unread(files@, error),
        r matches Err(SuiteComparisonError::InvalidDocument { path: named, .. }) ==> unfit(
            files@,
            named@,
        ),
        r matches Err(SuiteComparisonError::DuplicateSuite { role: named, suite: name, first, second })
            ==> named == role && has_suite(files@, first@, name@) && has_suite(
            files@,
            second@,
            name@,
        ),
        r is Err ==> (r matches Err(SuiteComparisonError::NoReports { .. })) || (r matches Err(
            SuiteComparisonError::Report(_),
        )) || (r matches Err(SuiteComparisonError::InvalidDocument { .. })) || (r matches Err(
            SuiteComparisonError::DuplicateSuite { .. },
        )),
{
    let sorted = load::by_path(files@);
    load::files_come_in_path_order(files@);
    first_failures_are_found(sorted, 0);
    if let Some(failure) = load::first_file_failure(sorted, 0) {
        let s = choose|s: int|
            0 <= s < sorted.len() && load::file_failure(#[trigger] sorted[s]) == Some(failure);
        fitness_is_the_lack_of_failure(sorted[s]);
        let i = file_place(files@, s);
        assert(files@[i] == sorted[s]);
        if files@.len() > 0 {
            match failure {
                SuiteFailure::Report { error } => {
                    assert(files@[i].outcome == Err::<ReportDocument, ReportError>(error));
                    assert(unread(files@, error));
                },
                SuiteFailure::InvalidDocument { path: named, .. } => {
                    assert(files@[i].path@ == named);
                    assert(unfit(files@, named));
                },
                _ => {},
            }
        }
    } else if r is Err && files@.len() > 0 {
        let all = load::reports_of(files@);
        load::arranging_orders(load::loaded_files(sorted));
        repeats_are_found(all, 1);
        let at = load::repeated_suite(all, 1)->0;
        let i = file_of_report(files@, at);
        let j = file_of_report(files@, at - 1);
        assert(files@[i].path@ == all[at].path@ && files@[j].path@ == all[at - 1].path@);
        assert(has_suite(files@, all[at].path@, all[at].suite()));
        assert(has_suite(files@, all[at - 1].path@, all[at].suite()));
    }
}

/// An input with a file that does not fit, or with two files of one suite, is
/// refused.
pub proof fn faulty_inputs_are_refused(
    path: &str,
    role: ReportInputRole,
    kind: ReportInputKind,
    files: Vec<ReadFile>,
    r: Result<LoadedReportInput, SuiteComparisonError>,
    i: int,
    j: int,
)
    requires
        call_ensures(load_report_input, (path, role, kind, files), r),
        0 <= i < files@.len(),
        0 <= j < files@.len(),
        !fit(files@[i]) || (i != j && same_suite(files@[i], files@[j])),
    ensures
        r is Err,
{
    if let Ok(input) = r {
        let sorted = load::by_path(files@);
        let loaded = load::loaded_files(sorted);
        let all = input.documents@;
        load::files_come_in_path_order(files@);
        load::arranging_orders(loaded);
        let a = report_of_file(files@, i);
        let b = report_of_file(files@, j);
        fitness_is_the_lack_of_failure(files@[i]);
        fitness_is_the_lack_of_failure(files@[j]);
        // The two files stand at two places of the sorted list, and their reports
        // at two places of the input.
        let (s, t) = two_places(files@, sorted, i, j);
        let (k, m) = two_places(loaded, all, s, t);
        assert(all[k].suite() == all[m].suite());
        text::less_is_total(all[k].suite(), all[m].suite());
    }
}

proof fn repeats_are_found(list: Seq<LoadedReport>, from: int)
    requires
        1 <= from,
    ensures
        load::repeated_suite(list, from) matches Some(at) ==> from <= at < list.len()
            && list[at].suite() == list[at - 1].suite(),
    decreases list.len() - from,
{
    if from < list.len() && list[from].suite() != list[from - 1].suite() {
        repeats_are_found(list, from + 1);
    }
}

/// Two places of a list have two places in any list of the same contents.
proof fn two_places<T>(a: Seq<T>, b: Seq<T>, i: int, j: int) -> (places: (int, int))
    requires
        a.to_multiset() == b.to_multiset(),
        0 <= i < a.len(),
        0 <= j < a.len(),
        i != j,
    ensures
        0 <= places.0 < b.len(),
        0 <= places.1 < b.len(),
        places.0 != places.1,
        b[places.0] == a[i],
        b[places.1] == a[j],
{
    broadcast use vstd::seq_lib::group_to_multiset_ensures;

    same_contents(a, b);
    assert(a.contains(a[i]));
    let s = choose|s: int| 0 <= s < b.len() && b[s] == a[i];
    let rest = b.remove(s);
    assert(rest.to_multiset() =~= b.to_multiset().remove(b[s]));
    let others = a.remove(i);
    assert(others.to_multiset() =~= a.to_multiset().remove(a[i]));
    same_contents(others, rest);
    let q = if j < i {
        j
    } else {
        j - 1
    };
    assert(others[q] == a[j]);
    assert(others.contains(a[j]));
    let u = choose|u: int| 0 <= u < rest.len() && rest[u] == a[j];
    let t = if u < s {
        u
    } else {
        u + 1
    };
    assert(b[t] == rest[u]);
    (s, t)
}

} // verus!
