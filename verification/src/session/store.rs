//! Where reports are kept when no place is named for them, and which of them a
//! later report is compared with.
use crate::parse;
use crate::session;
use crate::session::{session_is_compatible, BenchmarkReport, ComparisonPolicy};
use crate::text;
use vstd::prelude::*;

verus! {

/// The name of the file of a report.
pub open spec fn file_name_of(timestamp: Seq<char>) -> Seq<char> {
    "benchmark_results_"@ + timestamp + ".json"@
}

/// Whether a file has the name of a report.
pub open spec fn named_like_a_report(name: Seq<char>) -> bool {
    &&& text::occurs_at(name, "benchmark_results_"@, 0)
    &&& text::occurs_at(name, ".json"@, name.len() - ".json"@.len())
}

/// The file in which a report is kept. A report without results is not kept.
pub fn report_file_name(report: &BenchmarkReport) -> (r: Result<String, &'static str>)
    ensures
        match r {
            Ok(name) => report.results@.len() > 0 && name@ == file_name_of(report.timestamp@),
            Err(message) => report.results@.len() == 0 && message@
                == "no benchmark results to save"@,
        },
{
    if report.results.len() == 0 {
        return Err("no benchmark results to save");
    }
    let mut name = "benchmark_results_".to_owned();
    name.append(report.timestamp.as_str());
    name.append(".json");
    Ok(name)
}

pub fn is_report_file_name(name: &str) -> (r: bool)
    ensures
        r == named_like_a_report(name@),
{
    text::starts_with(name, "benchmark_results_") && text::ends_with(name, ".json")
}

/// A report that was kept is found again: its file has the name of a report,
/// whatever its timestamp.
pub proof fn kept_reports_are_found(timestamp: Seq<char>)
    ensures
        named_like_a_report(file_name_of(timestamp)),
{
    let name = file_name_of(timestamp);
    let head = "benchmark_results_"@;
    let tail = ".json"@;
    assert(name.subrange(0, head.len() as int) =~= head);
    assert(name.subrange(name.len() - tail.len(), name.len() as int) =~= tail);
}

/// The directory for reports: one that is configured, else the one of the
/// build, else `target`.
pub fn report_directory(configured: Option<String>, built: Option<String>) -> (r: String)
    ensures
        r@ == match configured {
            Some(directory) => directory@,
            None => match built {
                Some(directory) => directory@,
                None => "target"@,
            },
        },
{
    match configured {
        Some(directory) => directory,
        None => match built {
            Some(directory) => directory,
            None => "target".to_owned(),
        },
    }
}

/// The name of the machine: the first of two that is known.
pub fn machine_name(hostname: Option<String>, computer_name: Option<String>) -> (r: String)
    ensures
        r@ == match hostname {
            Some(name) => name@,
            None => match computer_name {
                Some(name) => name@,
                None => "unknown"@,
            },
        },
{
    match hostname {
        Some(name) => name,
        None => match computer_name {
            Some(name) => name,
            None => "unknown".to_owned(),
        },
    }
}

/// The commit that a version control system printed, without the space round it.
pub fn commit_name(printed: &str) -> (r: String)
    ensures
        r@ == parse::trimmed(printed@),
{
    text::string_of(parse::trim_chars(&text::chars_of(printed)).as_slice())
}

/// The suite of a program that names none: the name of the program.
pub fn default_suite_name(program: Option<String>) -> (r: String)
    ensures
        r@ == match program {
            Some(name) => if name@.len() == 0 {
                "benchmark"@
            } else {
                name@
            },
            None => "benchmark"@,
        },
{
    match program {
        Some(name) => {
            if text::chars_of(name.as_str()).len() == 0 {
                "benchmark".to_owned()
            } else {
                name
            }
        },
        None => "benchmark".to_owned(),
    }
}

/// A report that was kept and can be read, and when its file was written, in
/// nanoseconds after the start of 1970.
#[derive(Debug)]
pub struct KeptSession {
    pub modified_ns: i128,
    pub report: BenchmarkReport,
}

/// Whether a report is to be compared with a kept session.
pub open spec fn eligible(
    policy: ComparisonPolicy,
    report: BenchmarkReport,
    kept: KeptSession,
) -> bool {
    &&& policy is LatestCompatible
    &&& report.suite matches Some(suite) && session::compatible(
        kept.report,
        report.hostname@,
        suite@,
        report.results@,
    )
}

/// Whether the session at `at` is the last of the eligible ones: the one that
/// was written last, and of several that were written then the one listed last.
pub open spec fn last_eligible(
    policy: ComparisonPolicy,
    report: BenchmarkReport,
    kept: Seq<KeptSession>,
    at: int,
) -> bool {
    &&& 0 <= at < kept.len()
    &&& eligible(policy, report, kept[at])
    &&& forall|j: int|
        0 <= j < kept.len() && eligible(policy, report, #[trigger] kept[j]) ==> {
            ||| kept[j].modified_ns < kept[at].modified_ns
            ||| kept[j].modified_ns == kept[at].modified_ns && j <= at
        }
}

/// The kept session with which a report is compared, if there is one.
pub fn comparison_session(
    policy: ComparisonPolicy,
    report: &BenchmarkReport,
    kept: &Vec<KeptSession>,
) -> (r: Option<usize>)
    ensures
        match r {
            Some(at) => last_eligible(policy, *report, kept@, at as int),
            None => forall|j: int|
                0 <= j < kept@.len() ==> !eligible(policy, *report, #[trigger] kept@[j]),
        },
{
    let suite = match (policy, &report.suite) {
        (ComparisonPolicy::LatestCompatible, Some(suite)) => suite,
        _ => {
            return None;
        },
    };
    let mut last: Option<usize> = None;
    let mut i: usize = 0;
    while i < kept.len()
        invariant
            i <= kept.len(),
            policy is LatestCompatible,
            report.suite == Some(*suite),
            match last {
                Some(at) => last_eligible(policy, *report, kept@.take(i as int), at as int),
                None => forall|j: int|
                    0 <= j < i ==> !eligible(policy, *report, #[trigger] kept@[j]),
            },
        decreases kept.len() - i,
    {
        let ghost seen = kept@.take(i as int);
        let ghost longer = kept@.take(i + 1);
        let fits = session_is_compatible(
            &kept[i].report,
            report.hostname.as_str(),
            suite.as_str(),
            &report.results,
        );
        assert(forall|j: int| 0 <= j < i ==> #[trigger] longer[j] == kept@[j]);
        assert(forall|j: int| 0 <= j < i ==> #[trigger] seen[j] == kept@[j]);
        if fits {
            let later = match last {
                Some(at) => kept[i].modified_ns >= kept[at].modified_ns,
                None => true,
            };
            if later {
                last = Some(i);
            }
        }
        i += 1;
    }
    assert(kept@.take(kept@.len() as int) =~= kept@);
    last
}

/// At most one kept session is the last eligible one.
pub proof fn last_session_is_unique(
    policy: ComparisonPolicy,
    report: BenchmarkReport,
    kept: Seq<KeptSession>,
    a: int,
    b: int,
)
    requires
        last_eligible(policy, report, kept, a),
        last_eligible(policy, report, kept, b),
    ensures
        a == b,
{
}

} // verus!
