//! What a benchmark program does with its arguments and its settings.
use crate::bench::calibration::BenchmarkRuntimeOptions;
use crate::comparison::document::ReportDocument;
use crate::comparison::{ComparisonOptions, ComparisonSummary};
use crate::context::{ContextError, ReportContext};
use crate::session::ComparisonPolicy;
use crate::text;
use crate::time::Nanos;
use vstd::prelude::*;

verus! {

/// The environment variable that names the file to write the report to.
pub const OUTPUT_PATH_ENVIRONMENT: &'static str = "MICROMEASURE_OUTPUT";

/// The environment variable that names the file of the report context.
pub const CONTEXT_FILE_ENVIRONMENT: &'static str = "MICROMEASURE_CONTEXT_FILE";

/// The environment variable that names the report to compare with.
pub const BASELINE_PATH_ENVIRONMENT: &'static str = "MICROMEASURE_BASELINE";

/// Where the report of a run goes.
#[derive(Debug)]
pub enum ReportDestination {
    Explicit(String),
    Default,
    Disabled,
}

/// Where the report goes: to the named file if one is named, else to the
/// default place if results are saved.
pub fn report_destination(explicit_path: Option<String>, save_results: bool) -> (r: ReportDestination)
    ensures
        r == match explicit_path {
            Some(path) => ReportDestination::Explicit(path),
            None => if save_results {
                ReportDestination::Default
            } else {
                ReportDestination::Disabled
            },
        },
{
    match explicit_path {
        Some(path) => ReportDestination::Explicit(path),
        None => {
            if save_results {
                ReportDestination::Default
            } else {
                ReportDestination::Disabled
            }
        },
    }
}

/// The options of a benchmark program.
#[derive(Debug)]
pub struct BenchmarkMainOptions {
    pub suite: Option<String>,
    pub filter_help: Option<String>,
    pub comparison_policy: ComparisonPolicy,
    /// The context that is used where no file is named.
    pub report_context: Option<ReportContext>,
    /// How a report is compared with one that is named.
    pub explicit_comparison: ComparisonOptions,
    pub save_results: bool,
    pub runtime: BenchmarkRuntimeOptions,
}

impl Default for BenchmarkMainOptions {
    fn default() -> (r: BenchmarkMainOptions)
        ensures
            r.suite is None,
            r.filter_help is None,
            r.comparison_policy == ComparisonPolicy::LatestCompatible,
            r.report_context is None,
            r.explicit_comparison.allow_partial_result_set,
            !r.explicit_comparison.require_same_suite_set,
            r.explicit_comparison.environment_override is None,
            r.save_results,
            r.runtime.warm_up_duration.count == 1_000_000_000,
            r.runtime.benchmark_duration.count == 5_000_000_000,
            r.runtime.min_samples == 20,
            r.runtime.max_samples == 100,
            r.runtime.validity() is Ok,
    {
        BenchmarkMainOptions {
            suite: None,
            filter_help: None,
            comparison_policy: ComparisonPolicy::LatestCompatible,
            report_context: None,
            explicit_comparison: ComparisonOptions::default().allow_partial_result_set(true),
            save_results: true,
            runtime: BenchmarkRuntimeOptions {
                warm_up_duration: Nanos::from_secs(1),
                benchmark_duration: Nanos::from_secs(5),
                min_samples: 20,
                max_samples: 100,
            },
        }
    }
}

/// The options with a suite: the given one where they name none.
pub fn benchmark_options_with_default_suite(options: BenchmarkMainOptions, default_suite: &str) -> (r:
    BenchmarkMainOptions)
    ensures
        r == (BenchmarkMainOptions { suite: r.suite, ..options }),
        match options.suite {
            Some(_) => r.suite == options.suite,
            None => r.suite is Some && r.suite->0@ == default_suite@,
        },
{
    let suite = match options.suite {
        Some(suite) => Some(suite),
        None => Some(default_suite.to_owned()),
    };
    BenchmarkMainOptions { suite, ..options }
}

/// The place of the first argument that is `--`, from a place on.
pub open spec fn separator(args: Seq<Seq<char>>, from: int) -> Option<int>
    decreases args.len() - from,
{
    if from < 0 || from >= args.len() {
        None
    } else if args[from] == "--"@ {
        Some(from)
    } else {
        separator(args, from + 1)
    }
}

/// Whether an argument names what to run: it is no option, and no part of the
/// name of the program.
pub open spec fn names_filter(args: Seq<Seq<char>>, i: int) -> bool {
    !text::occurs_at(args[i], "--"@, 0) && !text::occurs(args[0], args[i])
}

/// The first argument that names what to run, from a place on.
pub open spec fn first_name(args: Seq<Seq<char>>, from: int) -> Option<Seq<char>>
    decreases args.len() - from,
{
    if from < 0 || from >= args.len() {
        None
    } else if names_filter(args, from) {
        Some(args[from])
    } else {
        first_name(args, from + 1)
    }
}

/// The filter that the arguments ask for: the one behind `--` where that is
/// there, else the first that names what to run.
pub open spec fn filter_of(args: Seq<Seq<char>>) -> Option<Seq<char>> {
    match separator(args, 0) {
        Some(at) => if at + 1 < args.len() {
            Some(args[at + 1])
        } else {
            None
        },
        None => first_name(args, 1),
    }
}

fn find_separator(args: &[String]) -> (r: Option<usize>)
    ensures
        r is Some == separator(text::texts(args@), 0) is Some,
        r matches Some(at) ==> at < args@.len() && at == separator(text::texts(args@), 0)->0,
{
    let ghost all = text::texts(args@);
    let mut i: usize = 0;
    while i < args.len()
        invariant
            i <= args@.len(),
            all == text::texts(args@),
            separator(all, i as int) == separator(all, 0),
        decreases args@.len() - i,
    {
        assert(all[i as int] == args@[i as int]@);
        if text::same(args[i].as_str(), "--") {
            return Some(i);
        }
        i += 1;
    }
    None
}

/// Reads the filter out of the arguments of a program.
pub fn benchmark_filter_from_args(args: &[String]) -> (r: Option<String>)
    ensures
        r is Some == filter_of(text::texts(args@)) is Some,
        r matches Some(filter) ==> filter@ == filter_of(text::texts(args@))->0,
{
    let ghost all = text::texts(args@);
    match find_separator(args) {
        Some(at) => {
            if at < args.len() - 1 {
                assert(all[at + 1] == args@[at + 1]@);
                return Some(args[at + 1].clone());
            }
            return None;
        },
        None => {},
    }
    let mut i: usize = 1;
    while i < args.len()
        invariant
            1 <= i,
            all == text::texts(args@),
            separator(all, 0) is None,
            first_name(all, i as int) == first_name(all, 1),
        decreases args@.len() - i,
    {
        assert(all[i as int] == args@[i as int]@);
        assert(all[0] == args@[0]@);
        let arg = args[i].as_str();
        if !text::starts_with(arg, "--") && !text::contains(args[0].as_str(), arg) {
            return Some(args[i].clone());
        }
        i += 1;
    }
    None
}

/// What stands directly behind `--` is the filter, whatever else is there.
pub proof fn separator_decides(args: Seq<Seq<char>>, at: int)
    requires
        0 <= at < args.len() - 1,
        args[at] == "--"@,
        forall|i: int| 0 <= i < at ==> #[trigger] args[i] != "--"@,
    ensures
        filter_of(args) == Some(args[at + 1]),
{
    separator_found(args, at, 0);
}

proof fn separator_found(args: Seq<Seq<char>>, at: int, from: int)
    requires
        0 <= from <= at < args.len(),
        args[at] == "--"@,
        forall|i: int| 0 <= i < at ==> #[trigger] args[i] != "--"@,
    ensures
        separator(args, from) == Some(at),
    decreases at - from,
{
    if from < at {
        separator_found(args, at, from + 1);
    }
}

/// The context of a run: that of the named file if one is named, else the
/// configured one, which has to be valid. What came of reading the named file
/// is given.
pub fn requested_context(
    from_file: Option<Result<ReportContext, ContextError>>,
    configured: Option<ReportContext>,
) -> (r: Result<Option<ReportContext>, ContextError>)
    ensures
        match from_file {
            Some(Ok(context)) => r == Ok::<Option<ReportContext>, ContextError>(Some(context)),
            Some(Err(error)) => r == Err::<Option<ReportContext>, ContextError>(error),
            None => match configured {
                Some(context) => {
                    &&& r is Ok == context.problem() is None
                    &&& r matches Ok(given) ==> given == Some(context)
                    &&& r matches Err(e) ==> (e matches ContextError::Invalid { path, reason }
                        && path is None && reason@ == context.problem()->0)
                },
                None => r == Ok::<Option<ReportContext>, ContextError>(None),
            },
        },
{
    match from_file {
        Some(Ok(context)) => Ok(Some(context)),
        Some(Err(error)) => Err(error),
        None => match configured {
            Some(context) => match context.validate() {
                Ok(_) => Ok(Some(context)),
                Err(error) => Err(error),
            },
            None => Ok(None),
        },
    }
}

/// How the report that was compared with is called.
pub open spec fn baseline_name(path: Option<String>) -> Seq<char> {
    match path {
        Some(path) => path@,
        None => "<in-memory>"@,
    }
}

pub fn baseline_display_path(baseline: &ReportDocument) -> (r: &str)
    ensures
        r@ == baseline_name(baseline.spec_reference().display_path),
{
    match &baseline.reference().display_path {
        Some(path) => path.as_str(),
        None => "<in-memory>",
    }
}

/// What is said before a filtered run.
pub fn filter_notice(filter: &str, help: &Option<String>) -> (r: Vec<String>)
    ensures
        text::texts(r@) == match help {
            Some(help) => seq![
                "Running benchmarks matching filter: '"@ + filter@ + "'"@,
                "Available filters: "@ + help@,
            ],
            None => seq!["Running benchmarks matching filter: '"@ + filter@ + "'"@],
        },
{
    let mut line = "Running benchmarks matching filter: '".to_owned();
    line.append(filter);
    line.append("'");
    let mut r: Vec<String> = Vec::new();
    r.push(line);
    match help {
        Some(help) => {
            let mut more = "Available filters: ".to_owned();
            more.append(help.as_str());
            r.push(more);
            assert(text::texts(r@) =~= seq![
                "Running benchmarks matching filter: '"@ + filter@ + "'"@,
                "Available filters: "@ + help@,
            ]);
        },
        None => {
            assert(text::texts(r@) =~= seq![
                "Running benchmarks matching filter: '"@ + filter@ + "'"@,
            ]);
        },
    }
    r
}

/// What is said of a comparison with a named report.
pub fn comparison_notice(summary: &ComparisonSummary) -> (r: String)
    ensures
        r@ == "📋 Structured comparison: "@ + text::decimal(summary.matched as nat) + " matched, "@
            + text::decimal(summary.added as nat) + " added, "@ + text::decimal(
            summary.removed as nat,
        ) + " removed"@,
{
    let mut r = "📋 Structured comparison: ".to_owned();
    r.append(text::decimal_text(summary.matched as u64).as_str());
    r.append(" matched, ");
    r.append(text::decimal_text(summary.added as u64).as_str());
    r.append(" added, ");
    r.append(text::decimal_text(summary.removed as u64).as_str());
    r.append(" removed");
    r
}

/// What is done with the report of a run.
#[derive(Clone, Copy, Debug, PartialEq, Eq, Structural)]
pub enum ReportingStep {
    /// Keep the report where it belongs.
    Persist,
    /// Compare it with the named baseline.
    Compare,
    /// Print its summary.
    Summarize,
}

/// The order of the steps, with a named baseline or without one.
pub open spec fn steps_of(named_baseline: bool) -> Seq<ReportingStep> {
    if named_baseline {
        seq![ReportingStep::Persist, ReportingStep::Compare, ReportingStep::Summarize]
    } else {
        seq![ReportingStep::Summarize, ReportingStep::Persist]
    }
}

pub fn reporting_steps(named_baseline: bool) -> (r: Vec<ReportingStep>)
    ensures
        r@ == steps_of(named_baseline),
{
    let mut r: Vec<ReportingStep> = Vec::new();
    if named_baseline {
        r.push(ReportingStep::Persist);
        r.push(ReportingStep::Compare);
        r.push(ReportingStep::Summarize);
    } else {
        r.push(ReportingStep::Summarize);
        r.push(ReportingStep::Persist);
    }
    assert(r@ =~= steps_of(named_baseline));
    r
}

/// What was measured is kept before it is compared, so that a baseline that does
/// not fit cannot discard it.
pub proof fn reports_are_kept_before_they_are_compared(named_baseline: bool, at: int)
    requires
        0 <= at < steps_of(named_baseline).len(),
        steps_of(named_baseline)[at] == ReportingStep::Compare,
    ensures
        steps_of(named_baseline).take(at).contains(ReportingStep::Persist),
{
    assert(steps_of(named_baseline).take(at)[0] == ReportingStep::Persist);
}

} // verus!
