//! How benchmarks are chosen, set up and reported by a program.
use crate::bench;
use crate::bench::backend::MeasurementDomain;
use crate::bench::calibration::BenchmarkRuntimeOptions;
use crate::bench::concurrent;
use crate::bench::concurrent::ConcurrentWorker;
use crate::bench::order::BenchmarkCaseOrder;
use crate::bench::throughput::Throughput;
use crate::bench::{
    check_concurrent_case, chunk_operations, BenchmarkRunner, ConcurrentCaseError,
    ConcurrentGroupOptions,
};
use crate::context::{ContextError, ReportContext};
use crate::launcher;
use crate::launcher::{
    benchmark_filter_from_args, benchmark_options_with_default_suite, report_destination,
    reporting_steps, requested_context, BenchmarkMainOptions, ReportDestination, ReportingStep,
};
use crate::laws::texts;
use crate::laws::workers;
use crate::session::ComparisonPolicy;
use crate::text;
use crate::time::Nanos;
use vstd::prelude::*;

verus! {

/// Without a filter every case runs. With one, a case runs where the filter asks
/// for all, or stands in the name of the case or of its group.
pub proof fn filters_choose_by_name(runner: BenchmarkRunner, name: &str, group: &str, r: bool)
    requires
        call_ensures(BenchmarkRunner::should_run, (&runner, name, group), r),
    ensures
        runner.filter is None ==> r,
        runner.filter matches Some(filter) ==> (r <==> filter@ == "all"@ || (exists|at: int|
            texts::stands_at(name@, filter@, at)) || (exists|at: int|
            texts::stands_at(group@, filter@, at))),
{
    if let Some(filter) = runner.filter {
        occurring_is_standing(name@, filter@);
        occurring_is_standing(group@, filter@);
        if filter@ == group@ {
            assert(texts::stands_at(group@, filter@, 0));
        }
    }
}

proof fn occurring_is_standing(whole: Seq<char>, part: Seq<char>)
    ensures
        text::occurs(whole, part) <==> exists|at: int| texts::stands_at(whole, part, at),
{
    if text::occurs(whole, part) {
        let at = choose|at: int| text::occurs_at(whole, part, at);
        let cut = whole.subrange(at, at + part.len());
        assert forall|i: int| 0 <= i < part.len() implies #[trigger] part[i] == whole[at + i] by {
            assert(cut[i] == whole[at + i]);
        }
        assert(texts::stands_at(whole, part, at));
    }
    if exists|at: int| texts::stands_at(whole, part, at) {
        let at = choose|at: int| texts::stands_at(whole, part, at);
        assert(whole.subrange(at, at + part.len()) =~= part);
        assert(text::occurs_at(whole, part, at));
    }
}

/// A new runner runs everything, with the usual options and without a rest
/// between cases.
pub proof fn runners_start_without_filter(runner: BenchmarkRunner, usual: BenchmarkRuntimeOptions)
    requires
        call_ensures(BenchmarkRunner::new, (), runner) || call_ensures(
            <BenchmarkRunner as Default>::default,
            (),
            runner,
        ),
        call_ensures(<BenchmarkRuntimeOptions as Default>::default, (), usual),
    ensures
        runner.filter is None,
        runner.runtime == usual,
        runner.case_cooldown.count == 0,
        runner.cases_started == 0,
{
}

/// Setting one thing of a runner leaves the others.
pub proof fn runners_keep_the_rest(
    runner: BenchmarkRunner,
    filter: Option<&str>,
    filtered: BenchmarkRunner,
    runtime: BenchmarkRuntimeOptions,
    timed: BenchmarkRunner,
    rest: Nanos,
    rested: BenchmarkRunner,
)
    requires
        call_ensures(BenchmarkRunner::with_filter, (runner, filter), filtered),
        call_ensures(BenchmarkRunner::with_runtime, (runner, runtime), timed),
        call_ensures(BenchmarkRunner::with_case_cooldown, (runner, rest), rested),
    ensures
        filter is None ==> filtered.filter is None,
        filter matches Some(f) ==> (filtered.filter matches Some(kept) && kept@ == f@),
        filtered.runtime == runner.runtime && filtered.case_cooldown == runner.case_cooldown
            && filtered.cases_started == runner.cases_started,
        timed.runtime == runtime && timed.filter == runner.filter && timed.case_cooldown
            == runner.case_cooldown && timed.cases_started == runner.cases_started,
        rested.case_cooldown == rest && rested.filter == runner.filter && rested.runtime
            == runner.runtime && rested.cases_started == runner.cases_started,
{
}

/// The order of cases is the one asked for.
pub proof fn runners_keep_the_order(
    runner: BenchmarkRunner,
    case_count: usize,
    how: BenchmarkCaseOrder,
    r: Vec<usize>,
    direct: Vec<usize>,
)
    requires
        call_ensures(BenchmarkRunner::ordered_case_indices, (&runner, case_count, how), r),
        call_ensures(BenchmarkCaseOrder::indices, (how, case_count), direct),
    ensures
        r@ == direct@,
{
}

/// A chunk counts as many operations as it declares, or else as its size says.
pub proof fn chunks_count_their_operations(declared: Option<u64>, size: usize, r: u64)
    requires
        call_ensures(chunk_operations, (declared, size), r),
    ensures
        declared matches Some(n) ==> r == n,
        declared is None ==> r == size,
{
}

/// A concurrent case needs time for its samples and at least one thread.
pub proof fn concurrent_cases_need_time_and_threads<R>(
    duration: Nanos,
    workers: &[ConcurrentWorker<R>],
    r: Result<(), ConcurrentCaseError>,
)
    requires
        call_ensures(check_concurrent_case::<R>, (duration, workers), r),
    ensures
        r is Ok <==> duration.count > 0 && exists|w: int|
            0 <= w < workers@.len() && (#[trigger] workers@[w]).threads > 0,
        r matches Err(ConcurrentCaseError::NoSampleTime) ==> duration.count == 0,
        r matches Err(ConcurrentCaseError::NoThreads) ==> forall|w: int|
            0 <= w < workers@.len() ==> (#[trigger] workers@[w]).threads == 0,
{
    threads_come_from_workers(workers@, workers@.len() as int);
}

proof fn threads_come_from_workers<R>(workers: Seq<ConcurrentWorker<R>>, count: int)
    requires
        0 <= count <= workers.len(),
    ensures
        concurrent::threads_before(workers, count) > 0 <==> exists|w: int|
            0 <= w < count && (#[trigger] workers[w]).threads > 0,
    decreases count,
{
    if count > 0 {
        threads_come_from_workers(workers, count - 1);
        if workers[count - 1].threads > 0 {
            assert(workers[count - 1].threads > 0);
        }
    }
}

/// A concurrent group starts with operations of the processor, and setting one
/// thing of it leaves the others.
pub proof fn group_options_keep_the_rest(
    start: ConcurrentGroupOptions,
    options: ConcurrentGroupOptions,
    throughput: Throughput,
    a: ConcurrentGroupOptions,
    domain: MeasurementDomain,
    b: ConcurrentGroupOptions,
    key: String,
    value: String,
    c: ConcurrentGroupOptions,
)
    requires
        call_ensures(ConcurrentGroupOptions::new, (), start),
        call_ensures(ConcurrentGroupOptions::with_throughput, (&options, throughput), a),
        call_ensures(ConcurrentGroupOptions::with_domain, (&options, domain), b),
        call_ensures(ConcurrentGroupOptions::with_metadata, (&options, key, value), c),
    ensures
        start.measurement_domain is Cpu,
        start.metadata@.dom() == Set::<Seq<char>>::empty(),
        a.throughput == throughput && a.measurement_domain == options.measurement_domain
            && a.metadata@ == options.metadata@,
        b.throughput == options.throughput && b.measurement_domain == domain && b.metadata@
            == options.metadata@,
        c.throughput == options.throughput && c.measurement_domain == options.measurement_domain,
        c.metadata@.contains_key(key@) && c.metadata@[key@] == value@,
        forall|k: Seq<char>|
            k != key@ ==> (#[trigger] c.metadata@.contains_key(k) == options.metadata@.contains_key(
                k,
            )) && (options.metadata@.contains_key(k) ==> c.metadata@[k] == options.metadata@[k]),
{
    assert(start.metadata@.dom() =~= Set::<Seq<char>>::empty());
}

/// A report goes to the path given, or to the usual place unless saving is off.
pub proof fn reports_go_where_they_are_sent(
    path: Option<String>,
    save: bool,
    r: ReportDestination,
)
    requires
        call_ensures(report_destination, (path, save), r),
    ensures
        path matches Some(p) ==> (r matches ReportDestination::Explicit(kept) && kept@ == p@),
        path is None && save ==> r is Default,
        path is None && !save ==> r is Disabled,
{
}

/// A program saves and compares by default, and takes its own suite only where
/// none was named.
pub proof fn programs_start_from_known_options(
    usual: BenchmarkMainOptions,
    runtime: BenchmarkRuntimeOptions,
    options: BenchmarkMainOptions,
    suite: &str,
    r: BenchmarkMainOptions,
)
    requires
        call_ensures(<BenchmarkMainOptions as Default>::default, (), usual),
        call_ensures(<BenchmarkRuntimeOptions as Default>::default, (), runtime),
        call_ensures(benchmark_options_with_default_suite, (options, suite), r),
    ensures
        usual.save_results,
        usual.comparison_policy is LatestCompatible,
        usual.suite is None && usual.filter_help is None && usual.report_context is None,
        usual.explicit_comparison.allow_partial_result_set,
        !usual.explicit_comparison.require_same_suite_set,
        usual.explicit_comparison.environment_override is None,
        usual.runtime == runtime,
        options.suite matches Some(named) ==> (r.suite matches Some(kept) && kept@ == named@),
        options.suite is None ==> (r.suite matches Some(kept) && kept@ == suite@),
        r.save_results == options.save_results && r.comparison_policy == options.comparison_policy
            && r.filter_help == options.filter_help && r.report_context == options.report_context
            && r.explicit_comparison == options.explicit_comparison && r.runtime == options.runtime,
{
}

/// Whether an argument can be a filter: it is no option, and no part of the
/// program's own name.
pub open spec fn may_filter(args: Seq<String>, i: int) -> bool {
    !texts::stands_at(args[i]@, "--"@, 0) && !(exists|at: int|
        texts::stands_at(args[0]@, args[i]@, at))
}

proof fn may_filter_is_names_filter(args: Seq<String>, i: int)
    requires
        0 <= i < args.len(),
    ensures
        launcher::names_filter(text::texts(args), i) == may_filter(args, i),
{
    let all = text::texts(args);
    occurring_is_standing(all[0], all[i]);
    if texts::stands_at(all[i], "--"@, 0) {
        assert(all[i].subrange(0, "--"@.len() as int) =~= "--"@);
    }
    if text::occurs_at(all[i], "--"@, 0) {
        let cut = all[i].subrange(0, "--"@.len() as int);
        assert forall|k: int| 0 <= k < "--"@.len() implies #[trigger] "--"@[k] == all[i][0 + k] by {
            assert(cut[k] == all[i][k]);
        }
    }
}

proof fn separators_are_found(args: Seq<String>, from: int)
    requires
        0 <= from,
    ensures
        match launcher::separator(text::texts(args), from) {
            Some(at) => from <= at < args.len() && args[at]@ == "--"@ && forall|i: int|
                from <= i < at ==> (#[trigger] args[i])@ != "--"@,
            None => forall|i: int| from <= i < args.len() ==> (#[trigger] args[i])@ != "--"@,
        },
    decreases args.len() - from,
{
    if from < args.len() && args[from]@ != "--"@ {
        separators_are_found(args, from + 1);
    }
}

proof fn first_names_are_found(args: Seq<String>, from: int)
    requires
        1 <= from,
    ensures
        match launcher::first_name(text::texts(args), from) {
            Some(name) => exists|i: int|
                from <= i < args.len() && (#[trigger] args[i])@ == name && may_filter(args, i)
                    && forall|k: int| from <= k < i ==> !#[trigger] may_filter(args, k),
            None => forall|k: int| from <= k < args.len() ==> !#[trigger] may_filter(args, k),
        },
    decreases args.len() - from,
{
    if from < args.len() {
        may_filter_is_names_filter(args, from);
        if may_filter(args, from) {
            assert(args[from]@ == text::texts(args)[from]);
        } else {
            first_names_are_found(args, from + 1);
            if let Some(name) = launcher::first_name(text::texts(args), from) {
                let i = choose|i: int|
                    from + 1 <= i < args.len() && (#[trigger] args[i])@ == name && may_filter(
                        args,
                        i,
                    ) && forall|k: int| from + 1 <= k < i ==> !#[trigger] may_filter(args, k);
                assert(args[i]@ == name);
                assert forall|k: int| from <= k < i implies !#[trigger] may_filter(args, k) by {}
            }
        }
    }
}

/// The filter is what follows two dashes. Without them it is the first argument
/// that is no option and no part of the program's own name.
pub proof fn filters_follow_the_dashes(args: &[String], r: Option<String>)
    requires
        call_ensures(benchmark_filter_from_args, (args,), r),
    ensures
        forall|at: int|
            #![trigger args@[at]]
            0 <= at < args@.len() && args@[at]@ == "--"@ && (forall|i: int|
                0 <= i < at ==> (#[trigger] args@[i])@ != "--"@) ==> if at + 1 < args@.len() {
                r matches Some(filter) && filter@ == args@[at + 1]@
            } else {
                r is None
            },
        (forall|i: int| 0 <= i < args@.len() ==> (#[trigger] args@[i])@ != "--"@) ==> match r {
            Some(filter) => exists|i: int|
                1 <= i < args@.len() && (#[trigger] args@[i])@ == filter@ && may_filter(args@, i)
                    && forall|k: int| 1 <= k < i ==> !#[trigger] may_filter(args@, k),
            None => forall|k: int| 1 <= k < args@.len() ==> !#[trigger] may_filter(args@, k),
        },
{
    separators_are_found(args@, 0);
    first_names_are_found(args@, 1);
    assert forall|at: int|
        #![trigger args@[at]]
        0 <= at < args@.len() && args@[at]@ == "--"@ && (forall|i: int|
            0 <= i < at ==> (#[trigger] args@[i])@ != "--"@) implies if at + 1 < args@.len() {
        r matches Some(filter) && filter@ == args@[at + 1]@
    } else {
        r is None
    } by {
        let found = launcher::separator(text::texts(args@), 0);
        assert(found is Some);
        let other = found->0;
        if other < at {
            assert(args@[other]@ != "--"@);
        }
        if at < other {
            assert(args@[at]@ != "--"@);
        }
    }
}

/// The context of a file comes before the configured one, and a file that cannot
/// be read is an error.
pub proof fn contexts_of_files_come_first(
    from_file: Option<Result<ReportContext, ContextError>>,
    configured: Option<ReportContext>,
    r: Result<Option<ReportContext>, ContextError>,
)
    requires
        call_ensures(requested_context, (from_file, configured), r),
    ensures
        from_file matches Some(Ok(context)) ==> (r matches Ok(Some(kept)) && kept == context),
        from_file matches Some(Err(error)) ==> (r matches Err(e) && e == error),
        from_file is None && configured is None ==> (r matches Ok(None)),
        from_file is None && configured is Some && r is Ok ==> (r matches Ok(Some(kept)) && kept
            == configured->0),
{
}

/// A report is kept whatever else is done with it, a comparison with a named
/// baseline comes before the summary, and without one nothing is compared.
pub proof fn reports_are_always_kept(named: bool, r: Vec<ReportingStep>)
    requires
        call_ensures(reporting_steps, (named,), r),
    ensures
        exists|i: int| 0 <= i < r@.len() && #[trigger] r@[i] == ReportingStep::Persist,
        exists|i: int| 0 <= i < r@.len() && #[trigger] r@[i] == ReportingStep::Summarize,
        !named ==> forall|i: int| 0 <= i < r@.len() ==> #[trigger] r@[i] != ReportingStep::Compare,
        named ==> exists|i: int, j: int, k: int|
            0 <= i < j < k < r@.len() && #[trigger] r@[i] == ReportingStep::Persist
                && #[trigger] r@[j] == ReportingStep::Compare && #[trigger] r@[k]
                == ReportingStep::Summarize,
{
    if named {
        assert(r@[0] == ReportingStep::Persist && r@[1] == ReportingStep::Compare && r@[2]
            == ReportingStep::Summarize);
    } else {
        assert(r@[0] == ReportingStep::Summarize && r@[1] == ReportingStep::Persist);
    }
}

} // verus!
