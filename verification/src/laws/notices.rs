//! What is said of counters, filters and values that are refused.
use crate::bench::backend::MetricValue;
use crate::bench::gpu_counters::GpuCounterError;
use crate::bench::perf::PerfIssues;
use crate::bench::perf_memory;
use crate::bench::perf_memory::{describe_counter, unavailable_warning, ImcTarget};
use crate::comparison::engine::result_identity_matches;
use crate::comparison::error::path_suffix;
use crate::comparison::ComparisonOptions;
use crate::double::DoubleBits;
use crate::laws::comparison::same_native;
use crate::launcher::filter_notice;
use crate::policy::RegressionPolicy;
use crate::series::{validate_nonempty, SeriesValidationError};
use crate::session::BenchmarkResult;
use crate::suite::compare::check_request;
use crate::suite::error::SuiteComparisonError;
use crate::text;
use vstd::prelude::*;

verus! {

/// A metric made of a time, a bandwidth, a rate or a count keeps the number it is
/// given, under the name it is given and with the unit that goes with it.
pub proof fn metrics_keep_their_number(
    name: &'static str,
    value: DoubleBits,
    unit: &'static str,
    time: MetricValue,
    bandwidth: MetricValue,
    rate: MetricValue,
    count: MetricValue,
)
    requires
        call_ensures(MetricValue::duration_ms, (name, value), time),
        call_ensures(MetricValue::bandwidth_gib_s, (name, value), bandwidth),
        call_ensures(MetricValue::throughput_tflops, (name, value), rate),
        call_ensures(MetricValue::integer, (name, value, unit), count),
    ensures
        time.name@ == name@ && time.value == value && time.unit@ == seq!['m', 's'],
        bandwidth.name@ == name@ && bandwidth.value == value && bandwidth.unit@ == seq![
            'G',
            'i',
            'B',
            '/',
            's',
        ],
        rate.name@ == name@ && rate.value == value && rate.unit@ == seq![
            'T',
            'F',
            'L',
            'O',
            'P',
            '/',
            's',
        ],
        count.name@ == name@ && count.value == value && count.unit@ == unit@,
        count.format is Integer,
        time.format is Number && bandwidth.format is Number && rate.format is Number,
{
    reveal_strlit("ms");
    reveal_strlit("GiB/s");
    reveal_strlit("TFLOP/s");
}

/// Different failures of the counters of a device have different names.
pub proof fn failures_have_their_own_names(
    a: GpuCounterError,
    b: GpuCounterError,
    first: &'static str,
    second: &'static str,
)
    requires
        call_ensures(GpuCounterError::metric_name, (&a,), first),
        call_ensures(GpuCounterError::metric_name, (&b,), second),
    ensures
        a is InsufficientPrivileges ==> first@ == "gpu_counter_permission_error"@,
        a is MetricUnavailable ==> first@ == "gpu_counter_metric_error"@,
        a is ProfilerUnavailable ==> first@ == "gpu_counter_profiler_error"@,
        a is CollectionFailed ==> first@ == "gpu_counter_collection_error"@,
        a is InvalidName ==> first@ == "gpu_counter_invalid_name"@,
        a is InsufficientPrivileges && !(b is InsufficientPrivileges) ==> first@ != second@,
        a is MetricUnavailable && !(b is MetricUnavailable) ==> first@ != second@,
        a is ProfilerUnavailable && !(b is ProfilerUnavailable) ==> first@ != second@,
        a is CollectionFailed && !(b is CollectionFailed) ==> first@ != second@,
        a is InvalidName && !(b is InvalidName) ==> first@ != second@,
{
    reveal_strlit("gpu_counter_permission_error");
    reveal_strlit("gpu_counter_metric_error");
    reveal_strlit("gpu_counter_profiler_error");
    reveal_strlit("gpu_counter_collection_error");
    reveal_strlit("gpu_counter_invalid_name");
    let p = "gpu_counter_permission_error"@;
    let m = "gpu_counter_metric_error"@;
    let f = "gpu_counter_profiler_error"@;
    let c = "gpu_counter_collection_error"@;
    let i = "gpu_counter_invalid_name"@;
    assert(p[12] == 'p' && m[12] == 'm' && f[12] == 'p' && c[12] == 'c' && i[12] == 'i');
    assert(p[13] == 'e' && f[13] == 'r');
}

/// A filter in use is named, and where help is given the help follows.
pub proof fn filters_in_use_are_named(filter: &str, help: Option<String>, r: Vec<String>)
    requires
        call_ensures(filter_notice, (filter, &help), r),
    ensures
        r@.len() == if help is Some {
            2int
        } else {
            1int
        },
        r@[0]@ == "Running benchmarks matching filter: '"@ + filter@ + "'"@,
        help matches Some(more) ==> r@[1]@ == "Available filters: "@ + more@,
{
    let lines = text::texts(r@);
    assert(lines.len() == r@.len());
    assert(r@.len() == r.len());
    assert(lines[0] == r@[0]@);
    if help is Some {
        assert(lines[1] == r@[1]@);
    }
}

/// A place is added where it is known, and nothing where it is not.
pub proof fn places_are_added_where_known(path: Option<String>, r: String)
    requires
        call_ensures(path_suffix, (&path,), r),
    ensures
        path matches Some(place) ==> r@ == seq![' ', 'a', 't', ' '] + place@,
        path is None ==> r@.len() == 0,
{
    reveal_strlit(" at ");
    reveal_strlit("");
}

/// A value is accepted exactly where it has a character other than white space.
pub proof fn blank_values_are_refused(
    field: &str,
    value: &str,
    location: &str,
    r: Result<(), SeriesValidationError>,
)
    requires
        call_ensures(validate_nonempty, (field, value, location), r),
    ensures
        r is Err <==> text::blank(value@),
        value@.len() == 0 ==> r is Err,
        r matches Err(e) ==> e.message@ == location@ + " "@ + field@ + " must not be empty"@,
{
    if value@.len() == 0 {
        assert(text::blank(value@));
    }
}

/// What is said of a counter names the counter, its processor and what happened,
/// in that order.
pub proof fn counters_are_named(
    kind: &str,
    target: ImcTarget,
    what: &str,
    error: &str,
    r: String,
)
    requires
        call_ensures(describe_counter, (kind, &target, what, error), r),
    ensures
        r@ == kind@ + " '"@ + target.name@ + "' on CPU "@ + text::decimal(target.cpu as nat)
            + what@ + error@,
{
}

/// Whether a text is about a memory controller.
pub open spec fn about_controllers(issue: Seq<char>) -> bool {
    issue.len() >= 4 && issue[0] == 'I' && issue[1] == 'M' && issue[2] == 'C' && issue[3] == ' '
}

proof fn controllers_are_about(issue: Seq<char>)
    ensures
        text::occurs_at(issue, "IMC "@, 0) <==> about_controllers(issue),
{
    reveal_strlit("IMC ");
    if text::occurs_at(issue, "IMC "@, 0) {
        let part = issue.subrange(0, 4);
        assert(part == "IMC "@);
        assert(part[0] == issue[0] && part[1] == issue[1] && part[2] == issue[2] && part[3]
            == issue[3]);
    }
    if about_controllers(issue) {
        assert(issue.subrange(0, 4) =~= "IMC "@);
    }
}

proof fn two_issues_are_given(issues: Seq<Seq<char>>, count: int)
    requires
        0 <= count <= issues.len(),
    ensures
        ({
            let all = issues.take(count).filter(|issue: Seq<char>| about_controllers(issue));
            let given = perf_memory::controller_issues(issues, count);
            &&& given.len() == if all.len() < 2 {
                all.len()
            } else {
                2
            }
            &&& given == all.take(given.len() as int)
        }),
    decreases count,
{
    reveal(Seq::filter);
    let chosen = |issue: Seq<char>| about_controllers(issue);
    if count > 0 {
        two_issues_are_given(issues, count - 1);
        controllers_are_about(issues[count - 1]);
        assert(issues.take(count).drop_last() =~= issues.take(count - 1));
        assert(issues.take(count).last() == issues[count - 1]);
        let before = issues.take(count - 1).filter(chosen);
        let all = issues.take(count).filter(chosen);
        let given = perf_memory::controller_issues(issues, count);
        if chosen(issues[count - 1]) {
            assert(all == before.push(issues[count - 1]));
        } else {
            assert(all == before);
        }
        assert(given =~= all.take(given.len() as int));
    } else {
        assert(issues.take(0).filter(chosen) =~= Seq::empty());
        assert(perf_memory::controller_issues(issues, 0) =~= issues.take(0).filter(chosen).take(0));
    }
}

/// Where no controller can be measured, the first two issues that are about
/// controllers are given after the two lines that say so, and no others.
pub proof fn the_first_issues_are_given(issues: PerfIssues, r: Vec<String>)
    requires
        call_ensures(unavailable_warning, (&issues,), r),
    ensures
        ({
            let about = issues.texts().filter(|issue: Seq<char>| about_controllers(issue));
            &&& r@.len() == 2 + if about.len() < 2 {
                about.len()
            } else {
                2
            }
            &&& forall|i: int|
                2 <= i < r@.len() ==> (#[trigger] r@[i])@ == "   "@ + about[i - 2]
        }),
{
    let all = issues.texts();
    let n = all.len() as int;
    two_issues_are_given(all, n);
    assert(all.take(n) =~= all);
    let lines = text::texts(r@);
    assert(lines.len() == r@.len());
    assert forall|i: int| 2 <= i < r@.len() implies (#[trigger] r@[i])@ == "   "@ + all.filter(
        |issue: Seq<char>| about_controllers(issue),
    )[i - 2] by {
        assert(lines[i] == r@[i]@);
    }
}

/// Two native results are of one case exactly where everything that identifies
/// one agrees, whatever they measured.
pub proof fn results_match_by_their_identity(
    current: &BenchmarkResult,
    previous: &BenchmarkResult,
    r: bool,
)
    requires
        call_ensures(result_identity_matches, (current, previous), r),
    ensures
        r <==> same_native(*current, *previous),
{
}

/// A comparison of suites may be asked for exactly where the reason given for
/// another environment, if one is given, is not blank and the policy is sensible.
pub proof fn sensible_requests_are_accepted(
    options: &ComparisonOptions,
    policy: &RegressionPolicy,
    r: Result<(), SuiteComparisonError>,
)
    requires
        call_ensures(check_request, (options, policy), r),
    ensures
        r is Ok <==> !(options.environment_override matches Some(given) && text::blank(
            given.reason@,
        )) && policy.problem() is None,
        r matches Err(e) ==> e is Comparison || e is Policy,
        r matches Err(SuiteComparisonError::Comparison { suite, .. }) ==> suite is None
            && options.environment_override is Some,
        r matches Err(SuiteComparisonError::Policy { suite, .. }) ==> suite is None
            && policy.problem() is Some,
{
}

} // verus!
