//! Which contexts and series reports are accepted.
use crate::context;
use crate::context::{ContextError, ReportContext};
use crate::double::DoubleBits;
use crate::series;
use crate::series::{
    SeriesReport, SeriesResult, SeriesValidationError, Validity, ValidityStatus,
};
use crate::text;
use crate::text_map::TextMap;
use vstd::prelude::*;

verus! {

/// A map without a blank key or value.
pub open spec fn clean(map: TextMap) -> bool {
    forall|i: int|
        0 <= i < map.pairs().len() ==> !text::blank((#[trigger] map.pairs()[i]).0) && !text::blank(
            map.pairs()[i].1,
        )
}

/// Evidence that is invalid and says why, or that is valid.
pub open spec fn accounted_for(validity: Validity) -> bool {
    validity.status == ValidityStatus::Valid || (validity.reason is Some && !text::blank(
        validity.reason->0@,
    ))
}

/// A result that keeps the rules: it is named, accounts for its validity, has
/// samples where it is valid, and has no sample that is not finite.
pub open spec fn proper(result: SeriesResult) -> bool {
    &&& !text::blank(result.group@)
    &&& !text::blank(result.name@)
    &&& !text::blank(result.unit@)
    &&& accounted_for(result.validity)
    &&& clean(result.dimensions)
    &&& clean(result.provenance)
    &&& result.validity.status == ValidityStatus::Valid ==> result.samples@.len() > 0
    &&& forall|i: int| 0 <= i < result.samples@.len() ==> (#[trigger] result.samples@[i]).finite()
}

proof fn results_are_proper(result: SeriesResult, index: nat)
    ensures
        result.problem(index) is None <==> proper(result),
{
    let location = result.location(index);
    context::map_problem_iff_blank(
        location + " "@ + "dimensions"@,
        result.dimensions.pairs(),
        0,
    );
    context::map_problem_iff_blank(
        location + " "@ + "provenance"@,
        result.provenance.pairs(),
        0,
    );
}

proof fn all_results_are_proper(results: Seq<SeriesResult>, from: int)
    requires
        0 <= from <= results.len(),
    ensures
        series::results_problem(results, from) is None <==> forall|i: int|
            from <= i < results.len() ==> proper(#[trigger] results[i]),
    decreases results.len() - from,
{
    if from < results.len() {
        all_results_are_proper(results, from + 1);
        results_are_proper(results[from], from as nat);
        if series::results_problem(results, from) is None {
            assert forall|i: int| from <= i < results.len() implies proper(
                #[trigger] results[i],
            ) by {
                if i == from {
                }
            }
        }
    }
}

/// A result is accepted exactly where it keeps the rules, at whatever place it
/// stands.
pub proof fn proper_results_are_accepted(
    result: &SeriesResult,
    index: usize,
    outcome: Result<(), SeriesValidationError>,
)
    requires
        call_ensures(SeriesResult::validate, (result, index), outcome),
    ensures
        outcome is Ok <==> proper(*result),
{
    results_are_proper(*result, index as nat);
}

/// A series report is accepted exactly where it says that it is one, in the
/// version that is supported; names its time, suite and runner; has a clean
/// context; accounts for its validity; has results where it is valid; and has
/// no result that breaks the rules.
pub proof fn proper_reports_are_accepted(
    report: &SeriesReport,
    outcome: Result<(), SeriesValidationError>,
)
    requires
        call_ensures(SeriesReport::validate, (report,), outcome),
    ensures
        outcome is Ok <==> {
            &&& report.document_type@ == "micromeasure-series"@
            &&& report.schema_version == 1
            &&& !text::blank(report.timestamp@)
            &&& !text::blank(report.suite@)
            &&& !text::blank(report.context.runner_id@)
            &&& clean(report.context.environment)
            &&& clean(report.context.provenance)
            &&& accounted_for(report.validity)
            &&& report.validity.status == ValidityStatus::Valid ==> report.results@.len() > 0
            &&& forall|i: int| 0 <= i < report.results@.len() ==> proper(#[trigger] report.results@[i])
        },
        outcome is Ok <==> report.problem() is None,
{
    all_results_are_proper(report.results@, 0);
    context::map_problem_iff_blank("environment"@, report.context.environment.pairs(), 0);
    context::map_problem_iff_blank("provenance"@, report.context.provenance.pairs(), 0);
}

/// A context is accepted exactly where no key and no value of it is blank.
pub proof fn clean_contexts_are_accepted(
    context: &ReportContext,
    outcome: Result<(), ContextError>,
)
    requires
        call_ensures(ReportContext::validate, (context,), outcome),
    ensures
        outcome is Ok <==> clean(context.environment) && clean(context.provenance),
{
    context::map_problem_iff_blank("environment"@, context.environment.pairs(), 0);
    context::map_problem_iff_blank("provenance"@, context.provenance.pairs(), 0);
}

/// What a context says of itself stays when it is completed: its runner where it
/// names one, its environment, and its provenance; what it lacks is taken from
/// the machine.
pub proof fn completed_contexts_keep_what_they_say(
    context: ReportContext,
    runner: &str,
    provenance: &TextMap,
    completed: ReportContext,
    key: Seq<char>,
)
    requires
        call_ensures(ReportContext::resolved, (context, runner, provenance), completed),
    ensures
        !text::blank(context.runner_id@) ==> completed.runner_id@ == context.runner_id@,
        text::blank(context.runner_id@) ==> completed.runner_id@ == runner@,
        completed.environment@ == context.environment@,
        context.provenance@.contains_key(key) ==> completed.provenance@.contains_key(key)
            && completed.provenance@[key] == context.provenance@[key],
        !context.provenance@.contains_key(key) && provenance@.contains_key(key)
            ==> completed.provenance@.contains_key(key) && completed.provenance@[key]
            == provenance@[key],
        completed.provenance@.contains_key(key) ==> context.provenance@.contains_key(key)
            || provenance@.contains_key(key),
{
}

/// A series report starts valid, of the supported kind and version, and holds
/// what it is given.
pub proof fn new_reports_hold_what_they_are_given(
    timestamp: String,
    suite: String,
    context: ReportContext,
    results: Vec<SeriesResult>,
    report: SeriesReport,
)
    requires
        call_ensures(SeriesReport::new, (timestamp, suite, context, results), report),
    ensures
        report.document_type@ == "micromeasure-series"@,
        report.schema_version == 1,
        report.timestamp == timestamp,
        report.suite == suite,
        report.context == context,
        report.results == results,
        report.validity.status == ValidityStatus::Valid,
{
}

} // verus!
