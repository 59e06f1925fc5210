//! What a policy makes of a comparison.
use crate::comparison::{
    ComparisonCaseSnapshot, ComparisonReport, ComparisonSide, MatchedBenchmark,
    MeasurementDirection,
};
use crate::double::DoubleBits;
use crate::policy;
use crate::policy::{
    classify_case, ChangeClassification, ComparisonExitStatus, Finding, OutlierFractions,
    PolicyCaseEvaluation, PolicyError, PolicyEvaluation, PolicyFinding, RegressionPolicy,
};
use crate::series::ValidityStatus;
use vstd::prelude::*;

verus! {

proof fn blocking_cases_are_counted(cases: Seq<PolicyCaseEvaluation>)
    ensures
        policy::count_blocking(cases) > 0 <==> exists|i: int|
            0 <= i < cases.len() && (#[trigger] cases[i]).blocking,
    decreases cases.len(),
{
    if cases.len() > 0 {
        blocking_cases_are_counted(cases.drop_last());
        if cases.last().blocking {
            assert(cases[cases.len() - 1].blocking);
        }
        if exists|i: int| 0 <= i < cases.drop_last().len() && (#[trigger] cases.drop_last()[i]).blocking {
            let i = choose|i: int|
                0 <= i < cases.drop_last().len() && (#[trigger] cases.drop_last()[i]).blocking;
            assert(cases[i].blocking);
        }
        if exists|i: int| 0 <= i < cases.len() && (#[trigger] cases[i]).blocking {
            let i = choose|i: int| 0 <= i < cases.len() && (#[trigger] cases[i]).blocking;
            if i < cases.len() - 1 {
                assert(cases.drop_last()[i].blocking);
            }
        }
    }
}

/// A regression blocks under every policy that fails on regressions, and invalid
/// evidence under every policy that fails on it, whatever else the policy says;
/// nothing else blocks, and the comparison fails exactly where something does.
pub proof fn each_reason_to_fail_counts(
    policy: &RegressionPolicy,
    comparison: &ComparisonReport,
    fractions: &OutlierFractions,
    result: Result<PolicyEvaluation, PolicyError>,
    i: int,
)
    requires
        call_ensures(RegressionPolicy::evaluate, (policy, comparison, fractions), result),
        result is Ok,
        0 <= i < result->Ok_0.cases@.len(),
    ensures
        ({
            let evaluation = result->Ok_0;
            let case = evaluation.cases@[i];
            &&& case.classification == ChangeClassification::Regression && policy.fail_on_regression
                ==> case.blocking && evaluation.gate_failed
            &&& case.classification == ChangeClassification::Invalid && policy.fail_on_invalid
                ==> case.blocking && evaluation.gate_failed
            &&& case.blocking ==> evaluation.gate_failed && evaluation.summary.blocking > 0
            &&& case.blocking && case.classification == ChangeClassification::Regression
                ==> policy.fail_on_regression
            &&& case.blocking && case.classification == ChangeClassification::Invalid
                ==> policy.fail_on_invalid
            &&& case.blocking ==> case.classification == ChangeClassification::Regression
                || case.classification == ChangeClassification::Invalid
            &&& evaluation.policy == *policy
        }),
{
    let evaluation = result->Ok_0;
    blocking_cases_are_counted(evaluation.cases@);
    assert(policy::evaluation_of(
        evaluation.cases@[i],
        comparison.matched@[i],
        *policy,
        *fractions,
    ));
    if evaluation.cases@[i].blocking {
        assert(evaluation.summary.blocking > 0);
    }
}

/// A gate that fails has a case that blocks, and only then does the process end
/// with a failed gate; a gate that holds ends in success.
pub proof fn the_status_follows_the_cases(
    policy: &RegressionPolicy,
    comparison: &ComparisonReport,
    fractions: &OutlierFractions,
    result: Result<PolicyEvaluation, PolicyError>,
    status: ComparisonExitStatus,
    code: i32,
)
    requires
        call_ensures(RegressionPolicy::evaluate, (policy, comparison, fractions), result),
        result is Ok,
        call_ensures(PolicyEvaluation::exit_status, (&result->Ok_0,), status),
        call_ensures(ComparisonExitStatus::code, (status,), code),
    ensures
        code == 1 <==> exists|i: int|
            0 <= i < result->Ok_0.cases@.len() && (#[trigger] result->Ok_0.cases@[i]).blocking,
        code == 0 <==> forall|i: int|
            0 <= i < result->Ok_0.cases@.len() ==> !(#[trigger] result->Ok_0.cases@[i]).blocking,
        code == 0 <==> status == ComparisonExitStatus::Success,
        code == 1 <==> status == ComparisonExitStatus::RegressionGateFailed,
        result->Ok_0.gate_failed <==> code == 1,
{
    blocking_cases_are_counted(result->Ok_0.cases@);
}

/// An error has a code of its own.
pub proof fn errors_end_with_two(code: i32)
    requires
        call_ensures(ComparisonExitStatus::code, (ComparisonExitStatus::Error,), code),
    ensures
        code == 2,
{
}

/// Turning on a reason to fail never unblocks a case, and turning one off never
/// blocks one.
pub proof fn more_reasons_block_more(
    policy: &RegressionPolicy,
    stricter: &RegressionPolicy,
    comparison: &ComparisonReport,
    fractions: &OutlierFractions,
    result: Result<PolicyEvaluation, PolicyError>,
    strict_result: Result<PolicyEvaluation, PolicyError>,
    i: int,
)
    requires
        call_ensures(RegressionPolicy::evaluate, (policy, comparison, fractions), result),
        call_ensures(RegressionPolicy::evaluate, (stricter, comparison, fractions), strict_result),
        result is Ok,
        strict_result is Ok,
        stricter.minimum_change_percent == policy.minimum_change_percent,
        policy.fail_on_regression ==> stricter.fail_on_regression,
        policy.fail_on_invalid ==> stricter.fail_on_invalid,
        0 <= i < comparison.matched@.len(),
    ensures
        result->Ok_0.cases@[i].blocking ==> strict_result->Ok_0.cases@[i].blocking,
        result->Ok_0.gate_failed ==> strict_result->Ok_0.gate_failed,
{
    let a = result->Ok_0;
    let b = strict_result->Ok_0;
    blocking_cases_are_counted(a.cases@);
    blocking_cases_are_counted(b.cases@);
    assert forall|k: int| 0 <= k < a.cases@.len() && (
    #[trigger] a.cases@[k]).blocking implies b.cases@[k].blocking by {
        assert(policy::evaluation_of(a.cases@[k], comparison.matched@[k], *policy, *fractions));
        assert(policy::evaluation_of(b.cases@[k], comparison.matched@[k], *stricter, *fractions));
    }
    if a.gate_failed {
        let k = choose|k: int| 0 <= k < a.cases@.len() && (#[trigger] a.cases@[k]).blocking;
        assert(b.cases@[k].blocking);
    }
}

/// Whether the evidence of a matched case is invalid on either side.
pub open spec fn invalid_evidence(matched: MatchedBenchmark) -> bool {
    matched.current.validity.status == ValidityStatus::Invalid || matched.baseline.validity.status
        == ValidityStatus::Invalid
}

/// Invalid evidence is classified as such; of valid evidence, a measurement
/// without a direction is informational, one without a percentage is
/// inconclusive, and of the rest a gain of more than the threshold is an
/// improvement and a loss of more than it a regression.
pub proof fn cases_are_classified_by_their_change(
    policy: &RegressionPolicy,
    comparison: &ComparisonReport,
    fractions: &OutlierFractions,
    result: Result<PolicyEvaluation, PolicyError>,
    i: int,
)
    requires
        call_ensures(RegressionPolicy::evaluate, (policy, comparison, fractions), result),
        result is Ok,
        0 <= i < comparison.matched@.len(),
    ensures
        ({
            let case = result->Ok_0.cases@[i];
            let matched = comparison.matched@[i];
            let threshold = policy.minimum_change_percent;
            let valid = !invalid_evidence(matched);
            let directed = matched.current.primary.direction
                != MeasurementDirection::Informational;
            let percent = matched.percent_improvement;
            &&& result->Ok_0.cases@.len() == comparison.matched@.len()
            &&& case.percent_improvement == percent
            &&& case.identity.key() == matched.identity.key()
            &&& case.classification == ChangeClassification::Invalid <==> !valid
            &&& case.classification == ChangeClassification::Informational <==> valid && !directed
            &&& case.classification == ChangeClassification::Inconclusive <==> valid && directed
                && percent is None
            &&& case.classification == ChangeClassification::Improvement <==> valid && directed
                && percent is Some && threshold.below(percent->0)
            &&& case.classification == ChangeClassification::Regression <==> valid && directed
                && percent is Some && percent->0.below(threshold.negated())
        }),
{
    let evaluation = result->Ok_0;
    assert(policy::evaluation_of(
        evaluation.cases@[i],
        comparison.matched@[i],
        *policy,
        *fractions,
    ));
}

/// The same holds of a case that is classified on its own.
pub proof fn a_case_is_classified_by_its_change(
    current: &ComparisonCaseSnapshot,
    baseline: &ComparisonCaseSnapshot,
    percent: Option<DoubleBits>,
    threshold: DoubleBits,
    class: ChangeClassification,
)
    requires
        call_ensures(classify_case, (current, baseline, percent, threshold), class),
        threshold.finite(),
        !threshold.negative(),
    ensures
        ({
            let valid = current.validity.status != ValidityStatus::Invalid
                && baseline.validity.status != ValidityStatus::Invalid;
            let directed = current.primary.direction != MeasurementDirection::Informational;
            &&& class == ChangeClassification::Invalid <==> !valid
            &&& class == ChangeClassification::Informational <==> valid && !directed
            &&& class == ChangeClassification::Inconclusive <==> valid && directed && percent
                is None
            &&& class == ChangeClassification::Improvement <==> valid && directed && percent
                is Some && threshold.below(percent->0)
            &&& class == ChangeClassification::Regression <==> valid && directed && percent
                is Some && percent->0.below(threshold.negated())
        }),
{
}

/// The evidence on one side of a case.
pub open spec fn side_of(matched: MatchedBenchmark, side: ComparisonSide) -> ComparisonCaseSnapshot {
    if side == ComparisonSide::Current {
        matched.current
    } else {
        matched.baseline
    }
}

/// Every finding names a side and what is wrong with it there: evidence that is
/// invalid, a variation above the one admitted, or a fraction of outliers above
/// the one admitted. It gives the number found and the number admitted.
pub proof fn findings_are_true(
    policy: &RegressionPolicy,
    comparison: &ComparisonReport,
    fractions: &OutlierFractions,
    result: Result<PolicyEvaluation, PolicyError>,
    i: int,
    j: int,
)
    requires
        call_ensures(RegressionPolicy::evaluate, (policy, comparison, fractions), result),
        result is Ok,
        0 <= i < comparison.matched@.len(),
        0 <= j < result->Ok_0.cases@[i].findings@.len(),
    ensures
        match result->Ok_0.cases@[i].findings@[j] {
            PolicyFinding::InvalidResult { side, reason } => {
                let shot = side_of(comparison.matched@[i], side);
                &&& shot.validity.status == ValidityStatus::Invalid
                &&& reason@ == shot.validity.reason_text()
            },
            PolicyFinding::HighCoefficientOfVariation { side, actual_percent, maximum_percent } => {
                let shot = side_of(comparison.matched@[i], side);
                &&& shot.statistics.cv_percent == Some(actual_percent)
                &&& policy.maximum_cv_percent == Some(maximum_percent)
                &&& maximum_percent.below(actual_percent)
            },
            PolicyFinding::ExcessiveOutlierFraction { side, actual, maximum } => {
                let shot = side_of(comparison.matched@[i], side);
                &&& shot.statistics.samples > 0
                &&& fractions.spec_fraction(shot.statistics.outliers, shot.statistics.samples)
                    == Some(actual)
                &&& policy.maximum_outlier_fraction == Some(maximum)
                &&& maximum.below(actual)
            },
        },
{
    let case = result->Ok_0.cases@[i];
    let matched = comparison.matched@[i];
    assert(policy::evaluation_of(case, matched, *policy, *fractions));
    assert(policy::contents(case.findings@)[j] == case.findings@[j]@);
    let front = policy::side_findings(
        matched.current,
        ComparisonSide::Current,
        policy.maximum_cv_percent,
        policy.maximum_outlier_fraction,
        *fractions,
    );
    let back = policy::side_findings(
        matched.baseline,
        ComparisonSide::Baseline,
        policy.maximum_cv_percent,
        policy.maximum_outlier_fraction,
        *fractions,
    );
    assert(policy::contents(case.findings@).len() == case.findings@.len());
    assert(policy::contents(case.findings@) =~= front + back);
    if j < front.len() {
        side_finding_is_one_of_three(
            matched.current,
            ComparisonSide::Current,
            *policy,
            *fractions,
            j,
        );
        assert(policy::contents(case.findings@)[j] == front[j]);
    } else {
        side_finding_is_one_of_three(
            matched.baseline,
            ComparisonSide::Baseline,
            *policy,
            *fractions,
            j - front.len(),
        );
        assert(policy::contents(case.findings@)[j] == back[j - front.len()]);
    }
}

proof fn side_finding_is_one_of_three(
    shot: ComparisonCaseSnapshot,
    side: ComparisonSide,
    policy: RegressionPolicy,
    fractions: OutlierFractions,
    k: int,
)
    requires
        0 <= k < policy::side_findings(
            shot,
            side,
            policy.maximum_cv_percent,
            policy.maximum_outlier_fraction,
            fractions,
        ).len(),
    ensures
        ({
            let finding = policy::side_findings(
                shot,
                side,
                policy.maximum_cv_percent,
                policy.maximum_outlier_fraction,
                fractions,
            )[k];
            ||| policy::invalid_finding(shot, side) == seq![finding]
            ||| policy::variation_finding(shot, side, policy.maximum_cv_percent) == seq![finding]
            ||| policy::outlier_finding(shot, side, policy.maximum_outlier_fraction, fractions)
                == seq![finding]
        }),
{
    let a = policy::invalid_finding(shot, side);
    let b = policy::variation_finding(shot, side, policy.maximum_cv_percent);
    let c = policy::outlier_finding(shot, side, policy.maximum_outlier_fraction, fractions);
    let all = policy::side_findings(
        shot,
        side,
        policy.maximum_cv_percent,
        policy.maximum_outlier_fraction,
        fractions,
    );
    assert(all =~= a + b + c);
    if k < a.len() {
        assert(a =~= seq![all[k]]);
    } else if k < a.len() + b.len() {
        assert(b =~= seq![all[k]]);
    } else {
        assert(c =~= seq![all[k]]);
    }
}

/// Whether a case has a finding.
pub open spec fn has_finding(case: PolicyCaseEvaluation, finding: Finding) -> bool {
    exists|j: int| 0 <= j < case.findings@.len() && (#[trigger] case.findings@[j])@ == finding
}

proof fn listed_findings_are_found(case: PolicyCaseEvaluation, k: int)
    requires
        0 <= k < policy::contents(case.findings@).len(),
    ensures
        has_finding(case, policy::contents(case.findings@)[k]),
{
    assert(case.findings@[k]@ == policy::contents(case.findings@)[k]);
}

/// What is wrong on a side is found: invalid evidence, a variation above the one
/// admitted, and a fraction of outliers above the one admitted.
pub proof fn findings_are_complete(
    policy: &RegressionPolicy,
    comparison: &ComparisonReport,
    fractions: &OutlierFractions,
    result: Result<PolicyEvaluation, PolicyError>,
    i: int,
    side: ComparisonSide,
)
    requires
        call_ensures(RegressionPolicy::evaluate, (policy, comparison, fractions), result),
        result is Ok,
        0 <= i < comparison.matched@.len(),
    ensures
        ({
            let case = result->Ok_0.cases@[i];
            let shot = side_of(comparison.matched@[i], side);
            let actual = fractions.spec_fraction(
                shot.statistics.outliers,
                shot.statistics.samples,
            );
            &&& shot.validity.status == ValidityStatus::Invalid ==> has_finding(
                case,
                Finding::Invalid { side, reason: shot.validity.reason_text() },
            )
            &&& policy.maximum_cv_percent is Some && shot.statistics.cv_percent is Some
                && policy.maximum_cv_percent->0.below(shot.statistics.cv_percent->0)
                ==> has_finding(
                case,
                Finding::Variation {
                    side,
                    actual: shot.statistics.cv_percent->0,
                    maximum: policy.maximum_cv_percent->0,
                },
            )
            &&& policy.maximum_outlier_fraction is Some && shot.statistics.samples > 0 && actual
                is Some && policy.maximum_outlier_fraction->0.below(actual->0) ==> has_finding(
                case,
                Finding::Outliers {
                    side,
                    actual: actual->0,
                    maximum: policy.maximum_outlier_fraction->0,
                },
            )
        }),
{
    let case = result->Ok_0.cases@[i];
    let matched = comparison.matched@[i];
    let shot = side_of(matched, side);
    assert(policy::evaluation_of(case, matched, *policy, *fractions));
    let all = policy::contents(case.findings@);
    let a = policy::invalid_finding(shot, side);
    let b = policy::variation_finding(shot, side, policy.maximum_cv_percent);
    let c = policy::outlier_finding(shot, side, policy.maximum_outlier_fraction, *fractions);
    let front = policy::side_findings(
        matched.current,
        ComparisonSide::Current,
        policy.maximum_cv_percent,
        policy.maximum_outlier_fraction,
        *fractions,
    );
    let start = if side == ComparisonSide::Current {
        0int
    } else {
        front.len() as int
    };
    if a.len() > 0 {
        assert(all[start] == a[0]);
        listed_findings_are_found(case, start);
    }
    if b.len() > 0 {
        assert(all[start + a.len()] == b[0]);
        listed_findings_are_found(case, start + a.len());
    }
    if c.len() > 0 {
        assert(all[start + a.len() + b.len()] == c[0]);
        listed_findings_are_found(case, start + a.len() + b.len());
    }
}

/// The fraction that some outliers are of some samples is the one recorded last
/// for just that many.
pub proof fn fractions_are_those_recorded(
    fractions: &OutlierFractions,
    outliers: usize,
    samples: usize,
    fraction: Option<DoubleBits>,
)
    requires
        call_ensures(OutlierFractions::fraction, (fractions, outliers, samples), fraction),
    ensures
        fraction == fractions.spec_fraction(outliers, samples),
        fraction is None ==> forall|k: int|
            0 <= k < fractions.list@.len() ==> (#[trigger] fractions.list@[k]).outliers != outliers
                || fractions.list@[k].samples != samples,
        fraction is Some ==> exists|k: int|
            {
                &&& 0 <= k < fractions.list@.len()
                &&& (#[trigger] fractions.list@[k]).outliers == outliers
                &&& fractions.list@[k].samples == samples
                &&& fractions.list@[k].fraction == fraction->0
                &&& forall|l: int|
                    k < l < fractions.list@.len() ==> (#[trigger] fractions.list@[l]).outliers
                        != outliers || fractions.list@[l].samples != samples
            },
{
    recorded_fraction_is_last(fractions.list@, outliers, samples);
}

proof fn recorded_fraction_is_last(
    list: Seq<crate::policy::OutlierFraction>,
    outliers: usize,
    samples: usize,
)
    ensures
        policy::recorded_fraction(list, outliers, samples) is None ==> forall|k: int|
            0 <= k < list.len() ==> (#[trigger] list[k]).outliers != outliers || list[k].samples
                != samples,
        policy::recorded_fraction(list, outliers, samples) is Some ==> exists|k: int|
            {
                &&& 0 <= k < list.len()
                &&& (#[trigger] list[k]).outliers == outliers
                &&& list[k].samples == samples
                &&& list[k].fraction == policy::recorded_fraction(list, outliers, samples)->0
                &&& forall|l: int|
                    k < l < list.len() ==> (#[trigger] list[l]).outliers != outliers
                        || list[l].samples != samples
            },
    decreases list.len(),
{
    if list.len() > 0 {
        let front = list.drop_last();
        recorded_fraction_is_last(front, outliers, samples);
        let n = list.len() - 1;
        if list[n].outliers == outliers && list[n].samples == samples {
            assert(list.last() == list[n]);
        } else {
            assert forall|k: int| 0 <= k < front.len() implies list[k] == #[trigger] front[k] by {}
            if policy::recorded_fraction(list, outliers, samples) is Some {
                let k = choose|k: int|
                    {
                        &&& 0 <= k < front.len()
                        &&& (#[trigger] front[k]).outliers == outliers
                        &&& front[k].samples == samples
                        &&& front[k].fraction == policy::recorded_fraction(
                            front,
                            outliers,
                            samples,
                        )->0
                        &&& forall|l: int|
                            k < l < front.len() ==> (#[trigger] front[l]).outliers != outliers
                                || front[l].samples != samples
                    };
                assert(list[k] == front[k]);
                assert forall|l: int| k < l < list.len() implies (#[trigger] list[l]).outliers
                    != outliers || list[l].samples != samples by {
                    if l < n {
                        assert(list[l] == front[l]);
                    }
                }
            } else {
                assert forall|k: int| 0 <= k < list.len() implies (#[trigger] list[k]).outliers
                    != outliers || list[k].samples != samples by {
                    if k < n {
                        assert(list[k] == front[k]);
                    }
                }
            }
        }
    }
}

proof fn counting_is_filtering(
    cases: Seq<PolicyCaseEvaluation>,
    property: spec_fn(PolicyCaseEvaluation) -> bool,
)
    ensures
        policy::count_where(cases, property) == cases.filter(property).len(),
    decreases cases.len(),
{
    reveal(Seq::filter);
    if cases.len() > 0 {
        counting_is_filtering(cases.drop_last(), property);
    }
}

/// Whether a case has a finding that is not about validity.
pub open spec fn shaky(case: PolicyCaseEvaluation) -> bool {
    exists|j: int|
        0 <= j < case.findings@.len() && !((#[trigger] case.findings@[j]) is InvalidResult)
}

/// The counts of an evaluation are those of its cases: each classification, the
/// cases that are unstable, and the cases that block.
pub proof fn summaries_count_the_cases(
    policy: &RegressionPolicy,
    comparison: &ComparisonReport,
    fractions: &OutlierFractions,
    result: Result<PolicyEvaluation, PolicyError>,
)
    requires
        call_ensures(RegressionPolicy::evaluate, (policy, comparison, fractions), result),
        result is Ok,
    ensures
        ({
            let cases = result->Ok_0.cases@;
            let summary = result->Ok_0.summary;
            &&& summary.improvements == cases.filter(
                |c: PolicyCaseEvaluation| c.classification == ChangeClassification::Improvement,
            ).len()
            &&& summary.regressions == cases.filter(
                |c: PolicyCaseEvaluation| c.classification == ChangeClassification::Regression,
            ).len()
            &&& summary.no_material_change == cases.filter(
                |c: PolicyCaseEvaluation|
                    c.classification == ChangeClassification::NoMaterialChange,
            ).len()
            &&& summary.informational == cases.filter(
                |c: PolicyCaseEvaluation| c.classification == ChangeClassification::Informational,
            ).len()
            &&& summary.invalid == cases.filter(
                |c: PolicyCaseEvaluation| c.classification == ChangeClassification::Invalid,
            ).len()
            &&& summary.inconclusive == cases.filter(
                |c: PolicyCaseEvaluation| c.classification == ChangeClassification::Inconclusive,
            ).len()
            &&& summary.unstable == cases.filter(|c: PolicyCaseEvaluation| shaky(c)).len()
            &&& summary.blocking == cases.filter(|c: PolicyCaseEvaluation| c.blocking).len()
        }),
{
    let cases = result->Ok_0.cases@;
    counting_is_filtering(
        cases,
        |c: PolicyCaseEvaluation| c.classification == ChangeClassification::Improvement,
    );
    counting_is_filtering(
        cases,
        |c: PolicyCaseEvaluation| c.classification == ChangeClassification::Regression,
    );
    counting_is_filtering(
        cases,
        |c: PolicyCaseEvaluation| c.classification == ChangeClassification::NoMaterialChange,
    );
    counting_is_filtering(
        cases,
        |c: PolicyCaseEvaluation| c.classification == ChangeClassification::Informational,
    );
    counting_is_filtering(
        cases,
        |c: PolicyCaseEvaluation| c.classification == ChangeClassification::Invalid,
    );
    counting_is_filtering(
        cases,
        |c: PolicyCaseEvaluation| c.classification == ChangeClassification::Inconclusive,
    );
    counting_is_filtering(cases, |c: PolicyCaseEvaluation| c.blocking);
    let unstable = |c: PolicyCaseEvaluation| policy::unstable_case(c);
    counting_is_filtering(cases, unstable);
    assert forall|c: PolicyCaseEvaluation| #[trigger] shaky(c) == policy::unstable_case(c) by {
        if shaky(c) {
            let j = choose|j: int|
                0 <= j < c.findings@.len() && !((#[trigger] c.findings@[j]) is InvalidResult);
            assert(policy::about_stability(c.findings@[j]@));
        }
        if policy::unstable_case(c) {
            let j = choose|j: int|
                0 <= j < c.findings@.len() && policy::about_stability((
                #[trigger] c.findings@[j])@);
            assert(!(c.findings@[j] is InvalidResult));
        }
    }
    assert(unstable =~= |c: PolicyCaseEvaluation| shaky(c));
}

/// A policy can be applied exactly where its thresholds are finite and not
/// negative and its fraction of outliers is at most one.
pub proof fn policies_need_sensible_thresholds(
    policy: &RegressionPolicy,
    result: Result<(), PolicyError>,
)
    requires
        call_ensures(RegressionPolicy::validate, (policy,), result),
    ensures
        result is Ok <==> {
            &&& policy.minimum_change_percent.finite() && !policy.minimum_change_percent.below(
                DoubleBits { bits: 0 },
            )
            &&& policy.maximum_cv_percent matches Some(maximum) ==> maximum.finite()
                && !maximum.below(DoubleBits { bits: 0 })
            &&& policy.maximum_outlier_fraction matches Some(maximum) ==> maximum.finite()
                && !maximum.below(DoubleBits { bits: 0 }) && !(DoubleBits {
                bits: 0x3ff0_0000_0000_0000,
            }).below(maximum)
        },
{
}

/// A policy that cannot be applied is not, and every other one is.
pub proof fn only_sensible_policies_are_applied(
    policy: &RegressionPolicy,
    comparison: &ComparisonReport,
    fractions: &OutlierFractions,
    valid: Result<(), PolicyError>,
    result: Result<PolicyEvaluation, PolicyError>,
)
    requires
        call_ensures(RegressionPolicy::validate, (policy,), valid),
        call_ensures(RegressionPolicy::evaluate, (policy, comparison, fractions), result),
    ensures
        result is Ok <==> valid is Ok,
{
}

/// The advisory policy counts changes of five percent, admits a variation of ten
/// percent and a tenth of outliers, and fails on nothing; the gating policy
/// differs in that it fails on regressions.
pub proof fn policies_start_from_known_thresholds(
    advisory: RegressionPolicy,
    gating: RegressionPolicy,
)
    requires
        call_ensures(RegressionPolicy::advisory, (), advisory),
        call_ensures(RegressionPolicy::gating, (), gating),
    ensures
        advisory.minimum_change_percent.bits == 0x4014_0000_0000_0000,
        advisory.maximum_cv_percent == Some(DoubleBits { bits: 0x4024_0000_0000_0000 }),
        advisory.maximum_outlier_fraction == Some(DoubleBits { bits: 0x3fb9_9999_9999_999a }),
        !advisory.fail_on_regression,
        !advisory.fail_on_invalid,
        gating.fail_on_regression,
        !gating.fail_on_invalid,
        gating.minimum_change_percent == advisory.minimum_change_percent,
        gating.maximum_cv_percent == advisory.maximum_cv_percent,
        gating.maximum_outlier_fraction == advisory.maximum_outlier_fraction,
{
}

} // verus!
