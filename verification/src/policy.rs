//! What is made of a comparison: classification, stability and the outcome. The
//! evidence is never changed by it.
use crate::comparison::{
    ComparisonCaseIdentity, ComparisonCaseSnapshot, ComparisonReport, ComparisonSide,
    MatchedBenchmark, MeasurementDirection,
};
use crate::double;
use crate::double::DoubleBits;
use crate::series::ValidityStatus;
use vstd::prelude::*;

verus! {

/// Five percent, as a number.
pub const DEFAULT_MINIMUM_CHANGE_PERCENT: u64 = 0x4014_0000_0000_0000;

/// Ten percent, as a number.
pub const DEFAULT_MAXIMUM_CV_PERCENT: u64 = 0x4024_0000_0000_0000;

/// A tenth, as a number.
pub const DEFAULT_MAXIMUM_OUTLIER_FRACTION: u64 = 0x3fb9_9999_9999_999a;

/// One, as a number.
pub const ONE_BITS: u64 = 0x3ff0_0000_0000_0000;

/// When a change counts, when evidence is unstable, and what blocks.
/// By default nothing does.
#[derive(Clone, Copy, Debug, PartialEq, Eq, Structural)]
pub struct RegressionPolicy {
    pub minimum_change_percent: DoubleBits,
    pub maximum_cv_percent: Option<DoubleBits>,
    pub maximum_outlier_fraction: Option<DoubleBits>,
    pub fail_on_regression: bool,
    pub fail_on_invalid: bool,
}

/// A policy that cannot be applied.
#[derive(Debug, PartialEq)]
pub enum PolicyError {
    InvalidConfiguration { reason: String },
}

impl PolicyError {
    pub open spec fn reason_text(&self) -> Seq<char> {
        match self {
            PolicyError::InvalidConfiguration { reason } => reason@,
        }
    }

    pub open spec fn message_text(&self) -> Seq<char> {
        "invalid regression policy: "@ + self.reason_text()
    }

    /// The error as text.
    pub fn message(&self) -> (r: String)
        ensures
            r@ == self.message_text(),
    {
        match self {
            PolicyError::InvalidConfiguration { reason } => {
                let mut r = "invalid regression policy: ".to_owned();
                r.append(reason.as_str());
                r
            },
        }
    }
}

impl Default for RegressionPolicy {
    fn default() -> (r: RegressionPolicy)
        ensures
            r == RegressionPolicy::spec_advisory(),
    {
        RegressionPolicy::advisory()
    }
}

/// A number that is no threshold.
pub open spec fn threshold_problem(field: Seq<char>, value: DoubleBits) -> Option<Seq<char>> {
    if !value.finite() || value.rank() < 0 {
        Some(field + " must be finite and non-negative"@)
    } else {
        None
    }
}

fn validate_nonnegative_finite(field: &str, value: DoubleBits) -> (r: Result<(), PolicyError>)
    ensures
        r is Err == threshold_problem(field@, value) is Some,
        r matches Err(e) ==> e.reason_text() == threshold_problem(field@, value)->0,
{
    if !value.is_finite() || value.lt(DoubleBits { bits: 0 }) {
        let mut reason = field.to_owned();
        reason.append(" must be finite and non-negative");
        return Err(PolicyError::InvalidConfiguration { reason });
    }
    Ok(())
}

impl RegressionPolicy {
    pub open spec fn spec_advisory() -> RegressionPolicy {
        RegressionPolicy {
            minimum_change_percent: DoubleBits { bits: DEFAULT_MINIMUM_CHANGE_PERCENT },
            maximum_cv_percent: Some(DoubleBits { bits: DEFAULT_MAXIMUM_CV_PERCENT }),
            maximum_outlier_fraction: Some(DoubleBits { bits: DEFAULT_MAXIMUM_OUTLIER_FRACTION }),
            fail_on_regression: false,
            fail_on_invalid: false,
        }
    }

    /// Classifies and reports, and never blocks.
    pub fn advisory() -> (r: RegressionPolicy)
        ensures
            r == RegressionPolicy::spec_advisory(),
    {
        RegressionPolicy {
            minimum_change_percent: DoubleBits { bits: DEFAULT_MINIMUM_CHANGE_PERCENT },
            maximum_cv_percent: Some(DoubleBits { bits: DEFAULT_MAXIMUM_CV_PERCENT }),
            maximum_outlier_fraction: Some(DoubleBits { bits: DEFAULT_MAXIMUM_OUTLIER_FRACTION }),
            fail_on_regression: false,
            fail_on_invalid: false,
        }
    }

    /// Blocks on a regression.
    pub fn gating() -> (r: RegressionPolicy)
        ensures
            r == (RegressionPolicy {
                fail_on_regression: true,
                ..RegressionPolicy::spec_advisory()
            }),
    {
        RegressionPolicy { fail_on_regression: true, ..RegressionPolicy::advisory() }
    }

    pub fn with_minimum_change_percent(self, minimum: DoubleBits) -> (r: RegressionPolicy)
        ensures
            r == (RegressionPolicy { minimum_change_percent: minimum, ..self }),
    {
        RegressionPolicy { minimum_change_percent: minimum, ..self }
    }

    pub fn with_maximum_cv_percent(self, maximum: Option<DoubleBits>) -> (r: RegressionPolicy)
        ensures
            r == (RegressionPolicy { maximum_cv_percent: maximum, ..self }),
    {
        RegressionPolicy { maximum_cv_percent: maximum, ..self }
    }

    pub fn with_maximum_outlier_fraction(self, maximum: Option<DoubleBits>) -> (r: RegressionPolicy)
        ensures
            r == (RegressionPolicy { maximum_outlier_fraction: maximum, ..self }),
    {
        RegressionPolicy { maximum_outlier_fraction: maximum, ..self }
    }

    pub fn fail_on_regression(self, fail: bool) -> (r: RegressionPolicy)
        ensures
            r == (RegressionPolicy { fail_on_regression: fail, ..self }),
    {
        RegressionPolicy { fail_on_regression: fail, ..self }
    }

    pub fn fail_on_invalid(self, fail: bool) -> (r: RegressionPolicy)
        ensures
            r == (RegressionPolicy { fail_on_invalid: fail, ..self }),
    {
        RegressionPolicy { fail_on_invalid: fail, ..self }
    }

    /// What is wrong with the policy, if anything.
    pub open spec fn problem(&self) -> Option<Seq<char>> {
        if threshold_problem("minimum_change_percent"@, self.minimum_change_percent) is Some {
            threshold_problem("minimum_change_percent"@, self.minimum_change_percent)
        } else if self.maximum_cv_percent matches Some(maximum) && threshold_problem(
            "maximum_cv_percent"@,
            maximum,
        ) is Some {
            threshold_problem("maximum_cv_percent"@, self.maximum_cv_percent->0)
        } else if self.maximum_outlier_fraction matches Some(maximum) && !(maximum.finite() && 0
            <= maximum.rank() && maximum.at_most(DoubleBits { bits: ONE_BITS })) {
            Some("maximum_outlier_fraction must be finite and between 0 and 1"@)
        } else {
            None
        }
    }

    /// Accepts a policy that can be applied.
    pub fn validate(&self) -> (r: Result<(), PolicyError>)
        ensures
            r is Err == self.problem() is Some,
            r matches Err(e) ==> e.reason_text() == self.problem()->0,
    {
        validate_nonnegative_finite("minimum_change_percent", self.minimum_change_percent)?;
        match self.maximum_cv_percent {
            Some(maximum) => {
                validate_nonnegative_finite("maximum_cv_percent", maximum)?;
            },
            None => {},
        }
        match self.maximum_outlier_fraction {
            Some(maximum) => {
                if !maximum.is_finite() || maximum.lt(DoubleBits { bits: 0 }) || maximum.gt(
                    DoubleBits { bits: ONE_BITS },
                ) {
                    return Err(
                        PolicyError::InvalidConfiguration {
                            reason:
                                "maximum_outlier_fraction must be finite and between 0 and 1".to_owned(),
                        },
                    );
                }
            },
            None => {},
        }
        Ok(())
    }
}

/// What became of a case, for better or worse.
#[derive(Clone, Copy, Debug, PartialEq, Eq, Structural)]
pub enum ChangeClassification {
    Improvement,
    Regression,
    NoMaterialChange,
    Informational,
    Invalid,
    Inconclusive,
}

impl ChangeClassification {
    pub open spec fn text(self) -> Seq<char> {
        match self {
            ChangeClassification::Improvement => "improvement"@,
            ChangeClassification::Regression => "regression"@,
            ChangeClassification::NoMaterialChange => "no material change"@,
            ChangeClassification::Informational => "informational"@,
            ChangeClassification::Invalid => "invalid"@,
            ChangeClassification::Inconclusive => "inconclusive"@,
        }
    }

    pub fn name(self) -> (r: &'static str)
        ensures
            r@ == self.text(),
    {
        match self {
            ChangeClassification::Improvement => "improvement",
            ChangeClassification::Regression => "regression",
            ChangeClassification::NoMaterialChange => "no material change",
            ChangeClassification::Informational => "informational",
            ChangeClassification::Invalid => "invalid",
            ChangeClassification::Inconclusive => "inconclusive",
        }
    }

    /// The classification of the opposite change.
    pub open spec fn mirrored(self) -> ChangeClassification {
        match self {
            ChangeClassification::Improvement => ChangeClassification::Regression,
            ChangeClassification::Regression => ChangeClassification::Improvement,
            other => other,
        }
    }
}

/// The classification of an improvement in percent.
pub open spec fn change_class(improvement: Option<DoubleBits>, minimum: DoubleBits) -> ChangeClassification {
    match improvement {
        None => ChangeClassification::Inconclusive,
        Some(improvement) => if minimum.below(improvement) {
            ChangeClassification::Improvement
        } else if improvement.below(minimum.negated()) {
            ChangeClassification::Regression
        } else {
            ChangeClassification::NoMaterialChange
        },
    }
}

/// The classification of a case: invalid evidence first, then measurements
/// that have no direction, then the change.
pub open spec fn class_of(
    current: ComparisonCaseSnapshot,
    baseline: ComparisonCaseSnapshot,
    improvement: Option<DoubleBits>,
    minimum: DoubleBits,
) -> ChangeClassification {
    if current.validity.status == ValidityStatus::Invalid || baseline.validity.status
        == ValidityStatus::Invalid {
        ChangeClassification::Invalid
    } else if current.primary.direction == MeasurementDirection::Informational {
        ChangeClassification::Informational
    } else {
        change_class(improvement, minimum)
    }
}

pub fn classify_case(
    current: &ComparisonCaseSnapshot,
    baseline: &ComparisonCaseSnapshot,
    percent_improvement: Option<DoubleBits>,
    minimum_change_percent: DoubleBits,
) -> (r: ChangeClassification)
    ensures
        r == class_of(*current, *baseline, percent_improvement, minimum_change_percent),
{
    if current.validity.status == ValidityStatus::Invalid || baseline.validity.status
        == ValidityStatus::Invalid {
        return ChangeClassification::Invalid;
    }
    if current.primary.direction == MeasurementDirection::Informational {
        return ChangeClassification::Informational;
    }
    match percent_improvement {
        None => ChangeClassification::Inconclusive,
        Some(improvement) => {
            if improvement.gt(minimum_change_percent) {
                ChangeClassification::Improvement
            } else if improvement.lt(minimum_change_percent.neg()) {
                ChangeClassification::Regression
            } else {
                ChangeClassification::NoMaterialChange
            }
        },
    }
}

/// A stability or correctness observation.
#[derive(Debug, PartialEq)]
pub enum PolicyFinding {
    InvalidResult { side: ComparisonSide, reason: String },
    HighCoefficientOfVariation {
        side: ComparisonSide,
        actual_percent: DoubleBits,
        maximum_percent: DoubleBits,
    },
    ExcessiveOutlierFraction { side: ComparisonSide, actual: DoubleBits, maximum: DoubleBits },
}

/// The contents of an observation.
pub ghost enum Finding {
    Invalid { side: ComparisonSide, reason: Seq<char> },
    Variation { side: ComparisonSide, actual: DoubleBits, maximum: DoubleBits },
    Outliers { side: ComparisonSide, actual: DoubleBits, maximum: DoubleBits },
}

impl View for PolicyFinding {
    type V = Finding;

    open spec fn view(&self) -> Finding {
        match self {
            PolicyFinding::InvalidResult { side, reason } => Finding::Invalid {
                side: *side,
                reason: reason@,
            },
            PolicyFinding::HighCoefficientOfVariation { side, actual_percent, maximum_percent } =>
                Finding::Variation {
                side: *side,
                actual: *actual_percent,
                maximum: *maximum_percent,
            },
            PolicyFinding::ExcessiveOutlierFraction { side, actual, maximum } =>
                Finding::Outliers { side: *side, actual: *actual, maximum: *maximum },
        }
    }
}

/// The contents of a list of observations.
pub open spec fn contents(findings: Seq<PolicyFinding>) -> Seq<Finding> {
    findings.map_values(|f: PolicyFinding| f@)
}

/// What a number of outliers is as a fraction of a number of samples.
#[derive(Clone, Copy, Debug, PartialEq, Eq, Structural)]
pub struct OutlierFraction {
    pub outliers: usize,
    pub samples: usize,
    pub fraction: DoubleBits,
}

/// The fractions of outliers in a comparison.
#[derive(Debug)]
pub struct OutlierFractions {
    pub list: Vec<OutlierFraction>,
}

/// The fraction last recorded.
pub open spec fn recorded_fraction(list: Seq<OutlierFraction>, outliers: usize, samples: usize) -> Option<
    DoubleBits,
>
    decreases list.len(),
{
    if list.len() == 0 {
        None
    } else if list.last().outliers == outliers && list.last().samples == samples {
        Some(list.last().fraction)
    } else {
        recorded_fraction(list.drop_last(), outliers, samples)
    }
}

impl OutlierFractions {
    pub open spec fn spec_fraction(&self, outliers: usize, samples: usize) -> Option<DoubleBits> {
        recorded_fraction(self.list@, outliers, samples)
    }

    pub fn new() -> (r: OutlierFractions)
        ensures
            r.list@.len() == 0,
    {
        OutlierFractions { list: Vec::new() }
    }

    /// Records a fraction.
    pub fn record(&mut self, outliers: usize, samples: usize, fraction: DoubleBits)
        ensures
            final(self).list@ == old(self).list@.push(
                OutlierFraction { outliers, samples, fraction },
            ),
            final(self).spec_fraction(outliers, samples) == Some(fraction),
            forall|o: usize, s: usize|
                o != outliers || s != samples ==> #[trigger] final(self).spec_fraction(o, s)
                    == old(self).spec_fraction(o, s),
    {
        self.list.push(OutlierFraction { outliers, samples, fraction });
        assert(self.list@.drop_last() =~= old(self).list@);
    }

    /// The fraction that some outliers are of some samples.
    pub fn fraction(&self, outliers: usize, samples: usize) -> (r: Option<DoubleBits>)
        ensures
            r == self.spec_fraction(outliers, samples),
    {
        let mut count: usize = self.list.len();
        assert(self.list@.take(count as int) =~= self.list@);
        while count > 0
            invariant
                count <= self.list.len(),
                self.spec_fraction(outliers, samples) == recorded_fraction(
                    self.list@.take(count as int),
                    outliers,
                    samples,
                ),
            decreases count,
        {
            let entry = self.list[count - 1];
            assert(self.list@.take(count as int).last() == self.list@[count - 1]);
            assert(self.list@.take(count as int).drop_last() =~= self.list@.take(count - 1));
            if entry.outliers == outliers && entry.samples == samples {
                return Some(entry.fraction);
            }
            count -= 1;
        }
        None
    }
}

/// Evidence that is invalid.
pub open spec fn invalid_finding(snapshot: ComparisonCaseSnapshot, side: ComparisonSide) -> Seq<Finding> {
    if snapshot.validity.status == ValidityStatus::Invalid {
        seq![Finding::Invalid { side, reason: snapshot.validity.reason_text() }]
    } else {
        seq![]
    }
}

/// Evidence that varies more than the policy admits.
pub open spec fn variation_finding(
    snapshot: ComparisonCaseSnapshot,
    side: ComparisonSide,
    maximum: Option<DoubleBits>,
) -> Seq<Finding> {
    match (maximum, snapshot.statistics.cv_percent) {
        (Some(maximum), Some(actual)) => if maximum.below(actual) {
            seq![Finding::Variation { side, actual, maximum }]
        } else {
            seq![]
        },
        _ => seq![],
    }
}

/// Evidence with more outliers than the policy admits.
pub open spec fn outlier_finding(
    snapshot: ComparisonCaseSnapshot,
    side: ComparisonSide,
    maximum: Option<DoubleBits>,
    fractions: OutlierFractions,
) -> Seq<Finding> {
    let actual = fractions.spec_fraction(
        snapshot.statistics.outliers,
        snapshot.statistics.samples,
    );
    match (maximum, actual) {
        (Some(maximum), Some(actual)) => if snapshot.statistics.samples > 0 && maximum.below(
            actual,
        ) {
            seq![Finding::Outliers { side, actual, maximum }]
        } else {
            seq![]
        },
        _ => seq![],
    }
}

/// The observations on one side of a case.
pub open spec fn side_findings(
    snapshot: ComparisonCaseSnapshot,
    side: ComparisonSide,
    maximum_cv_percent: Option<DoubleBits>,
    maximum_outlier_fraction: Option<DoubleBits>,
    fractions: OutlierFractions,
) -> Seq<Finding> {
    invalid_finding(snapshot, side) + variation_finding(snapshot, side, maximum_cv_percent)
        + outlier_finding(snapshot, side, maximum_outlier_fraction, fractions)
}

fn push_findings(
    findings: &mut Vec<PolicyFinding>,
    snapshot: &ComparisonCaseSnapshot,
    side: ComparisonSide,
    maximum_cv_percent: Option<DoubleBits>,
    maximum_outlier_fraction: Option<DoubleBits>,
    fractions: &OutlierFractions,
)
    ensures
        contents(final(findings)@) == contents(old(findings)@) + side_findings(
            *snapshot,
            side,
            maximum_cv_percent,
            maximum_outlier_fraction,
            *fractions,
        ),
{
    let ghost start = contents(findings@);
    if snapshot.validity.status == ValidityStatus::Invalid {
        findings.push(
            PolicyFinding::InvalidResult { side, reason: snapshot.validity.reason_or_default() },
        );
    }
    assert(contents(findings@) =~= start + invalid_finding(*snapshot, side));
    match maximum_cv_percent {
        Some(maximum) => match snapshot.statistics.cv_percent {
            Some(actual) => {
                if actual.gt(maximum) {
                    findings.push(
                        PolicyFinding::HighCoefficientOfVariation {
                            side,
                            actual_percent: actual,
                            maximum_percent: maximum,
                        },
                    );
                }
            },
            None => {},
        },
        None => {},
    }
    assert(contents(findings@) =~= start + invalid_finding(*snapshot, side) + variation_finding(
        *snapshot,
        side,
        maximum_cv_percent,
    ));
    match maximum_outlier_fraction {
        Some(maximum) => {
            if snapshot.statistics.samples > 0 {
                match fractions.fraction(
                    snapshot.statistics.outliers,
                    snapshot.statistics.samples,
                ) {
                    Some(actual) => {
                        if actual.gt(maximum) {
                            findings.push(
                                PolicyFinding::ExcessiveOutlierFraction { side, actual, maximum },
                            );
                        }
                    },
                    None => {},
                }
            }
        },
        None => {},
    }
    assert(contents(findings@) =~= start + side_findings(
        *snapshot,
        side,
        maximum_cv_percent,
        maximum_outlier_fraction,
        *fractions,
    ));
}

pub fn stability_findings(
    snapshot: &ComparisonCaseSnapshot,
    side: ComparisonSide,
    maximum_cv_percent: Option<DoubleBits>,
    maximum_outlier_fraction: Option<DoubleBits>,
    fractions: &OutlierFractions,
) -> (r: Vec<PolicyFinding>)
    ensures
        contents(r@) == side_findings(
            *snapshot,
            side,
            maximum_cv_percent,
            maximum_outlier_fraction,
            *fractions,
        ),
{
    let mut findings: Vec<PolicyFinding> = Vec::new();
    push_findings(
        &mut findings,
        snapshot,
        side,
        maximum_cv_percent,
        maximum_outlier_fraction,
        fractions,
    );
    assert(contents(findings@) =~= side_findings(
        *snapshot,
        side,
        maximum_cv_percent,
        maximum_outlier_fraction,
        *fractions,
    ));
    findings
}

/// What a policy makes of one case.
#[derive(Debug)]
pub struct PolicyCaseEvaluation {
    pub identity: ComparisonCaseIdentity,
    pub classification: ChangeClassification,
    pub percent_improvement: Option<DoubleBits>,
    pub findings: Vec<PolicyFinding>,
    pub blocking: bool,
}

/// How many cases came out which way.
#[derive(Clone, Copy, Debug, PartialEq, Eq, Structural)]
pub struct PolicySummary {
    pub improvements: usize,
    pub regressions: usize,
    pub no_material_change: usize,
    pub informational: usize,
    pub invalid: usize,
    pub inconclusive: usize,
    pub unstable: usize,
    pub blocking: usize,
}

impl Default for PolicySummary {
    fn default() -> (r: PolicySummary)
        ensures
            r == (PolicySummary {
                improvements: 0,
                regressions: 0,
                no_material_change: 0,
                informational: 0,
                invalid: 0,
                inconclusive: 0,
                unstable: 0,
                blocking: 0,
            }),
    {
        PolicySummary {
            improvements: 0,
            regressions: 0,
            no_material_change: 0,
            informational: 0,
            invalid: 0,
            inconclusive: 0,
            unstable: 0,
            blocking: 0,
        }
    }
}

/// What a policy makes of a comparison.
#[derive(Debug)]
pub struct PolicyEvaluation {
    pub policy: RegressionPolicy,
    pub cases: Vec<PolicyCaseEvaluation>,
    pub summary: PolicySummary,
    pub gate_failed: bool,
}

/// How a comparison ends as a process.
#[derive(Clone, Copy, Debug, PartialEq, Eq, Structural)]
pub enum ComparisonExitStatus {
    Success,
    RegressionGateFailed,
    Error,
}

impl ComparisonExitStatus {
    pub open spec fn spec_code(self) -> i32 {
        match self {
            ComparisonExitStatus::Success => 0,
            ComparisonExitStatus::RegressionGateFailed => 1,
            ComparisonExitStatus::Error => 2,
        }
    }

    pub fn code(self) -> (r: i32)
        ensures
            r == self.spec_code(),
    {
        match self {
            ComparisonExitStatus::Success => 0,
            ComparisonExitStatus::RegressionGateFailed => 1,
            ComparisonExitStatus::Error => 2,
        }
    }
}

impl PolicyEvaluation {
    pub fn exit_status(&self) -> (r: ComparisonExitStatus)
        ensures
            r == if self.gate_failed {
                ComparisonExitStatus::RegressionGateFailed
            } else {
                ComparisonExitStatus::Success
            },
    {
        if self.gate_failed {
            ComparisonExitStatus::RegressionGateFailed
        } else {
            ComparisonExitStatus::Success
        }
    }
}

/// Whether a classification blocks.
pub open spec fn blocks(policy: RegressionPolicy, classification: ChangeClassification) -> bool {
    ||| policy.fail_on_regression && classification == ChangeClassification::Regression
    ||| policy.fail_on_invalid && classification == ChangeClassification::Invalid
}

/// What a policy makes of a matched case.
pub open spec fn evaluation_of(
    case: PolicyCaseEvaluation,
    matched: MatchedBenchmark,
    policy: RegressionPolicy,
    fractions: OutlierFractions,
) -> bool {
    let class = class_of(
        matched.current,
        matched.baseline,
        matched.percent_improvement,
        policy.minimum_change_percent,
    );
    &&& case.identity.key() == matched.identity.key()
    &&& case.identity.group_text() == matched.identity.group_text()
    &&& case.identity.name_text() == matched.identity.name_text()
    &&& case.classification == class
    &&& case.percent_improvement == matched.percent_improvement
    &&& contents(case.findings@) == side_findings(
        matched.current,
        ComparisonSide::Current,
        policy.maximum_cv_percent,
        policy.maximum_outlier_fraction,
        fractions,
    ) + side_findings(
        matched.baseline,
        ComparisonSide::Baseline,
        policy.maximum_cv_percent,
        policy.maximum_outlier_fraction,
        fractions,
    )
    &&& case.blocking == blocks(policy, class)
}

/// How many cases have a property.
pub open spec fn count_where(
    cases: Seq<PolicyCaseEvaluation>,
    property: spec_fn(PolicyCaseEvaluation) -> bool,
) -> nat
    decreases cases.len(),
{
    if cases.len() == 0 {
        0
    } else {
        count_where(cases.drop_last(), property) + (if property(cases.last()) {
            1nat
        } else {
            0nat
        })
    }
}

/// How many cases have a classification.
pub open spec fn count_class(cases: Seq<PolicyCaseEvaluation>, class: ChangeClassification) -> nat {
    count_where(cases, |case: PolicyCaseEvaluation| case.classification == class)
}

/// Whether an observation is about stability.
pub open spec fn about_stability(finding: Finding) -> bool {
    finding is Variation || finding is Outliers
}

/// Whether a case has an observation about stability.
pub open spec fn unstable_case(case: PolicyCaseEvaluation) -> bool {
    exists|i: int|
        0 <= i < case.findings@.len() && about_stability((#[trigger] case.findings@[i])@)
}

fn is_unstable(case: &PolicyCaseEvaluation) -> (r: bool)
    ensures
        r == unstable_case(*case),
{
    let mut i: usize = 0;
    while i < case.findings.len()
        invariant
            i <= case.findings.len(),
            forall|j: int|
                0 <= j < i ==> !about_stability((#[trigger] case.findings@[j])@),
        decreases case.findings.len() - i,
    {
        match &case.findings[i] {
            PolicyFinding::InvalidResult { .. } => {},
            PolicyFinding::HighCoefficientOfVariation { .. } => {
                assert(about_stability(case.findings@[i as int]@));
                return true;
            },
            PolicyFinding::ExcessiveOutlierFraction { .. } => {
                assert(about_stability(case.findings@[i as int]@));
                return true;
            },
        }
        i += 1;
    }
    false
}

/// How many cases are unstable.
pub open spec fn count_unstable(cases: Seq<PolicyCaseEvaluation>) -> nat {
    count_where(cases, |case: PolicyCaseEvaluation| unstable_case(case))
}

/// How many cases block.
pub open spec fn count_blocking(cases: Seq<PolicyCaseEvaluation>) -> nat {
    count_where(cases, |case: PolicyCaseEvaluation| case.blocking)
}

/// The counts of some cases.
pub open spec fn summary_of(summary: PolicySummary, cases: Seq<PolicyCaseEvaluation>) -> bool {
    &&& summary.improvements == count_class(cases, ChangeClassification::Improvement)
    &&& summary.regressions == count_class(cases, ChangeClassification::Regression)
    &&& summary.no_material_change == count_class(cases, ChangeClassification::NoMaterialChange)
    &&& summary.informational == count_class(cases, ChangeClassification::Informational)
    &&& summary.invalid == count_class(cases, ChangeClassification::Invalid)
    &&& summary.inconclusive == count_class(cases, ChangeClassification::Inconclusive)
    &&& summary.unstable == count_unstable(cases)
    &&& summary.blocking == count_blocking(cases)
}

proof fn count_is_bounded(
    cases: Seq<PolicyCaseEvaluation>,
    property: spec_fn(PolicyCaseEvaluation) -> bool,
)
    ensures
        count_where(cases, property) <= cases.len(),
    decreases cases.len(),
{
    if cases.len() > 0 {
        count_is_bounded(cases.drop_last(), property);
    }
}

pub fn count_classification(
    cases: &Vec<PolicyCaseEvaluation>,
    classification: ChangeClassification,
) -> (r: usize)
    ensures
        r == count_class(cases@, classification),
{
    let ghost property = |case: PolicyCaseEvaluation| case.classification == classification;
    let mut count: usize = 0;
    let mut i: usize = 0;
    while i < cases.len()
        invariant
            i <= cases.len(),
            property == (|case: PolicyCaseEvaluation| case.classification == classification),
            count == count_where(cases@.take(i as int), property),
            count <= i,
        decreases cases.len() - i,
    {
        if cases[i].classification == classification {
            count += 1;
        }
        i += 1;
        assert(cases@.take(i as int).drop_last() =~= cases@.take(i - 1));
    }
    assert(cases@.take(cases@.len() as int) =~= cases@);
    count
}

fn count_unstable_cases(cases: &Vec<PolicyCaseEvaluation>) -> (r: usize)
    ensures
        r == count_unstable(cases@),
{
    let ghost property = |case: PolicyCaseEvaluation| unstable_case(case);
    let mut count: usize = 0;
    let mut i: usize = 0;
    while i < cases.len()
        invariant
            i <= cases.len(),
            property == (|case: PolicyCaseEvaluation| unstable_case(case)),
            count == count_where(cases@.take(i as int), property),
            count <= i,
        decreases cases.len() - i,
    {
        if is_unstable(&cases[i]) {
            count += 1;
        }
        i += 1;
        assert(cases@.take(i as int).drop_last() =~= cases@.take(i - 1));
    }
    assert(cases@.take(cases@.len() as int) =~= cases@);
    count
}

fn count_blocking_cases(cases: &Vec<PolicyCaseEvaluation>) -> (r: usize)
    ensures
        r == count_blocking(cases@),
{
    let ghost property = |case: PolicyCaseEvaluation| case.blocking;
    let mut count: usize = 0;
    let mut i: usize = 0;
    while i < cases.len()
        invariant
            i <= cases.len(),
            property == (|case: PolicyCaseEvaluation| case.blocking),
            count == count_where(cases@.take(i as int), property),
            count <= i,
        decreases cases.len() - i,
    {
        if cases[i].blocking {
            count += 1;
        }
        i += 1;
        assert(cases@.take(i as int).drop_last() =~= cases@.take(i - 1));
    }
    assert(cases@.take(cases@.len() as int) =~= cases@);
    count
}

fn evaluate_case(
    matched: &MatchedBenchmark,
    policy: &RegressionPolicy,
    fractions: &OutlierFractions,
) -> (r: PolicyCaseEvaluation)
    ensures
        evaluation_of(r, *matched, *policy, *fractions),
{
    let mut findings = stability_findings(
        &matched.current,
        ComparisonSide::Current,
        policy.maximum_cv_percent,
        policy.maximum_outlier_fraction,
        fractions,
    );
    push_findings(
        &mut findings,
        &matched.baseline,
        ComparisonSide::Baseline,
        policy.maximum_cv_percent,
        policy.maximum_outlier_fraction,
        fractions,
    );
    let classification = classify_case(
        &matched.current,
        &matched.baseline,
        matched.percent_improvement,
        policy.minimum_change_percent,
    );
    let blocking = (policy.fail_on_regression && classification
        == ChangeClassification::Regression) || (policy.fail_on_invalid && classification
        == ChangeClassification::Invalid);
    PolicyCaseEvaluation {
        identity: matched.identity.duplicate(),
        classification,
        percent_improvement: matched.percent_improvement,
        findings,
        blocking,
    }
}

/// Whether an evaluation is what a policy makes of a comparison.
pub open spec fn evaluated(
    evaluation: PolicyEvaluation,
    comparison: ComparisonReport,
    policy: RegressionPolicy,
    fractions: OutlierFractions,
) -> bool {
    &&& evaluation.policy == policy
    &&& evaluation.cases@.len() == comparison.matched@.len()
    &&& forall|i: int|
        0 <= i < evaluation.cases@.len() ==> evaluation_of(
            #[trigger] evaluation.cases@[i],
            comparison.matched@[i],
            policy,
            fractions,
        )
    &&& summary_of(evaluation.summary, evaluation.cases@)
    &&& evaluation.gate_failed == (evaluation.summary.blocking > 0)
}

impl RegressionPolicy {
    /// Applies the policy to a comparison.
    pub fn evaluate(&self, comparison: &ComparisonReport, fractions: &OutlierFractions) -> (r: Result<
        PolicyEvaluation,
        PolicyError,
    >)
        ensures
            r is Err == self.problem() is Some,
            r matches Err(e) ==> e.reason_text() == self.problem()->0,
            r matches Ok(evaluation) ==> evaluated(evaluation, *comparison, *self, *fractions),
    {
        match self.validate() {
            Ok(()) => {},
            Err(error) => {
                return Err(error);
            },
        }
        let mut cases: Vec<PolicyCaseEvaluation> = Vec::new();
        let mut i: usize = 0;
        while i < comparison.matched.len()
            invariant
                i <= comparison.matched.len(),
                cases@.len() == i,
                forall|j: int|
                    0 <= j < i ==> evaluation_of(
                        #[trigger] cases@[j],
                        comparison.matched@[j],
                        *self,
                        *fractions,
                    ),
            decreases comparison.matched.len() - i,
        {
            cases.push(evaluate_case(&comparison.matched[i], self, fractions));
            i += 1;
        }
        let summary = PolicySummary {
            improvements: count_classification(&cases, ChangeClassification::Improvement),
            regressions: count_classification(&cases, ChangeClassification::Regression),
            no_material_change: count_classification(
                &cases,
                ChangeClassification::NoMaterialChange,
            ),
            informational: count_classification(&cases, ChangeClassification::Informational),
            invalid: count_classification(&cases, ChangeClassification::Invalid),
            inconclusive: count_classification(&cases, ChangeClassification::Inconclusive),
            unstable: count_unstable_cases(&cases),
            blocking: count_blocking_cases(&cases),
        };
        Ok(PolicyEvaluation { policy: *self, cases, summary, gate_failed: summary.blocking > 0 })
    }
}

/// Every case has one classification: the six counts add up to the cases.
pub proof fn classes_add_up(cases: Seq<PolicyCaseEvaluation>)
    ensures
        count_class(cases, ChangeClassification::Improvement) + count_class(
            cases,
            ChangeClassification::Regression,
        ) + count_class(cases, ChangeClassification::NoMaterialChange) + count_class(
            cases,
            ChangeClassification::Informational,
        ) + count_class(cases, ChangeClassification::Invalid) + count_class(
            cases,
            ChangeClassification::Inconclusive,
        ) == cases.len(),
    decreases cases.len(),
{
    if cases.len() > 0 {
        classes_add_up(cases.drop_last());
    }
}

proof fn count_is_positive(cases: Seq<PolicyCaseEvaluation>, property: spec_fn(PolicyCaseEvaluation) -> bool)
    ensures
        count_where(cases, property) > 0 <==> exists|i: int|
            0 <= i < cases.len() && property(#[trigger] cases[i]),
    decreases cases.len(),
{
    if cases.len() > 0 {
        count_is_positive(cases.drop_last(), property);
        if property(cases.last()) {
            assert(property(cases[cases.len() - 1]));
        }
        if count_where(cases.drop_last(), property) > 0 {
            let i = choose|i: int|
                0 <= i < cases.drop_last().len() && property(#[trigger] cases.drop_last()[i]);
            assert(property(cases[i]));
        }
        if exists|i: int| 0 <= i < cases.len() && property(#[trigger] cases[i]) {
            let i = choose|i: int| 0 <= i < cases.len() && property(#[trigger] cases[i]);
            if i < cases.len() - 1 {
                assert(property(cases.drop_last()[i]));
            }
        }
    }
}

/// The outcome is a failure exactly when some case is a regression or invalid evidence
/// that the policy fails on.
pub proof fn gate_fails_on_blocking_cases(
    evaluation: PolicyEvaluation,
    comparison: ComparisonReport,
    policy: RegressionPolicy,
    fractions: OutlierFractions,
)
    requires
        evaluated(evaluation, comparison, policy, fractions),
    ensures
        evaluation.gate_failed <==> exists|i: int|
            0 <= i < evaluation.cases@.len() && blocks(
                policy,
                (#[trigger] evaluation.cases@[i]).classification,
            ),
{
    let property = |case: PolicyCaseEvaluation| case.blocking;
    count_is_positive(evaluation.cases@, property);
    if evaluation.gate_failed {
        let i = choose|i: int|
            0 <= i < evaluation.cases@.len() && property(#[trigger] evaluation.cases@[i]);
        assert(evaluation_of(evaluation.cases@[i], comparison.matched@[i], policy, fractions));
        assert(blocks(policy, evaluation.cases@[i].classification));
    }
    if exists|i: int|
        0 <= i < evaluation.cases@.len() && blocks(
            policy,
            (#[trigger] evaluation.cases@[i]).classification,
        ) {
        let i = choose|i: int|
            0 <= i < evaluation.cases@.len() && blocks(
                policy,
                (#[trigger] evaluation.cases@[i]).classification,
            );
        assert(evaluation_of(evaluation.cases@[i], comparison.matched@[i], policy, fractions));
        assert(property(evaluation.cases@[i]));
    }
}

/// An advisory policy never blocks, whatever the comparison shows.
pub proof fn advisory_policies_never_fail(
    evaluation: PolicyEvaluation,
    comparison: ComparisonReport,
    policy: RegressionPolicy,
    fractions: OutlierFractions,
)
    requires
        evaluated(evaluation, comparison, policy, fractions),
        !policy.fail_on_regression,
        !policy.fail_on_invalid,
    ensures
        !evaluation.gate_failed,
{
    gate_fails_on_blocking_cases(evaluation, comparison, policy, fractions);
}

/// Whether a policy gates has no part in how it classifies: two policies that
/// differ in nothing else agree on every case.
pub proof fn gating_classifies_alike(
    a: PolicyEvaluation,
    b: PolicyEvaluation,
    comparison: ComparisonReport,
    policy: RegressionPolicy,
    gating: RegressionPolicy,
    fractions: OutlierFractions,
    i: int,
)
    requires
        evaluated(a, comparison, policy, fractions),
        evaluated(b, comparison, gating, fractions),
        gating == (RegressionPolicy {
            fail_on_regression: gating.fail_on_regression,
            fail_on_invalid: gating.fail_on_invalid,
            ..policy
        }),
        0 <= i < comparison.matched@.len(),
    ensures
        a.cases@[i].classification == b.cases@[i].classification,
        contents(a.cases@[i].findings@) == contents(b.cases@[i].findings@),
{
    assert(evaluation_of(a.cases@[i], comparison.matched@[i], policy, fractions));
    assert(evaluation_of(b.cases@[i], comparison.matched@[i], gating, fractions));
}

/// A change and its opposite are classified as opposites.
pub proof fn classification_is_symmetric(improvement: DoubleBits, minimum: DoubleBits)
    requires
        minimum.finite(),
        minimum.rank() >= 0,
    ensures
        change_class(Some(improvement.negated()), minimum) == change_class(
            Some(improvement),
            minimum,
        ).mirrored(),
{
    double::negation_reverses(minimum, improvement);
    double::negation_reverses(minimum, improvement.negated());
    double::negation_reverses(improvement, minimum.negated());
    double::negation_reverses(improvement.negated(), minimum.negated());
}

/// A change that is not material stays so under a higher threshold.
pub proof fn higher_thresholds_are_milder(
    improvement: Option<DoubleBits>,
    minimum: DoubleBits,
    higher: DoubleBits,
)
    requires
        minimum.at_most(higher),
        change_class(improvement, minimum) == ChangeClassification::NoMaterialChange,
    ensures
        change_class(improvement, higher) == ChangeClassification::NoMaterialChange,
{
    let value = improvement->0;
    double::negation_reverses(higher, minimum);
    double::negation_reverses(minimum, higher);
    double::negation_reverses(value, minimum);
    double::negation_reverses(value, higher);
}

} // verus!
