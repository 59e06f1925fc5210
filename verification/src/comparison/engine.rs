//! Comparing two reports: what stands in the way, which cases belong
//! together, and how far they are apart.
use crate::comparison;
use crate::comparison::error::{ComparisonError, Obstacle};
use crate::comparison::normalize::{
    NormalizedCase, NormalizedMetric, NormalizedReport, EPSILON_BITS,
};
use crate::comparison::pairing;
use crate::comparison::pairing::{
    list_unpaired_baseline, list_unpaired_current, pair_items, Matchable,
};
use crate::comparison::{
    CaseKey, ComparisonCaseSnapshot, ComparisonOptions, ComparisonReport, ComparisonSide,
    ComparisonSummary, EnvironmentComparison, EnvironmentOverride, MatchedBenchmark,
    MeasurementDirection, MetricComparison, ReportReference, UnmatchedBenchmark,
    COMPARISON_SCHEMA_VERSION,
};
use crate::double;
use crate::double::DoubleBits;
use crate::series::{Validity, ValidityStatus};
use crate::session::BenchmarkResult;
use crate::text;
use vstd::prelude::*;

verus! {

impl Matchable for NormalizedCase {
    type Key = CaseKey;

    open spec fn match_key(&self) -> CaseKey {
        self.identity.key()
    }

    fn matches_with(&self, other: &NormalizedCase) -> (r: bool) {
        self.identity.same(&other.identity)
    }
}

/// What identifies a metric: its name, unit and section.
pub type MetricKey = (Seq<char>, Seq<char>, Seq<char>);

impl Matchable for NormalizedMetric {
    type Key = MetricKey;

    open spec fn match_key(&self) -> MetricKey {
        (self.name@, self.unit@, self.section@)
    }

    fn matches_with(&self, other: &NormalizedMetric) -> (r: bool) {
        text::same(self.name.as_str(), other.name.as_str()) && text::same(
            self.unit.as_str(),
            other.unit.as_str(),
        ) && text::same(self.section.as_str(), other.section.as_str())
    }
}

impl Matchable for BenchmarkResult {
    type Key = CaseKey;

    open spec fn match_key(&self) -> CaseKey {
        comparison::native_key(*self)
    }

    fn matches_with(&self, other: &BenchmarkResult) -> (r: bool) {
        result_identity_matches(self, other)
    }
}

/// Whether two native results are of the same case.
pub fn result_identity_matches(current: &BenchmarkResult, previous: &BenchmarkResult) -> (r: bool)
    ensures
        r == (comparison::native_key(*current) == comparison::native_key(*previous)),
{
    text::same(current.name.as_str(), previous.name.as_str()) && text::same(
        current.group.as_str(),
        previous.group.as_str(),
    ) && current.kind == previous.kind && current.metadata.same(&previous.metadata)
        && current.stats.throughput.same(&previous.stats.throughput)
        && current.stats.measurement_domain == previous.stats.measurement_domain
}

/// The results of two sessions that belong together, by their places.
pub fn pair_results_one_to_one(
    current_results: &Vec<BenchmarkResult>,
    previous_results: &Vec<BenchmarkResult>,
) -> (r: Vec<(usize, usize)>)
    ensures
        pairing::as_pairs(r@) == pairing::pairs_between(
            pairing::keys_of(current_results@),
            pairing::keys_of(previous_results@),
        ),
{
    pair_items(current_results, previous_results)
}

/// The cases of two reports that belong together, by their places.
pub fn pair_normalized_cases(current: &Vec<NormalizedCase>, baseline: &Vec<NormalizedCase>) -> (r:
    Vec<(usize, usize)>)
    ensures
        pairing::as_pairs(r@) == pairing::pairs_between(
            pairing::keys_of(current@),
            pairing::keys_of(baseline@),
        ),
{
    pair_items(current, baseline)
}

/// How far two values are apart.
#[derive(Clone, Copy, Debug, PartialEq, Eq, Structural)]
pub struct Change {
    pub current: DoubleBits,
    pub baseline: DoubleBits,
    /// Current less baseline.
    pub difference: DoubleBits,
    /// The difference in percent of the baseline.
    pub gain_percent: DoubleBits,
    /// Baseline less current, in percent of the baseline.
    pub drop_percent: DoubleBits,
}

/// The changes between the values of two reports.
#[derive(Debug)]
pub struct Changes {
    pub list: Vec<Change>,
}

/// The change last recorded for two values.
pub open spec fn recorded_change(list: Seq<Change>, current: DoubleBits, baseline: DoubleBits) -> Option<
    Change,
>
    decreases list.len(),
{
    if list.len() == 0 {
        None
    } else if list.last().current == current && list.last().baseline == baseline {
        Some(list.last())
    } else {
        recorded_change(list.drop_last(), current, baseline)
    }
}

impl Changes {
    pub open spec fn spec_between(&self, current: DoubleBits, baseline: DoubleBits) -> Option<Change> {
        recorded_change(self.list@, current, baseline)
    }

    pub fn new() -> (r: Changes)
        ensures
            r.list@.len() == 0,
    {
        Changes { list: Vec::new() }
    }

    /// Records a change.
    pub fn record(&mut self, change: Change)
        ensures
            final(self).list@ == old(self).list@.push(change),
            final(self).spec_between(change.current, change.baseline) == Some(change),
            forall|c: DoubleBits, b: DoubleBits|
                c != change.current || b != change.baseline ==> #[trigger] final(self).spec_between(
                    c,
                    b,
                ) == old(self).spec_between(c, b),
    {
        self.list.push(change);
        assert(self.list@.drop_last() =~= old(self).list@);
    }

    /// The change between two values.
    pub fn between(&self, current: DoubleBits, baseline: DoubleBits) -> (r: Option<Change>)
        ensures
            r == self.spec_between(current, baseline),
    {
        let mut count: usize = self.list.len();
        assert(self.list@.take(count as int) =~= self.list@);
        while count > 0
            invariant
                count <= self.list.len(),
                self.spec_between(current, baseline) == recorded_change(
                    self.list@.take(count as int),
                    current,
                    baseline,
                ),
            decreases count,
        {
            let entry = self.list[count - 1];
            assert(self.list@.take(count as int).last() == self.list@[count - 1]);
            assert(self.list@.take(count as int).drop_last() =~= self.list@.take(count - 1));
            if entry.current == current && entry.baseline == baseline {
                return Some(entry);
            }
            count -= 1;
        }
        None
    }
}

/// The change between two values that may be missing.
pub open spec fn change_between(
    current: Option<DoubleBits>,
    baseline: Option<DoubleBits>,
    changes: Changes,
) -> Option<Change> {
    match (current, baseline) {
        (Some(c), Some(b)) => changes.spec_between(c, b),
        _ => None,
    }
}

fn find_change(current: Option<DoubleBits>, baseline: Option<DoubleBits>, changes: &Changes) -> (r:
    Option<Change>)
    ensures
        r == change_between(current, baseline, *changes),
{
    match current {
        Some(c) => match baseline {
            Some(b) => changes.between(c, b),
            None => None,
        },
        None => None,
    }
}

/// The difference of a change, if it is a finite number.
pub open spec fn difference_of(change: Option<Change>) -> Option<DoubleBits> {
    match change {
        Some(change) => double::finite_or_none(change.difference),
        None => None,
    }
}

/// Whether a value is too small to be divided by.
pub open spec fn vanishing(value: DoubleBits) -> bool {
    value.absolute().at_most(DoubleBits { bits: EPSILON_BITS })
}

/// A change in percent of its baseline, if that is a finite number.
pub open spec fn percent_of(change: Option<Change>) -> Option<DoubleBits> {
    match change {
        Some(change) => if vanishing(change.baseline) {
            None
        } else {
            double::finite_or_none(change.gain_percent)
        },
        None => None,
    }
}

/// A change in percent of its baseline, positive for the better.
pub open spec fn improvement_of(change: Option<Change>, direction: MeasurementDirection) -> Option<
    DoubleBits,
> {
    match change {
        Some(change) => if vanishing(change.baseline) {
            None
        } else {
            match direction {
                MeasurementDirection::Higher => double::finite_or_none(change.gain_percent),
                MeasurementDirection::Lower => double::finite_or_none(change.drop_percent),
                MeasurementDirection::Informational => None,
            }
        },
        None => None,
    }
}

pub fn finite_difference(
    current: Option<DoubleBits>,
    baseline: Option<DoubleBits>,
    changes: &Changes,
) -> (r: Option<DoubleBits>)
    ensures
        r == difference_of(change_between(current, baseline, *changes)),
{
    match find_change(current, baseline, changes) {
        Some(change) => double::finite(change.difference),
        None => None,
    }
}

pub fn raw_percent_change(
    current: Option<DoubleBits>,
    baseline: Option<DoubleBits>,
    changes: &Changes,
) -> (r: Option<DoubleBits>)
    ensures
        r == percent_of(change_between(current, baseline, *changes)),
{
    match find_change(current, baseline, changes) {
        Some(change) => {
            if change.baseline.abs().le(DoubleBits { bits: EPSILON_BITS }) {
                return None;
            }
            double::finite(change.gain_percent)
        },
        None => None,
    }
}

pub fn improvement_percent(
    current: Option<DoubleBits>,
    baseline: Option<DoubleBits>,
    direction: MeasurementDirection,
    changes: &Changes,
) -> (r: Option<DoubleBits>)
    ensures
        r == improvement_of(change_between(current, baseline, *changes), direction),
{
    match find_change(current, baseline, changes) {
        Some(change) => {
            if change.baseline.abs().le(DoubleBits { bits: EPSILON_BITS }) {
                return None;
            }
            match direction {
                MeasurementDirection::Higher => double::finite(change.gain_percent),
                MeasurementDirection::Lower => double::finite(change.drop_percent),
                MeasurementDirection::Informational => None,
            }
        },
        None => None,
    }
}

/// The evidence of a case.
pub open spec fn snapshot_of(snapshot: ComparisonCaseSnapshot, case: NormalizedCase) -> bool {
    &&& snapshot.primary.like(&case.primary)
    &&& snapshot.statistics == case.statistics
    &&& snapshot.native == case.native
    &&& snapshot.validity == case.validity
    &&& snapshot.provenance@ == case.provenance@
}

pub fn comparison_snapshot(case: &NormalizedCase) -> (r: ComparisonCaseSnapshot)
    ensures
        snapshot_of(r, *case),
{
    ComparisonCaseSnapshot {
        primary: case.primary.duplicate(),
        statistics: case.statistics,
        native: case.native,
        validity: case.validity.duplicate(),
        provenance: case.provenance.duplicate(),
    }
}

/// A case that is found on one side only.
pub open spec fn unmatched_of(unmatched: UnmatchedBenchmark, case: NormalizedCase) -> bool {
    &&& unmatched.identity.key() == case.identity.key()
    &&& snapshot_of(unmatched.measurement, case)
}

pub fn unmatched_benchmark(case: &NormalizedCase) -> (r: UnmatchedBenchmark)
    ensures
        unmatched_of(r, *case),
{
    UnmatchedBenchmark {
        identity: case.identity.duplicate(),
        measurement: comparison_snapshot(case),
    }
}

/// What makes one side of a case unfit for comparison, if anything does.
pub open spec fn side_warning(side: ComparisonSide, case: NormalizedCase) -> Seq<Seq<char>> {
    if case.validity.status != ValidityStatus::Valid {
        seq![side.text() + " result is invalid: "@ + case.validity.reason_text()]
    } else if case.primary.value is None {
        seq![side.text() + " primary measurement is not finite"@]
    } else {
        seq![]
    }
}

/// The warnings of a matched case.
pub open spec fn warnings_of(current: NormalizedCase, baseline: NormalizedCase) -> Seq<Seq<char>> {
    side_warning(ComparisonSide::Current, current) + side_warning(
        ComparisonSide::Baseline,
        baseline,
    )
}

fn push_warning(warnings: &mut Vec<String>, side: ComparisonSide, case: &NormalizedCase)
    ensures
        text::texts(final(warnings)@) == text::texts(old(warnings)@) + side_warning(side, *case),
{
    let ghost before = text::texts(warnings@);
    if !case.validity.is_valid() {
        let mut warning = side.name().to_owned();
        warning.append(" result is invalid: ");
        warning.append(case.validity.reason_or_default().as_str());
        warnings.push(warning);
        assert(text::texts(warnings@) =~= before + side_warning(side, *case));
    } else if case.primary.value.is_none() {
        let mut warning = side.name().to_owned();
        warning.append(" primary measurement is not finite");
        warnings.push(warning);
        assert(text::texts(warnings@) =~= before + side_warning(side, *case));
    } else {
        assert(text::texts(warnings@) =~= before + side_warning(side, *case));
    }
}

/// The comparison of a metric that both sides report.
pub open spec fn metric_change_of(
    change: MetricComparison,
    current: NormalizedMetric,
    baseline: NormalizedMetric,
    changes: Changes,
) -> bool {
    &&& change.name@ == current.name@
    &&& change.unit@ == current.unit@
    &&& change.section@ == current.section@
    &&& change.display_name@ == current.display_name@
    &&& change.format == current.format
    &&& change.current_median == current.median
    &&& change.baseline_median == baseline.median
    &&& change.absolute_change == difference_of(
        change_between(current.median, baseline.median, changes),
    )
    &&& change.percent_change == percent_of(
        change_between(current.median, baseline.median, changes),
    )
}

/// The pairs of metrics of two cases.
pub open spec fn metric_pairs(current: NormalizedCase, baseline: NormalizedCase) -> Seq<(int, int)> {
    pairing::pairs_between(
        pairing::keys_of(current.metrics@),
        pairing::keys_of(baseline.metrics@),
    )
}

/// The comparison of all metrics that both sides report.
pub open spec fn metric_changes_of(
    list: Seq<MetricComparison>,
    current: NormalizedCase,
    baseline: NormalizedCase,
    changes: Changes,
) -> bool {
    let pairs = metric_pairs(current, baseline);
    &&& list.len() == pairs.len()
    &&& forall|k: int|
        0 <= k < pairs.len() ==> metric_change_of(
            #[trigger] list[k],
            current.metrics@[pairs[k].0],
            baseline.metrics@[pairs[k].1],
            changes,
        )
}

pub fn compare_metrics(current: &NormalizedCase, baseline: &NormalizedCase, changes: &Changes) -> (r:
    Vec<MetricComparison>)
    ensures
        metric_changes_of(r@, *current, *baseline, *changes),
{
    let pairs = pair_items(&current.metrics, &baseline.metrics);
    let ghost view = metric_pairs(*current, *baseline);
    let mut r: Vec<MetricComparison> = Vec::new();
    let mut k: usize = 0;
    while k < pairs.len()
        invariant
            k <= pairs.len(),
            view == metric_pairs(*current, *baseline),
            pairing::as_pairs(pairs@) == view,
            r@.len() == k,
            forall|l: int|
                0 <= l < k ==> metric_change_of(
                    #[trigger] r@[l],
                    current.metrics@[view[l].0],
                    baseline.metrics@[view[l].1],
                    *changes,
                ),
        decreases pairs.len() - k,
    {
        proof {
            assert(view[k as int] == (pairs@[k as int].0 as int, pairs@[k as int].1 as int));
            pairing::pairs_share_keys(
                pairing::keys_of(current.metrics@),
                pairing::keys_of(baseline.metrics@),
                k as int,
            );
        }
        let a = &current.metrics[pairs[k].0];
        let b = &baseline.metrics[pairs[k].1];
        r.push(
            MetricComparison {
                name: a.name.clone(),
                unit: a.unit.clone(),
                section: a.section.clone(),
                display_name: a.display_name.clone(),
                format: a.format,
                current_median: a.median,
                baseline_median: b.median,
                absolute_change: finite_difference(a.median, b.median, changes),
                percent_change: raw_percent_change(a.median, b.median, changes),
            },
        );
        k += 1;
    }
    r
}

/// The comparison of a case that is found on both sides.
pub open spec fn matched_of(
    matched: MatchedBenchmark,
    current: NormalizedCase,
    baseline: NormalizedCase,
    changes: Changes,
) -> bool {
    let change = change_between(current.primary.value, baseline.primary.value, changes);
    &&& matched.identity.key() == current.identity.key()
    &&& snapshot_of(matched.current, current)
    &&& snapshot_of(matched.baseline, baseline)
    &&& matched.absolute_change == difference_of(change)
    &&& matched.percent_improvement == improvement_of(change, current.primary.direction)
    &&& text::texts(matched.stability_warnings@) == warnings_of(current, baseline)
    &&& metric_changes_of(matched.metric_changes@, current, baseline, changes)
}

pub fn matched_benchmark(current: &NormalizedCase, baseline: &NormalizedCase, changes: &Changes) -> (r:
    MatchedBenchmark)
    ensures
        matched_of(r, *current, *baseline, *changes),
{
    let mut stability_warnings: Vec<String> = Vec::new();
    push_warning(&mut stability_warnings, ComparisonSide::Current, current);
    push_warning(&mut stability_warnings, ComparisonSide::Baseline, baseline);
    assert(text::texts(stability_warnings@) =~= warnings_of(*current, *baseline));
    MatchedBenchmark {
        identity: current.identity.duplicate(),
        current: comparison_snapshot(current),
        baseline: comparison_snapshot(baseline),
        absolute_change: finite_difference(current.primary.value, baseline.primary.value, changes),
        percent_improvement: improvement_percent(
            current.primary.value,
            baseline.primary.value,
            current.primary.direction,
            changes,
        ),
        stability_warnings,
        metric_changes: compare_metrics(current, baseline, changes),
    }
}

/// What decides whether a report can be compared with another.
pub ghost struct Standing {
    pub suite: Seq<char>,
    pub runner: Seq<char>,
    pub environment: Map<Seq<char>, Seq<char>>,
    /// Why the report is invalid as a whole, if it is.
    pub invalid: Option<Seq<char>>,
    /// What identifies its cases.
    pub keys: Seq<CaseKey>,
}

/// Why evidence is invalid, if it is.
pub open spec fn invalidity(validity: Validity) -> Option<Seq<char>> {
    if validity.status == ValidityStatus::Invalid {
        Some(validity.reason_text())
    } else {
        None
    }
}

impl NormalizedReport {
    pub open spec fn standing(&self) -> Standing {
        Standing {
            suite: self.suite@,
            runner: self.runner_id@,
            environment: self.environment@,
            invalid: invalidity(self.validity),
            keys: pairing::keys_of(self.cases@),
        }
    }
}

/// Whether a runner is not known: it is blank or called unknown.
pub open spec fn unknown_runner(runner: Seq<char>) -> bool {
    text::blank(runner) || text::ascii_lower_all(runner) == text::ascii_lower_all("unknown"@)
}

pub fn validate_runner(runner: &str, side: ComparisonSide) -> (r: Result<(), ComparisonError>)
    ensures
        r is Err == unknown_runner(runner@),
        r matches Err(e) ==> e@ == (Obstacle::UnknownRunner { side }),
{
    if text::is_blank(runner) || text::same_ignoring_case(runner, "unknown") {
        return Err(ComparisonError::UnknownRunner { side });
    }
    Ok(())
}

/// Evidence that is invalid as a whole cannot be compared.
pub open spec fn validity_obstacle(invalid: Option<Seq<char>>, side: ComparisonSide) -> Option<Obstacle> {
    match invalid {
        Some(reason) => Some(Obstacle::Invalid { side, reason }),
        None => None,
    }
}

pub fn validate_report_validity(validity: &Validity, side: ComparisonSide) -> (r: Result<
    (),
    ComparisonError,
>)
    ensures
        r is Err == validity_obstacle(invalidity(*validity), side) is Some,
        r matches Err(e) ==> e@ == validity_obstacle(invalidity(*validity), side)->0,
{
    if !validity.is_valid() {
        return Err(ComparisonError::InvalidReport { side, reason: validity.reason_or_default() });
    }
    Ok(())
}

/// Whether a key occurs before place `i`.
pub open spec fn repeats<K>(keys: Seq<K>, i: int) -> bool {
    exists|j: int| 0 <= j < i && #[trigger] keys[j] == keys[i]
}

/// The first place from `from` on whose key occurred before.
pub open spec fn first_repeat<K>(keys: Seq<K>, from: int) -> Option<int>
    decreases keys.len() - from,
{
    if from < 0 || from >= keys.len() {
        None
    } else if repeats(keys, from) {
        Some(from)
    } else {
        first_repeat(keys, from + 1)
    }
}

/// A list has a repeated key exactly when its keys are not distinct.
pub proof fn no_repeat_means_distinct<K>(keys: Seq<K>)
    ensures
        first_repeat(keys, 0) is None <==> pairing::distinct(keys),
{
    repeat_facts(keys, 0);
    if first_repeat(keys, 0) is None {
        assert forall|i: int, j: int| 0 <= i < j < keys.len() implies #[trigger] keys[i]
            != #[trigger] keys[j] by {
            assert(!repeats(keys, j));
        }
    }
    if pairing::distinct(keys) {
        assert forall|i: int| 0 <= i < keys.len() implies !#[trigger] repeats(keys, i) by {
            if repeats(keys, i) {
                let j = choose|j: int| 0 <= j < i && #[trigger] keys[j] == keys[i];
                assert(keys[j] != keys[i]);
            }
        }
    }
}

proof fn repeat_facts<K>(keys: Seq<K>, from: int)
    requires
        0 <= from,
    ensures
        first_repeat(keys, from) is None ==> forall|i: int|
            from <= i < keys.len() ==> !#[trigger] repeats(keys, i),
        first_repeat(keys, from) matches Some(i) ==> from <= i < keys.len() && repeats(keys, i),
    decreases keys.len() - from,
{
    if from < keys.len() {
        repeat_facts(keys, from + 1);
    }
}

/// A case that occurs twice in one report.
pub open spec fn duplicate_obstacle(keys: Seq<CaseKey>, side: ComparisonSide) -> Option<Obstacle> {
    match first_repeat(keys, 0) {
        Some(i) => Some(Obstacle::Duplicate { side, key: keys[i] }),
        None => None,
    }
}

fn occurs_before(cases: &Vec<NormalizedCase>, index: usize) -> (r: bool)
    requires
        index < cases@.len(),
    ensures
        r == repeats(pairing::keys_of(cases@), index as int),
{
    let ghost keys = pairing::keys_of(cases@);
    let mut j: usize = 0;
    while j < index
        invariant
            j <= index < cases@.len(),
            keys == pairing::keys_of(cases@),
            forall|m: int| 0 <= m < j ==> #[trigger] keys[m] != keys[index as int],
        decreases index - j,
    {
        assert(keys[j as int] == cases@[j as int].identity.key());
        assert(keys[index as int] == cases@[index as int].identity.key());
        if cases[index].identity.same(&cases[j].identity) {
            assert(repeats(keys, index as int));
            return true;
        }
        j += 1;
    }
    false
}

pub fn reject_duplicate_identities(cases: &Vec<NormalizedCase>, side: ComparisonSide) -> (r: Result<
    (),
    ComparisonError,
>)
    ensures
        r is Err == duplicate_obstacle(pairing::keys_of(cases@), side) is Some,
        r matches Err(e) ==> e@ == duplicate_obstacle(pairing::keys_of(cases@), side)->0,
{
    let ghost keys = pairing::keys_of(cases@);
    let mut index: usize = 0;
    while index < cases.len()
        invariant
            index <= cases.len(),
            keys == pairing::keys_of(cases@),
            first_repeat(keys, 0) == first_repeat(keys, index as int),
        decreases cases.len() - index,
    {
        if occurs_before(cases, index) {
            return Err(
                ComparisonError::DuplicateIdentity {
                    side,
                    identity: cases[index].identity.duplicate(),
                },
            );
        }
        index += 1;
    }
    Ok(())
}

/// Why two runners or environments cannot be compared.
pub open spec fn environment_obstacle(
    current: Standing,
    baseline: Standing,
    options: ComparisonOptions,
) -> Option<Obstacle> {
    match options.environment_override {
        Some(given) => if text::blank(given.reason@) {
            Some(Obstacle::BlankOverride)
        } else {
            None
        },
        None => if current.runner != baseline.runner {
            Some(
                Obstacle::RunnersDiffer {
                    current: current.runner,
                    baseline: baseline.runner,
                },
            )
        } else if current.environment != baseline.environment {
            Some(
                Obstacle::EnvironmentsDiffer {
                    current: current.environment,
                    baseline: baseline.environment,
                },
            )
        } else {
            None
        },
    }
}

/// The pairs of cases of two reports.
pub open spec fn case_pairs(current: Standing, baseline: Standing) -> Seq<(int, int)> {
    pairing::pairs_between(
        current.keys,
        baseline.keys,
    )
}

/// The cases of the current report that the baseline does not have.
pub open spec fn added_cases(current: Standing, baseline: Standing) -> Seq<int> {
    pairing::unpaired_current(case_pairs(current, baseline), current.keys.len() as int)
}

/// The cases of the baseline that the current report does not have.
pub open spec fn removed_cases(current: Standing, baseline: Standing) -> Seq<int> {
    pairing::unpaired_baseline(case_pairs(current, baseline), baseline.keys.len() as int)
}

/// Whether the sets of results differ where they may not.
pub open spec fn result_set_obstacle(
    current: Standing,
    baseline: Standing,
    options: ComparisonOptions,
) -> Option<Obstacle> {
    let added = added_cases(current, baseline).len();
    let removed = removed_cases(current, baseline).len();
    if !options.allow_partial_result_set && (added > 0 || removed > 0) {
        Some(Obstacle::ResultSetsDiffer { added, removed })
    } else {
        None
    }
}

/// The first of two obstacles.
pub open spec fn first_obstacle(a: Option<Obstacle>, b: Option<Obstacle>) -> Option<Obstacle> {
    if a is Some {
        a
    } else {
        b
    }
}

/// What stands in the way before the cases are looked at.
pub open spec fn report_obstacle(
    current: Standing,
    baseline: Standing,
    options: ComparisonOptions,
) -> Option<Obstacle> {
    first_obstacle(
        validity_obstacle(current.invalid, ComparisonSide::Current),
        first_obstacle(
            validity_obstacle(baseline.invalid, ComparisonSide::Baseline),
            if current.suite != baseline.suite {
                Some(Obstacle::SuitesDiffer { current: current.suite, baseline: baseline.suite })
            } else if unknown_runner(current.runner) {
                Some(Obstacle::UnknownRunner { side: ComparisonSide::Current })
            } else if unknown_runner(baseline.runner) {
                Some(Obstacle::UnknownRunner { side: ComparisonSide::Baseline })
            } else {
                environment_obstacle(current, baseline, options)
            },
        ),
    )
}

/// What stands in the way of a comparison, if anything: the first of these.
pub open spec fn obstacle_between(
    current: Standing,
    baseline: Standing,
    options: ComparisonOptions,
) -> Option<Obstacle> {
    first_obstacle(
        report_obstacle(current, baseline, options),
        first_obstacle(
            duplicate_obstacle(current.keys, ComparisonSide::Current),
            first_obstacle(
                duplicate_obstacle(baseline.keys, ComparisonSide::Baseline),
                result_set_obstacle(current, baseline, options),
            ),
        ),
    )
}

/// How the environments of two reports relate.
pub open spec fn environments_of(
    environment: EnvironmentComparison,
    current: NormalizedReport,
    baseline: NormalizedReport,
    options: ComparisonOptions,
) -> bool {
    &&& environment.current_runner_id@ == current.runner_id@
    &&& environment.baseline_runner_id@ == baseline.runner_id@
    &&& environment.current_environment@ == current.environment@
    &&& environment.baseline_environment@ == baseline.environment@
    &&& environment.exact_match == (current.runner_id@ == baseline.runner_id@
        && current.environment@ == baseline.environment@)
    &&& environment.operator_override == options.environment_override
}

fn clone_override(given: &Option<EnvironmentOverride>) -> (r: Option<EnvironmentOverride>)
    ensures
        r == *given,
{
    match given {
        Some(given) => Some(EnvironmentOverride { reason: given.reason.clone() }),
        None => None,
    }
}

fn check_environments(
    current: &NormalizedReport,
    baseline: &NormalizedReport,
    options: &ComparisonOptions,
) -> (r: Result<EnvironmentComparison, ComparisonError>)
    ensures
        r is Err == environment_obstacle(current.standing(), baseline.standing(), *options) is Some,
        r matches Err(e) ==> e@ == environment_obstacle(current.standing(), baseline.standing(), *options)->0,
        r matches Ok(environment) ==> environments_of(environment, *current, *baseline, *options),
{
    let runner_matches = text::same(current.runner_id.as_str(), baseline.runner_id.as_str());
    let environment_matches = current.environment.same(&baseline.environment);
    match &options.environment_override {
        Some(given) => {
            if text::is_blank(given.reason.as_str()) {
                return Err(ComparisonError::InvalidEnvironmentOverride);
            }
        },
        None => {
            if !runner_matches {
                return Err(
                    ComparisonError::RunnerMismatch {
                        current: current.runner_id.clone(),
                        baseline: baseline.runner_id.clone(),
                    },
                );
            }
            if !environment_matches {
                return Err(
                    ComparisonError::EnvironmentMismatch {
                        current: current.environment.duplicate(),
                        baseline: baseline.environment.duplicate(),
                    },
                );
            }
        },
    }
    Ok(
        EnvironmentComparison {
            current_runner_id: current.runner_id.clone(),
            baseline_runner_id: baseline.runner_id.clone(),
            current_environment: current.environment.duplicate(),
            baseline_environment: baseline.environment.duplicate(),
            exact_match: runner_matches && environment_matches,
            operator_override: clone_override(&options.environment_override),
        },
    )
}

fn check_reports(
    current: &NormalizedReport,
    baseline: &NormalizedReport,
    options: &ComparisonOptions,
) -> (r: Result<EnvironmentComparison, ComparisonError>)
    ensures
        r is Err == report_obstacle(current.standing(), baseline.standing(), *options) is Some,
        r matches Err(e) ==> e@ == report_obstacle(current.standing(), baseline.standing(), *options)->0,
        r matches Ok(environment) ==> environments_of(environment, *current, *baseline, *options),
{
    validate_report_validity(&current.validity, ComparisonSide::Current)?;
    validate_report_validity(&baseline.validity, ComparisonSide::Baseline)?;
    if !text::same(current.suite.as_str(), baseline.suite.as_str()) {
        return Err(
            ComparisonError::SuiteMismatch {
                current: current.suite.clone(),
                baseline: baseline.suite.clone(),
            },
        );
    }
    validate_runner(current.runner_id.as_str(), ComparisonSide::Current)?;
    validate_runner(baseline.runner_id.as_str(), ComparisonSide::Baseline)?;
    check_environments(current, baseline, options)
}

/// The matched cases of a comparison, in the order of the current report.
pub open spec fn matched_list(
    list: Seq<MatchedBenchmark>,
    current: NormalizedReport,
    baseline: NormalizedReport,
    changes: Changes,
) -> bool {
    let pairs = case_pairs(current.standing(), baseline.standing());
    &&& list.len() == pairs.len()
    &&& forall|k: int|
        0 <= k < pairs.len() ==> matched_of(
            #[trigger] list[k],
            current.cases@[pairs[k].0],
            baseline.cases@[pairs[k].1],
            changes,
        )
}

/// The cases at some places, as unmatched ones.
pub open spec fn unmatched_list(
    list: Seq<UnmatchedBenchmark>,
    cases: Seq<NormalizedCase>,
    places: Seq<int>,
) -> bool {
    &&& list.len() == places.len()
    &&& forall|k: int|
        0 <= k < places.len() ==> unmatched_of(#[trigger] list[k], cases[places[k]])
}

/// Whether a report is the comparison of two others.
pub open spec fn comparison_of(
    report: ComparisonReport,
    current: NormalizedReport,
    current_reference: ReportReference,
    baseline: NormalizedReport,
    baseline_reference: ReportReference,
    options: ComparisonOptions,
    changes: Changes,
) -> bool {
    &&& report.schema_version == COMPARISON_SCHEMA_VERSION
    &&& report.current.like(&current_reference)
    &&& report.baseline.like(&baseline_reference)
    &&& report.suite@ == current.suite@
    &&& environments_of(report.environment, current, baseline, options)
    &&& matched_list(report.matched@, current, baseline, changes)
    &&& unmatched_list(report.added@, current.cases@, added_cases(current.standing(), baseline.standing()))
    &&& unmatched_list(report.removed@, baseline.cases@, removed_cases(current.standing(), baseline.standing()))
    &&& report.summary.matched == report.matched@.len()
    &&& report.summary.added == report.added@.len()
    &&& report.summary.removed == report.removed@.len()
}

fn match_cases(
    current: &NormalizedReport,
    baseline: &NormalizedReport,
    pairs: &Vec<(usize, usize)>,
    changes: &Changes,
) -> (r: Vec<MatchedBenchmark>)
    requires
        pairing::as_pairs(pairs@) == case_pairs(current.standing(), baseline.standing()),
    ensures
        matched_list(r@, *current, *baseline, *changes),
{
    let ghost view = case_pairs(current.standing(), baseline.standing());
    let mut r: Vec<MatchedBenchmark> = Vec::new();
    let mut k: usize = 0;
    while k < pairs.len()
        invariant
            k <= pairs.len(),
            view == case_pairs(current.standing(), baseline.standing()),
            pairing::as_pairs(pairs@) == view,
            r@.len() == k,
            forall|l: int|
                0 <= l < k ==> matched_of(
                    #[trigger] r@[l],
                    current.cases@[view[l].0],
                    baseline.cases@[view[l].1],
                    *changes,
                ),
        decreases pairs.len() - k,
    {
        proof {
            assert(view[k as int] == (pairs@[k as int].0 as int, pairs@[k as int].1 as int));
            pairing::pairs_share_keys(
                pairing::keys_of(current.cases@),
                pairing::keys_of(baseline.cases@),
                k as int,
            );
        }
        r.push(
            matched_benchmark(
                &current.cases[pairs[k].0],
                &baseline.cases[pairs[k].1],
                changes,
            ),
        );
        k += 1;
    }
    r
}

fn unmatched_cases(cases: &Vec<NormalizedCase>, places: &Vec<usize>) -> (r: Vec<UnmatchedBenchmark>)
    requires
        forall|k: int| 0 <= k < places@.len() ==> (#[trigger] places@[k]) < cases@.len(),
    ensures
        unmatched_list(r@, cases@, places@.map_values(|i: usize| i as int)),
{
    let mut r: Vec<UnmatchedBenchmark> = Vec::new();
    let mut k: usize = 0;
    while k < places.len()
        invariant
            k <= places.len(),
            forall|k: int| 0 <= k < places@.len() ==> (#[trigger] places@[k]) < cases@.len(),
            r@.len() == k,
            forall|l: int|
                0 <= l < k ==> unmatched_of(#[trigger] r@[l], cases@[places@[l] as int]),
        decreases places.len() - k,
    {
        r.push(unmatched_benchmark(&cases[places[k]]));
        k += 1;
    }
    r
}

/// Pairs and what is left over name cases that are there.
pub proof fn places_in_range(current: Standing, baseline: Standing)
    ensures
        forall|k: int|
            0 <= k < case_pairs(current, baseline).len() ==> 0 <= (#[trigger] case_pairs(
                current,
                baseline,
            )[k]).0 < current.keys.len() && 0 <= case_pairs(current, baseline)[k].1
                < baseline.keys.len(),
        forall|k: int|
            0 <= k < added_cases(current, baseline).len() ==> 0 <= #[trigger] added_cases(
                current,
                baseline,
            )[k] < current.keys.len(),
        forall|k: int|
            0 <= k < removed_cases(current, baseline).len() ==> 0 <= #[trigger] removed_cases(
                current,
                baseline,
            )[k] < baseline.keys.len(),
{
    let pairs = case_pairs(current, baseline);
    assert forall|k: int| 0 <= k < pairs.len() implies 0 <= (#[trigger] pairs[k]).0
        < current.keys.len() && 0 <= pairs[k].1 < baseline.keys.len() by {
        pairing::pairs_share_keys(
            current.keys,
            baseline.keys,
            k,
        );
    }
    let added = added_cases(current, baseline);
    assert forall|k: int| 0 <= k < added.len() implies 0 <= #[trigger] added[k]
        < current.keys.len() by {
        pairing::left_over_is_unpaired(pairs, current.keys.len() as int, k);
    }
    let removed = removed_cases(current, baseline);
    assert forall|k: int| 0 <= k < removed.len() implies 0 <= #[trigger] removed[k]
        < baseline.keys.len() by {
        pairing::left_over_is_unpaired(pairs, baseline.keys.len() as int, k);
    }
}

pub fn compare_normalized_reports(
    current: &NormalizedReport,
    current_reference: &ReportReference,
    baseline: &NormalizedReport,
    baseline_reference: &ReportReference,
    options: &ComparisonOptions,
    changes: &Changes,
) -> (r: Result<ComparisonReport, ComparisonError>)
    ensures
        r is Err == obstacle_between(current.standing(), baseline.standing(), *options) is Some,
        r matches Err(e) ==> e@ == obstacle_between(current.standing(), baseline.standing(), *options)->0,
        r matches Ok(report) ==> comparison_of(
            report,
            *current,
            *current_reference,
            *baseline,
            *baseline_reference,
            *options,
            *changes,
        ),
{
    let environment = match check_reports(current, baseline, options) {
        Ok(environment) => environment,
        Err(error) => {
            return Err(error);
        },
    };
    reject_duplicate_identities(&current.cases, ComparisonSide::Current)?;
    reject_duplicate_identities(&baseline.cases, ComparisonSide::Baseline)?;
    let pairs = pair_normalized_cases(&current.cases, &baseline.cases);
    let ghost view = case_pairs(current.standing(), baseline.standing());
    proof {
        places_in_range(current.standing(), baseline.standing());
        assert forall|k: int| 0 <= k < pairs@.len() implies (#[trigger] pairs@[k]).0
            < current.cases@.len() && pairs@[k].1 < baseline.cases@.len() by {
            assert(view[k] == (pairs@[k].0 as int, pairs@[k].1 as int));
        }
    }
    let matched = match_cases(current, baseline, &pairs, changes);
    let added_places = list_unpaired_current(&pairs, current.cases.len());
    let removed_places = list_unpaired_baseline(&pairs, baseline.cases.len());
    proof {
        assert forall|k: int| 0 <= k < added_places@.len() implies (#[trigger] added_places@[k])
            < current.cases@.len() by {
            assert(added_cases(current.standing(), baseline.standing())[k] == added_places@[k]);
        }
        assert forall|k: int| 0 <= k < removed_places@.len() implies (#[trigger] removed_places@[k])
            < baseline.cases@.len() by {
            assert(removed_cases(current.standing(), baseline.standing())[k] == removed_places@[k]);
        }
    }
    let added = unmatched_cases(&current.cases, &added_places);
    let removed = unmatched_cases(&baseline.cases, &removed_places);
    if !options.allow_partial_result_set && (added.len() > 0 || removed.len() > 0) {
        return Err(
            ComparisonError::ResultSetMismatch { added: added.len(), removed: removed.len() },
        );
    }
    let summary = ComparisonSummary {
        matched: matched.len(),
        added: added.len(),
        removed: removed.len(),
    };
    Ok(
        ComparisonReport {
            schema_version: COMPARISON_SCHEMA_VERSION,
            current: current_reference.duplicate(),
            baseline: baseline_reference.duplicate(),
            suite: current.suite.clone(),
            environment,
            matched,
            added,
            removed,
            summary,
        },
    )
}

} // verus!
