//! How a result moved since an earlier session, and what that suggests.
use crate::comparison::engine;
use crate::comparison::engine::Changes;
use crate::comparison::normalize::EPSILON_BITS;
use crate::double::DoubleBits;
use crate::numbers::{NumberStyle, NumberTexts};
use crate::session::BenchmarkStats;
use crate::table;
use crate::table::colorize_if;
use crate::text;
use vstd::prelude::*;

verus! {

/// The bit pattern of one.
pub const ONE_BITS: u64 = 0x3ff0_0000_0000_0000;

/// The bit pattern of two.
pub const TWO_BITS: u64 = 0x4000_0000_0000_0000;

/// The bit pattern of five.
pub const FIVE_BITS: u64 = 0x4014_0000_0000_0000;

/// The bit pattern of ten.
pub const TEN_BITS: u64 = 0x4024_0000_0000_0000;

/// The bit pattern of twenty.
pub const TWENTY_BITS: u64 = 0x4034_0000_0000_0000;

/// Whether a change in percent makes sense: both values are finite and the
/// earlier one is not next to zero.
pub open spec fn comparable(current: DoubleBits, previous: DoubleBits) -> bool {
    current.finite() && previous.finite() && !engine::vanishing(previous)
}

fn are_comparable(current: DoubleBits, previous: DoubleBits) -> (r: bool)
    ensures
        r == comparable(current, previous),
{
    current.is_finite() && previous.is_finite() && !previous.abs().le(
        DoubleBits { bits: EPSILON_BITS },
    )
}

/// The change of a value in percent of the earlier one.
pub open spec fn percent_change(current: DoubleBits, previous: DoubleBits, changes: &Changes) -> Option<
    DoubleBits,
> {
    match changes.spec_between(current, previous) {
        Some(change) => if comparable(current, previous) {
            Some(change.gain_percent)
        } else {
            None
        },
        None => None,
    }
}

pub fn safe_percent_change(current: DoubleBits, previous: DoubleBits, changes: &Changes) -> (r:
    Option<DoubleBits>)
    ensures
        r == percent_change(current, previous, changes),
{
    if !are_comparable(current, previous) {
        return None;
    }
    match changes.between(current, previous) {
        Some(change) => Some(change.gain_percent),
        None => None,
    }
}

/// The change of a value in percent of the earlier one, positive for the better.
pub open spec fn improvement_change(
    current: DoubleBits,
    previous: DoubleBits,
    lower_is_better: bool,
    changes: &Changes,
) -> Option<DoubleBits> {
    match changes.spec_between(current, previous) {
        Some(change) => if comparable(current, previous) {
            Some(
                if lower_is_better {
                    change.drop_percent
                } else {
                    change.gain_percent
                },
            )
        } else {
            None
        },
        None => None,
    }
}

pub fn safe_improvement_percent(
    current: DoubleBits,
    previous: DoubleBits,
    lower_is_better: bool,
    changes: &Changes,
) -> (r: Option<DoubleBits>)
    ensures
        r == improvement_change(current, previous, lower_is_better, changes),
{
    if !are_comparable(current, previous) {
        return None;
    }
    match changes.between(current, previous) {
        Some(change) => Some(
            if lower_is_better {
                change.drop_percent
            } else {
                change.gain_percent
            },
        ),
        None => None,
    }
}

/// A change as text: nothing below one percent, else with its sign, in colour
/// on a terminal.
pub open spec fn change_text(terminal: bool, change: Option<DoubleBits>, numbers: &NumberTexts) -> Seq<char> {
    match change {
        None => "n/a"@,
        Some(change) => if change.absolute().below(DoubleBits { bits: ONE_BITS }) {
            "~0%"@
        } else if (DoubleBits { bits: 0 }).below(change) {
            table::colored_if(
                terminal,
                "32"@,
                "+"@ + numbers.spec_text(change, NumberStyle::Fixed { places: 1 }) + "%"@,
            )
        } else {
            table::colored_if(
                terminal,
                "31"@,
                numbers.spec_text(change, NumberStyle::Fixed { places: 1 }) + "%"@,
            )
        },
    }
}

pub fn format_percent_change(terminal: bool, change: Option<DoubleBits>, numbers: &NumberTexts) -> (r:
    String)
    ensures
        r@ == change_text(terminal, change, numbers),
{
    match change {
        None => "n/a".to_owned(),
        Some(change) => {
            if change.abs().lt(DoubleBits { bits: ONE_BITS }) {
                "~0%".to_owned()
            } else if change.gt(DoubleBits { bits: 0 }) {
                let mut shown = "+".to_owned();
                shown.append(numbers.text(change, NumberStyle::Fixed { places: 1 }).as_str());
                shown.append("%");
                colorize_if(terminal, "32", shown.as_str())
            } else {
                let mut shown = numbers.text(change, NumberStyle::Fixed { places: 1 });
                shown.append("%");
                colorize_if(terminal, "31", shown.as_str())
            }
        },
    }
}

pub fn format_improvement(terminal: bool, change: Option<DoubleBits>, numbers: &NumberTexts) -> (r:
    String)
    ensures
        r@ == change_text(terminal, change, numbers),
{
    format_percent_change(terminal, change, numbers)
}

/// A counter value that was measured and is not negative.
pub open spec fn measured(available: bool, value: DoubleBits) -> Option<DoubleBits> {
    if available && value.finite() && value.rank() >= 0 {
        Some(value)
    } else {
        None
    }
}

fn measured_value(available: bool, value: DoubleBits) -> (r: Option<DoubleBits>)
    ensures
        r == measured(available, value),
{
    if available && value.is_finite() && value.ge(DoubleBits { bits: 0 }) {
        Some(value)
    } else {
        None
    }
}

/// The instructions per cycle, where they were measured.
pub open spec fn ipc_of(stats: BenchmarkStats) -> Option<DoubleBits> {
    if stats.has_cycles && stats.has_instructions && stats.ipc.finite() && stats.ipc.rank() > 0 {
        Some(stats.ipc)
    } else {
        None
    }
}

pub fn pmu_ipc(stats: &BenchmarkStats) -> (r: Option<DoubleBits>)
    ensures
        r == ipc_of(*stats),
{
    if stats.has_cycles && stats.has_instructions && stats.ipc.is_finite() && stats.ipc.gt(
        DoubleBits { bits: 0 },
    ) {
        Some(stats.ipc)
    } else {
        None
    }
}

/// The branch miss rate, where it was measured.
pub open spec fn branch_misses_of(stats: BenchmarkStats) -> Option<DoubleBits> {
    measured(stats.has_branches && stats.has_branch_misses, stats.branch_miss_rate)
}

pub fn pmu_branch_miss_metric(stats: &BenchmarkStats) -> (r: Option<DoubleBits>)
    ensures
        r == branch_misses_of(*stats),
{
    measured_value(stats.has_branches && stats.has_branch_misses, stats.branch_miss_rate)
}

/// The cache miss rate, or else the cache misses of an operation.
pub open spec fn cache_of(stats: BenchmarkStats) -> Option<DoubleBits> {
    if stats.has_cache_references && stats.has_cache_misses {
        measured(true, stats.cache_miss_percent)
    } else {
        measured(stats.has_cache_misses, stats.cache_misses_per_op)
    }
}

pub fn pmu_cache_metric(stats: &BenchmarkStats) -> (r: Option<DoubleBits>)
    ensures
        r == cache_of(*stats),
{
    if stats.has_cache_references && stats.has_cache_misses {
        return measured_value(true, stats.cache_miss_percent);
    }
    measured_value(stats.has_cache_misses, stats.cache_misses_per_op)
}

/// The share of cycles in which the frontend stalled.
pub open spec fn frontend_of(stats: BenchmarkStats) -> Option<DoubleBits> {
    measured(stats.has_cycles && stats.has_stalled_cycles_frontend, stats.frontend_stall_percent)
}

pub fn pmu_frontend_stall_metric(stats: &BenchmarkStats) -> (r: Option<DoubleBits>)
    ensures
        r == frontend_of(*stats),
{
    measured_value(
        stats.has_cycles && stats.has_stalled_cycles_frontend,
        stats.frontend_stall_percent,
    )
}

/// The share of cycles in which the backend stalled.
pub open spec fn backend_of(stats: BenchmarkStats) -> Option<DoubleBits> {
    measured(stats.has_cycles && stats.has_stalled_cycles_backend, stats.backend_stall_percent)
}

pub fn pmu_backend_stall_metric(stats: &BenchmarkStats) -> (r: Option<DoubleBits>)
    ensures
        r == backend_of(*stats),
{
    measured_value(
        stats.has_cycles && stats.has_stalled_cycles_backend,
        stats.backend_stall_percent,
    )
}

/// The improvement of a counter that both sessions measured.
pub open spec fn counter_improvement(
    current: Option<DoubleBits>,
    previous: Option<DoubleBits>,
    lower_is_better: bool,
    changes: &Changes,
) -> Option<DoubleBits> {
    match (current, previous) {
        (Some(c), Some(p)) => improvement_change(c, p, lower_is_better, changes),
        _ => None,
    }
}

pub fn pmu_metric_improvement(
    current: Option<DoubleBits>,
    previous: Option<DoubleBits>,
    lower_is_better: bool,
    changes: &Changes,
) -> (r: Option<DoubleBits>)
    ensures
        r == counter_improvement(current, previous, lower_is_better, changes),
{
    match current {
        Some(c) => match previous {
            Some(p) => safe_improvement_percent(c, p, lower_is_better, changes),
            None => None,
        },
        None => None,
    }
}

/// How the figures of a result moved, in percent.
#[derive(Clone, Copy, Debug, PartialEq)]
pub struct Shifts {
    pub throughput: Option<DoubleBits>,
    pub ipc: Option<DoubleBits>,
    pub instructions: Option<DoubleBits>,
    pub frontend: Option<DoubleBits>,
    pub backend: Option<DoubleBits>,
    pub branch: Option<DoubleBits>,
    pub cache_percent: Option<DoubleBits>,
    pub cache_per_op: Option<DoubleBits>,
    pub l1i: Option<DoubleBits>,
    pub cv: Option<DoubleBits>,
}

/// The shifts between two results with their throughputs.
pub open spec fn shifts_between(
    current: BenchmarkStats,
    current_rate: DoubleBits,
    previous: BenchmarkStats,
    previous_rate: DoubleBits,
    changes: &Changes,
) -> Shifts {
    Shifts {
        throughput: percent_change(current_rate, previous_rate, changes),
        ipc: percent_change(current.ipc, previous.ipc, changes),
        instructions: percent_change(
            current.instructions_per_op,
            previous.instructions_per_op,
            changes,
        ),
        frontend: percent_change(
            current.frontend_stall_percent,
            previous.frontend_stall_percent,
            changes,
        ),
        backend: percent_change(
            current.backend_stall_percent,
            previous.backend_stall_percent,
            changes,
        ),
        branch: percent_change(current.branch_miss_rate, previous.branch_miss_rate, changes),
        cache_percent: percent_change(
            current.cache_miss_percent,
            previous.cache_miss_percent,
            changes,
        ),
        cache_per_op: percent_change(
            current.cache_misses_per_op,
            previous.cache_misses_per_op,
            changes,
        ),
        l1i: percent_change(current.l1i_misses_per_op, previous.l1i_misses_per_op, changes),
        cv: percent_change(current.cv_percent, previous.cv_percent, changes),
    }
}

pub fn measure_shifts(
    current: &BenchmarkStats,
    current_rate: DoubleBits,
    previous: &BenchmarkStats,
    previous_rate: DoubleBits,
    changes: &Changes,
) -> (r: Shifts)
    ensures
        r == shifts_between(*current, current_rate, *previous, previous_rate, changes),
{
    Shifts {
        throughput: safe_percent_change(current_rate, previous_rate, changes),
        ipc: safe_percent_change(current.ipc, previous.ipc, changes),
        instructions: safe_percent_change(
            current.instructions_per_op,
            previous.instructions_per_op,
            changes,
        ),
        frontend: safe_percent_change(
            current.frontend_stall_percent,
            previous.frontend_stall_percent,
            changes,
        ),
        backend: safe_percent_change(
            current.backend_stall_percent,
            previous.backend_stall_percent,
            changes,
        ),
        branch: safe_percent_change(current.branch_miss_rate, previous.branch_miss_rate, changes),
        cache_percent: safe_percent_change(
            current.cache_miss_percent,
            previous.cache_miss_percent,
            changes,
        ),
        cache_per_op: safe_percent_change(
            current.cache_misses_per_op,
            previous.cache_misses_per_op,
            changes,
        ),
        l1i: safe_percent_change(current.l1i_misses_per_op, previous.l1i_misses_per_op, changes),
        cv: safe_percent_change(current.cv_percent, previous.cv_percent, changes),
    }
}

/// A shift of at least so many percent, either way.
pub open spec fn large(shift: Option<DoubleBits>, bits: u64) -> bool {
    shift matches Some(s) && (DoubleBits { bits }).at_most(s.absolute())
}

fn is_large(shift: Option<DoubleBits>, bits: u64) -> (r: bool)
    ensures
        r == large(shift, bits),
{
    match shift {
        Some(s) => s.abs().ge(DoubleBits { bits }),
        None => false,
    }
}

/// A shift of at most so many percent, either way.
pub open spec fn small(shift: Option<DoubleBits>, bits: u64) -> bool {
    shift matches Some(s) && s.absolute().at_most(DoubleBits { bits })
}

fn is_small(shift: Option<DoubleBits>, bits: u64) -> (r: bool)
    ensures
        r == small(shift, bits),
{
    match shift {
        Some(s) => s.abs().le(DoubleBits { bits }),
        None => false,
    }
}

impl Shifts {
    /// The throughput fell by two percent or more.
    pub open spec fn regressed(self) -> bool {
        self.throughput matches Some(s) && s.at_most((DoubleBits { bits: TWO_BITS }).negated())
    }

    /// The throughput rose by two percent or more.
    pub open spec fn improved(self) -> bool {
        self.throughput matches Some(s) && (DoubleBits { bits: TWO_BITS }).at_most(s)
    }

    fn has_regressed(self) -> (r: bool)
        ensures
            r == self.regressed(),
    {
        match self.throughput {
            Some(s) => s.le((DoubleBits { bits: TWO_BITS }).neg()),
            None => false,
        }
    }

    fn has_improved(self) -> (r: bool)
        ensures
            r == self.improved(),
    {
        match self.throughput {
            Some(s) => s.ge(DoubleBits { bits: TWO_BITS }),
            None => false,
        }
    }

    /// The throughput moved by two percent or more.
    pub open spec fn moved(self) -> bool {
        self.regressed() || self.improved()
    }
}

/// A shift with its sign.
pub open spec fn shift_text(shift: Option<DoubleBits>, numbers: &NumberTexts) -> Seq<char> {
    match shift {
        Some(s) => numbers.spec_text(s, NumberStyle::Signed { places: 1 }) + "%"@,
        None => numbers.spec_text(DoubleBits { bits: 0 }, NumberStyle::Signed { places: 1 })
            + "%"@,
    }
}

fn format_shift(shift: Option<DoubleBits>, numbers: &NumberTexts) -> (r: String)
    ensures
        r@ == shift_text(shift, numbers),
{
    let value = match shift {
        Some(s) => s,
        None => DoubleBits { bits: 0 },
    };
    let mut r = numbers.text(value, NumberStyle::Signed { places: 1 });
    r.append("%");
    r
}

/// One of two texts.
pub open spec fn either(first: bool, a: Seq<char>, b: Seq<char>) -> Seq<char> {
    if first {
        a
    } else {
        b
    }
}

/// The same work was done with more or less of it at a time.
pub open spec fn utilization_note(s: Shifts, numbers: &NumberTexts) -> Seq<Seq<char>> {
    if s.moved() && small(s.instructions, FIVE_BITS) && large(s.ipc, FIVE_BITS) {
        seq![
            either(
                s.regressed(),
                "same work, worse utilization"@,
                "same work, better utilization"@,
            ) + ": instructions/op stayed roughly flat while IPC moved "@ + shift_text(
                s.ipc,
                numbers,
            ),
        ]
    } else {
        seq![]
    }
}

/// The first of two shifts that is there.
pub open spec fn first_shift(a: Option<DoubleBits>, b: Option<DoubleBits>) -> Option<DoubleBits> {
    if a is Some {
        a
    } else {
        b
    }
}

/// The memory was waited for more or less.
pub open spec fn memory_note(s: Shifts, numbers: &NumberTexts) -> Seq<Seq<char>> {
    if s.moved() && large(s.backend, TEN_BITS) && (large(s.cache_percent, TEN_BITS) || large(
        s.cache_per_op,
        TEN_BITS,
    )) {
        seq![
            either(s.regressed(), "memory-latency signature"@, "memory-latency relief"@)
                + ": backend stalls moved "@ + shift_text(s.backend, numbers)
                + " and cache pressure moved "@ + shift_text(
                first_shift(s.cache_percent, s.cache_per_op),
                numbers,
            ),
        ]
    } else {
        seq![]
    }
}

/// Branches were predicted better or worse.
pub open spec fn predictor_note(s: Shifts, numbers: &NumberTexts) -> Seq<Seq<char>> {
    if s.moved() && large(s.frontend, TEN_BITS) && large(s.branch, TEN_BITS) {
        seq![
            either(
                s.regressed(),
                "frontend/predictor regression"@,
                "frontend/predictor improvement"@,
            ) + ": frontend stalls moved "@ + shift_text(s.frontend, numbers)
                + " and branch miss rate moved "@ + shift_text(s.branch, numbers),
        ]
    } else {
        seq![]
    }
}

/// Instructions were fetched better or worse.
pub open spec fn fetch_note(s: Shifts, numbers: &NumberTexts) -> Seq<Seq<char>> {
    if s.moved() && large(s.frontend, TEN_BITS) && large(s.l1i, TEN_BITS) {
        seq![
            either(
                s.regressed(),
                "instruction-cache regression"@,
                "instruction-cache improvement"@,
            ) + ": frontend stalls moved "@ + shift_text(s.frontend, numbers)
                + " and L1I misses/op moved "@ + shift_text(s.l1i, numbers),
        ]
    } else {
        seq![]
    }
}

/// More or fewer instructions were needed.
pub open spec fn work_note(s: Shifts, numbers: &NumberTexts) -> Seq<Seq<char>> {
    if s.moved() && large(s.instructions, FIVE_BITS) && small(s.ipc, FIVE_BITS) {
        seq![
            either(s.regressed(), "heavier code path"@, "lighter code path"@)
                + ": instructions/op moved "@ + shift_text(s.instructions, numbers)
                + " while IPC stayed roughly flat"@,
        ]
    } else {
        seq![]
    }
}

/// The samples vary more or less.
pub open spec fn stability_note(s: Shifts, numbers: &NumberTexts) -> Seq<Seq<char>> {
    if large(s.cv, TWENTY_BITS) {
        seq![
            either(
                (DoubleBits { bits: 0 }).below(s.cv->0),
                "stability worsened"@,
                "stability improved"@,
            ) + ": coefficient of variation moved "@ + shift_text(s.cv, numbers),
        ]
    } else {
        seq![]
    }
}

/// What the shifts of a result suggest.
pub open spec fn notes_of(s: Shifts, numbers: &NumberTexts) -> Seq<Seq<char>> {
    utilization_note(s, numbers) + memory_note(s, numbers) + predictor_note(s, numbers)
        + fetch_note(s, numbers) + work_note(s, numbers) + stability_note(s, numbers)
}

fn push_two_shifts(
    notes: &mut Vec<String>,
    direction: &str,
    first: &str,
    a: Option<DoubleBits>,
    second: &str,
    b: Option<DoubleBits>,
    numbers: &NumberTexts,
)
    ensures
        text::texts(final(notes)@) == text::texts(old(notes)@).push(
            direction@ + first@ + shift_text(a, numbers) + second@ + shift_text(b, numbers),
        ),
{
    let mut note = direction.to_owned();
    note.append(first);
    note.append(format_shift(a, numbers).as_str());
    note.append(second);
    note.append(format_shift(b, numbers).as_str());
    let ghost before = text::texts(notes@);
    let ghost added = note@;
    notes.push(note);
    assert(text::texts(notes@) =~= before.push(added));
}

fn push_one_shift(
    notes: &mut Vec<String>,
    direction: &str,
    first: &str,
    a: Option<DoubleBits>,
    second: &str,
    numbers: &NumberTexts,
)
    ensures
        text::texts(final(notes)@) == text::texts(old(notes)@).push(
            direction@ + first@ + shift_text(a, numbers) + second@,
        ),
{
    let mut note = direction.to_owned();
    note.append(first);
    note.append(format_shift(a, numbers).as_str());
    note.append(second);
    let ghost before = text::texts(notes@);
    let ghost added = note@;
    notes.push(note);
    assert(text::texts(notes@) =~= before.push(added));
}

fn pick<'a>(first: bool, a: &'a str, b: &'a str) -> (r: &'a str)
    ensures
        r@ == either(first, a@, b@),
{
    if first {
        a
    } else {
        b
    }
}

fn push_pipeline_notes(notes: &mut Vec<String>, s: Shifts, numbers: &NumberTexts)
    ensures
        text::texts(final(notes)@) == text::texts(old(notes)@) + utilization_note(s, numbers)
            + memory_note(s, numbers) + predictor_note(s, numbers),
{
    proof {
        reveal_strlit("");
    }
    let regressed = s.has_regressed();
    let moved = regressed || s.has_improved();
    let ghost start = text::texts(notes@);
    if moved && is_small(s.instructions, FIVE_BITS) && is_large(s.ipc, FIVE_BITS) {
        push_one_shift(
            notes,
            pick(regressed, "same work, worse utilization", "same work, better utilization"),
            ": instructions/op stayed roughly flat while IPC moved ",
            s.ipc,
            "",
            numbers,
        );
        assert(text::texts(notes@).last() =~= utilization_note(s, numbers)[0]);
    }
    assert(text::texts(notes@) =~= start + utilization_note(s, numbers));
    let ghost after_first = text::texts(notes@);
    if moved && is_large(s.backend, TEN_BITS) && (is_large(s.cache_percent, TEN_BITS) || is_large(
        s.cache_per_op,
        TEN_BITS,
    )) {
        let cache = if s.cache_percent.is_some() {
            s.cache_percent
        } else {
            s.cache_per_op
        };
        push_two_shifts(
            notes,
            pick(regressed, "memory-latency signature", "memory-latency relief"),
            ": backend stalls moved ",
            s.backend,
            " and cache pressure moved ",
            cache,
            numbers,
        );
    }
    assert(text::texts(notes@) =~= after_first + memory_note(s, numbers));
    let ghost after_second = text::texts(notes@);
    if moved && is_large(s.frontend, TEN_BITS) && is_large(s.branch, TEN_BITS) {
        push_two_shifts(
            notes,
            pick(regressed, "frontend/predictor regression", "frontend/predictor improvement"),
            ": frontend stalls moved ",
            s.frontend,
            " and branch miss rate moved ",
            s.branch,
            numbers,
        );
    }
    assert(text::texts(notes@) =~= after_second + predictor_note(s, numbers));
}

fn push_code_notes(notes: &mut Vec<String>, s: Shifts, numbers: &NumberTexts)
    ensures
        text::texts(final(notes)@) == text::texts(old(notes)@) + fetch_note(s, numbers)
            + work_note(s, numbers) + stability_note(s, numbers),
{
    proof {
        reveal_strlit("");
    }
    let regressed = s.has_regressed();
    let moved = regressed || s.has_improved();
    let ghost start = text::texts(notes@);
    if moved && is_large(s.frontend, TEN_BITS) && is_large(s.l1i, TEN_BITS) {
        push_two_shifts(
            notes,
            pick(regressed, "instruction-cache regression", "instruction-cache improvement"),
            ": frontend stalls moved ",
            s.frontend,
            " and L1I misses/op moved ",
            s.l1i,
            numbers,
        );
    }
    assert(text::texts(notes@) =~= start + fetch_note(s, numbers));
    let ghost after_first = text::texts(notes@);
    if moved && is_large(s.instructions, FIVE_BITS) && is_small(s.ipc, FIVE_BITS) {
        push_one_shift(
            notes,
            pick(regressed, "heavier code path", "lighter code path"),
            ": instructions/op moved ",
            s.instructions,
            " while IPC stayed roughly flat",
            numbers,
        );
    }
    assert(text::texts(notes@) =~= after_first + work_note(s, numbers));
    let ghost after_second = text::texts(notes@);
    if is_large(s.cv, TWENTY_BITS) {
        let worse = match s.cv {
            Some(cv) => cv.gt(DoubleBits { bits: 0 }),
            None => false,
        };
        push_one_shift(
            notes,
            pick(worse, "stability worsened", "stability improved"),
            ": coefficient of variation moved ",
            s.cv,
            "",
            numbers,
        );
        assert(text::texts(notes@).last() =~= stability_note(s, numbers)[0]);
    }
    assert(text::texts(notes@) =~= after_second + stability_note(s, numbers));
}

/// What the shifts of a result suggest, in one line; empty where they suggest nothing.
pub open spec fn comparative_text(s: Shifts, numbers: &NumberTexts) -> Seq<char> {
    text::joined(notes_of(s, numbers), "; "@)
}

pub fn comparative_diagnosis(s: Shifts, numbers: &NumberTexts) -> (r: String)
    ensures
        r@ == comparative_text(s, numbers),
{
    let mut notes: Vec<String> = Vec::new();
    push_pipeline_notes(&mut notes, s, numbers);
    push_code_notes(&mut notes, s, numbers);
    assert(text::texts(notes@) =~= notes_of(s, numbers));
    text::join(&notes, "; ")
}

/// A result that did not move, and whose samples do not vary otherwise than
/// before, gets no diagnosis.
pub proof fn steady_results_have_no_diagnosis(s: Shifts, numbers: &NumberTexts)
    requires
        !s.moved(),
        !large(s.cv, TWENTY_BITS),
    ensures
        notes_of(s, numbers).len() == 0,
{
}

} // verus!
