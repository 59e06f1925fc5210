//! Processor counters: how their readings become results, and what is said
//! where they are missing.
use crate::bench::results;
use crate::bench::results::Results;
use crate::double::DoubleBits;
use crate::numbers::{NumberStyle, NumberTexts};
use crate::parse;
use crate::text;
use crate::time::Nanos;
use vstd::prelude::*;

verus! {

/// Ninety percent, as a number: counters that ran less are not relied on.
pub const MIN_PMU_SCHEDULED_PERCENT: u64 = 0x4056_8000_0000_0000;

/// The number of issues that are kept.
pub const MAX_ISSUES: usize = 6;

/// A count scaled up to the whole time for which the counter was enabled.
pub open spec fn scaled(raw: u64, enabled_ns: u64, running_ns: u64) -> u64 {
    if raw == 0 {
        0
    } else if enabled_ns == 0 || running_ns == 0 || running_ns >= enabled_ns {
        raw
    } else {
        let full = (raw as nat * enabled_ns as nat) / (running_ns as nat);
        if full > u64::MAX {
            u64::MAX
        } else {
            full as u64
        }
    }
}

pub fn scale_multiplexed_count(raw: u64, enabled_ns: u64, running_ns: u64) -> (r: u64)
    ensures
        r == scaled(raw, enabled_ns, running_ns),
{
    if raw == 0 {
        return 0;
    }
    if enabled_ns == 0 || running_ns == 0 || running_ns >= enabled_ns {
        return raw;
    }
    assert(raw as nat * enabled_ns as nat <= 0xffff_ffff_ffff_ffff * 0xffff_ffff_ffff_ffff)
        by (nonlinear_arith)
        requires
            raw <= 0xffff_ffff_ffff_ffff,
            enabled_ns <= 0xffff_ffff_ffff_ffff,
    ;
    let full: u128 = (raw as u128 * enabled_ns as u128) / running_ns as u128;
    if full > u64::MAX as u128 {
        u64::MAX
    } else {
        full as u64
    }
}

/// Scaling never loses a count, and leaves one alone whose counter ran all the time.
pub proof fn scaling_never_loses(raw: u64, enabled_ns: u64, running_ns: u64)
    ensures
        scaled(raw, enabled_ns, running_ns) >= raw,
        running_ns >= enabled_ns ==> scaled(raw, enabled_ns, running_ns) == raw,
{
    if raw > 0 && 0 < running_ns < enabled_ns {
        let r = raw as int;
        let e = enabled_ns as int;
        let n = running_ns as int;
        assert((r * e) / n >= r) by (nonlinear_arith)
            requires
                r > 0,
                0 < n < e,
        ;
    }
}

/// How long a counter was enabled, and how long of that it ran.
pub type Window = (u64, u64);

/// Whether a counter ran for a smaller part of its time than another.
pub open spec fn ran_less(left: Window, right: Window) -> bool {
    (left.1 as nat) * (right.0 as nat) < (right.1 as nat) * (left.0 as nat)
}

pub fn less_scheduled(left: (u64, u64), right: (u64, u64)) -> (r: bool)
    ensures
        r == ran_less(left, right),
{
    let (le, lr) = left;
    let (re, rr) = right;
    assert(lr as nat * re as nat <= 0xffff_ffff_ffff_ffff * 0xffff_ffff_ffff_ffff)
        by (nonlinear_arith)
        requires
            lr <= 0xffff_ffff_ffff_ffff,
            re <= 0xffff_ffff_ffff_ffff,
    ;
    assert(rr as nat * le as nat <= 0xffff_ffff_ffff_ffff * 0xffff_ffff_ffff_ffff)
        by (nonlinear_arith)
        requires
            rr <= 0xffff_ffff_ffff_ffff,
            le <= 0xffff_ffff_ffff_ffff,
    ;
    (lr as u128) * (re as u128) < (rr as u128) * (le as u128)
}

/// The window of the first counter among the first `count` that ran for the
/// smallest part of its time; counters that were never enabled do not count.
pub open spec fn least_window(windows: Seq<Window>, count: int) -> Option<Window>
    decreases count,
{
    if count <= 0 || count > windows.len() {
        None
    } else {
        let before = least_window(windows, count - 1);
        let next = windows[count - 1];
        if next.0 == 0 {
            before
        } else {
            match before {
                None => Some(next),
                Some(best) => if ran_less(next, best) {
                    Some(next)
                } else {
                    before
                },
            }
        }
    }
}

/// The window that stands for a list of counters.
pub open spec fn window_of(windows: Seq<Window>) -> Window {
    match least_window(windows, windows.len() as int) {
        Some(window) => window,
        None => (0, 0),
    }
}

pub fn timing_window(timing_candidates: &[(u64, u64)]) -> (r: (u64, u64))
    ensures
        r == window_of(timing_candidates@),
{
    let mut best: Option<(u64, u64)> = None;
    let mut i: usize = 0;
    while i < timing_candidates.len()
        invariant
            i <= timing_candidates.len(),
            best == least_window(timing_candidates@, i as int),
        decreases timing_candidates.len() - i,
    {
        let next = timing_candidates[i];
        if next.0 > 0 {
            best = match best {
                None => Some(next),
                Some(window) => {
                    if less_scheduled(next, window) {
                        Some(next)
                    } else {
                        Some(window)
                    }
                },
            };
        }
        i += 1;
    }
    match best {
        Some(window) => window,
        None => (0, 0),
    }
}

proof fn ran_less_is_transitive(a: Window, b: Window, c: Window)
    requires
        a.0 > 0,
        b.0 > 0,
        c.0 > 0,
        !ran_less(a, b),
        ran_less(c, b),
    ensures
        !ran_less(a, c),
{
    let ae = a.0 as int;
    let ar = a.1 as int;
    let be = b.0 as int;
    let br = b.1 as int;
    let ce = c.0 as int;
    let cr = c.1 as int;
    assert(ar * ce >= cr * ae) by (nonlinear_arith)
        requires
            ae > 0,
            be > 0,
            ce > 0,
            ar >= 0,
            br >= 0,
            cr >= 0,
            ar * be >= br * ae,
            cr * be < br * ce,
    {
        assert((ar * be) * ce >= (br * ae) * ce);
        assert((br * ce) * ae >= (cr * be) * ae);
        assert((ar * ce) * be >= (cr * ae) * be);
    }
}

/// No enabled counter ran for a smaller part of its time than the window says.
pub proof fn window_is_least_scheduled(windows: Seq<Window>, count: int, i: int)
    requires
        0 <= i < count <= windows.len(),
        windows[i].0 > 0,
    ensures
        least_window(windows, count) matches Some(best) && best.0 > 0 && !ran_less(
            windows[i],
            best,
        ),
    decreases count,
{
    if i < count - 1 {
        window_is_least_scheduled(windows, count - 1, i);
        let before = least_window(windows, count - 1)->0;
        let next = windows[count - 1];
        if next.0 > 0 && ran_less(next, before) {
            ran_less_is_transitive(windows[i], before, next);
        }
    } else {
        least_is_enabled(windows, count - 1);
        let next = windows[i];
        assert(!ran_less(next, next));
    }
}

proof fn least_is_enabled(windows: Seq<Window>, count: int)
    ensures
        least_window(windows, count) matches Some(best) ==> best.0 > 0,
    decreases count,
{
    if 0 < count <= windows.len() {
        least_is_enabled(windows, count - 1);
    }
}

/// What went wrong with counters: the first few different issues.
#[derive(Debug)]
pub struct PerfIssues {
    pub list: Vec<String>,
}

/// The issues with one more, unless it is known or enough are.
pub open spec fn with_issue(issues: Seq<Seq<char>>, message: Seq<char>) -> Seq<Seq<char>> {
    if issues.contains(message) || issues.len() >= MAX_ISSUES {
        issues
    } else {
        issues.push(message)
    }
}

impl PerfIssues {
    pub open spec fn texts(&self) -> Seq<Seq<char>> {
        text::texts(self.list@)
    }

    pub fn new() -> (r: PerfIssues)
        ensures
            r.texts().len() == 0,
    {
        PerfIssues { list: Vec::new() }
    }

    pub fn record_perf_issue(&mut self, message: String)
        ensures
            final(self).texts() == with_issue(old(self).texts(), message@),
    {
        let ghost before = self.texts();
        let known = text::list_contains(&self.list, message.as_str());
        if known || self.list.len() >= MAX_ISSUES {
            return;
        }
        self.list.push(message);
        assert(self.texts() =~= before.push(message@));
    }

    pub fn clear_perf_issues(&mut self)
        ensures
            final(self).texts().len() == 0,
    {
        self.list.clear();
    }
}

/// No issue is kept twice, and at most six are.
pub proof fn issues_stay_few(issues: Seq<Seq<char>>, message: Seq<char>)
    requires
        issues.no_duplicates(),
        issues.len() <= MAX_ISSUES,
    ensures
        with_issue(issues, message).no_duplicates(),
        with_issue(issues, message).len() <= MAX_ISSUES,
{
}

/// What can go wrong with a counter or a group of them before it is read.
#[derive(Clone, Copy, Debug, PartialEq, Eq, Structural)]
pub enum CounterStep {
    Open,
    Enable,
    Disable,
}

/// What is said of a step that failed.
pub open spec fn step_text(step: CounterStep) -> Seq<char> {
    match step {
        CounterStep::Open => " unavailable: "@,
        CounterStep::Enable => " enable failed: "@,
        CounterStep::Disable => " disable failed: "@,
    }
}

fn step_words(step: CounterStep) -> (r: &'static str)
    ensures
        r@ == step_text(step),
{
    match step {
        CounterStep::Open => " unavailable: ",
        CounterStep::Enable => " enable failed: ",
        CounterStep::Disable => " disable failed: ",
    }
}

impl PerfIssues {
    /// Notes that a counter failed.
    pub fn note_event(&mut self, name: &str, step: CounterStep, error: &str)
        ensures
            final(self).texts() == with_issue(
                old(self).texts(),
                "perf event '"@ + name@ + "'"@ + step_text(step) + error@,
            ),
    {
        let mut message = "perf event '".to_owned();
        message.append(name);
        message.append("'");
        message.append(step_words(step));
        message.append(error);
        self.record_perf_issue(message);
    }

    /// Notes that a group of counters failed.
    pub fn note_group(&mut self, step: CounterStep, error: &str)
        ensures
            final(self).texts() == with_issue(
                old(self).texts(),
                "perf group"@ + step_text(step) + error@,
            ),
    {
        let mut message = "perf group".to_owned();
        message.append(step_words(step));
        message.append(error);
        self.record_perf_issue(message);
    }

    /// Whether a group has any counter; one that has none is noted.
    pub fn check_group(&mut self, opened: &Vec<bool>) -> (r: bool)
        ensures
            r == opened@.contains(true),
            final(self).texts() == if r {
                old(self).texts()
            } else {
                with_issue(old(self).texts(), "no perf events could be added to perf group"@)
            },
    {
        let mut i: usize = 0;
        while i < opened.len()
            invariant
                i <= opened.len(),
                forall|j: int| 0 <= j < i ==> !(#[trigger] opened@[j]),
                self.texts() == old(self).texts(),
            decreases opened.len() - i,
        {
            if opened[i] {
                assert(opened@[i as int]);
                return true;
            }
            i += 1;
        }
        self.record_perf_issue("no perf events could be added to perf group".to_owned());
        false
    }

    /// Notes where there is no thread to measure. `listed` is the error that
    /// came of listing them.
    pub fn check_scope(&mut self, threads: usize, listed: Option<&str>) -> (r: bool)
        ensures
            r == (threads > 0),
            final(self).texts() == {
                let known = match listed {
                    Some(error) => with_issue(
                        old(self).texts(),
                        "could not enumerate process threads: "@ + error@,
                    ),
                    None => old(self).texts(),
                };
                if threads > 0 {
                    known
                } else {
                    with_issue(known, "PMU scope contains no live threads"@)
                }
            },
    {
        if let Some(error) = listed {
            let mut message = "could not enumerate process threads: ".to_owned();
            message.append(error);
            self.record_perf_issue(message);
        }
        if threads == 0 {
            self.record_perf_issue("PMU scope contains no live threads".to_owned());
        }
        threads > 0
    }
}

/// Whether an issue is about missing access.
pub open spec fn about_access(issue: Seq<char>) -> bool {
    text::occurs(issue, "unusable timing window"@) || text::occurs(
        issue,
        "Operation not permitted"@,
    ) || text::occurs(issue, "Permission denied"@)
}

/// Whether some issue is about missing access.
pub open spec fn access_denied(issues: Seq<Seq<char>>) -> bool {
    exists|i: int| 0 <= i < issues.len() && about_access(#[trigger] issues[i])
}

fn has_access_issue(issues: &Vec<String>) -> (r: bool)
    ensures
        r == access_denied(text::texts(issues@)),
{
    let ghost all = text::texts(issues@);
    let mut i: usize = 0;
    while i < issues.len()
        invariant
            i <= issues.len(),
            all == text::texts(issues@),
            forall|j: int| 0 <= j < i ==> !about_access(#[trigger] all[j]),
        decreases issues.len() - i,
    {
        assert(all[i as int] == issues@[i as int]@);
        let issue = issues[i].as_str();
        if text::contains(issue, "unusable timing window") || text::contains(
            issue,
            "Operation not permitted",
        ) || text::contains(issue, "Permission denied") {
            assert(about_access(all[i as int]));
            return true;
        }
        i += 1;
    }
    false
}

/// A whole number in decimal.
pub open spec fn signed_decimal(n: int) -> Seq<char> {
    if n < 0 {
        "-"@ + text::decimal((-n) as nat)
    } else {
        text::decimal(n as nat)
    }
}

pub fn signed_decimal_text(n: i32) -> (r: String)
    ensures
        r@ == signed_decimal(n as int),
{
    if n < 0 {
        let mut r = "-".to_owned();
        r.append(text::decimal_text((-(n as i64)) as u64).as_str());
        r
    } else {
        text::decimal_text(n as u64)
    }
}

/// What can be done about missing counters, if it can be told. The setting of
/// the kernel is given where it could be read.
pub open spec fn hint(has_counters: bool, issues: Seq<Seq<char>>, paranoid: Option<i32>) -> Option<
    Seq<char>,
> {
    if has_counters || !access_denied(issues) {
        None
    } else {
        match paranoid {
            Some(value) => if value > 2 {
                Some(
                    "kernel.perf_event_paranoid="@ + signed_decimal(value as int)
                        + "; lower it to 2 or less (or grant CAP_PERFMON/CAP_SYS_ADMIN) to enable PMU counters"@,
                )
            } else {
                Some(
                    "kernel.perf_event_paranoid="@ + signed_decimal(value as int)
                        + "; PMU still unavailable, likely due to missing CAP_PERFMON/CAP_SYS_ADMIN or container perf_event restrictions"@,
                )
            },
            None => Some(
                "PMU still unavailable; check /proc/sys/kernel/perf_event_paranoid and container capabilities (CAP_PERFMON/CAP_SYS_ADMIN)"@,
            ),
        }
    }
}

pub fn linux_perf_hint(has_perf_counters: bool, issues: &Vec<String>, paranoid: Option<i32>) -> (r:
    Option<String>)
    ensures
        r is Some == hint(has_perf_counters, text::texts(issues@), paranoid) is Some,
        r matches Some(s) ==> s@ == hint(has_perf_counters, text::texts(issues@), paranoid)->0,
{
    if has_perf_counters {
        return None;
    }
    if !has_access_issue(issues) {
        return None;
    }
    match paranoid {
        Some(value) => {
            let mut r = "kernel.perf_event_paranoid=".to_owned();
            r.append(signed_decimal_text(value).as_str());
            if value > 2 {
                r.append(
                    "; lower it to 2 or less (or grant CAP_PERFMON/CAP_SYS_ADMIN) to enable PMU counters",
                );
            } else {
                r.append(
                    "; PMU still unavailable, likely due to missing CAP_PERFMON/CAP_SYS_ADMIN or container perf_event restrictions",
                );
            }
            Some(r)
        },
        None => Some(
            "PMU still unavailable; check /proc/sys/kernel/perf_event_paranoid and container capabilities (CAP_PERFMON/CAP_SYS_ADMIN)".to_owned(),
        ),
    }
}

/// The warning about counters that ran too little, if one is due.
pub open spec fn quality_warning(
    name: Seq<char>,
    has_counters: bool,
    results: Results,
    scheduled_percent: DoubleBits,
    numbers: &NumberTexts,
) -> Option<Seq<char>> {
    if has_counters && results.pmu_time_enabled_ns > 0 && results.pmu_time_running_ns > 0
        && scheduled_percent.below(DoubleBits { bits: MIN_PMU_SCHEDULED_PERCENT }) {
        Some(
            "⚠️ PMU counters were scheduled too little for benchmark '"@ + name + "': "@
                + numbers.spec_text(scheduled_percent, NumberStyle::Fixed { places: 1 })
                + "% < 90.0%; scaled values may be unreliable"@,
        )
    } else {
        None
    }
}

pub fn enforce_pmu_quality(
    name: &str,
    has_perf_counters: bool,
    results: &Results,
    scheduled_percent: DoubleBits,
    numbers: &NumberTexts,
) -> (r: Option<String>)
    ensures
        r is Some == quality_warning(
            name@,
            has_perf_counters,
            *results,
            scheduled_percent,
            numbers,
        ) is Some,
        r matches Some(s) ==> s@ == quality_warning(
            name@,
            has_perf_counters,
            *results,
            scheduled_percent,
            numbers,
        )->0,
{
    if !has_perf_counters || results.pmu_time_enabled_ns == 0 || results.pmu_time_running_ns == 0 {
        return None;
    }
    if scheduled_percent.lt(DoubleBits { bits: MIN_PMU_SCHEDULED_PERCENT }) {
        let mut r = "⚠️ PMU counters were scheduled too little for benchmark '".to_owned();
        r.append(name);
        r.append("': ");
        r.append(numbers.text(scheduled_percent, NumberStyle::Fixed { places: 1 }).as_str());
        r.append("% < 90.0%; scaled values may be unreliable");
        return Some(r);
    }
    None
}

/// The warning about missing counters, if one is due.
#[derive(Clone, Copy, Debug, PartialEq, Eq, Structural)]
pub enum PerfWarning {
    Unavailable,
    Partial,
}

pub fn warn_perf_status(has_perf_counters: bool, has_full_perf_counters: bool) -> (r: Option<PerfWarning>)
    ensures
        r == if !has_perf_counters {
            Some(PerfWarning::Unavailable)
        } else if !has_full_perf_counters {
            Some(PerfWarning::Partial)
        } else {
            None
        },
{
    if !has_perf_counters {
        Some(PerfWarning::Unavailable)
    } else if !has_full_perf_counters {
        Some(PerfWarning::Partial)
    } else {
        None
    }
}

impl PerfWarning {
    pub open spec fn message_text(self) -> Seq<char> {
        match self {
            PerfWarning::Unavailable =>
                "⚠️  PMU counters unavailable; continuing with timing-only results."@,
            PerfWarning::Partial =>
                "⚠️  Some PMU counters are unavailable; omitted metrics will not be shown."@,
        }
    }

    pub fn message(self) -> (r: &'static str)
        ensures
            r@ == self.message_text(),
    {
        match self {
            PerfWarning::Unavailable =>
                "⚠️  PMU counters unavailable; continuing with timing-only results.",
            PerfWarning::Partial =>
                "⚠️  Some PMU counters are unavailable; omitted metrics will not be shown.",
        }
    }
}

/// What came of reading one counter.
#[derive(Debug)]
pub enum CounterRead {
    /// The counter was not open.
    Closed,
    Failed { message: String },
    Count { count: u64, enabled_ns: u64, running_ns: u64 },
}

impl CounterRead {
    /// Whether the counter was open.
    pub open spec fn open(&self) -> bool {
        !(self is Closed)
    }

    /// How long the counter was enabled and ran.
    pub open spec fn window(&self) -> Window {
        match self {
            CounterRead::Count { enabled_ns, running_ns, .. } => (*enabled_ns, *running_ns),
            _ => (0, 0),
        }
    }

    /// Whether the counter counted at all.
    pub open spec fn usable(&self) -> bool {
        self.window().0 > 0 && self.window().1 > 0
    }

    /// The count, scaled; nothing where the counter was not usable.
    pub open spec fn value(&self) -> u64 {
        match self {
            CounterRead::Count { count, enabled_ns, running_ns } => if self.usable() {
                scaled(*count, *enabled_ns, *running_ns)
            } else {
                0
            },
            _ => 0,
        }
    }

    /// The issue with the counter, if there is one.
    pub open spec fn issue(&self, name: Seq<char>) -> Option<Seq<char>> {
        match self {
            CounterRead::Closed => None,
            CounterRead::Failed { message } => Some(
                "perf event '"@ + name + "' read failed: "@ + message@,
            ),
            CounterRead::Count { .. } => if self.usable() {
                None
            } else {
                Some("perf event '"@ + name + "' has no usable scheduled window; omitting it"@)
            },
        }
    }
}

/// The issues after reading a counter.
pub open spec fn noted(issues: Seq<Seq<char>>, read: CounterRead, name: Seq<char>) -> Seq<Seq<char>> {
    match read.issue(name) {
        Some(message) => with_issue(issues, message),
        None => issues,
    }
}

/// The scaled count of one counter with its window.
pub fn read_scaled_counter(read: &CounterRead, name: &str, issues: &mut PerfIssues) -> (r: (
    u64,
    u64,
    u64,
))
    ensures
        r.0 == read.value(),
        (r.1, r.2) == read.window(),
        final(issues).texts() == noted(old(issues).texts(), *read, name@),
{
    match read {
        CounterRead::Closed => (0, 0, 0),
        CounterRead::Failed { message } => {
            let mut issue = "perf event '".to_owned();
            issue.append(name);
            issue.append("' read failed: ");
            issue.append(message.as_str());
            issues.record_perf_issue(issue);
            (0, 0, 0)
        },
        CounterRead::Count { count, enabled_ns, running_ns } => {
            if *enabled_ns == 0 || *running_ns == 0 {
                let mut issue = "perf event '".to_owned();
                issue.append(name);
                issue.append("' has no usable scheduled window; omitting it");
                issues.record_perf_issue(issue);
                return (0, *enabled_ns, *running_ns);
            }
            (
                scale_multiplexed_count(*count, *enabled_ns, *running_ns),
                *enabled_ns,
                *running_ns,
            )
        },
    }
}

/// What came of reading the counters one by one.
#[derive(Debug)]
pub struct IndividualReads {
    pub cycles: CounterRead,
    pub instructions: CounterRead,
    pub cache_references: CounterRead,
    pub l1i_misses: CounterRead,
    pub branches: CounterRead,
    pub branch_misses: CounterRead,
    pub cache_misses: CounterRead,
    pub stalled_cycles_frontend: CounterRead,
    pub stalled_cycles_backend: CounterRead,
}

impl IndividualReads {
    /// The windows of the counters.
    pub open spec fn windows(&self) -> Seq<Window> {
        seq![
            self.cycles.window(),
            self.instructions.window(),
            self.cache_references.window(),
            self.l1i_misses.window(),
            self.branches.window(),
            self.branch_misses.window(),
            self.cache_misses.window(),
            self.stalled_cycles_frontend.window(),
            self.stalled_cycles_backend.window(),
        ]
    }

    /// The results of a sample.
    pub open spec fn results(&self, host_elapsed: Nanos, ops: u64) -> Results {
        Results {
            cycles: self.cycles.value(),
            instructions: self.instructions.value(),
            cache_references: self.cache_references.value(),
            l1i_misses: self.l1i_misses.value(),
            branches: self.branches.value(),
            branch_misses: self.branch_misses.value(),
            cache_misses: self.cache_misses.value(),
            stalled_cycles_frontend: self.stalled_cycles_frontend.value(),
            stalled_cycles_backend: self.stalled_cycles_backend.value(),
            has_cycles: self.cycles.usable(),
            has_instructions: self.instructions.usable(),
            has_cache_references: self.cache_references.usable(),
            has_l1i_misses: self.l1i_misses.usable(),
            has_branches: self.branches.usable(),
            has_branch_misses: self.branch_misses.usable(),
            has_cache_misses: self.cache_misses.usable(),
            has_stalled_cycles_frontend: self.stalled_cycles_frontend.usable(),
            has_stalled_cycles_backend: self.stalled_cycles_backend.usable(),
            pmu_time_enabled_ns: window_of(self.windows()).0,
            pmu_time_running_ns: window_of(self.windows()).1,
            duration: host_elapsed,
            iterations: ops,
            chunks_executed: 1,
        }
    }

    /// The issues after reading the counters.
    pub open spec fn issues(&self, before: Seq<Seq<char>>) -> Seq<Seq<char>> {
        let a = noted(before, self.cycles, "cycles"@);
        let b = noted(a, self.instructions, "instructions"@);
        let c = noted(b, self.cache_references, "cache-references"@);
        let d = noted(c, self.l1i_misses, "l1i-misses"@);
        let e = noted(d, self.branches, "branches"@);
        let f = noted(e, self.branch_misses, "branch-misses"@);
        let g = noted(f, self.cache_misses, "cache-misses"@);
        let h = noted(g, self.stalled_cycles_frontend, "stalled-cycles-frontend"@);
        noted(h, self.stalled_cycles_backend, "stalled-cycles-backend"@)
    }
}

/// The results of counters that were read one by one.
pub fn collect_individual(
    reads: &IndividualReads,
    host_elapsed: Nanos,
    ops: u64,
    issues: &mut PerfIssues,
) -> (r: Results)
    ensures
        r == reads.results(host_elapsed, ops),
        final(issues).texts() == reads.issues(old(issues).texts()),
{
    let (cycles, e0, r0) = read_scaled_counter(&reads.cycles, "cycles", issues);
    let (instructions, e1, r1) = read_scaled_counter(&reads.instructions, "instructions", issues);
    let (cache_references, e2, r2) = read_scaled_counter(
        &reads.cache_references,
        "cache-references",
        issues,
    );
    let (l1i_misses, e3, r3) = read_scaled_counter(&reads.l1i_misses, "l1i-misses", issues);
    let (branches, e4, r4) = read_scaled_counter(&reads.branches, "branches", issues);
    let (branch_misses, e5, r5) = read_scaled_counter(
        &reads.branch_misses,
        "branch-misses",
        issues,
    );
    let (cache_misses, e6, r6) = read_scaled_counter(&reads.cache_misses, "cache-misses", issues);
    let (stalled_cycles_frontend, e7, r7) = read_scaled_counter(
        &reads.stalled_cycles_frontend,
        "stalled-cycles-frontend",
        issues,
    );
    let (stalled_cycles_backend, e8, r8) = read_scaled_counter(
        &reads.stalled_cycles_backend,
        "stalled-cycles-backend",
        issues,
    );
    let windows: Vec<(u64, u64)> = vec![
        (e0, r0),
        (e1, r1),
        (e2, r2),
        (e3, r3),
        (e4, r4),
        (e5, r5),
        (e6, r6),
        (e7, r7),
        (e8, r8),
    ];
    assert(windows@ =~= reads.windows());
    let (pmu_time_enabled_ns, pmu_time_running_ns) = timing_window(windows.as_slice());
    Results {
        cycles,
        instructions,
        cache_references,
        l1i_misses,
        branches,
        branch_misses,
        cache_misses,
        stalled_cycles_frontend,
        stalled_cycles_backend,
        has_cycles: e0 > 0 && r0 > 0,
        has_instructions: e1 > 0 && r1 > 0,
        has_cache_references: e2 > 0 && r2 > 0,
        has_l1i_misses: e3 > 0 && r3 > 0,
        has_branches: e4 > 0 && r4 > 0,
        has_branch_misses: e5 > 0 && r5 > 0,
        has_cache_misses: e6 > 0 && r6 > 0,
        has_stalled_cycles_frontend: e7 > 0 && r7 > 0,
        has_stalled_cycles_backend: e8 > 0 && r8 > 0,
        pmu_time_enabled_ns,
        pmu_time_running_ns,
        duration: host_elapsed,
        iterations: ops,
        chunks_executed: 1,
    }
}

/// What came of reading a group of counters; a counter that was not open has
/// no count.
#[derive(Clone, Copy, Debug)]
pub struct GroupCounts {
    pub time_enabled: Option<Nanos>,
    pub time_running: Option<Nanos>,
    pub cycles: Option<u64>,
    pub instructions: Option<u64>,
    pub cache_references: Option<u64>,
    pub l1i_misses: Option<u64>,
    pub branches: Option<u64>,
    pub branch_misses: Option<u64>,
    pub cache_misses: Option<u64>,
    pub stalled_cycles_frontend: Option<u64>,
    pub stalled_cycles_backend: Option<u64>,
}

/// A length of time in nanoseconds, as far as it can be held.
pub open spec fn nanos_held(time: Option<Nanos>) -> u64 {
    match time {
        Some(time) => if time.count > u64::MAX {
            u64::MAX
        } else {
            time.count as u64
        },
        None => 0,
    }
}

fn hold_nanos(time: Option<Nanos>) -> (r: u64)
    ensures
        r == nanos_held(time),
{
    match time {
        Some(time) => {
            if time.count > u64::MAX as u128 {
                u64::MAX
            } else {
                time.count as u64
            }
        },
        None => 0,
    }
}

/// The scaled count of a counter of a group.
pub open spec fn group_value(count: Option<u64>, window: Window) -> u64 {
    match count {
        Some(raw) => scaled(raw, window.0, window.1),
        None => 0,
    }
}

fn scale_group_count(count: Option<u64>, enabled_ns: u64, running_ns: u64) -> (r: u64)
    ensures
        r == group_value(count, (enabled_ns, running_ns)),
{
    match count {
        Some(raw) => scale_multiplexed_count(raw, enabled_ns, running_ns),
        None => 0,
    }
}

impl GroupCounts {
    pub open spec fn window(self) -> Window {
        (nanos_held(self.time_enabled), nanos_held(self.time_running))
    }

    /// Whether the group counted at all.
    pub open spec fn usable(self) -> bool {
        self.window().0 > 0 && self.window().1 > 0
    }

    /// The results of a sample: no counts where the group never ran.
    pub open spec fn results(self, host_elapsed: Nanos, ops: u64) -> Results {
        let w = self.window();
        let timed = Results {
            pmu_time_enabled_ns: w.0,
            pmu_time_running_ns: w.1,
            duration: host_elapsed,
            iterations: ops,
            chunks_executed: 1,
            ..Results::none()
        };
        if self.usable() {
            Results {
                cycles: group_value(self.cycles, w),
                instructions: group_value(self.instructions, w),
                cache_references: group_value(self.cache_references, w),
                l1i_misses: group_value(self.l1i_misses, w),
                branches: group_value(self.branches, w),
                branch_misses: group_value(self.branch_misses, w),
                cache_misses: group_value(self.cache_misses, w),
                stalled_cycles_frontend: group_value(self.stalled_cycles_frontend, w),
                stalled_cycles_backend: group_value(self.stalled_cycles_backend, w),
                has_cycles: self.cycles is Some,
                has_instructions: self.instructions is Some,
                has_cache_references: self.cache_references is Some,
                has_l1i_misses: self.l1i_misses is Some,
                has_branches: self.branches is Some,
                has_branch_misses: self.branch_misses is Some,
                has_cache_misses: self.cache_misses is Some,
                has_stalled_cycles_frontend: self.stalled_cycles_frontend is Some,
                has_stalled_cycles_backend: self.stalled_cycles_backend is Some,
                ..timed
            }
        } else {
            timed
        }
    }
}

/// What came of reading a group of counters.
#[derive(Debug)]
pub enum GroupRead {
    Failed { message: String },
    Counts(GroupCounts),
}

impl GroupRead {
    pub open spec fn results(&self, host_elapsed: Nanos, ops: u64) -> Results {
        match self {
            GroupRead::Failed { .. } => Results {
                duration: host_elapsed,
                iterations: ops,
                chunks_executed: 1,
                ..Results::none()
            },
            GroupRead::Counts(counts) => counts.results(host_elapsed, ops),
        }
    }

    /// Whether later samples should use counters one by one: the group could
    /// not be read, never ran, or ran too little.
    pub open spec fn prefers_individual(&self, scheduled_percent: DoubleBits) -> bool {
        match self {
            GroupRead::Failed { .. } => true,
            GroupRead::Counts(counts) => !counts.usable() || scheduled_percent.below(
                DoubleBits { bits: MIN_PMU_SCHEDULED_PERCENT },
            ),
        }
    }

    pub open spec fn issues(&self, before: Seq<Seq<char>>) -> Seq<Seq<char>> {
        match self {
            GroupRead::Failed { message } => with_issue(
                before,
                "perf group read failed: "@ + message@,
            ),
            GroupRead::Counts(counts) => if counts.usable() {
                before
            } else {
                with_issue(
                    before,
                    "perf group was opened but never scheduled; switching to ungrouped counters"@,
                )
            },
        }
    }
}

fn group_results(counts: &GroupCounts, host_elapsed: Nanos, ops: u64) -> (r: Results)
    ensures
        r == counts.results(host_elapsed, ops),
{
    let enabled_ns: u64 = hold_nanos(counts.time_enabled);
    let running_ns: u64 = hold_nanos(counts.time_running);
    if enabled_ns > 0 && running_ns > 0 {
        Results {
            cycles: scale_group_count(counts.cycles, enabled_ns, running_ns),
            instructions: scale_group_count(counts.instructions, enabled_ns, running_ns),
            cache_references: scale_group_count(counts.cache_references, enabled_ns, running_ns),
            l1i_misses: scale_group_count(counts.l1i_misses, enabled_ns, running_ns),
            branches: scale_group_count(counts.branches, enabled_ns, running_ns),
            branch_misses: scale_group_count(counts.branch_misses, enabled_ns, running_ns),
            cache_misses: scale_group_count(counts.cache_misses, enabled_ns, running_ns),
            stalled_cycles_frontend: scale_group_count(
                counts.stalled_cycles_frontend,
                enabled_ns,
                running_ns,
            ),
            stalled_cycles_backend: scale_group_count(
                counts.stalled_cycles_backend,
                enabled_ns,
                running_ns,
            ),
            has_cycles: counts.cycles.is_some(),
            has_instructions: counts.instructions.is_some(),
            has_cache_references: counts.cache_references.is_some(),
            has_l1i_misses: counts.l1i_misses.is_some(),
            has_branches: counts.branches.is_some(),
            has_branch_misses: counts.branch_misses.is_some(),
            has_cache_misses: counts.cache_misses.is_some(),
            has_stalled_cycles_frontend: counts.stalled_cycles_frontend.is_some(),
            has_stalled_cycles_backend: counts.stalled_cycles_backend.is_some(),
            pmu_time_enabled_ns: enabled_ns,
            pmu_time_running_ns: running_ns,
            duration: host_elapsed,
            iterations: ops,
            chunks_executed: 1,
        }
    } else {
        Results {
            pmu_time_enabled_ns: enabled_ns,
            pmu_time_running_ns: running_ns,
            duration: host_elapsed,
            iterations: ops,
            chunks_executed: 1,
            ..Results::default()
        }
    }
}

/// The results of a group of counters, and whether later samples should use
/// counters one by one.
pub fn collect_group(
    read: &GroupRead,
    scheduled_percent: DoubleBits,
    host_elapsed: Nanos,
    ops: u64,
    issues: &mut PerfIssues,
) -> (r: (Results, bool))
    ensures
        r.0 == read.results(host_elapsed, ops),
        r.1 == read.prefers_individual(scheduled_percent),
        final(issues).texts() == read.issues(old(issues).texts()),
{
    match read {
        GroupRead::Failed { message } => {
            let mut issue = "perf group read failed: ".to_owned();
            issue.append(message.as_str());
            issues.record_perf_issue(issue);
            let results = Results {
                duration: host_elapsed,
                iterations: ops,
                chunks_executed: 1,
                ..Results::default()
            };
            (results, true)
        },
        GroupRead::Counts(counts) => {
            let usable = hold_nanos(counts.time_enabled) > 0 && hold_nanos(counts.time_running)
                > 0;
            if !usable {
                issues.record_perf_issue(
                    "perf group was opened but never scheduled; switching to ungrouped counters".to_owned(),
                );
            }
            let poor = scheduled_percent.lt(DoubleBits { bits: MIN_PMU_SCHEDULED_PERCENT });
            (group_results(counts, host_elapsed, ops), !usable || poor)
        },
    }
}

/// The counts of all measured threads for one sample; none where a sum is too
/// large to be held.
pub fn aggregate_threads(threads: &Vec<Results>, host_elapsed: Nanos, ops: u64) -> (r: Option<Results>)
    ensures
        r is Some == results::total(threads@).representable(),
        r matches Some(sum) ==> sum.tally() == (results::ResultsTally {
            duration: host_elapsed.count as nat,
            iterations: ops as nat,
            chunks_executed: 1,
            ..results::total(threads@)
        }),
{
    let mut sum = Results::default();
    let mut i: usize = 0;
    assert(threads@.take(0) =~= Seq::<Results>::empty());
    while i < threads.len()
        invariant
            i <= threads.len(),
            sum.tally() == results::total(threads@.take(i as int)),
            sum.tally().representable(),
        decreases threads.len() - i,
    {
        proof {
            assert(threads@.take(i + 1).drop_last() =~= threads@.take(i as int));
            assert(threads@.take(i + 1).last() == threads@[i as int]);
            results::plus_adds_tallies(sum, threads@[i as int]);
            results::total_grows(threads@, i + 1);
        }
        if !sum.can_add(&threads[i]) {
            return None;
        }
        sum.add(&threads[i]);
        i += 1;
    }
    assert(threads@.take(threads@.len() as int) =~= threads@);
    sum.duration = host_elapsed;
    sum.iterations = ops;
    sum.chunks_executed = 1;
    Some(sum)
}

/// What came of reading the counters of one thread.
#[derive(Debug)]
pub enum ThreadRead {
    Group { read: GroupRead, scheduled_percent: DoubleBits },
    Individual(IndividualReads),
    /// No counter was open.
    TimingOnly,
}

impl ThreadRead {
    /// The counts of the thread.
    pub open spec fn results(&self) -> Results {
        match self {
            ThreadRead::Group { read, .. } => read.results(Nanos { count: 0 }, 0),
            ThreadRead::Individual(reads) => reads.results(Nanos { count: 0 }, 0),
            ThreadRead::TimingOnly => Results::none(),
        }
    }

    /// Whether later samples should use counters one by one.
    pub open spec fn prefers_individual(&self) -> bool {
        match self {
            ThreadRead::Group { read, scheduled_percent } => read.prefers_individual(
                *scheduled_percent,
            ),
            _ => false,
        }
    }

    pub open spec fn issues(&self, before: Seq<Seq<char>>) -> Seq<Seq<char>> {
        match self {
            ThreadRead::Group { read, .. } => read.issues(before),
            ThreadRead::Individual(reads) => reads.issues(before),
            ThreadRead::TimingOnly => before,
        }
    }
}

/// The issues after reading the counters of the first threads.
pub open spec fn issues_after(
    threads: Seq<ThreadRead>,
    count: int,
    before: Seq<Seq<char>>,
) -> Seq<Seq<char>>
    decreases count,
{
    if count <= 0 {
        before
    } else {
        threads[count - 1].issues(issues_after(threads, count - 1, before))
    }
}

/// The counts of each thread.
pub open spec fn thread_results(threads: Seq<ThreadRead>) -> Seq<Results> {
    threads.map_values(|t: ThreadRead| t.results())
}

fn collect_thread(read: &ThreadRead, issues: &mut PerfIssues) -> (r: (Results, bool))
    ensures
        r.0 == read.results(),
        r.1 == read.prefers_individual(),
        final(issues).texts() == read.issues(old(issues).texts()),
{
    let zero = Nanos { count: 0 };
    match read {
        ThreadRead::Group { read, scheduled_percent } => collect_group(
            read,
            *scheduled_percent,
            zero,
            0,
            issues,
        ),
        ThreadRead::Individual(reads) => (collect_individual(reads, zero, 0, issues), false),
        ThreadRead::TimingOnly => (Results::default(), false),
    }
}

/// Where no thread has counters, a sample still has its time and its
/// operations: the threads add nothing, no counter counts as present, and no
/// issue is noted.
pub proof fn timing_needs_no_counters(threads: Seq<ThreadRead>, before: Seq<Seq<char>>)
    requires
        forall|i: int| 0 <= i < threads.len() ==> (#[trigger] threads[i]) is TimingOnly,
    ensures
        results::total(thread_results(threads)) == results::ResultsTally::zero(),
        results::total(thread_results(threads)).representable(),
        issues_after(threads, threads.len() as int, before) == before,
    decreases threads.len(),
{
    if threads.len() > 0 {
        let shorter = threads.drop_last();
        assert forall|i: int| 0 <= i < shorter.len() implies (#[trigger] shorter[i])
            is TimingOnly by {
            assert(threads[i] is TimingOnly);
        }
        timing_needs_no_counters(shorter, before);
        issues_of_front(threads, shorter, shorter.len() as int, before);
        assert(thread_results(threads).drop_last() =~= thread_results(shorter));
        assert(threads[threads.len() - 1] is TimingOnly);
        assert(thread_results(threads).last() == Results::none());
    }
}

/// The issues after some threads depend on those threads alone.
proof fn issues_of_front(
    threads: Seq<ThreadRead>,
    shorter: Seq<ThreadRead>,
    count: int,
    before: Seq<Seq<char>>,
)
    requires
        0 <= count <= shorter.len() <= threads.len(),
        forall|i: int| 0 <= i < count ==> threads[i] == shorter[i],
    ensures
        issues_after(threads, count, before) == issues_after(shorter, count, before),
    decreases count,
{
    if count > 0 {
        issues_of_front(threads, shorter, count - 1, before);
    }
}

/// The results of a sample over all measured threads, and whether later samples
/// should use counters one by one. There are no results where a sum is too
/// large to be held.
pub fn collect(
    threads: &Vec<ThreadRead>,
    prefer_individual: bool,
    host_elapsed: Nanos,
    ops: u64,
    issues: &mut PerfIssues,
) -> (r: (Option<Results>, bool))
    ensures
        r.0 is Some == results::total(thread_results(threads@)).representable(),
        r.0 matches Some(sum) ==> sum.tally() == (results::ResultsTally {
            duration: host_elapsed.count as nat,
            iterations: ops as nat,
            chunks_executed: 1,
            ..results::total(thread_results(threads@))
        }),
        r.1 == (prefer_individual || exists|i: int|
            0 <= i < threads@.len() && (#[trigger] threads@[i]).prefers_individual()),
        final(issues).texts() == issues_after(
            threads@,
            threads@.len() as int,
            old(issues).texts(),
        ),
{
    let ghost before = issues.texts();
    let mut each: Vec<Results> = Vec::new();
    let mut prefer = prefer_individual;
    let mut i: usize = 0;
    while i < threads.len()
        invariant
            i <= threads.len(),
            each@.len() == i,
            forall|j: int| 0 <= j < i ==> #[trigger] each@[j] == threads@[j].results(),
            prefer == (prefer_individual || exists|j: int|
                0 <= j < i && (#[trigger] threads@[j]).prefers_individual()),
            issues.texts() == issues_after(threads@, i as int, before),
        decreases threads.len() - i,
    {
        let (results, wants) = collect_thread(&threads[i], issues);
        each.push(results);
        prefer = prefer || wants;
        i += 1;
    }
    assert(each@ =~= thread_results(threads@));
    (aggregate_threads(&each, host_elapsed, ops), prefer)
}

/// Whose events are counted.
#[derive(Clone, Copy, Debug, PartialEq, Eq, Structural)]
pub enum PmuScope {
    CallingThread,
    ProcessThreads,
    RegisteredThreads,
}

impl PmuScope {
    pub open spec fn label_text(self) -> Seq<char> {
        match self {
            PmuScope::CallingThread => "timing + PMU"@,
            PmuScope::ProcessThreads => "timing + process-thread PMU"@,
            PmuScope::RegisteredThreads => "timing + registered-thread PMU"@,
        }
    }

    /// How results of this scope are labelled.
    pub fn measurement_label(self) -> (r: &'static str)
        ensures
            r@ == self.label_text(),
    {
        match self {
            PmuScope::CallingThread => "timing + PMU",
            PmuScope::ProcessThreads => "timing + process-thread PMU",
            PmuScope::RegisteredThreads => "timing + registered-thread PMU",
        }
    }

    /// Whether counters are used one by one from the start.
    pub fn starts_individual(self) -> (r: bool)
        ensures
            r == !(self is CallingThread),
    {
        match self {
            PmuScope::CallingThread => false,
            _ => true,
        }
    }
}

/// Different scopes have different labels.
pub proof fn labels_tell_scopes_apart(a: PmuScope, b: PmuScope)
    ensures
        a.label_text() == b.label_text() ==> a == b,
{
    reveal_strlit("timing + PMU");
    reveal_strlit("timing + process-thread PMU");
    reveal_strlit("timing + registered-thread PMU");
    assert("timing + PMU"@.len() == 12);
    assert("timing + process-thread PMU"@.len() == 27);
    assert("timing + registered-thread PMU"@.len() == 30);
}

/// How the counters of one thread are used.
#[derive(Clone, Copy, Debug, PartialEq, Eq, Structural)]
pub enum CounterMode {
    /// Nothing is open.
    Idle,
    Group,
    Individual,
    /// No counter could be opened.
    TimingOnly,
}

/// The mode of a thread: its group where one is wanted and could be opened,
/// else its counters one by one where any could be opened.
pub open spec fn mode_of(prefer_individual: bool, group_opened: bool, any_opened: bool) -> CounterMode {
    if !prefer_individual && group_opened {
        CounterMode::Group
    } else if any_opened {
        CounterMode::Individual
    } else {
        CounterMode::TimingOnly
    }
}

/// Chooses the mode of a thread and notes where counters are used one by one.
pub fn counter_mode(
    prefer_individual: bool,
    group_opened: bool,
    any_opened: bool,
    issues: &mut PerfIssues,
) -> (r: CounterMode)
    ensures
        r == mode_of(prefer_individual, group_opened, any_opened),
        final(issues).texts() == if r is Individual {
            with_issue(old(issues).texts(), "using ungrouped perf counters fallback"@)
        } else {
            old(issues).texts()
        },
{
    if !prefer_individual && group_opened {
        CounterMode::Group
    } else if any_opened {
        issues.record_perf_issue("using ungrouped perf counters fallback".to_owned());
        CounterMode::Individual
    } else {
        CounterMode::TimingOnly
    }
}

impl CounterMode {
    /// Whether the counters of a thread have to be opened one by one after all:
    /// its group could not be enabled, or nothing was open.
    pub fn needs_fallback(self, group_enabled: bool) -> (r: bool)
        ensures
            r == (self is Idle || (self is Group && !group_enabled)),
    {
        match self {
            CounterMode::Idle => true,
            CounterMode::Group => !group_enabled,
            _ => false,
        }
    }
}

/// A thread that fell back uses its counters one by one, or none, and needs no
/// further fallback.
pub proof fn fallback_is_final(any_opened: bool, group_opened: bool)
    ensures
        ({
            let mode = mode_of(true, group_opened, any_opened);
            mode is Individual || mode is TimingOnly
        }),
{
}

/// Whether some of the names stands for an identifier.
pub open spec fn names_thread(names: Seq<Seq<char>>, tid: i32) -> bool {
    exists|i: int| 0 <= i < names.len() && parse::signed(#[trigger] names[i]) == Some(tid as int)
}

/// The identifiers of threads by the names of their directories, in order;
/// names that are no numbers are passed over.
pub fn thread_ids(names: &Vec<String>) -> (r: Vec<i32>)
    ensures
        ids_increase(r@),
        forall|tid: i32| #[trigger] r@.contains(tid) == names_thread(text::texts(names@), tid),
{
    let mut set = LinuxPerfThreadSet::new();
    let ghost all = text::texts(names@);
    let mut i: usize = 0;
    while i < names.len()
        invariant
            i <= names.len(),
            all == text::texts(names@),
            forall|tid: i32| #[trigger]
                set@.contains(tid) == (exists|j: int|
                    0 <= j < i && parse::signed(#[trigger] all[j]) == Some(tid as int)),
        decreases names.len() - i,
    {
        assert(all[i as int] == names@[i as int]@);
        let ghost before = set@;
        match parse::parse_i32(&text::chars_of(names[i].as_str())) {
            Some(tid) => {
                set.register(tid);
            },
            None => {},
        }
        proof {
            assert forall|tid: i32| #[trigger]
                set@.contains(tid) == (exists|j: int|
                    0 <= j < i + 1 && parse::signed(#[trigger] all[j]) == Some(tid as int)) by {
                if before.contains(tid) {
                    let j = choose|j: int|
                        0 <= j < i && parse::signed(#[trigger] all[j]) == Some(tid as int);
                    assert(0 <= j < i + 1);
                }
            }
        }
        i += 1;
    }
    let r = set.snapshot();
    assert forall|tid: i32| #[trigger] r@.contains(tid) == names_thread(all, tid) by {
        assert(r@.to_set().contains(tid) == r@.contains(tid));
        assert(set@.contains(tid) == r@.contains(tid));
    }
    r
}

/// The identifiers come one after the other, each once.
pub open spec fn ids_increase(ids: Seq<i32>) -> bool {
    forall|i: int, j: int| 0 <= i < j < ids.len() ==> #[trigger] ids[i] < #[trigger] ids[j]
}

/// A set of thread identifiers.
#[derive(Debug)]
pub struct LinuxPerfThreadSet {
    tids: Vec<i32>,
}

impl View for LinuxPerfThreadSet {
    type V = Set<i32>;

    closed spec fn view(&self) -> Set<i32> {
        self.tids@.to_set()
    }
}

impl LinuxPerfThreadSet {
    #[verifier::type_invariant]
    spec fn well_formed(self) -> bool {
        ids_increase(self.tids@)
    }

    pub fn new() -> (r: LinuxPerfThreadSet)
        ensures
            r@ == Set::<i32>::empty(),
    {
        let r = LinuxPerfThreadSet { tids: Vec::new() };
        assert(r.tids@.to_set() =~= Set::<i32>::empty());
        r
    }

    fn place(&self, tid: i32) -> (r: usize)
        ensures
            r <= self.tids@.len(),
            forall|i: int| 0 <= i < r ==> #[trigger] self.tids@[i] < tid,
            r < self.tids@.len() ==> self.tids@[r as int] >= tid,
    {
        let mut i: usize = 0;
        while i < self.tids.len()
            invariant
                i <= self.tids.len(),
                forall|j: int| 0 <= j < i ==> #[trigger] self.tids@[j] < tid,
            decreases self.tids.len() - i,
        {
            if self.tids[i] >= tid {
                return i;
            }
            i += 1;
        }
        i
    }

    /// The set with one more identifier.
    fn inserted(self, tid: i32) -> (r: LinuxPerfThreadSet)
        ensures
            r@ == self@.insert(tid),
    {
        proof {
            use_type_invariant(&self);
        }
        let at: usize = self.place(tid);
        let LinuxPerfThreadSet { mut tids } = self;
        let ghost before = tids@;
        if at < tids.len() && tids[at] == tid {
            let r = LinuxPerfThreadSet { tids };
            assert(before.contains(tid));
            assert(r@ =~= self@.insert(tid));
            return r;
        }
        tids.insert(at, tid);
        proof {
            let after = tids@;
            assert forall|i: int, j: int| 0 <= i < j < after.len() implies #[trigger] after[i]
                < #[trigger] after[j] by {
                let a = if i < at {
                    before[i]
                } else if i == at {
                    tid
                } else {
                    before[i - 1]
                };
                let b = if j < at {
                    before[j]
                } else if j == at {
                    tid
                } else {
                    before[j - 1]
                };
                assert(after[i] == a && after[j] == b);
                if i == at && j > at + 1 {
                    assert(before[at as int] < before[j - 1]);
                }
            }
            assert forall|x: i32| after.to_set().contains(x) <==> before.to_set().insert(
                tid,
            ).contains(x) by {
                if after.contains(x) {
                    let k = choose|k: int| 0 <= k < after.len() && after[k] == x;
                    if k < at {
                        assert(before[k] == x);
                    } else if k > at {
                        assert(before[k - 1] == x);
                    }
                }
                if before.contains(x) {
                    let k = choose|k: int| 0 <= k < before.len() && before[k] == x;
                    if k < at {
                        assert(after[k] == x);
                    } else {
                        assert(after[k + 1] == x);
                    }
                }
                assert(after[at as int] == tid);
            }
            assert(after.to_set() =~= before.to_set().insert(tid));
        }
        LinuxPerfThreadSet { tids }
    }

    /// The set without an identifier, and whether it was there.
    fn removed(self, tid: i32) -> (r: (LinuxPerfThreadSet, bool))
        ensures
            r.0@ == self@.remove(tid),
            r.1 == self@.contains(tid),
    {
        proof {
            use_type_invariant(&self);
        }
        let at: usize = self.place(tid);
        let LinuxPerfThreadSet { mut tids } = self;
        let ghost before = tids@;
        if at < tids.len() && tids[at] == tid {
            assert(before.contains(tid));
            tids.remove(at);
            proof {
                let after = tids@;
                assert forall|i: int, j: int| 0 <= i < j < after.len() implies #[trigger] after[i]
                    < #[trigger] after[j] by {
                    let a = if i < at {
                        i
                    } else {
                        i + 1
                    };
                    let b = if j < at {
                        j
                    } else {
                        j + 1
                    };
                    assert(after[i] == before[a] && after[j] == before[b]);
                }
                assert forall|x: i32| after.to_set().contains(x) <==> before.to_set().remove(
                    tid,
                ).contains(x) by {
                    if after.contains(x) {
                        let k = choose|k: int| 0 <= k < after.len() && after[k] == x;
                        let b = if k < at {
                            k
                        } else {
                            k + 1
                        };
                        assert(before[b] == x);
                        assert(before[at as int] == tid);
                    }
                    if before.contains(x) && x != tid {
                        let k = choose|k: int| 0 <= k < before.len() && before[k] == x;
                        let b = if k < at {
                            k
                        } else {
                            k - 1
                        };
                        assert(after[b] == x);
                    }
                }
                assert(after.to_set() =~= before.to_set().remove(tid));
            }
            return (LinuxPerfThreadSet { tids }, true);
        }
        proof {
            if before.contains(tid) {
                let k = choose|k: int| 0 <= k < before.len() && before[k] == tid;
                if k > at {
                    assert(before[at as int] < before[k]);
                }
            }
            assert(before.to_set() =~= before.to_set().remove(tid));
        }
        (LinuxPerfThreadSet { tids }, false)
    }

    /// Adds an identifier; one that is there already stays once.
    pub fn register(&mut self, tid: i32)
        ensures
            final(self)@ == old(self)@.insert(tid),
    {
        let mut taken = LinuxPerfThreadSet::new();
        std::mem::swap(&mut taken, self);
        *self = taken.inserted(tid);
    }

    /// Removes an identifier, and says whether it was there.
    pub fn unregister(&mut self, tid: i32) -> (r: bool)
        ensures
            final(self)@ == old(self)@.remove(tid),
            r == old(self)@.contains(tid),
    {
        let mut taken = LinuxPerfThreadSet::new();
        std::mem::swap(&mut taken, self);
        let (rest, was_there) = taken.removed(tid);
        *self = rest;
        was_there
    }

    pub fn len(&self) -> (r: usize)
        ensures
            r == self@.len(),
    {
        proof {
            use_type_invariant(self);
            assert(self.tids@.no_duplicates());
            self.tids@.unique_seq_to_set();
        }
        self.tids.len()
    }

    pub fn is_empty(&self) -> (r: bool)
        ensures
            r == (self@.len() == 0),
    {
        self.len() == 0
    }

    /// The identifiers, in order.
    pub fn snapshot(&self) -> (r: Vec<i32>)
        ensures
            ids_increase(r@),
            r@.to_set() == self@,
    {
        proof {
            use_type_invariant(self);
        }
        let mut r: Vec<i32> = Vec::new();
        let mut i: usize = 0;
        while i < self.tids.len()
            invariant
                i <= self.tids.len(),
                r@ == self.tids@.take(i as int),
            decreases self.tids.len() - i,
        {
            r.push(self.tids[i]);
            i += 1;
            assert(r@ =~= self.tids@.take(i as int));
        }
        assert(self.tids@.take(self.tids@.len() as int) =~= self.tids@);
        r
    }
}

} // verus!
