//! What the counters of a benchmark suggest about its bottleneck.
use crate::bench::backend::MeasurementDomain;
use crate::double::DoubleBits;
use crate::numbers::{NumberStyle, NumberTexts};
use crate::session::BenchmarkStats;
use crate::text;
use vstd::prelude::*;

verus! {

/// The bit patterns of the thresholds.
pub const TWENTY_BITS: u64 = 0x4034_0000_0000_0000;

pub const TEN_BITS: u64 = 0x4024_0000_0000_0000;

pub const FIVE_BITS: u64 = 0x4014_0000_0000_0000;

pub const THREE_BITS: u64 = 0x4008_0000_0000_0000;

pub const ONE_BITS: u64 = 0x3ff0_0000_0000_0000;

pub const FIVE_HUNDREDTHS_BITS: u64 = 0x3fa9_9999_9999_999a;

pub const ONE_HUNDREDTH_BITS: u64 = 0x3f84_7ae1_47ae_147b;

/// `value` is at least the number with the given pattern.
pub open spec fn at_least(value: DoubleBits, bits: u64) -> bool {
    DoubleBits { bits }.at_most(value)
}

fn reaches(value: DoubleBits, bits: u64) -> (r: bool)
    ensures
        r == at_least(value, bits),
{
    value.ge(DoubleBits { bits })
}

/// The counters of the processor say nothing about the work measured.
pub open spec fn counters_suppressed(stats: BenchmarkStats) -> bool {
    !stats.emits_cpu_diagnostics || stats.measurement_domain == MeasurementDomain::Gpu
        || stats.measurement_domain == MeasurementDomain::Io
}

/// What stands before a diagnosis of host work beside other work.
pub open spec fn host_prefix(domain: MeasurementDomain) -> Seq<char> {
    match domain {
        MeasurementDomain::Cpu => ""@,
        MeasurementDomain::Gpu => ""@,
        MeasurementDomain::Io => "[host] "@,
        MeasurementDomain::Mixed => "[host] "@,
    }
}

/// Backend stalls together with cache misses.
pub open spec fn memory_bound(stats: BenchmarkStats) -> bool {
    &&& stats.has_cycles
    &&& stats.has_stalled_cycles_backend
    &&& at_least(stats.backend_stall_percent, TWENTY_BITS)
    &&& stats.has_cache_misses
    &&& (stats.has_cache_references && at_least(stats.cache_miss_percent, FIVE_BITS))
        || at_least(stats.cache_misses_per_op, FIVE_HUNDREDTHS_BITS)
}

/// Frontend stalls together with mispredicted branches.
pub open spec fn branch_bound(stats: BenchmarkStats) -> bool {
    &&& stats.has_cycles
    &&& stats.has_stalled_cycles_frontend
    &&& at_least(stats.frontend_stall_percent, TWENTY_BITS)
    &&& stats.has_branches
    &&& stats.has_branch_misses
    &&& at_least(stats.branch_miss_rate, THREE_BITS)
}

/// Frontend stalls together with instruction cache misses.
pub open spec fn fetch_bound(stats: BenchmarkStats) -> bool {
    &&& stats.has_cycles
    &&& stats.has_stalled_cycles_frontend
    &&& at_least(stats.frontend_stall_percent, TWENTY_BITS)
    &&& stats.has_l1i_misses
    &&& at_least(stats.l1i_misses_per_op, ONE_HUNDREDTH_BITS)
}

/// Fewer than one instruction per cycle.
pub open spec fn low_ipc(stats: BenchmarkStats) -> bool {
    &&& stats.has_cycles
    &&& stats.has_instructions
    &&& DoubleBits { bits: 0 }.below(stats.ipc)
    &&& stats.ipc.below(DoubleBits { bits: ONE_BITS })
}

/// Samples that vary too much, or too many outliers among them.
pub open spec fn unstable(stats: BenchmarkStats) -> bool {
    at_least(stats.cv_percent, TEN_BITS) || stats.outlier_count >= if stats.samples / 10 > 2 {
        stats.samples / 10
    } else {
        2
    }
}

pub open spec fn fixed(numbers: &NumberTexts, value: DoubleBits, places: u8) -> Seq<char> {
    numbers.spec_text(value, NumberStyle::Fixed { places })
}

pub open spec fn memory_text(stats: BenchmarkStats, numbers: &NumberTexts) -> Seq<char> {
    host_prefix(stats.measurement_domain)
        + "Likely data-side memory latency: backend stall is "@ + fixed(
        numbers,
        stats.backend_stall_percent,
        1,
    ) + "% with cache pressure at "@ + fixed(numbers, stats.cache_miss_percent, 2)
        + "% miss rate and "@ + fixed(numbers, stats.cache_misses_per_op, 4) + " misses/op"@
}

pub open spec fn branch_text(stats: BenchmarkStats, numbers: &NumberTexts) -> Seq<char> {
    host_prefix(stats.measurement_domain)
        + "Likely branch predictor or fetch disruption: frontend stall is "@ + fixed(
        numbers,
        stats.frontend_stall_percent,
        1,
    ) + "% with "@ + fixed(numbers, stats.branch_miss_rate, 2) + "% branch misses"@
}

pub open spec fn fetch_text(stats: BenchmarkStats, numbers: &NumberTexts) -> Seq<char> {
    host_prefix(stats.measurement_domain)
        + "Likely instruction-cache pressure: frontend stall is "@ + fixed(
        numbers,
        stats.frontend_stall_percent,
        1,
    ) + "% with "@ + fixed(numbers, stats.l1i_misses_per_op, 4) + " L1I misses/op"@
}

pub open spec fn low_ipc_text(stats: BenchmarkStats, numbers: &NumberTexts) -> Seq<char> {
    host_prefix(stats.measurement_domain) + "Low IPC ("@ + fixed(numbers, stats.ipc, 3)
        + ") suggests poor machine utilization; look for dependency chains, execution-port pressure, or latent memory effects"@
}

pub open spec fn stability_text(stats: BenchmarkStats, numbers: &NumberTexts) -> Seq<char> {
    "Run stability is weak: CV "@ + fixed(numbers, stats.cv_percent, 2) + "% with "@ + text::decimal(
        stats.outlier_count as nat,
    ) + " outliers across "@ + text::decimal(stats.samples as nat) + " samples"@
}

/// A list of one text where a condition holds.
pub open spec fn one_if(condition: bool, entry: Seq<char>) -> Seq<Seq<char>> {
    if condition {
        seq![entry]
    } else {
        Seq::empty()
    }
}

/// What the stalls suggest, where the counters count.
pub open spec fn stall_diagnoses(stats: BenchmarkStats, numbers: &NumberTexts) -> Seq<Seq<char>> {
    if counters_suppressed(stats) {
        Seq::empty()
    } else {
        one_if(memory_bound(stats), memory_text(stats, numbers)) + one_if(
            branch_bound(stats),
            branch_text(stats, numbers),
        ) + one_if(fetch_bound(stats), fetch_text(stats, numbers))
    }
}

/// All that is suggested: what the stalls suggest; a low rate of instructions
/// where they suggest nothing; and, in every domain, unstable samples.
pub open spec fn diagnoses(stats: BenchmarkStats, numbers: &NumberTexts) -> Seq<Seq<char>> {
    let stalls = stall_diagnoses(stats, numbers);
    stalls + one_if(
        !counters_suppressed(stats) && low_ipc(stats) && stalls.len() == 0,
        low_ipc_text(stats, numbers),
    ) + one_if(unstable(stats), stability_text(stats, numbers))
}

fn fixed_text(numbers: &NumberTexts, value: DoubleBits, places: u8) -> (r: String)
    ensures
        r@ == fixed(numbers, value, places),
{
    numbers.text(value, NumberStyle::Fixed { places })
}

fn push_text(list: &mut Vec<String>, entry: String)
    ensures
        text::texts(final(list)@) == text::texts(old(list)@).push(entry@),
{
    list.push(entry);
    assert(text::texts(list@) =~= text::texts(old(list)@).push(entry@));
}

/// What the counters and the stability of a benchmark suggest.
#[verifier::rlimit(40)]
pub fn diagnose_stats(stats: &BenchmarkStats, numbers: &NumberTexts) -> (r: Vec<String>)
    ensures
        text::texts(r@) == diagnoses(*stats, numbers),
{
    let mut diagnostics: Vec<String> = Vec::new();
    assert(text::texts(diagnostics@) =~= Seq::empty());
    let prefix = match stats.measurement_domain {
        MeasurementDomain::Cpu => "",
        MeasurementDomain::Gpu => "",
        MeasurementDomain::Io => "[host] ",
        MeasurementDomain::Mixed => "[host] ",
    };
    let suppressed = !stats.emits_cpu_diagnostics || stats.measurement_domain
        == MeasurementDomain::Gpu || stats.measurement_domain == MeasurementDomain::Io;
    let ghost memory = one_if(
        !suppressed && memory_bound(*stats),
        memory_text(*stats, numbers),
    );
    if !suppressed && stats.has_cycles && stats.has_stalled_cycles_backend && reaches(
        stats.backend_stall_percent,
        TWENTY_BITS,
    ) && stats.has_cache_misses && ((stats.has_cache_references && reaches(
        stats.cache_miss_percent,
        FIVE_BITS,
    )) || reaches(stats.cache_misses_per_op, FIVE_HUNDREDTHS_BITS)) {
        let mut entry = prefix.to_owned();
        entry.append("Likely data-side memory latency: backend stall is ");
        entry.append(fixed_text(numbers, stats.backend_stall_percent, 1).as_str());
        entry.append("% with cache pressure at ");
        entry.append(fixed_text(numbers, stats.cache_miss_percent, 2).as_str());
        entry.append("% miss rate and ");
        entry.append(fixed_text(numbers, stats.cache_misses_per_op, 4).as_str());
        entry.append(" misses/op");
        push_text(&mut diagnostics, entry);
    }
    assert(text::texts(diagnostics@) =~= memory);
    let ghost branch = one_if(
        !suppressed && branch_bound(*stats),
        branch_text(*stats, numbers),
    );
    if !suppressed && stats.has_cycles && stats.has_stalled_cycles_frontend && reaches(
        stats.frontend_stall_percent,
        TWENTY_BITS,
    ) && stats.has_branches && stats.has_branch_misses && reaches(
        stats.branch_miss_rate,
        THREE_BITS,
    ) {
        let mut entry = prefix.to_owned();
        entry.append("Likely branch predictor or fetch disruption: frontend stall is ");
        entry.append(fixed_text(numbers, stats.frontend_stall_percent, 1).as_str());
        entry.append("% with ");
        entry.append(fixed_text(numbers, stats.branch_miss_rate, 2).as_str());
        entry.append("% branch misses");
        push_text(&mut diagnostics, entry);
    }
    assert(text::texts(diagnostics@) =~= memory + branch);
    if !suppressed && stats.has_cycles && stats.has_stalled_cycles_frontend && reaches(
        stats.frontend_stall_percent,
        TWENTY_BITS,
    ) && stats.has_l1i_misses && reaches(stats.l1i_misses_per_op, ONE_HUNDREDTH_BITS) {
        let mut entry = prefix.to_owned();
        entry.append("Likely instruction-cache pressure: frontend stall is ");
        entry.append(fixed_text(numbers, stats.frontend_stall_percent, 1).as_str());
        entry.append("% with ");
        entry.append(fixed_text(numbers, stats.l1i_misses_per_op, 4).as_str());
        entry.append(" L1I misses/op");
        push_text(&mut diagnostics, entry);
    }
    let ghost stalls = stall_diagnoses(*stats, numbers);
    assert(text::texts(diagnostics@) =~= stalls);
    if !suppressed && stats.has_cycles && stats.has_instructions && stats.ipc.gt(
        DoubleBits { bits: 0 },
    ) && stats.ipc.lt(DoubleBits { bits: ONE_BITS }) && diagnostics.len() == 0 {
        let mut entry = prefix.to_owned();
        entry.append("Low IPC (");
        entry.append(fixed_text(numbers, stats.ipc, 3).as_str());
        entry.append(
            ") suggests poor machine utilization; look for dependency chains, execution-port pressure, or latent memory effects",
        );
        push_text(&mut diagnostics, entry);
    }
    let ghost counted = stalls + one_if(
        !counters_suppressed(*stats) && low_ipc(*stats) && stalls.len() == 0,
        low_ipc_text(*stats, numbers),
    );
    assert(text::texts(diagnostics@) =~= counted);
    let tenth: usize = stats.samples / 10;
    let many: usize = if tenth > 2 {
        tenth
    } else {
        2
    };
    if reaches(stats.cv_percent, TEN_BITS) || stats.outlier_count >= many {
        let mut entry = "Run stability is weak: CV ".to_owned();
        entry.append(fixed_text(numbers, stats.cv_percent, 2).as_str());
        entry.append("% with ");
        entry.append(text::decimal_text(stats.outlier_count as u64).as_str());
        entry.append(" outliers across ");
        entry.append(text::decimal_text(stats.samples as u64).as_str());
        entry.append(" samples");
        push_text(&mut diagnostics, entry);
    }
    assert(text::texts(diagnostics@) =~= diagnoses(*stats, numbers));
    diagnostics
}

/// Where the counters say nothing about the work measured, only unstable
/// samples are diagnosed.
pub proof fn suppressed_counters_are_silent(stats: BenchmarkStats, numbers: &NumberTexts)
    requires
        counters_suppressed(stats),
    ensures
        diagnoses(stats, numbers) == one_if(unstable(stats), stability_text(stats, numbers)),
{
    assert(diagnoses(stats, numbers) =~= one_if(unstable(stats), stability_text(stats, numbers)));
}

/// Unstable samples are diagnosed whatever the domain.
pub proof fn instability_is_always_reported(stats: BenchmarkStats, numbers: &NumberTexts)
    requires
        unstable(stats),
    ensures
        diagnoses(stats, numbers).contains(stability_text(stats, numbers)),
{
    let all = diagnoses(stats, numbers);
    assert(all[all.len() - 1] == stability_text(stats, numbers));
}

/// Of host work beside other work the counters suggest what they suggest of host
/// work alone, each time marked as the host's.
pub proof fn mixed_work_is_marked(mixed: BenchmarkStats, plain: BenchmarkStats, numbers: &NumberTexts)
    requires
        mixed.measurement_domain == MeasurementDomain::Mixed,
        plain == (BenchmarkStats { measurement_domain: MeasurementDomain::Cpu, ..mixed }),
    ensures
        stall_diagnoses(mixed, numbers) == stall_diagnoses(plain, numbers).map_values(
            |entry: Seq<char>| "[host] "@ + entry,
        ),
        low_ipc_text(mixed, numbers) == "[host] "@ + low_ipc_text(plain, numbers),
        stability_text(mixed, numbers) == stability_text(plain, numbers),
{
    reveal_strlit("");
    assert(memory_text(mixed, numbers) =~= "[host] "@ + memory_text(plain, numbers));
    assert(branch_text(mixed, numbers) =~= "[host] "@ + branch_text(plain, numbers));
    assert(fetch_text(mixed, numbers) =~= "[host] "@ + fetch_text(plain, numbers));
    assert(low_ipc_text(mixed, numbers) =~= "[host] "@ + low_ipc_text(plain, numbers));
    assert(stall_diagnoses(mixed, numbers) =~= stall_diagnoses(plain, numbers).map_values(
        |entry: Seq<char>| "[host] "@ + entry,
    ));
}

} // verus!
