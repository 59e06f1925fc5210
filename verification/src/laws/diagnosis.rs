//! When a bottleneck is suggested.
use crate::bench::backend::MeasurementDomain;
use crate::bench::diagnosis;
use crate::bench::diagnosis::diagnose_stats;
use crate::double::DoubleBits;
use crate::numbers::{NumberStyle, NumberTexts};
use crate::session::BenchmarkStats;
use crate::text;
use vstd::prelude::*;

verus! {

/// A number, other than one below zero, that is at least the one with a pattern.
pub open spec fn from(value: DoubleBits, pattern: u64) -> bool {
    pattern <= value.bits <= 0x7ff0_0000_0000_0000
}

/// Whether the counters count: those of the processor say something of work that
/// it did, alone or beside other work, where the backend stands by them.
pub open spec fn counters_count(stats: BenchmarkStats) -> bool {
    stats.emits_cpu_diagnostics && (stats.measurement_domain == MeasurementDomain::Cpu
        || stats.measurement_domain == MeasurementDomain::Mixed)
}

/// What marks a suggestion about work beside other work.
pub open spec fn mark(stats: BenchmarkStats) -> Seq<char> {
    if stats.measurement_domain == MeasurementDomain::Mixed {
        "[host] "@
    } else {
        ""@
    }
}

/// How a suggestion that memory is waited for begins.
pub open spec fn memory_head(stats: BenchmarkStats) -> Seq<char> {
    mark(stats) + "Likely data-side memory latency: backend stall is "@
}

/// How a suggestion that branches are mispredicted begins.
pub open spec fn branch_head(stats: BenchmarkStats) -> Seq<char> {
    mark(stats) + "Likely branch predictor or fetch disruption: frontend stall is "@
}

/// How a suggestion that instructions are waited for begins.
pub open spec fn fetch_head(stats: BenchmarkStats) -> Seq<char> {
    mark(stats) + "Likely instruction-cache pressure: frontend stall is "@
}

/// How a suggestion of poor utilization begins.
pub open spec fn utilization_head(stats: BenchmarkStats) -> Seq<char> {
    mark(stats) + "Low IPC ("@
}

/// How a remark on stability begins.
pub open spec fn stability_head() -> Seq<char> {
    "Run stability is weak: CV "@
}

/// Whether an entry begins with a text.
pub open spec fn begins(entry: Seq<char>, head: Seq<char>) -> bool {
    entry.len() >= head.len() && forall|i: int|
        0 <= i < head.len() ==> #[trigger] entry[i] == head[i]
}

/// Whether some entry of a list begins with a text.
pub open spec fn says(list: Seq<String>, head: Seq<char>) -> bool {
    exists|k: int| 0 <= k < list.len() && begins((#[trigger] list[k])@, head)
}

/// Memory is waited for: at least a fifth of the cycles stalls in the backend,
/// and the cache is missed in a twentieth of its references or in a twentieth of
/// the operations.
pub open spec fn waits_for_memory(stats: BenchmarkStats) -> bool {
    &&& stats.has_cycles && stats.has_stalled_cycles_backend && stats.has_cache_misses
    &&& from(stats.backend_stall_percent, 0x4034_0000_0000_0000)
    &&& (stats.has_cache_references && from(stats.cache_miss_percent, 0x4014_0000_0000_0000))
        || from(stats.cache_misses_per_op, 0x3fa9_9999_9999_999a)
}

/// At least a fifth of the cycles stalls in the frontend.
pub open spec fn frontend_stalls(stats: BenchmarkStats) -> bool {
    stats.has_cycles && stats.has_stalled_cycles_frontend && from(
        stats.frontend_stall_percent,
        0x4034_0000_0000_0000,
    )
}

/// Branches are mispredicted: the frontend stalls, and at least three branches in
/// a hundred were not predicted.
pub open spec fn mispredicts(stats: BenchmarkStats) -> bool {
    frontend_stalls(stats) && stats.has_branches && stats.has_branch_misses && from(
        stats.branch_miss_rate,
        0x4008_0000_0000_0000,
    )
}

/// Instructions are waited for: the frontend stalls, and an instruction was
/// missing at least once in a hundred operations.
pub open spec fn waits_for_instructions(stats: BenchmarkStats) -> bool {
    frontend_stalls(stats) && stats.has_l1i_misses && from(
        stats.l1i_misses_per_op,
        0x3f84_7ae1_47ae_147b,
    )
}

/// Fewer instructions than cycles.
pub open spec fn slow(stats: BenchmarkStats) -> bool {
    stats.has_cycles && stats.has_instructions && 0 < stats.ipc.bits < 0x3ff0_0000_0000_0000
}

/// The samples vary by at least a tenth, or at least two of them and a tenth of
/// them are outliers.
pub open spec fn shaky(stats: BenchmarkStats) -> bool {
    from(stats.cv_percent, 0x4024_0000_0000_0000) || (stats.outlier_count >= 2
        && stats.outlier_count >= stats.samples / 10)
}

pub open spec fn fixed(numbers: &NumberTexts, value: DoubleBits, places: u8) -> Seq<char> {
    numbers.spec_text(value, NumberStyle::Fixed { places })
}

proof fn conditions_agree(stats: BenchmarkStats)
    ensures
        diagnosis::counters_suppressed(stats) == !counters_count(stats),
        diagnosis::memory_bound(stats) == waits_for_memory(stats),
        diagnosis::branch_bound(stats) == mispredicts(stats),
        diagnosis::fetch_bound(stats) == waits_for_instructions(stats),
        diagnosis::low_ipc(stats) == slow(stats),
        diagnosis::unstable(stats) == shaky(stats),
        counters_count(stats) ==> diagnosis::host_prefix(stats.measurement_domain) == mark(stats),
{
}

/// Two heads of which neither begins with the other.
spec fn apart(a: Seq<char>, b: Seq<char>) -> bool {
    exists|p: int| 0 <= p < a.len() && p < b.len() && #[trigger] a[p] != b[p]
}

proof fn apart_means_not_both(entry: Seq<char>, a: Seq<char>, b: Seq<char>)
    requires
        apart(a, b),
    ensures
        !(begins(entry, a) && begins(entry, b)),
{
    let p = choose|p: int| 0 <= p < a.len() && p < b.len() && #[trigger] a[p] != b[p];
    if begins(entry, a) && begins(entry, b) {
        assert(entry[p] == a[p]);
        assert(entry[p] == b[p]);
    }
}

proof fn heads_are_apart(stats: BenchmarkStats)
    ensures
        apart(memory_head(stats), branch_head(stats)),
        apart(memory_head(stats), fetch_head(stats)),
        apart(memory_head(stats), utilization_head(stats)),
        apart(memory_head(stats), stability_head()),
        apart(branch_head(stats), fetch_head(stats)),
        apart(branch_head(stats), utilization_head(stats)),
        apart(branch_head(stats), stability_head()),
        apart(fetch_head(stats), utilization_head(stats)),
        apart(fetch_head(stats), stability_head()),
        apart(utilization_head(stats), stability_head()),
{
    reveal_strlit("[host] ");
    reveal_strlit("");
    reveal_strlit("Likely data-side memory latency: backend stall is ");
    reveal_strlit("Likely branch predictor or fetch disruption: frontend stall is ");
    reveal_strlit("Likely instruction-cache pressure: frontend stall is ");
    reveal_strlit("Low IPC (");
    reveal_strlit("Run stability is weak: CV ");
    let n = mark(stats).len() as int;
    assert(memory_head(stats)[n + 7] == 'd');
    assert(branch_head(stats)[n + 7] == 'b');
    assert(fetch_head(stats)[n + 7] == 'i');
    assert(memory_head(stats)[n + 1] == 'i');
    assert(branch_head(stats)[n + 1] == 'i');
    assert(fetch_head(stats)[n + 1] == 'i');
    assert(utilization_head(stats)[n + 1] == 'o');
    let first = if n == 0 {
        'L'
    } else {
        '['
    };
    assert(memory_head(stats)[0] == first);
    assert(branch_head(stats)[0] == first);
    assert(fetch_head(stats)[0] == first);
    assert(utilization_head(stats)[0] == first);
    assert(stability_head()[0] == 'R');
}

/// The five entries that there can be, each with its head.
proof fn entries_begin(stats: BenchmarkStats, numbers: &NumberTexts)
    requires
        counters_count(stats),
    ensures
        begins(diagnosis::memory_text(stats, numbers), memory_head(stats)),
        begins(diagnosis::branch_text(stats, numbers), branch_head(stats)),
        begins(diagnosis::fetch_text(stats, numbers), fetch_head(stats)),
        begins(diagnosis::low_ipc_text(stats, numbers), utilization_head(stats)),
{
    conditions_agree(stats);
    let m = memory_head(stats);
    assert(diagnosis::memory_text(stats, numbers) =~= m + (fixed(
        numbers,
        stats.backend_stall_percent,
        1,
    ) + "% with cache pressure at "@ + fixed(numbers, stats.cache_miss_percent, 2)
        + "% miss rate and "@ + fixed(numbers, stats.cache_misses_per_op, 4) + " misses/op"@));
    let b = branch_head(stats);
    assert(diagnosis::branch_text(stats, numbers) =~= b + (fixed(
        numbers,
        stats.frontend_stall_percent,
        1,
    ) + "% with "@ + fixed(numbers, stats.branch_miss_rate, 2) + "% branch misses"@));
    let f = fetch_head(stats);
    assert(diagnosis::fetch_text(stats, numbers) =~= f + (fixed(
        numbers,
        stats.frontend_stall_percent,
        1,
    ) + "% with "@ + fixed(numbers, stats.l1i_misses_per_op, 4) + " L1I misses/op"@));
    let u = utilization_head(stats);
    assert(diagnosis::low_ipc_text(stats, numbers) =~= u + (fixed(numbers, stats.ipc, 3)
        + ") suggests poor machine utilization; look for dependency chains, execution-port pressure, or latent memory effects"@));
}

proof fn stability_entry_begins(stats: BenchmarkStats, numbers: &NumberTexts)
    ensures
        begins(diagnosis::stability_text(stats, numbers), stability_head()),
{
    assert(diagnosis::stability_text(stats, numbers) =~= stability_head() + (fixed(
        numbers,
        stats.cv_percent,
        2,
    ) + "% with "@ + text::decimal(stats.outlier_count as nat) + " outliers across "@
        + text::decimal(stats.samples as nat) + " samples"@));
}

/// A bottleneck is suggested exactly where the numbers show it, in a fixed order
/// and once: waiting for memory by the stalls of the backend, whatever those of
/// the frontend are; mispredicted branches and waiting for instructions by the
/// stalls of the frontend; poor utilization where none of these is suggested; and
/// weak stability in every domain.
pub proof fn bottlenecks_are_suggested_where_they_show(
    stats: &BenchmarkStats,
    numbers: &NumberTexts,
    list: Vec<String>,
)
    requires
        call_ensures(diagnose_stats, (stats, numbers), list),
        counters_count(*stats),
    ensures
        says(list@, memory_head(*stats)) <==> waits_for_memory(*stats),
        says(list@, branch_head(*stats)) <==> mispredicts(*stats),
        says(list@, fetch_head(*stats)) <==> waits_for_instructions(*stats),
        says(list@, utilization_head(*stats)) <==> slow(*stats) && !waits_for_memory(*stats)
            && !mispredicts(*stats) && !waits_for_instructions(*stats),
        says(list@, stability_head()) <==> shaky(*stats),
        list@.len() <= 4,
{
    conditions_agree(*stats);
    entries_begin(*stats, numbers);
    stability_entry_begins(*stats, numbers);
    heads_are_apart(*stats);
    let a = diagnosis::one_if(
        waits_for_memory(*stats),
        diagnosis::memory_text(*stats, numbers),
    );
    let b = diagnosis::one_if(mispredicts(*stats), diagnosis::branch_text(*stats, numbers));
    let c = diagnosis::one_if(
        waits_for_instructions(*stats),
        diagnosis::fetch_text(*stats, numbers),
    );
    let d = diagnosis::one_if(
        slow(*stats) && !waits_for_memory(*stats) && !mispredicts(*stats)
            && !waits_for_instructions(*stats),
        diagnosis::low_ipc_text(*stats, numbers),
    );
    let e = diagnosis::one_if(shaky(*stats), diagnosis::stability_text(*stats, numbers));
    let all = text::texts(list@);
    assert(all =~= a + b + c + d + e);
    assert(all.len() == list@.len());
    listed(list@, a, b + c + d + e, Seq::empty(), memory_head(*stats));
    assert(all =~= a + b + (c + d + e));
    listed(list@, b, c + d + e, a, branch_head(*stats));
    assert(all =~= a + b + c + (d + e));
    listed(list@, c, d + e, a + b, fetch_head(*stats));
    assert(all =~= a + b + c + d + e);
    listed(list@, d, e, a + b + c, utilization_head(*stats));
    assert(all =~= a + b + c + d + e + Seq::<Seq<char>>::empty());
    listed(list@, e, Seq::empty(), a + b + c + d, stability_head());
    assert forall|k: int| 0 <= k < list@.len() implies {
        ||| a.len() > 0 && (#[trigger] list@[k])@ == a[0]
        ||| b.len() > 0 && list@[k]@ == b[0]
        ||| c.len() > 0 && list@[k]@ == c[0]
        ||| d.len() > 0 && list@[k]@ == d[0]
        ||| e.len() > 0 && list@[k]@ == e[0]
    } by {
        assert(all[k] == list@[k]@);
    }
    let m = memory_head(*stats);
    let n = branch_head(*stats);
    let f = fetch_head(*stats);
    let u = utilization_head(*stats);
    let s = stability_head();
    assert forall|k: int| 0 <= k < list@.len() implies {
        &&& begins((#[trigger] list@[k])@, m) ==> waits_for_memory(*stats)
        &&& begins(list@[k]@, n) ==> mispredicts(*stats)
        &&& begins(list@[k]@, f) ==> waits_for_instructions(*stats)
        &&& begins(list@[k]@, u) ==> slow(*stats) && !waits_for_memory(*stats) && !mispredicts(
            *stats,
        ) && !waits_for_instructions(*stats)
        &&& begins(list@[k]@, s) ==> shaky(*stats)
    } by {
        let entry = list@[k]@;
        apart_means_not_both(entry, m, n);
        apart_means_not_both(entry, m, f);
        apart_means_not_both(entry, m, u);
        apart_means_not_both(entry, m, s);
        apart_means_not_both(entry, n, f);
        apart_means_not_both(entry, n, u);
        apart_means_not_both(entry, n, s);
        apart_means_not_both(entry, f, u);
        apart_means_not_both(entry, f, s);
        apart_means_not_both(entry, u, s);
    }
}

/// A part of a list, where it holds an entry that begins with a text.
proof fn listed(
    list: Seq<String>,
    part: Seq<Seq<char>>,
    rest: Seq<Seq<char>>,
    front: Seq<Seq<char>>,
    head: Seq<char>,
)
    requires
        text::texts(list) =~= front + part + rest,
        part.len() > 0 ==> begins(part[0], head),
    ensures
        part.len() > 0 ==> says(list, head),
{
    if part.len() > 0 {
        let k = front.len() as int;
        assert(text::texts(list)[k] == part[0]);
        assert(text::texts(list).len() == list.len());
        assert(list[k]@ == part[0]);
    }
}

/// Where the counters say nothing of the work, only weak stability is remarked
/// on.
pub proof fn silent_counters_suggest_nothing(
    stats: &BenchmarkStats,
    numbers: &NumberTexts,
    list: Vec<String>,
)
    requires
        call_ensures(diagnose_stats, (stats, numbers), list),
        !counters_count(*stats),
    ensures
        list@.len() == if shaky(*stats) {
            1nat
        } else {
            0
        },
        says(list@, stability_head()) <==> shaky(*stats),
{
    conditions_agree(*stats);
    stability_entry_begins(*stats, numbers);
    diagnosis::suppressed_counters_are_silent(*stats, numbers);
    let e = diagnosis::one_if(shaky(*stats), diagnosis::stability_text(*stats, numbers));
    assert(text::texts(list@).len() == list@.len());
    assert(text::texts(list@) =~= Seq::<Seq<char>>::empty() + e + Seq::<Seq<char>>::empty());
    listed(list@, e, Seq::empty(), Seq::empty(), stability_head());
}

/// A suggestion gives the numbers that it rests on.
pub proof fn suggestions_give_their_numbers(
    stats: &BenchmarkStats,
    numbers: &NumberTexts,
    list: Vec<String>,
)
    requires
        call_ensures(diagnose_stats, (stats, numbers), list),
        counters_count(*stats),
    ensures
        waits_for_memory(*stats) ==> text::texts(list@).contains(
            memory_head(*stats) + fixed(numbers, stats.backend_stall_percent, 1)
                + "% with cache pressure at "@ + fixed(numbers, stats.cache_miss_percent, 2)
                + "% miss rate and "@ + fixed(numbers, stats.cache_misses_per_op, 4)
                + " misses/op"@,
        ),
        mispredicts(*stats) ==> text::texts(list@).contains(
            branch_head(*stats) + fixed(numbers, stats.frontend_stall_percent, 1) + "% with "@
                + fixed(numbers, stats.branch_miss_rate, 2) + "% branch misses"@,
        ),
        waits_for_instructions(*stats) ==> text::texts(list@).contains(
            fetch_head(*stats) + fixed(numbers, stats.frontend_stall_percent, 1) + "% with "@
                + fixed(numbers, stats.l1i_misses_per_op, 4) + " L1I misses/op"@,
        ),
        shaky(*stats) ==> text::texts(list@).contains(
            stability_head() + fixed(numbers, stats.cv_percent, 2) + "% with "@ + text::decimal(
                stats.outlier_count as nat,
            ) + " outliers across "@ + text::decimal(stats.samples as nat) + " samples"@,
        ),
{
    conditions_agree(*stats);
    let a = diagnosis::one_if(
        waits_for_memory(*stats),
        diagnosis::memory_text(*stats, numbers),
    );
    let b = diagnosis::one_if(mispredicts(*stats), diagnosis::branch_text(*stats, numbers));
    let c = diagnosis::one_if(
        waits_for_instructions(*stats),
        diagnosis::fetch_text(*stats, numbers),
    );
    let all = text::texts(list@);
    if waits_for_memory(*stats) {
        assert(all[0] == a[0]);
        assert(a[0] =~= memory_head(*stats) + fixed(numbers, stats.backend_stall_percent, 1)
            + "% with cache pressure at "@ + fixed(numbers, stats.cache_miss_percent, 2)
            + "% miss rate and "@ + fixed(numbers, stats.cache_misses_per_op, 4) + " misses/op"@);
    }
    if mispredicts(*stats) {
        assert(all[a.len() as int] == b[0]);
        assert(b[0] =~= branch_head(*stats) + fixed(numbers, stats.frontend_stall_percent, 1)
            + "% with "@ + fixed(numbers, stats.branch_miss_rate, 2) + "% branch misses"@);
    }
    if waits_for_instructions(*stats) {
        assert(all[(a.len() + b.len()) as int] == c[0]);
        assert(c[0] =~= fetch_head(*stats) + fixed(numbers, stats.frontend_stall_percent, 1)
            + "% with "@ + fixed(numbers, stats.l1i_misses_per_op, 4) + " L1I misses/op"@);
    }
    if shaky(*stats) {
        assert(all[all.len() - 1] == diagnosis::stability_text(*stats, numbers));
    }
}

} // verus!
