//! How the statistics of a benchmark are shown on a terminal.
use crate::bench::backend::{MeasurementDomain, MetricFormat};
use crate::bench::diagnosis;
use crate::bench::diagnosis::diagnose_stats;
use crate::bench::results;
use crate::bench::results::has_perf_counters;
use crate::bench::stats;
use crate::bench::stats::{effective_measurement_label, measurement_results_from_stats};
use crate::bench::throughput::{Throughput, THOUSAND_BITS};
use crate::double::DoubleBits;
use crate::numbers::{NumberStyle, NumberTexts};
use crate::session::{BenchmarkStats, MetricSummary, WorkerCounterSummary, WorkerSummary};
use crate::table;
use crate::table::{colorize_if, Alignment, BorderColor, TableFormatter, TableModel};
use crate::text;
use vstd::prelude::*;

verus! {

/// The bit pattern of one thousandth.
pub const ONE_THOUSANDTH_BITS: u64 = 0x3f50_624d_d2f1_a9fc;

/// The rows of a table.
pub type Rows = Seq<Seq<Seq<char>>>;

/// The colour of a label: green for throughput, yellow for latency, else cyan.
pub open spec fn label_color(label: Seq<char>) -> Seq<char> {
    if text::occurs(label, "Throughput"@) {
        "32"@
    } else if text::occurs(label, "Latency"@) || label == "P95"@ || label == "MAD"@ {
        "33"@
    } else {
        "36"@
    }
}

pub open spec fn label_form(terminal: bool, label: Seq<char>) -> Seq<char> {
    table::colored_if(terminal, label_color(label), label)
}

pub open spec fn value_form(terminal: bool, value: Seq<char>) -> Seq<char> {
    table::colored_if(terminal, "97"@, value)
}

pub open spec fn heading_form(terminal: bool, heading: Seq<char>) -> Seq<char> {
    table::colored_if(terminal, "1;96"@, heading)
}

pub open spec fn problem_form(terminal: bool, problem: Seq<char>) -> Seq<char> {
    table::colored_if(terminal, "31"@, problem)
}

pub fn colorize_label(terminal: bool, label: &str) -> (r: String)
    ensures
        r@ == label_form(terminal, label@),
{
    let color = if text::contains(label, "Throughput") {
        "32"
    } else if text::contains(label, "Latency") || text::same(label, "P95") || text::same(
        label,
        "MAD",
    ) {
        "33"
    } else {
        "36"
    };
    colorize_if(terminal, color, label)
}

pub fn colorize_value(terminal: bool, value: &str) -> (r: String)
    ensures
        r@ == value_form(terminal, value@),
{
    colorize_if(terminal, "97", value)
}

pub fn colorize_section_heading(terminal: bool, heading: &str) -> (r: String)
    ensures
        r@ == heading_form(terminal, heading@),
{
    colorize_if(terminal, "1;96", heading)
}

pub fn colorize_problem(terminal: bool, problem: &str) -> (r: String)
    ensures
        r@ == problem_form(terminal, problem@),
{
    colorize_if(terminal, "31", problem)
}

/// A metric's value as text.
pub open spec fn metric_form(value: DoubleBits, format: MetricFormat, numbers: &NumberTexts) -> Seq<
    char,
> {
    if !value.finite() {
        "n/a"@
    } else {
        match format {
            MetricFormat::Integer => numbers.spec_text(value, NumberStyle::Whole),
            MetricFormat::Number => if value.zero() {
                "0"@
            } else if value.magnitude() < ONE_THOUSANDTH_BITS || value.magnitude()
                >= THOUSAND_BITS {
                numbers.spec_text(value, NumberStyle::Scientific)
            } else {
                numbers.spec_text(value, NumberStyle::Fixed { places: 3 })
            },
        }
    }
}

pub fn format_metric_value(value: DoubleBits, format: MetricFormat, numbers: &NumberTexts) -> (r:
    String)
    ensures
        r@ == metric_form(value, format, numbers),
{
    if !value.is_finite() {
        return "n/a".to_owned();
    }
    match format {
        MetricFormat::Integer => numbers.text(value, NumberStyle::Whole),
        MetricFormat::Number => {
            if value.is_zero() {
                return "0".to_owned();
            }
            let abs = value.abs();
            if abs.lt(DoubleBits { bits: ONE_THOUSANDTH_BITS }) || abs.ge(
                DoubleBits { bits: THOUSAND_BITS },
            ) {
                numbers.text(value, NumberStyle::Scientific)
            } else {
                numbers.text(value, NumberStyle::Fixed { places: 3 })
            }
        },
    }
}

/// A rate that may be very small, as text.
pub open spec fn small_rate_form(value: DoubleBits, numbers: &NumberTexts) -> Seq<char> {
    if !value.finite() {
        "n/a"@
    } else if value.zero() {
        "0"@
    } else if value.magnitude() >= ONE_THOUSANDTH_BITS {
        numbers.spec_text(value, NumberStyle::Fixed { places: 4 })
    } else {
        numbers.spec_text(value, NumberStyle::Scientific)
    }
}

pub fn format_small_rate(value: DoubleBits, numbers: &NumberTexts) -> (r: String)
    ensures
        r@ == small_rate_form(value, numbers),
{
    if !value.is_finite() {
        return "n/a".to_owned();
    }
    if value.is_zero() {
        return "0".to_owned();
    }
    if value.abs().ge(DoubleBits { bits: ONE_THOUSANDTH_BITS }) {
        numbers.text(value, NumberStyle::Fixed { places: 4 })
    } else {
        numbers.text(value, NumberStyle::Scientific)
    }
}

/// A number with a fixed number of decimals and what stands behind it, coloured
/// as a value.
pub open spec fn number_cell(
    terminal: bool,
    numbers: &NumberTexts,
    value: DoubleBits,
    places: u8,
    suffix: Seq<char>,
) -> Seq<char> {
    value_form(terminal, numbers.spec_text(value, NumberStyle::Fixed { places }) + suffix)
}

fn number_value(
    terminal: bool,
    numbers: &NumberTexts,
    value: DoubleBits,
    places: u8,
    suffix: &str,
) -> (r: String)
    ensures
        r@ == number_cell(terminal, numbers, value, places, suffix@),
{
    let mut t = numbers.text(value, NumberStyle::Fixed { places });
    t.append(suffix);
    colorize_value(terminal, t.as_str())
}

fn count_value(terminal: bool, count: u64) -> (r: String)
    ensures
        r@ == value_form(terminal, text::decimal(count as nat)),
{
    colorize_value(terminal, text::decimal_text(count).as_str())
}

fn add_four(rows: &mut Vec<Vec<String>>, a: String, b: String, c: String, d: String)
    ensures
        table::row_texts(final(rows)@) == table::row_texts(old(rows)@).push(seq![a@, b@, c@, d@]),
{
    let mut row: Vec<String> = Vec::new();
    row.push(a);
    row.push(b);
    row.push(c);
    row.push(d);
    assert(text::texts(row@) =~= seq![a@, b@, c@, d@]);
    rows.push(row);
    assert(table::row_texts(rows@) =~= table::row_texts(old(rows)@).push(seq![a@, b@, c@, d@]));
}

/// The rows of the statistics of a benchmark or of one worker.
pub open spec fn full_rows(
    terminal: bool,
    s: BenchmarkStats,
    label: Seq<char>,
    numbers: &NumberTexts,
) -> Rows {
    seq![
        seq![
            label_form(terminal, "Throughput"@),
            value_form(terminal, s.throughput.rate_form(s.throughput_per_sec, numbers)),
            label_form(terminal, "Median Throughput"@),
            value_form(terminal, s.throughput.rate_form(s.median_throughput_per_sec, numbers)),
        ],
        seq![
            label_form(terminal, "Mean Latency"@),
            number_cell(terminal, numbers, s.ns_per_op, 2, " ns/op"@),
            label_form(terminal, "Median Latency"@),
            number_cell(terminal, numbers, s.median_ns_per_op, 2, " ns/op"@),
        ],
        seq![
            label_form(terminal, "P95 Latency"@),
            number_cell(terminal, numbers, s.p95_ns_per_op, 2, " ns/op"@),
            label_form(terminal, "MAD Latency"@),
            number_cell(terminal, numbers, s.mad_ns_per_op, 2, " ns/op"@),
        ],
        seq![
            label_form(terminal, "Samples"@),
            value_form(terminal, text::decimal(s.samples as nat)),
            label_form(terminal, "Outliers"@),
            value_form(terminal, text::decimal(s.outlier_count as nat)),
        ],
        seq![
            label_form(terminal, "Operations"@),
            value_form(terminal, text::decimal(s.operations as nat)),
            label_form(terminal, "Total Duration"@),
            number_cell(terminal, numbers, s.total_duration_sec, 3, "s"@),
        ],
        seq![
            label_form(terminal, "Coefficient Var."@),
            number_cell(terminal, numbers, s.cv_percent, 2, "%"@),
            label_form(terminal, "Measurement"@),
            value_form(terminal, label),
        ],
    ]
}

fn add_full_stat_rows(
    rows: &mut Vec<Vec<String>>,
    terminal: bool,
    s: &BenchmarkStats,
    label: &str,
    numbers: &NumberTexts,
)
    ensures
        table::row_texts(final(rows)@) == table::row_texts(old(rows)@) + full_rows(
            terminal,
            *s,
            label@,
            numbers,
        ),
{
    add_four(
        rows,
        colorize_label(terminal, "Throughput"),
        colorize_value(
            terminal,
            s.throughput.format_rate(s.throughput_per_sec, numbers).as_str(),
        ),
        colorize_label(terminal, "Median Throughput"),
        colorize_value(
            terminal,
            s.throughput.format_rate(s.median_throughput_per_sec, numbers).as_str(),
        ),
    );
    add_four(
        rows,
        colorize_label(terminal, "Mean Latency"),
        number_value(terminal, numbers, s.ns_per_op, 2, " ns/op"),
        colorize_label(terminal, "Median Latency"),
        number_value(terminal, numbers, s.median_ns_per_op, 2, " ns/op"),
    );
    add_four(
        rows,
        colorize_label(terminal, "P95 Latency"),
        number_value(terminal, numbers, s.p95_ns_per_op, 2, " ns/op"),
        colorize_label(terminal, "MAD Latency"),
        number_value(terminal, numbers, s.mad_ns_per_op, 2, " ns/op"),
    );
    add_four(
        rows,
        colorize_label(terminal, "Samples"),
        count_value(terminal, s.samples as u64),
        colorize_label(terminal, "Outliers"),
        count_value(terminal, s.outlier_count as u64),
    );
    add_four(
        rows,
        colorize_label(terminal, "Operations"),
        count_value(terminal, s.operations),
        colorize_label(terminal, "Total Duration"),
        number_value(terminal, numbers, s.total_duration_sec, 3, "s"),
    );
    add_four(
        rows,
        colorize_label(terminal, "Coefficient Var."),
        number_value(terminal, numbers, s.cv_percent, 2, "%"),
        colorize_label(terminal, "Measurement"),
        colorize_value(terminal, label),
    );
    assert(table::row_texts(rows@) =~= table::row_texts(old(rows)@) + full_rows(
        terminal,
        *s,
        label@,
        numbers,
    ));
}

/// The rows of the statistics of all workers together.
pub open spec fn combined_rows(
    terminal: bool,
    s: BenchmarkStats,
    label: Seq<char>,
    numbers: &NumberTexts,
) -> Rows {
    seq![
        seq![
            label_form(terminal, "Samples"@),
            value_form(terminal, text::decimal(s.samples as nat)),
            label_form(terminal, "Operations"@),
            value_form(terminal, text::decimal(s.operations as nat)),
        ],
        seq![
            label_form(terminal, "Total Duration"@),
            number_cell(terminal, numbers, s.total_duration_sec, 3, "s"@),
            label_form(terminal, "Measurement"@),
            value_form(terminal, label),
        ],
    ]
}

fn add_combined_stat_rows(
    rows: &mut Vec<Vec<String>>,
    terminal: bool,
    s: &BenchmarkStats,
    label: &str,
    numbers: &NumberTexts,
)
    ensures
        table::row_texts(final(rows)@) == table::row_texts(old(rows)@) + combined_rows(
            terminal,
            *s,
            label@,
            numbers,
        ),
{
    add_four(
        rows,
        colorize_label(terminal, "Samples"),
        count_value(terminal, s.samples as u64),
        colorize_label(terminal, "Operations"),
        count_value(terminal, s.operations),
    );
    add_four(
        rows,
        colorize_label(terminal, "Total Duration"),
        number_value(terminal, numbers, s.total_duration_sec, 3, "s"),
        colorize_label(terminal, "Measurement"),
        colorize_value(terminal, label),
    );
    assert(table::row_texts(rows@) =~= table::row_texts(old(rows)@) + combined_rows(
        terminal,
        *s,
        label@,
        numbers,
    ));
}

/// The rows where a condition holds.
pub open spec fn rows_if(condition: bool, rows: Rows) -> Rows {
    if condition {
        rows
    } else {
        Seq::empty()
    }
}

/// The first counter row: cycles and instructions per cycle where both are
/// there, else the counters that are.
pub open spec fn work_row(terminal: bool, s: BenchmarkStats, numbers: &NumberTexts) -> Seq<Seq<char>> {
    let left = if s.has_cycles {
        ("Cycles / op"@, s.cycles_per_op)
    } else if s.has_instructions {
        ("Instructions / op"@, s.instructions_per_op)
    } else {
        ("Branches / op"@, s.branches_per_op)
    };
    let right_label = if s.has_cycles && s.has_instructions {
        "IPC"@
    } else if s.has_instructions {
        "Instructions / op"@
    } else if s.has_branches {
        "Branches / op"@
    } else {
        ""@
    };
    let right_value = if s.has_cycles && s.has_instructions {
        number_cell(terminal, numbers, s.ipc, 3, ""@)
    } else if s.has_instructions {
        number_cell(terminal, numbers, s.instructions_per_op, 1, ""@)
    } else if s.has_branches {
        number_cell(terminal, numbers, s.branches_per_op, 1, ""@)
    } else {
        value_form(terminal, ""@)
    };
    seq![
        label_form(terminal, left.0),
        number_cell(terminal, numbers, left.1, 1, ""@),
        label_form(terminal, right_label),
        right_value,
    ]
}

/// A row with one number.
pub open spec fn single_row(
    terminal: bool,
    numbers: &NumberTexts,
    label: Seq<char>,
    value: DoubleBits,
    places: u8,
) -> Rows {
    seq![
        seq![
            label_form(terminal, label),
            number_cell(terminal, numbers, value, places, ""@),
            ""@,
            ""@,
        ],
    ]
}

/// A row with two numbers.
pub open spec fn double_row(
    terminal: bool,
    numbers: &NumberTexts,
    left: (Seq<char>, DoubleBits, u8, Seq<char>),
    right: (Seq<char>, DoubleBits, u8, Seq<char>),
) -> Rows {
    seq![
        seq![
            label_form(terminal, left.0),
            number_cell(terminal, numbers, left.1, left.2, left.3),
            label_form(terminal, right.0),
            number_cell(terminal, numbers, right.1, right.2, right.3),
        ],
    ]
}

pub open spec fn branch_rows(terminal: bool, s: BenchmarkStats, numbers: &NumberTexts) -> Rows {
    rows_if(
        s.has_cycles || s.has_instructions || s.has_branches,
        seq![work_row(terminal, s, numbers)],
    ) + rows_if(
        s.has_cycles && s.has_branches,
        single_row(terminal, numbers, "Branches / op"@, s.branches_per_op, 1),
    ) + rows_if(
        s.has_branches && s.has_branch_misses,
        double_row(
            terminal,
            numbers,
            ("Branch Miss Rate"@, s.branch_miss_rate, 4, "%"@),
            ("Branch Misses / op"@, s.branch_misses_per_op, 4, ""@),
        ),
    )
}

pub open spec fn cache_rows(terminal: bool, s: BenchmarkStats, numbers: &NumberTexts) -> Rows {
    rows_if(
        s.has_cache_references && s.has_cache_misses,
        double_row(
            terminal,
            numbers,
            ("Cache Refs / op"@, s.cache_references_per_op, 4, ""@),
            ("Cache Miss Rate"@, s.cache_miss_percent, 2, "%"@),
        ),
    ) + rows_if(
        s.has_cache_misses,
        single_row(terminal, numbers, "Cache Misses / op"@, s.cache_misses_per_op, 4),
    ) + rows_if(
        s.has_l1i_misses,
        single_row(terminal, numbers, "L1I Misses / op"@, s.l1i_misses_per_op, 4),
    )
}

pub open spec fn stall_rows(terminal: bool, s: BenchmarkStats, numbers: &NumberTexts) -> Rows {
    rows_if(
        s.has_cycles && s.has_stalled_cycles_frontend,
        double_row(
            terminal,
            numbers,
            ("Frontend Stall / op"@, s.frontend_stall_cycles_per_op, 4, ""@),
            ("Frontend Stall %"@, s.frontend_stall_percent, 2, "%"@),
        ),
    ) + rows_if(
        s.has_cycles && s.has_stalled_cycles_backend,
        double_row(
            terminal,
            numbers,
            ("Backend Stall / op"@, s.backend_stall_cycles_per_op, 4, ""@),
            ("Backend Stall %"@, s.backend_stall_percent, 2, "%"@),
        ),
    )
}

/// The rows of the processor counters that were read.
pub open spec fn pmu_rows(terminal: bool, s: BenchmarkStats, numbers: &NumberTexts) -> Rows {
    branch_rows(terminal, s, numbers) + cache_rows(terminal, s, numbers) + stall_rows(
        terminal,
        s,
        numbers,
    )
}

fn add_single(
    rows: &mut Vec<Vec<String>>,
    terminal: bool,
    numbers: &NumberTexts,
    label: &str,
    value: DoubleBits,
    places: u8,
)
    ensures
        table::row_texts(final(rows)@) == table::row_texts(old(rows)@) + single_row(
            terminal,
            numbers,
            label@,
            value,
            places,
        ),
{
    add_four(
        rows,
        colorize_label(terminal, label),
        number_value(terminal, numbers, value, places, ""),
        "".to_owned(),
        "".to_owned(),
    );
    assert(table::row_texts(rows@) =~= table::row_texts(old(rows)@) + single_row(
        terminal,
        numbers,
        label@,
        value,
        places,
    ));
}

fn add_double(
    rows: &mut Vec<Vec<String>>,
    terminal: bool,
    numbers: &NumberTexts,
    left: (&str, DoubleBits, u8, &str),
    right: (&str, DoubleBits, u8, &str),
)
    ensures
        table::row_texts(final(rows)@) == table::row_texts(old(rows)@) + double_row(
            terminal,
            numbers,
            (left.0@, left.1, left.2, left.3@),
            (right.0@, right.1, right.2, right.3@),
        ),
{
    add_four(
        rows,
        colorize_label(terminal, left.0),
        number_value(terminal, numbers, left.1, left.2, left.3),
        colorize_label(terminal, right.0),
        number_value(terminal, numbers, right.1, right.2, right.3),
    );
    assert(table::row_texts(rows@) =~= table::row_texts(old(rows)@) + double_row(
        terminal,
        numbers,
        (left.0@, left.1, left.2, left.3@),
        (right.0@, right.1, right.2, right.3@),
    ));
}

fn add_branch_rows(
    rows: &mut Vec<Vec<String>>,
    terminal: bool,
    s: &BenchmarkStats,
    numbers: &NumberTexts,
)
    ensures
        table::row_texts(final(rows)@) == table::row_texts(old(rows)@) + branch_rows(
            terminal,
            *s,
            numbers,
        ),
{
    let ghost start = table::row_texts(rows@);
    let ghost first = rows_if(
        s.has_cycles || s.has_instructions || s.has_branches,
        seq![work_row(terminal, *s, numbers)],
    );
    if s.has_cycles || s.has_instructions || s.has_branches {
        let (left_label, left_number) = if s.has_cycles {
            ("Cycles / op", s.cycles_per_op)
        } else if s.has_instructions {
            ("Instructions / op", s.instructions_per_op)
        } else {
            ("Branches / op", s.branches_per_op)
        };
        let right_label = if s.has_cycles && s.has_instructions {
            "IPC"
        } else if s.has_instructions {
            "Instructions / op"
        } else if s.has_branches {
            "Branches / op"
        } else {
            ""
        };
        let right_value = if s.has_cycles && s.has_instructions {
            number_value(terminal, numbers, s.ipc, 3, "")
        } else if s.has_instructions {
            number_value(terminal, numbers, s.instructions_per_op, 1, "")
        } else if s.has_branches {
            number_value(terminal, numbers, s.branches_per_op, 1, "")
        } else {
            colorize_value(terminal, "")
        };
        add_four(
            rows,
            colorize_label(terminal, left_label),
            number_value(terminal, numbers, left_number, 1, ""),
            colorize_label(terminal, right_label),
            right_value,
        );
    }
    assert(table::row_texts(rows@) =~= start + first);
    let ghost second = rows_if(
        s.has_cycles && s.has_branches,
        single_row(terminal, numbers, "Branches / op"@, s.branches_per_op, 1),
    );
    if s.has_cycles && s.has_branches {
        add_single(rows, terminal, numbers, "Branches / op", s.branches_per_op, 1);
    }
    assert(table::row_texts(rows@) =~= start + first + second);
    if s.has_branches && s.has_branch_misses {
        add_double(
            rows,
            terminal,
            numbers,
            ("Branch Miss Rate", s.branch_miss_rate, 4, "%"),
            ("Branch Misses / op", s.branch_misses_per_op, 4, ""),
        );
    }
    assert(table::row_texts(rows@) =~= start + branch_rows(terminal, *s, numbers));
}

fn add_cache_rows(
    rows: &mut Vec<Vec<String>>,
    terminal: bool,
    s: &BenchmarkStats,
    numbers: &NumberTexts,
)
    ensures
        table::row_texts(final(rows)@) == table::row_texts(old(rows)@) + cache_rows(
            terminal,
            *s,
            numbers,
        ),
{
    let ghost start = table::row_texts(rows@);
    let ghost first = rows_if(
        s.has_cache_references && s.has_cache_misses,
        double_row(
            terminal,
            numbers,
            ("Cache Refs / op"@, s.cache_references_per_op, 4, ""@),
            ("Cache Miss Rate"@, s.cache_miss_percent, 2, "%"@),
        ),
    );
    if s.has_cache_references && s.has_cache_misses {
        add_double(
            rows,
            terminal,
            numbers,
            ("Cache Refs / op", s.cache_references_per_op, 4, ""),
            ("Cache Miss Rate", s.cache_miss_percent, 2, "%"),
        );
    }
    assert(table::row_texts(rows@) =~= start + first);
    let ghost second = rows_if(
        s.has_cache_misses,
        single_row(terminal, numbers, "Cache Misses / op"@, s.cache_misses_per_op, 4),
    );
    if s.has_cache_misses {
        add_single(rows, terminal, numbers, "Cache Misses / op", s.cache_misses_per_op, 4);
    }
    assert(table::row_texts(rows@) =~= start + first + second);
    if s.has_l1i_misses {
        add_single(rows, terminal, numbers, "L1I Misses / op", s.l1i_misses_per_op, 4);
    }
    assert(table::row_texts(rows@) =~= start + cache_rows(terminal, *s, numbers));
}

fn add_stall_rows(
    rows: &mut Vec<Vec<String>>,
    terminal: bool,
    s: &BenchmarkStats,
    numbers: &NumberTexts,
)
    ensures
        table::row_texts(final(rows)@) == table::row_texts(old(rows)@) + stall_rows(
            terminal,
            *s,
            numbers,
        ),
{
    let ghost start = table::row_texts(rows@);
    let ghost first = rows_if(
        s.has_cycles && s.has_stalled_cycles_frontend,
        double_row(
            terminal,
            numbers,
            ("Frontend Stall / op"@, s.frontend_stall_cycles_per_op, 4, ""@),
            ("Frontend Stall %"@, s.frontend_stall_percent, 2, "%"@),
        ),
    );
    if s.has_cycles && s.has_stalled_cycles_frontend {
        add_double(
            rows,
            terminal,
            numbers,
            ("Frontend Stall / op", s.frontend_stall_cycles_per_op, 4, ""),
            ("Frontend Stall %", s.frontend_stall_percent, 2, "%"),
        );
    }
    assert(table::row_texts(rows@) =~= start + first);
    if s.has_cycles && s.has_stalled_cycles_backend {
        add_double(
            rows,
            terminal,
            numbers,
            ("Backend Stall / op", s.backend_stall_cycles_per_op, 4, ""),
            ("Backend Stall %", s.backend_stall_percent, 2, "%"),
        );
    }
    assert(table::row_texts(rows@) =~= start + stall_rows(terminal, *s, numbers));
}

fn add_pmu_rows(
    rows: &mut Vec<Vec<String>>,
    terminal: bool,
    s: &BenchmarkStats,
    numbers: &NumberTexts,
)
    ensures
        table::row_texts(final(rows)@) == table::row_texts(old(rows)@) + pmu_rows(
            terminal,
            *s,
            numbers,
        ),
{
    let ghost start = table::row_texts(rows@);
    add_branch_rows(rows, terminal, s, numbers);
    add_cache_rows(rows, terminal, s, numbers);
    add_stall_rows(rows, terminal, s, numbers);
    assert(table::row_texts(rows@) =~= start + pmu_rows(terminal, *s, numbers));
}

/// The table of the statistics of a benchmark.
#[verifier::opaque]
pub open spec fn stats_model(
    terminal: bool,
    s: BenchmarkStats,
    label: Seq<char>,
    border_color: Option<BorderColor>,
    with_latency: bool,
    numbers: &NumberTexts,
) -> TableModel {
    TableModel {
        headers: seq!["Stat"@, "Value"@, "Stat"@, "Value"@],
        widths: seq![22usize, 28, 22, 28],
        rows: (if with_latency {
            full_rows(terminal, s, label, numbers)
        } else {
            combined_rows(terminal, s, label, numbers)
        }) + pmu_rows(terminal, s, numbers),
        alignments: seq![Alignment::Left, Alignment::Right, Alignment::Left, Alignment::Right],
        split: Some(1),
        color: border_color,
    }
}

pub fn render_stats_table(
    terminal: bool,
    s: &BenchmarkStats,
    label: &str,
    border_color: Option<BorderColor>,
    with_latency: bool,
    numbers: &NumberTexts,
) -> (r: String)
    ensures
        r@ == stats_model(terminal, *s, label@, border_color, with_latency, numbers).table_text(
            terminal,
        ),
{
    reveal(stats_model);
    let mut rows: Vec<Vec<String>> = Vec::new();
    assert(table::row_texts(rows@) =~= Seq::empty());
    if with_latency {
        add_full_stat_rows(&mut rows, terminal, s, label, numbers);
    } else {
        add_combined_stat_rows(&mut rows, terminal, s, label, numbers);
    }
    add_pmu_rows(&mut rows, terminal, s, numbers);
    let headers = four_texts("Stat", "Value", "Stat", "Value");
    let t = TableFormatter {
        headers,
        column_widths: vec![22, 28, 22, 28],
        rows,
        column_alignments: vec![
            Alignment::Left,
            Alignment::Right,
            Alignment::Left,
            Alignment::Right,
        ],
        group_split_after: Some(1),
        border_color,
    };
    proof {
        let m = stats_model(terminal, *s, label@, border_color, with_latency, numbers);
        assert(t.model().headers =~= m.headers);
        assert(t.model().widths =~= m.widths);
        assert(t.model().rows =~= m.rows);
        assert(t.model().alignments =~= m.alignments);
    }
    t.render(terminal)
}

fn four_texts(a: &str, b: &str, c: &str, d: &str) -> (r: Vec<String>)
    ensures
        text::texts(r@) == seq![a@, b@, c@, d@],
{
    let mut r: Vec<String> = Vec::new();
    r.push(a.to_owned());
    r.push(b.to_owned());
    r.push(c.to_owned());
    r.push(d.to_owned());
    assert(text::texts(r@) =~= seq![a@, b@, c@, d@]);
    r
}

/// How long the processor counters ran, in percent and in seconds.
#[derive(Clone, Copy, Debug, PartialEq, Eq, Structural)]
pub struct PmuTimes {
    pub coverage_percent: DoubleBits,
    pub average_running: DoubleBits,
    pub average_enabled: DoubleBits,
    pub total_running: DoubleBits,
    pub total_enabled: DoubleBits,
}

/// What the processor counters stand for.
pub open spec fn pmu_label(domain: MeasurementDomain) -> Seq<char> {
    match domain {
        MeasurementDomain::Cpu => "PMU"@,
        MeasurementDomain::Gpu => "host PMU (orchestration)"@,
        MeasurementDomain::Io => "host PMU (orchestration)"@,
        MeasurementDomain::Mixed => "host PMU (mixed workload)"@,
    }
}

#[verifier::opaque]
pub open spec fn byline_text(
    terminal: bool,
    s: BenchmarkStats,
    times: PmuTimes,
    numbers: &NumberTexts,
) -> Seq<char> {
    "  "@ + pmu_label(s.measurement_domain) + ": coverage="@ + number_cell(
        terminal,
        numbers,
        times.coverage_percent,
        1,
        "%"@,
    ) + " avg_running="@ + numbers.spec_text(times.average_running, NumberStyle::Fixed { places: 3 })
        + "s avg_enabled="@ + numbers.spec_text(
        times.average_enabled,
        NumberStyle::Fixed { places: 3 },
    ) + "s total_running="@ + numbers.spec_text(
        times.total_running,
        NumberStyle::Fixed { places: 3 },
    ) + "s total_enabled="@ + numbers.spec_text(
        times.total_enabled,
        NumberStyle::Fixed { places: 3 },
    ) + "s"@
}

/// The line below the statistics that says how far the counters cover the
/// run; none without counters.
pub fn pmu_byline(terminal: bool, s: &BenchmarkStats, times: PmuTimes, numbers: &NumberTexts) -> (r:
    Option<String>)
    ensures
        r is Some == stats::counters_of(*s).any_counter(),
        r matches Some(line) ==> line@ == byline_text(terminal, *s, times, numbers),
{
    reveal(byline_text);
    if !has_perf_counters(&measurement_results_from_stats(s)) {
        return None;
    }
    let label = match s.measurement_domain {
        MeasurementDomain::Cpu => "PMU",
        MeasurementDomain::Gpu => "host PMU (orchestration)",
        MeasurementDomain::Io => "host PMU (orchestration)",
        MeasurementDomain::Mixed => "host PMU (mixed workload)",
    };
    let mut r = "  ".to_owned();
    r.append(label);
    r.append(": coverage=");
    r.append(number_value(terminal, numbers, times.coverage_percent, 1, "%").as_str());
    r.append(" avg_running=");
    r.append(numbers.text(times.average_running, NumberStyle::Fixed { places: 3 }).as_str());
    r.append("s avg_enabled=");
    r.append(numbers.text(times.average_enabled, NumberStyle::Fixed { places: 3 }).as_str());
    r.append("s total_running=");
    r.append(numbers.text(times.total_running, NumberStyle::Fixed { places: 3 }).as_str());
    r.append("s total_enabled=");
    r.append(numbers.text(times.total_enabled, NumberStyle::Fixed { places: 3 }).as_str());
    r.append("s");
    Some(r)
}

/// The name under which a metric is shown.
pub open spec fn metric_label(m: MetricSummary) -> Seq<char> {
    if m.display_name@.len() == 0 {
        m.name@
    } else {
        m.display_name@
    }
}

/// The row of a metric; the section stands first where sections are shown.
pub open spec fn metric_row(
    terminal: bool,
    m: MetricSummary,
    with_section: bool,
    numbers: &NumberTexts,
) -> Seq<Seq<char>> {
    (if with_section {
        seq![m.section@]
    } else {
        Seq::empty()
    }) + seq![
        label_form(terminal, metric_label(m)),
        value_form(terminal, metric_form(m.mean, m.format, numbers)),
        value_form(terminal, metric_form(m.median, m.format, numbers)),
        value_form(terminal, metric_form(m.p95, m.format, numbers)),
        value_form(terminal, metric_form(m.min, m.format, numbers)),
        value_form(terminal, metric_form(m.max, m.format, numbers)),
        m.unit@,
        text::decimal(m.samples as nat),
    ]
}

/// Some metric has a section.
pub open spec fn any_section(metrics: Seq<MetricSummary>) -> bool {
    exists|i: int| 0 <= i < metrics.len() && (#[trigger] metrics[i]).section@.len() > 0
}

/// The table of custom metrics.
pub open spec fn metrics_model(
    terminal: bool,
    metrics: Seq<MetricSummary>,
    numbers: &NumberTexts,
) -> TableModel {
    let with_section = any_section(metrics);
    TableModel {
        headers: (if with_section {
            seq!["Section"@]
        } else {
            Seq::empty()
        }) + seq!["Metric"@, "Mean"@, "Median"@, "P95"@, "Min"@, "Max"@, "Unit"@, "N"@],
        widths: (if with_section {
            seq![18usize]
        } else {
            Seq::empty()
        }) + seq![22usize, 12, 12, 12, 12, 12, 10, 5],
        rows: metrics.map_values(
            |m: MetricSummary| metric_row(terminal, m, with_section, numbers),
        ),
        alignments: (if with_section {
            seq![Alignment::Left]
        } else {
            Seq::empty()
        }) + seq![
            Alignment::Left,
            Alignment::Right,
            Alignment::Right,
            Alignment::Right,
            Alignment::Right,
            Alignment::Right,
            Alignment::Left,
            Alignment::Right,
        ],
        split: None,
        color: None,
    }
}

/// The custom metrics as text; nothing without metrics.
#[verifier::opaque]
pub open spec fn metrics_text(
    terminal: bool,
    metrics: Seq<MetricSummary>,
    numbers: &NumberTexts,
) -> Seq<char> {
    if metrics.len() == 0 {
        Seq::empty()
    } else {
        "  custom metrics:\n"@ + metrics_model(terminal, metrics, numbers).table_text(terminal)
    }
}

fn has_section(metrics: &Vec<MetricSummary>) -> (r: bool)
    ensures
        r == any_section(metrics@),
{
    let mut i: usize = 0;
    while i < metrics.len()
        invariant
            i <= metrics.len(),
            forall|j: int| 0 <= j < i ==> (#[trigger] metrics@[j]).section@.len() == 0,
        decreases metrics.len() - i,
    {
        if !metrics[i].section.as_str().is_empty() {
            assert(metrics@[i as int].section@.len() > 0);
            return true;
        }
        i += 1;
    }
    false
}

fn metric_cells(terminal: bool, m: &MetricSummary, with_section: bool, numbers: &NumberTexts) -> (r:
    Vec<String>)
    ensures
        text::texts(r@) == metric_row(terminal, *m, with_section, numbers),
{
    let mut r: Vec<String> = Vec::new();
    if with_section {
        r.push(m.section.clone());
    }
    let label = if m.display_name.as_str().is_empty() {
        m.name.as_str()
    } else {
        m.display_name.as_str()
    };
    r.push(colorize_label(terminal, label));
    r.push(colorize_value(terminal, format_metric_value(m.mean, m.format, numbers).as_str()));
    r.push(colorize_value(terminal, format_metric_value(m.median, m.format, numbers).as_str()));
    r.push(colorize_value(terminal, format_metric_value(m.p95, m.format, numbers).as_str()));
    r.push(colorize_value(terminal, format_metric_value(m.min, m.format, numbers).as_str()));
    r.push(colorize_value(terminal, format_metric_value(m.max, m.format, numbers).as_str()));
    r.push(m.unit.clone());
    r.push(text::decimal_text(m.samples as u64));
    assert(text::texts(r@) =~= metric_row(terminal, *m, with_section, numbers));
    r
}

pub fn render_custom_metrics(
    terminal: bool,
    metrics: &Vec<MetricSummary>,
    numbers: &NumberTexts,
) -> (r: String)
    ensures
        r@ == metrics_text(terminal, metrics@, numbers),
{
    reveal(metrics_text);
    if metrics.len() == 0 {
        return String::new();
    }
    let with_section = has_section(metrics);
    let mut headers: Vec<String> = Vec::new();
    let mut column_widths: Vec<usize> = Vec::new();
    let mut column_alignments: Vec<Alignment> = Vec::new();
    if with_section {
        headers.push("Section".to_owned());
        column_widths.push(18);
        column_alignments.push(Alignment::Left);
    }
    headers.push("Metric".to_owned());
    headers.push("Mean".to_owned());
    headers.push("Median".to_owned());
    headers.push("P95".to_owned());
    headers.push("Min".to_owned());
    headers.push("Max".to_owned());
    headers.push("Unit".to_owned());
    headers.push("N".to_owned());
    column_widths.push(22);
    column_widths.push(12);
    column_widths.push(12);
    column_widths.push(12);
    column_widths.push(12);
    column_widths.push(12);
    column_widths.push(10);
    column_widths.push(5);
    column_alignments.push(Alignment::Left);
    column_alignments.push(Alignment::Right);
    column_alignments.push(Alignment::Right);
    column_alignments.push(Alignment::Right);
    column_alignments.push(Alignment::Right);
    column_alignments.push(Alignment::Right);
    column_alignments.push(Alignment::Left);
    column_alignments.push(Alignment::Right);
    let ghost m = metrics_model(terminal, metrics@, numbers);
    let mut rows: Vec<Vec<String>> = Vec::new();
    let mut i: usize = 0;
    while i < metrics.len()
        invariant
            i <= metrics.len(),
            with_section == any_section(metrics@),
            m == metrics_model(terminal, metrics@, numbers),
            table::row_texts(rows@) == m.rows.take(i as int),
        decreases metrics.len() - i,
    {
        let row = metric_cells(terminal, &metrics[i], with_section, numbers);
        let ghost before = table::row_texts(rows@);
        rows.push(row);
        i += 1;
        assert(table::row_texts(rows@) =~= before.push(text::texts(row@)));
        assert(table::row_texts(rows@) =~= m.rows.take(i as int));
    }
    assert(m.rows.take(metrics@.len() as int) =~= m.rows);
    let t = TableFormatter {
        headers,
        column_widths,
        rows,
        column_alignments,
        group_split_after: None,
        border_color: None,
    };
    proof {
        assert(t.model().headers =~= m.headers);
        assert(t.model().widths =~= m.widths);
        assert(t.model().alignments =~= m.alignments);
    }
    let mut r = "  custom metrics:\n".to_owned();
    r.append(t.render(terminal).as_str());
    r
}

/// The row of an event counter.
pub open spec fn counter_row(c: WorkerCounterSummary, numbers: &NumberTexts) -> Seq<Seq<char>> {
    seq![
        c.name@,
        text::decimal(c.total as nat),
        small_rate_form(c.per_op, numbers),
        numbers.spec_text(c.per_sec, NumberStyle::Fixed { places: 2 }),
    ]
}

/// The table of event counters.
pub open spec fn counters_model(counters: Seq<WorkerCounterSummary>, numbers: &NumberTexts) -> TableModel {
    TableModel {
        headers: seq!["Event"@, "Total"@, "Per Op"@, "Per Sec"@],
        widths: seq![28usize, 16, 14, 16],
        rows: counters.map_values(|c: WorkerCounterSummary| counter_row(c, numbers)),
        alignments: seq![Alignment::Left, Alignment::Right, Alignment::Right, Alignment::Right],
        split: None,
        color: None,
    }
}

/// The event counters as text; nothing without counters.
#[verifier::opaque]
pub open spec fn counters_text(
    terminal: bool,
    counters: Seq<WorkerCounterSummary>,
    numbers: &NumberTexts,
) -> Seq<char> {
    if counters.len() == 0 {
        Seq::empty()
    } else {
        "  bench event counters:\n"@ + counters_model(counters, numbers).table_text(terminal)
    }
}

pub fn render_worker_counters(
    terminal: bool,
    counters: &Vec<WorkerCounterSummary>,
    numbers: &NumberTexts,
) -> (r: String)
    ensures
        r@ == counters_text(terminal, counters@, numbers),
{
    reveal(counters_text);
    if counters.len() == 0 {
        return String::new();
    }
    let ghost m = counters_model(counters@, numbers);
    let mut rows: Vec<Vec<String>> = Vec::new();
    let mut i: usize = 0;
    assert(table::row_texts(rows@) =~= m.rows.take(0));
    while i < counters.len()
        invariant
            i <= counters.len(),
            m == counters_model(counters@, numbers),
            table::row_texts(rows@) == m.rows.take(i as int),
        decreases counters.len() - i,
    {
        let c = &counters[i];
        add_four(
            &mut rows,
            c.name.clone(),
            text::decimal_text(c.total),
            format_small_rate(c.per_op, numbers),
            numbers.text(c.per_sec, NumberStyle::Fixed { places: 2 }),
        );
        i += 1;
        assert(table::row_texts(rows@) =~= m.rows.take(i as int));
    }
    assert(m.rows.take(counters@.len() as int) =~= m.rows);
    let t = TableFormatter {
        headers: four_texts("Event", "Total", "Per Op", "Per Sec"),
        column_widths: vec![28, 16, 14, 16],
        rows,
        column_alignments: vec![
            Alignment::Left,
            Alignment::Right,
            Alignment::Right,
            Alignment::Right,
        ],
        group_split_after: None,
        border_color: None,
    };
    proof {
        assert(t.model().headers =~= m.headers);
        assert(t.model().widths =~= m.widths);
        assert(t.model().alignments =~= m.alignments);
    }
    let mut r = "  bench event counters:\n".to_owned();
    r.append(t.render(terminal).as_str());
    r
}

/// The first `count` diagnoses, a line each.
pub open spec fn diagnosis_lines(terminal: bool, list: Seq<Seq<char>>, count: int) -> Seq<char>
    decreases count,
{
    if count <= 0 {
        Seq::empty()
    } else {
        diagnosis_lines(terminal, list, count - 1) + "    - "@ + problem_form(
            terminal,
            list[count - 1],
        ) + "\n"@
    }
}

/// The diagnoses as text; nothing without any.
#[verifier::opaque]
pub open spec fn diagnoses_text(terminal: bool, list: Seq<Seq<char>>) -> Seq<char> {
    if list.len() == 0 {
        Seq::empty()
    } else {
        "  possible bottlenecks:\n"@ + diagnosis_lines(terminal, list, list.len() as int)
    }
}

pub fn render_diagnostics(terminal: bool, s: &BenchmarkStats, numbers: &NumberTexts) -> (r: String)
    ensures
        r@ == diagnoses_text(terminal, diagnosis::diagnoses(*s, numbers)),
{
    reveal(diagnoses_text);
    let list = diagnose_stats(s, numbers);
    let ghost all = text::texts(list@);
    if list.len() == 0 {
        return String::new();
    }
    let mut r = "  possible bottlenecks:\n".to_owned();
    let ghost start = r@;
    let mut i: usize = 0;
    assert(r@ =~= start + diagnosis_lines(terminal, all, 0));
    while i < list.len()
        invariant
            i <= list.len(),
            all == text::texts(list@),
            r@ == start + diagnosis_lines(terminal, all, i as int),
        decreases list.len() - i,
    {
        r.append("    - ");
        r.append(colorize_problem(terminal, list[i].as_str()).as_str());
        r.append("\n");
        i += 1;
        assert(r@ =~= start + diagnosis_lines(terminal, all, i as int));
    }
    r
}

/// The line below the statistics, where there is one.
pub open spec fn byline_line(
    terminal: bool,
    s: BenchmarkStats,
    times: PmuTimes,
    numbers: &NumberTexts,
) -> Seq<char> {
    if stats::counters_of(s).any_counter() {
        byline_text(terminal, s, times, numbers) + "\n"@
    } else {
        Seq::empty()
    }
}

/// The statistics, what they suggest, and the custom metrics.
#[verifier::opaque]
pub open spec fn stats_text(
    terminal: bool,
    s: BenchmarkStats,
    times: PmuTimes,
    border_color: Option<BorderColor>,
    with_latency: bool,
    numbers: &NumberTexts,
) -> Seq<char> {
    stats_model(
        terminal,
        s,
        stats::label_of(s, stats::counters_of(s).any_counter()),
        border_color,
        with_latency,
        numbers,
    ).table_text(terminal) + byline_line(terminal, s, times, numbers) + diagnoses_text(
        terminal,
        diagnosis::diagnoses(s, numbers),
    ) + metrics_text(terminal, s.metrics@, numbers)
}

fn push_stats(
    out: &mut String,
    terminal: bool,
    s: &BenchmarkStats,
    times: PmuTimes,
    border_color: Option<BorderColor>,
    with_latency: bool,
    numbers: &NumberTexts,
)
    ensures
        final(out)@ == old(out)@ + stats_text(
            terminal,
            *s,
            times,
            border_color,
            with_latency,
            numbers,
        ),
{
    reveal(stats_text);
    let has_perf = has_perf_counters(&measurement_results_from_stats(s));
    let label = effective_measurement_label(s, has_perf);
    out.append(
        render_stats_table(
            terminal,
            s,
            label.as_str(),
            border_color,
            with_latency,
            numbers,
        ).as_str(),
    );
    match pmu_byline(terminal, s, times, numbers) {
        Some(line) => {
            out.append(line.as_str());
            out.append("\n");
        },
        None => {},
    }
    out.append(render_diagnostics(terminal, s, numbers).as_str());
    out.append(render_custom_metrics(terminal, &s.metrics, numbers).as_str());
    assert(out@ =~= old(out)@ + stats_text(
        terminal,
        *s,
        times,
        border_color,
        with_latency,
        numbers,
    ));
}

/// A titled part of the results of a concurrent benchmark.
#[verifier::opaque]
pub open spec fn section_text(
    terminal: bool,
    title: Seq<char>,
    s: BenchmarkStats,
    times: PmuTimes,
    combined: bool,
    border_color: Option<BorderColor>,
    numbers: &NumberTexts,
) -> Seq<char> {
    "  "@ + heading_form(terminal, title) + "\n"@ + stats_text(
        terminal,
        s,
        times,
        border_color,
        !combined,
        numbers,
    )
}

pub fn render_result_section(
    terminal: bool,
    title: &str,
    s: &BenchmarkStats,
    times: PmuTimes,
    combined: bool,
    border_color: Option<BorderColor>,
    numbers: &NumberTexts,
) -> (r: String)
    ensures
        r@ == section_text(terminal, title@, *s, times, combined, border_color, numbers),
{
    reveal(section_text);
    let mut r = "  ".to_owned();
    r.append(colorize_section_heading(terminal, title).as_str());
    r.append("\n");
    push_stats(&mut r, terminal, s, times, border_color, !combined, numbers);
    r
}

/// The results of a standard benchmark.
pub fn render_standard_results(
    terminal: bool,
    s: &BenchmarkStats,
    times: PmuTimes,
    numbers: &NumberTexts,
) -> (r: String)
    ensures
        r@ == "  results:\n"@ + stats_text(terminal, *s, times, None, true, numbers),
{
    let mut r = "  results:\n".to_owned();
    push_stats(&mut r, terminal, s, times, None, true, numbers);
    r
}

/// Whether missing processor counters are worth a warning: only where the
/// work of the processor was measured.
pub fn warns_about_counters(s: &BenchmarkStats) -> (r: bool)
    ensures
        r == (s.measurement_domain == MeasurementDomain::Cpu),
{
    s.measurement_domain == MeasurementDomain::Cpu
}

pub open spec fn worker_title(w: WorkerSummary) -> Seq<char> {
    "worker: "@ + w.name@ + " ("@ + text::decimal(w.threads as nat) + " threads)"@
}

/// The part of one worker.
#[verifier::opaque]
pub open spec fn worker_text(
    terminal: bool,
    w: WorkerSummary,
    times: PmuTimes,
    numbers: &NumberTexts,
) -> Seq<char> {
    section_text(
        terminal,
        worker_title(w),
        w.stats,
        times,
        false,
        Some(BorderColor::Cyan),
        numbers,
    ) + counters_text(terminal, w.counters@, numbers) + "\n"@
}

fn render_worker(terminal: bool, w: &WorkerSummary, times: PmuTimes, numbers: &NumberTexts) -> (r:
    String)
    ensures
        r@ == worker_text(terminal, *w, times, numbers),
{
    reveal(worker_text);
    let mut title = "worker: ".to_owned();
    title.append(w.name.as_str());
    title.append(" (");
    title.append(text::decimal_text(w.threads as u64).as_str());
    title.append(" threads)");
    let mut r = render_result_section(
        terminal,
        title.as_str(),
        &w.stats,
        times,
        false,
        Some(BorderColor::Cyan),
        numbers,
    );
    r.append(render_worker_counters(terminal, &w.counters, numbers).as_str());
    r.append("\n");
    r
}

/// The parts of the first `count` workers.
pub open spec fn workers_text(
    terminal: bool,
    workers: Seq<WorkerSummary>,
    times: Seq<PmuTimes>,
    count: int,
    numbers: &NumberTexts,
) -> Seq<char>
    decreases count,
{
    if count <= 0 {
        Seq::empty()
    } else {
        workers_text(terminal, workers, times, count - 1, numbers) + worker_text(
            terminal,
            workers[count - 1],
            times[count - 1],
            numbers,
        )
    }
}

/// The results of a concurrent benchmark: each worker's, then all together.
pub fn render_concurrent_results(
    terminal: bool,
    combined: &BenchmarkStats,
    combined_times: PmuTimes,
    workers: &Vec<WorkerSummary>,
    times: &Vec<PmuTimes>,
    numbers: &NumberTexts,
) -> (r: String)
    requires
        workers@.len() == times@.len(),
    ensures
        r@ == "  results:\n"@ + workers_text(
            terminal,
            workers@,
            times@,
            workers@.len() as int,
            numbers,
        ) + section_text(
            terminal,
            "workers combined"@,
            *combined,
            combined_times,
            true,
            None,
            numbers,
        ),
{
    let mut r = "  results:\n".to_owned();
    let ghost start = r@;
    let mut i: usize = 0;
    assert(r@ =~= start + workers_text(terminal, workers@, times@, 0, numbers));
    while i < workers.len()
        invariant
            i <= workers.len(),
            workers@.len() == times@.len(),
            r@ == start + workers_text(terminal, workers@, times@, i as int, numbers),
        decreases workers.len() - i,
    {
        r.append(render_worker(terminal, &workers[i], times[i], numbers).as_str());
        i += 1;
        assert(r@ =~= start + workers_text(terminal, workers@, times@, i as int, numbers));
    }
    r.append(
        render_result_section(
            terminal,
            "workers combined",
            combined,
            combined_times,
            true,
            None,
            numbers,
        ).as_str(),
    );
    r
}

/// Columns of the progress bar.
pub const PROGRESS_WIDTH: usize = 40;

/// The share of `whole` that `current` of `total` makes, no more than `whole`.
pub open spec fn share(current: nat, total: nat, whole: nat) -> nat {
    let parts = if total == 0 {
        1
    } else {
        total
    };
    let filled = current * whole / parts;
    if filled < whole {
        filled
    } else {
        whole
    }
}

/// The filled columns of the bar, ended by an arrow while work is left.
pub open spec fn bar(filled: nat, unfinished: bool) -> Seq<char> {
    Seq::new(
        filled,
        |i: int|
            if unfinished && i == filled - 1 {
                '>'
            } else {
                '='
            },
    )
}

/// The line that shows how far a benchmark has come.
pub open spec fn progress_text(current: nat, total: nat, rate: Seq<char>) -> Seq<char> {
    let filled = share(current, total, PROGRESS_WIDTH as nat);
    "\r\x1b[2K⚡ running ["@ + bar(filled, current < total) + text::repeated(
        ' ',
        (PROGRESS_WIDTH - filled) as nat,
    ) + "] "@ + text::decimal(share(current, total, 100)) + "% ("@ + text::decimal(current) + "/"@
        + text::decimal(total) + ") "@ + rate
}

fn share_of(current: usize, total: usize, whole: usize) -> (r: usize)
    requires
        whole <= 100,
    ensures
        r == share(current as nat, total as nat, whole as nat),
        r <= whole,
{
    let parts: u128 = if total == 0 {
        1
    } else {
        total as u128
    };
    assert(0 <= current * whole <= usize::MAX * 100) by (nonlinear_arith)
        requires
            0 <= current <= usize::MAX,
            0 <= whole <= 100,
    ;
    let filled: u128 = current as u128 * whole as u128 / parts;
    if filled < whole as u128 {
        filled as usize
    } else {
        whole
    }
}

/// The rate beside a progress bar: one that is not known yet is being calculated.
pub fn progress_rate(throughput: &Throughput, rate: DoubleBits, numbers: &NumberTexts) -> (r:
    String)
    ensures
        r@ == if rate.finite() && rate.rank() > 0 {
            throughput.rate_form(rate, numbers)
        } else {
            "Calculating..."@
        },
{
    if rate.is_finite() && rate.gt(DoubleBits::from_bits(0)) {
        throughput.format_rate(rate, numbers)
    } else {
        "Calculating...".to_owned()
    }
}

/// The progress line behind `current` of `total` samples. `rate` is how the
/// running throughput is written.
pub fn progress_bar(current: usize, total: usize, rate: &str) -> (r: String)
    ensures
        r@ == progress_text(current as nat, total as nat, rate@),
{
    let filled: usize = share_of(current, total, PROGRESS_WIDTH);
    let percentage: usize = share_of(current, total, 100);
    let mut r = "\r\x1b[2K⚡ running [".to_owned();
    let ghost start = r@;
    let ghost whole = bar(filled as nat, current < total);
    let mut i: usize = 0;
    assert(r@ =~= start + whole.take(0));
    while i < filled
        invariant
            i <= filled,
            whole == bar(filled as nat, current < total),
            r@ == start + whole.take(i as int),
        decreases filled - i,
    {
        r.push(
            if i == filled - 1 && current < total {
                '>'
            } else {
                '='
            },
        );
        i += 1;
        assert(r@ =~= start + whole.take(i as int));
    }
    assert(whole.take(filled as int) =~= whole);
    text::push_repeated(&mut r, ' ', PROGRESS_WIDTH - filled);
    r.append("] ");
    r.append(text::decimal_text(percentage as u64).as_str());
    r.append("% (");
    r.append(text::decimal_text(current as u64).as_str());
    r.append("/");
    r.append(text::decimal_text(total as u64).as_str());
    r.append(") ");
    r.append(rate);
    r
}

/// Whether the progress line is shown behind a sample: behind every second
/// one and behind the last.
pub fn shows_progress(sample: usize, target_samples: usize) -> (r: bool)
    requires
        target_samples > 0,
    ensures
        r == (sample % 2 == 0 || sample == target_samples - 1),
{
    sample % 2 == 0 || sample == target_samples - 1
}

/// The bar always takes the same number of columns.
pub proof fn progress_bar_has_fixed_width(current: nat, total: nat)
    ensures
        (bar(share(current, total, 40), current < total) + text::repeated(
            ' ',
            (40 - share(current, total, 40)) as nat,
        )).len() == PROGRESS_WIDTH,
{
}

} // verus!
