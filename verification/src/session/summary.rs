//! The summary of a session, alone or beside an earlier one.
use crate::comparison::engine::Changes;
use crate::comparison::normalize;
use crate::comparison::normalize::EPSILON_BITS;
use crate::double::DoubleBits;
use crate::numbers::{NumberStyle, NumberTexts};
use crate::session;
use crate::session::changes;
use crate::session::changes::{
    comparative_diagnosis, format_improvement, format_percent_change, measure_shifts,
    pmu_backend_stall_metric, pmu_branch_miss_metric, pmu_cache_metric, pmu_frontend_stall_metric,
    pmu_ipc, pmu_metric_improvement, safe_improvement_percent, safe_percent_change, ONE_BITS,
};
use crate::session::{
    find_case, finite_mops, BenchmarkKind, BenchmarkReport, BenchmarkResult, BenchmarkStats,
};
use crate::table;
use crate::table::{colorize_if, Alignment, TableFormatter, TableModel};
use crate::text;
use vstd::prelude::*;

verus! {

/// The throughput of a result in millions of operations a second, and the
/// statistics of its samples; these count only where there are samples.
#[derive(Clone, Copy, Debug, PartialEq)]
pub struct Figures {
    pub mops: DoubleBits,
    pub sample_mean_mops: DoubleBits,
    pub sample_median_latency: DoubleBits,
    pub sample_p95_latency: DoubleBits,
    pub sample_mad_latency: DoubleBits,
}

/// An earlier session with the figures of its results.
#[derive(Debug)]
pub struct EarlierSession {
    pub report: BenchmarkReport,
    pub figures: Vec<Figures>,
}

impl EarlierSession {
    pub open spec fn well_formed(&self) -> bool {
        self.figures@.len() == self.report.results@.len()
    }
}

/// The first place from `from` on of a case.
pub open spec fn case_place(
    results: Seq<BenchmarkResult>,
    key: (Seq<char>, BenchmarkKind),
    from: int,
) -> Option<int>
    decreases results.len() - from,
{
    if from < 0 || from >= results.len() {
        None
    } else if session::case_key(results[from]) == key {
        Some(from)
    } else {
        case_place(results, key, from + 1)
    }
}

proof fn place_is_first(
    results: Seq<BenchmarkResult>,
    key: (Seq<char>, BenchmarkKind),
    from: int,
    i: int,
)
    requires
        0 <= from <= i <= results.len(),
        forall|j: int| from <= j < i ==> session::case_key(#[trigger] results[j]) != key,
        i < results.len() ==> session::case_key(results[i]) == key,
    ensures
        case_place(results, key, from) == if i < results.len() {
            Some(i)
        } else {
            None
        },
    decreases i - from,
{
    if from < i {
        assert(session::case_key(results[from]) != key);
        place_is_first(results, key, from + 1, i);
    }
}

proof fn place_in_range(results: Seq<BenchmarkResult>, key: (Seq<char>, BenchmarkKind), from: int)
    requires
        0 <= from,
    ensures
        case_place(results, key, from) matches Some(i) ==> from <= i < results.len(),
    decreases results.len() - from,
{
    if from < results.len() {
        place_in_range(results, key, from + 1);
    }
}

fn find_place(results: &Vec<BenchmarkResult>, result: &BenchmarkResult) -> (r: Option<usize>)
    ensures
        r is Some == case_place(results@, session::case_key(*result), 0) is Some,
        r matches Some(i) ==> {
            &&& case_place(results@, session::case_key(*result), 0) == Some(i as int)
            &&& i < results@.len()
        },
{
    let ghost key = session::case_key(*result);
    let r = find_case(results, result.name.as_str(), result.kind);
    proof {
        match r {
            Some(i) => {
                place_is_first(results@, key, 0, i as int);
            },
            None => {
                assert forall|j: int| 0 <= j < results@.len() implies session::case_key(
                    #[trigger] results@[j],
                ) != key by {
                    if session::case_key(results@[j]) == key {
                        assert(session::case_keys(results@).contains(key));
                    }
                }
                place_is_first(results@, key, 0, results@.len() as int);
            },
        }
    }
    r
}

/// Where a result was in an earlier session.
pub open spec fn earlier_place(earlier: &EarlierSession, result: BenchmarkResult) -> Option<int> {
    case_place(earlier.report.results@, session::case_key(result), 0)
}

/// The mean throughput of a result.
pub open spec fn mean_of(result: BenchmarkResult, figures: Figures) -> DoubleBits {
    normalize::unless_empty(
        result.stats.sample_throughput_per_sec@,
        figures.mops,
        figures.sample_mean_mops,
    )
}

pub open spec fn median_of(result: BenchmarkResult, figures: Figures) -> DoubleBits {
    normalize::unless_empty(
        result.stats.sample_latency_ns_per_op@,
        result.stats.median_ns_per_op,
        figures.sample_median_latency,
    )
}

pub open spec fn p95_of(result: BenchmarkResult, figures: Figures) -> DoubleBits {
    normalize::unless_empty(
        result.stats.sample_latency_ns_per_op@,
        result.stats.p95_ns_per_op,
        figures.sample_p95_latency,
    )
}

pub open spec fn mad_of(result: BenchmarkResult, figures: Figures) -> DoubleBits {
    normalize::unless_empty(
        result.stats.sample_latency_ns_per_op@,
        result.stats.mad_ns_per_op,
        figures.sample_mad_latency,
    )
}

pub fn result_mean_throughput(result: &BenchmarkResult, figures: &Figures) -> (r: DoubleBits)
    ensures
        r == mean_of(*result, *figures),
{
    if result.stats.sample_throughput_per_sec.len() == 0 {
        figures.mops
    } else {
        figures.sample_mean_mops
    }
}

pub fn result_median_latency(result: &BenchmarkResult, figures: &Figures) -> (r: DoubleBits)
    ensures
        r == median_of(*result, *figures),
{
    if result.stats.sample_latency_ns_per_op.len() == 0 {
        result.stats.median_ns_per_op
    } else {
        figures.sample_median_latency
    }
}

pub fn result_p95_latency(result: &BenchmarkResult, figures: &Figures) -> (r: DoubleBits)
    ensures
        r == p95_of(*result, *figures),
{
    if result.stats.sample_latency_ns_per_op.len() == 0 {
        result.stats.p95_ns_per_op
    } else {
        figures.sample_p95_latency
    }
}

pub fn result_mad_latency(result: &BenchmarkResult, figures: &Figures) -> (r: DoubleBits)
    ensures
        r == mad_of(*result, *figures),
{
    if result.stats.sample_latency_ns_per_op.len() == 0 {
        result.stats.mad_ns_per_op
    } else {
        figures.sample_mad_latency
    }
}

/// Where a name belongs among names in order.
pub open spec fn name_place(names: Seq<Seq<char>>, name: Seq<char>, from: int) -> int
    decreases names.len() - from,
{
    if from < 0 || from >= names.len() {
        names.len() as int
    } else if !text::less(names[from], name) {
        from
    } else {
        name_place(names, name, from + 1)
    }
}

/// Names in order with one more, unless it is there.
pub open spec fn with_name(names: Seq<Seq<char>>, name: Seq<char>) -> Seq<Seq<char>> {
    let at = name_place(names, name, 0);
    if at < names.len() && names[at] == name {
        names
    } else {
        names.insert(at, name)
    }
}

/// The groups of the first `count` results, in order, each once.
pub open spec fn groups_of(results: Seq<BenchmarkResult>, count: int) -> Seq<Seq<char>>
    decreases count,
{
    if count <= 0 || count > results.len() {
        Seq::empty()
    } else {
        with_name(groups_of(results, count - 1), results[count - 1].group@)
    }
}

/// Names that come one after the other, each once.
pub open spec fn names_increase(names: Seq<Seq<char>>) -> bool {
    forall|i: int, j: int|
        0 <= i < j < names.len() ==> text::less(#[trigger] names[i], #[trigger] names[j])
}

proof fn name_place_facts(names: Seq<Seq<char>>, name: Seq<char>, from: int)
    requires
        0 <= from <= names.len(),
    ensures
        from <= name_place(names, name, from) <= names.len(),
        forall|i: int|
            from <= i < name_place(names, name, from) ==> text::less(#[trigger] names[i], name),
        name_place(names, name, from) < names.len() ==> !text::less(
            names[name_place(names, name, from)],
            name,
        ),
    decreases names.len() - from,
{
    if from < names.len() && text::less(names[from], name) {
        name_place_facts(names, name, from + 1);
    }
}

proof fn with_name_facts(names: Seq<Seq<char>>, name: Seq<char>)
    requires
        names_increase(names),
    ensures
        names_increase(with_name(names, name)),
        forall|n: Seq<char>|
            with_name(names, name).contains(n) <==> names.contains(n) || n == name,
{
    let at = name_place(names, name, 0);
    name_place_facts(names, name, 0);
    let after = with_name(names, name);
    if !(at < names.len() && names[at] == name) {
        assert forall|i: int, j: int| 0 <= i < j < after.len() implies text::less(
            #[trigger] after[i],
            #[trigger] after[j],
        ) by {
            if i < at && j == at {
                assert(after[i] == names[i]);
            } else if i == at {
                assert(after[j] == names[j - 1]);
                text::less_is_total(names[at], name);
                if j - 1 > at {
                    assert(text::less(names[at], names[j - 1]));
                    text::less_is_transitive(name, names[at], names[j - 1]);
                }
            } else if i < at && j > at {
                assert(after[i] == names[i] && after[j] == names[j - 1]);
            } else if i > at {
                assert(after[i] == names[i - 1] && after[j] == names[j - 1]);
            } else {
                assert(after[i] == names[i] && after[j] == names[j]);
            }
        }
        assert forall|n: Seq<char>| after.contains(n) <==> names.contains(n) || n == name by {
            if after.contains(n) {
                let k = choose|k: int| 0 <= k < after.len() && after[k] == n;
                if k < at {
                    assert(names[k] == n);
                } else if k > at {
                    assert(names[k - 1] == n);
                }
            }
            if names.contains(n) {
                let k = choose|k: int| 0 <= k < names.len() && names[k] == n;
                if k < at {
                    assert(after[k] == n);
                } else {
                    assert(after[k + 1] == n);
                }
            }
            assert(after[at] == name);
        }
    } else {
        assert(names.contains(name));
    }
}

/// The groups come in order, each once, and are those of the results.
pub proof fn groups_are_complete(results: Seq<BenchmarkResult>, count: int)
    requires
        0 <= count <= results.len(),
    ensures
        names_increase(groups_of(results, count)),
        forall|n: Seq<char>|
            groups_of(results, count).contains(n) <==> exists|i: int|
                0 <= i < count && (#[trigger] results[i]).group@ == n,
    decreases count,
{
    if count > 0 {
        groups_are_complete(results, count - 1);
        with_name_facts(groups_of(results, count - 1), results[count - 1].group@);
        assert forall|n: Seq<char>|
            groups_of(results, count).contains(n) <==> exists|i: int|
                0 <= i < count && (#[trigger] results[i]).group@ == n by {
            if groups_of(results, count - 1).contains(n) {
                let i = choose|i: int| 0 <= i < count - 1 && (#[trigger] results[i]).group@ == n;
                assert(results[i].group@ == n);
            }
            if n == results[count - 1].group@ {
                assert(results[count - 1].group@ == n);
            }
        }
    }
}

fn find_name_place(names: &Vec<String>, name: &str) -> (r: usize)
    ensures
        r == name_place(text::texts(names@), name@, 0),
        r <= names@.len(),
{
    let ghost all = text::texts(names@);
    let mut at: usize = 0;
    while at < names.len()
        invariant
            at <= names.len(),
            all == text::texts(names@),
            name_place(all, name@, 0) == name_place(all, name@, at as int),
        decreases names.len() - at,
    {
        assert(all[at as int] == names@[at as int]@);
        if !text::comes_before(names[at].as_str(), name) {
            return at;
        }
        at += 1;
    }
    at
}

fn list_groups(results: &Vec<BenchmarkResult>) -> (r: Vec<String>)
    ensures
        text::texts(r@) == groups_of(results@, results@.len() as int),
{
    let mut names: Vec<String> = Vec::new();
    let mut i: usize = 0;
    assert(text::texts(names@) =~= groups_of(results@, 0));
    while i < results.len()
        invariant
            i <= results.len(),
            text::texts(names@) == groups_of(results@, i as int),
        decreases results.len() - i,
    {
        let ghost before = text::texts(names@);
        let name = &results[i].group;
        let at: usize = find_name_place(&names, name.as_str());
        let known = at < names.len() && text::same(names[at].as_str(), name.as_str());
        if !known {
            names.insert(at, name.clone());
            assert(text::texts(names@) =~= before.insert(at as int, name@));
        }
        i += 1;
    }
    names
}

/// The places of the first `count` results that belong to a group.
pub open spec fn members(results: Seq<BenchmarkResult>, group: Seq<char>, count: int) -> Seq<int>
    decreases count,
{
    if count <= 0 || count > results.len() {
        Seq::empty()
    } else if results[count - 1].group@ == group {
        members(results, group, count - 1).push(count - 1)
    } else {
        members(results, group, count - 1)
    }
}

/// Machine integers as integers.
pub open spec fn as_places(places: Seq<usize>) -> Seq<int> {
    places.map_values(|i: usize| i as int)
}

fn list_members(results: &Vec<BenchmarkResult>, group: &str) -> (r: Vec<usize>)
    ensures
        as_places(r@) == members(results@, group@, results@.len() as int),
        forall|k: int| 0 <= k < r@.len() ==> (#[trigger] r@[k]) < results@.len(),
{
    let mut r: Vec<usize> = Vec::new();
    let mut i: usize = 0;
    assert(as_places(r@) =~= members(results@, group@, 0));
    while i < results.len()
        invariant
            i <= results.len(),
            as_places(r@) == members(results@, group@, i as int),
            forall|k: int| 0 <= k < r@.len() ==> (#[trigger] r@[k]) < i,
        decreases results.len() - i,
    {
        let ghost before = r@;
        if text::same(results[i].group.as_str(), group) {
            r.push(i);
            assert(as_places(r@) =~= as_places(before).push(i as int));
        }
        i += 1;
    }
    r
}

/// How the throughput of a result moved, as its table shows it.
pub open spec fn change_cell(
    terminal: bool,
    result: BenchmarkResult,
    figures: Figures,
    earlier: Option<&EarlierSession>,
    changes: &Changes,
    numbers: &NumberTexts,
) -> Seq<char> {
    match earlier {
        None => "-"@,
        Some(earlier) => match earlier_place(earlier, result) {
            Some(j) => changes::change_text(
                terminal,
                changes::percent_change(figures.mops, earlier.figures@[j].mops, changes),
                numbers,
            ),
            None => "NEW"@,
        },
    }
}

fn render_change_cell(
    terminal: bool,
    result: &BenchmarkResult,
    figures: &Figures,
    earlier: Option<&EarlierSession>,
    changes: &Changes,
    numbers: &NumberTexts,
) -> (r: String)
    requires
        earlier matches Some(earlier) ==> earlier.well_formed(),
    ensures
        r@ == change_cell(terminal, *result, *figures, earlier, changes, numbers),
{
    match earlier {
        None => "-".to_owned(),
        Some(earlier) => match find_place(&earlier.report.results, result) {
            Some(j) => format_percent_change(
                terminal,
                safe_percent_change(figures.mops, earlier.figures[j].mops, changes),
                numbers,
            ),
            None => "NEW".to_owned(),
        },
    }
}

pub open spec fn label_form(terminal: bool, label: Seq<char>) -> Seq<char> {
    table::colored_if(terminal, "36"@, label)
}

pub open spec fn number_form(
    terminal: bool,
    value: DoubleBits,
    places: u8,
    numbers: &NumberTexts,
) -> Seq<char> {
    table::colored_if(
        terminal,
        "97"@,
        numbers.spec_text(value, NumberStyle::Fixed { places }),
    )
}

fn render_number(terminal: bool, value: DoubleBits, places: u8, numbers: &NumberTexts) -> (r: String)
    ensures
        r@ == number_form(terminal, value, places, numbers),
{
    colorize_if(terminal, "97", numbers.text(value, NumberStyle::Fixed { places }).as_str())
}

/// The row of a result in the table of its group.
pub open spec fn result_row(
    terminal: bool,
    result: BenchmarkResult,
    figures: Figures,
    earlier: Option<&EarlierSession>,
    changes: &Changes,
    numbers: &NumberTexts,
) -> Seq<Seq<char>> {
    seq![
        label_form(terminal, result.name@),
        number_form(terminal, figures.mops, 1, numbers),
        number_form(terminal, result.stats.median_ns_per_op, 2, numbers),
        number_form(terminal, result.stats.p95_ns_per_op, 2, numbers),
        change_cell(terminal, result, figures, earlier, changes, numbers),
    ]
}

/// The columns to the right of the first are aligned to the right.
pub open spec fn figures_alignments(count: nat) -> Seq<Alignment> {
    Seq::new(
        count,
        |i: int|
            if i == 0 {
                Alignment::Left
            } else {
                Alignment::Right
            },
    )
}

/// The table of a group.
pub open spec fn group_model(
    terminal: bool,
    results: Seq<BenchmarkResult>,
    figures: Seq<Figures>,
    places: Seq<int>,
    earlier: Option<&EarlierSession>,
    changes: &Changes,
    numbers: &NumberTexts,
) -> TableModel {
    TableModel {
        headers: seq!["Benchmark"@, "Mops/s"@, "Median ns/op"@, "P95 ns/op"@, "Change"@],
        widths: seq![25usize, 13, 14, 12, 16],
        rows: places.map_values(
            |i: int| result_row(terminal, results[i], figures[i], earlier, changes, numbers),
        ),
        alignments: figures_alignments(5),
        split: None,
        color: None,
    }
}

fn push_row_cells(rows: &mut Vec<Vec<String>>, row: Vec<String>)
    ensures
        table::row_texts(final(rows)@) == table::row_texts(old(rows)@).push(text::texts(row@)),
{
    let ghost before = table::row_texts(rows@);
    let ghost cells = text::texts(row@);
    rows.push(row);
    assert(table::row_texts(rows@) =~= before.push(cells));
}

fn render_group_table(
    terminal: bool,
    results: &Vec<BenchmarkResult>,
    figures: &Vec<Figures>,
    places: &Vec<usize>,
    earlier: Option<&EarlierSession>,
    changes: &Changes,
    numbers: &NumberTexts,
) -> (r: String)
    requires
        figures@.len() == results@.len(),
        forall|k: int| 0 <= k < places@.len() ==> (#[trigger] places@[k]) < results@.len(),
        earlier matches Some(earlier) ==> earlier.well_formed(),
    ensures
        r@ == group_model(
            terminal,
            results@,
            figures@,
            as_places(places@),
            earlier,
            changes,
            numbers,
        ).table_text(terminal),
{
    let ghost model = group_model(
        terminal,
        results@,
        figures@,
        as_places(places@),
        earlier,
        changes,
        numbers,
    );
    let mut rows: Vec<Vec<String>> = Vec::new();
    let mut k: usize = 0;
    assert(table::row_texts(rows@) =~= model.rows.take(0));
    while k < places.len()
        invariant
            k <= places.len(),
            figures@.len() == results@.len(),
            forall|k: int| 0 <= k < places@.len() ==> (#[trigger] places@[k]) < results@.len(),
            earlier matches Some(earlier) ==> earlier.well_formed(),
            model == group_model(
                terminal,
                results@,
                figures@,
                as_places(places@),
                earlier,
                changes,
                numbers,
            ),
            table::row_texts(rows@) == model.rows.take(k as int),
        decreases places.len() - k,
    {
        let i: usize = places[k];
        let result = &results[i];
        let mut row: Vec<String> = Vec::new();
        row.push(colorize_if(terminal, "36", result.name.as_str()));
        row.push(render_number(terminal, figures[i].mops, 1, numbers));
        row.push(render_number(terminal, result.stats.median_ns_per_op, 2, numbers));
        row.push(render_number(terminal, result.stats.p95_ns_per_op, 2, numbers));
        row.push(
            render_change_cell(terminal, result, &figures[i], earlier, changes, numbers),
        );
        assert(text::texts(row@) =~= result_row(
            terminal,
            *result,
            figures@[i as int],
            earlier,
            changes,
            numbers,
        ));
        assert(model.rows[k as int] == text::texts(row@)) by {
            assert(as_places(places@)[k as int] == i as int);
        }
        push_row_cells(&mut rows, row);
        k += 1;
        assert(table::row_texts(rows@) =~= model.rows.take(k as int));
    }
    assert(model.rows.take(places@.len() as int) =~= model.rows);
    let mut t = TableFormatter::new(
        vec!["Benchmark", "Mops/s", "Median ns/op", "P95 ns/op", "Change"],
        vec![25, 13, 14, 12, 16],
    );
    t.rows = rows;
    proof {
        assert(t.model().headers =~= model.headers);
        assert(t.model().widths =~= model.widths);
        assert(t.model().alignments =~= model.alignments);
    }
    t.render(terminal)
}

/// A result of this session and its counterpart in the earlier one.
pub type Counterparts = Seq<(int, int)>;

/// The results at some places that the earlier session has too.
pub open spec fn counterparts(
    results: Seq<BenchmarkResult>,
    places: Seq<int>,
    earlier: &EarlierSession,
    count: int,
) -> Counterparts
    decreases count,
{
    if count <= 0 || count > places.len() {
        Seq::empty()
    } else {
        let before = counterparts(results, places, earlier, count - 1);
        match earlier_place(earlier, results[places[count - 1]]) {
            Some(j) => before.push((places[count - 1], j)),
            None => before,
        }
    }
}

fn list_counterparts(
    results: &Vec<BenchmarkResult>,
    places: &Vec<usize>,
    earlier: &EarlierSession,
) -> (r: Vec<(usize, usize)>)
    requires
        forall|k: int| 0 <= k < places@.len() ==> (#[trigger] places@[k]) < results@.len(),
    ensures
        crate::comparison::pairing::as_pairs(r@) == counterparts(
            results@,
            as_places(places@),
            earlier,
            places@.len() as int,
        ),
        forall|k: int|
            0 <= k < r@.len() ==> (#[trigger] r@[k]).0 < results@.len() && r@[k].1
                < earlier.report.results@.len(),
{
    let ghost all = as_places(places@);
    let mut r: Vec<(usize, usize)> = Vec::new();
    let mut k: usize = 0;
    assert(crate::comparison::pairing::as_pairs(r@) =~= counterparts(results@, all, earlier, 0));
    while k < places.len()
        invariant
            k <= places.len(),
            all == as_places(places@),
            forall|k: int| 0 <= k < places@.len() ==> (#[trigger] places@[k]) < results@.len(),
            crate::comparison::pairing::as_pairs(r@) == counterparts(
                results@,
                all,
                earlier,
                k as int,
            ),
            forall|k: int|
                0 <= k < r@.len() ==> (#[trigger] r@[k]).0 < results@.len() && r@[k].1
                    < earlier.report.results@.len(),
        decreases places.len() - k,
    {
        let i: usize = places[k];
        let ghost before = r@;
        assert(all[k as int] == i as int);
        match find_place(&earlier.report.results, &results[i]) {
            Some(j) => {
                r.push((i, j));
                assert(crate::comparison::pairing::as_pairs(r@)
                    =~= crate::comparison::pairing::as_pairs(before).push((i as int, j as int)));
            },
            None => {},
        }
        k += 1;
    }
    r
}

/// The improvements of one result in throughput, latency and stability.
pub open spec fn stat_row(
    terminal: bool,
    result: BenchmarkResult,
    figures: Figures,
    previous: BenchmarkResult,
    previous_figures: Figures,
    changes: &Changes,
    numbers: &NumberTexts,
) -> Seq<Seq<char>> {
    seq![
        label_form(terminal, result.name@),
        changes::change_text(
            terminal,
            changes::improvement_change(
                mean_of(result, figures),
                mean_of(previous, previous_figures),
                false,
                changes,
            ),
            numbers,
        ),
        changes::change_text(
            terminal,
            changes::improvement_change(
                median_of(result, figures),
                median_of(previous, previous_figures),
                true,
                changes,
            ),
            numbers,
        ),
        changes::change_text(
            terminal,
            changes::improvement_change(
                p95_of(result, figures),
                p95_of(previous, previous_figures),
                true,
                changes,
            ),
            numbers,
        ),
        changes::change_text(
            terminal,
            changes::improvement_change(
                mad_of(result, figures),
                mad_of(previous, previous_figures),
                true,
                changes,
            ),
            numbers,
        ),
        changes::change_text(
            terminal,
            changes::improvement_change(
                result.stats.cv_percent,
                previous.stats.cv_percent,
                true,
                changes,
            ),
            numbers,
        ),
    ]
}

fn render_stat_row(
    terminal: bool,
    result: &BenchmarkResult,
    figures: &Figures,
    previous: &BenchmarkResult,
    previous_figures: &Figures,
    changes: &Changes,
    numbers: &NumberTexts,
) -> (r: Vec<String>)
    ensures
        text::texts(r@) == stat_row(
            terminal,
            *result,
            *figures,
            *previous,
            *previous_figures,
            changes,
            numbers,
        ),
{
    let mut row: Vec<String> = Vec::new();
    row.push(colorize_if(terminal, "36", result.name.as_str()));
    row.push(
        format_improvement(
            terminal,
            safe_improvement_percent(
                result_mean_throughput(result, figures),
                result_mean_throughput(previous, previous_figures),
                false,
                changes,
            ),
            numbers,
        ),
    );
    row.push(
        format_improvement(
            terminal,
            safe_improvement_percent(
                result_median_latency(result, figures),
                result_median_latency(previous, previous_figures),
                true,
                changes,
            ),
            numbers,
        ),
    );
    row.push(
        format_improvement(
            terminal,
            safe_improvement_percent(
                result_p95_latency(result, figures),
                result_p95_latency(previous, previous_figures),
                true,
                changes,
            ),
            numbers,
        ),
    );
    row.push(
        format_improvement(
            terminal,
            safe_improvement_percent(
                result_mad_latency(result, figures),
                result_mad_latency(previous, previous_figures),
                true,
                changes,
            ),
            numbers,
        ),
    );
    row.push(
        format_improvement(
            terminal,
            safe_improvement_percent(
                result.stats.cv_percent,
                previous.stats.cv_percent,
                true,
                changes,
            ),
            numbers,
        ),
    );
    assert(text::texts(row@) =~= stat_row(
        terminal,
        *result,
        *figures,
        *previous,
        *previous_figures,
        changes,
        numbers,
    ));
    row
}

/// The improvements of the counters of one result.
#[derive(Clone, Copy, Debug, PartialEq)]
pub struct CounterDeltas {
    pub ipc: Option<DoubleBits>,
    pub branch: Option<DoubleBits>,
    pub cache: Option<DoubleBits>,
    pub frontend: Option<DoubleBits>,
    pub backend: Option<DoubleBits>,
}

impl CounterDeltas {
    /// Whether any counter can be compared.
    pub open spec fn any(self) -> bool {
        self.ipc is Some || self.branch is Some || self.cache is Some || self.frontend is Some
            || self.backend is Some
    }
}

/// The improvements of the counters between two results.
pub open spec fn deltas_between(
    current: BenchmarkStats,
    previous: BenchmarkStats,
    changes: &Changes,
) -> CounterDeltas {
    CounterDeltas {
        ipc: changes::counter_improvement(
            changes::ipc_of(current),
            changes::ipc_of(previous),
            false,
            changes,
        ),
        branch: changes::counter_improvement(
            changes::branch_misses_of(current),
            changes::branch_misses_of(previous),
            true,
            changes,
        ),
        cache: changes::counter_improvement(
            changes::cache_of(current),
            changes::cache_of(previous),
            true,
            changes,
        ),
        frontend: changes::counter_improvement(
            changes::frontend_of(current),
            changes::frontend_of(previous),
            true,
            changes,
        ),
        backend: changes::counter_improvement(
            changes::backend_of(current),
            changes::backend_of(previous),
            true,
            changes,
        ),
    }
}

pub fn counter_deltas(current: &BenchmarkStats, previous: &BenchmarkStats, changes: &Changes) -> (r:
    CounterDeltas)
    ensures
        r == deltas_between(*current, *previous, changes),
{
    CounterDeltas {
        ipc: pmu_metric_improvement(pmu_ipc(current), pmu_ipc(previous), false, changes),
        branch: pmu_metric_improvement(
            pmu_branch_miss_metric(current),
            pmu_branch_miss_metric(previous),
            true,
            changes,
        ),
        cache: pmu_metric_improvement(
            pmu_cache_metric(current),
            pmu_cache_metric(previous),
            true,
            changes,
        ),
        frontend: pmu_metric_improvement(
            pmu_frontend_stall_metric(current),
            pmu_frontend_stall_metric(previous),
            true,
            changes,
        ),
        backend: pmu_metric_improvement(
            pmu_backend_stall_metric(current),
            pmu_backend_stall_metric(previous),
            true,
            changes,
        ),
    }
}

/// The row of the counters of one result.
pub open spec fn counter_row(
    terminal: bool,
    name: Seq<char>,
    deltas: CounterDeltas,
    numbers: &NumberTexts,
) -> Seq<Seq<char>> {
    seq![
        label_form(terminal, name),
        changes::change_text(terminal, deltas.ipc, numbers),
        changes::change_text(terminal, deltas.branch, numbers),
        changes::change_text(terminal, deltas.cache, numbers),
        changes::change_text(terminal, deltas.frontend, numbers),
        changes::change_text(terminal, deltas.backend, numbers),
    ]
}

fn render_counter_row(terminal: bool, name: &str, deltas: CounterDeltas, numbers: &NumberTexts) -> (r:
    Vec<String>)
    ensures
        text::texts(r@) == counter_row(terminal, name@, deltas, numbers),
{
    let mut row: Vec<String> = Vec::new();
    row.push(colorize_if(terminal, "36", name));
    row.push(format_improvement(terminal, deltas.ipc, numbers));
    row.push(format_improvement(terminal, deltas.branch, numbers));
    row.push(format_improvement(terminal, deltas.cache, numbers));
    row.push(format_improvement(terminal, deltas.frontend, numbers));
    row.push(format_improvement(terminal, deltas.backend, numbers));
    assert(text::texts(row@) =~= counter_row(terminal, name@, deltas, numbers));
    row
}

/// What is shown of this session and the earlier one.
pub struct Comparand<'a> {
    pub results: &'a Vec<BenchmarkResult>,
    pub figures: &'a Vec<Figures>,
    pub earlier: &'a EarlierSession,
    pub changes: &'a Changes,
    pub numbers: &'a NumberTexts,
    pub terminal: bool,
}

impl<'a> Comparand<'a> {
    pub open spec fn well_formed(&self) -> bool {
        &&& self.figures@.len() == self.results@.len()
        &&& self.earlier.well_formed()
    }

    /// Whether every pair is of a result of this session and one of the earlier.
    pub open spec fn holds_pairs(&self, pairs: Counterparts) -> bool {
        forall|k: int|
            0 <= k < pairs.len() ==> 0 <= (#[trigger] pairs[k]).0 < self.results@.len() && 0
                <= pairs[k].1 < self.earlier.report.results@.len()
    }

    pub open spec fn stat_row_of(&self, pair: (int, int)) -> Seq<Seq<char>> {
        stat_row(
            self.terminal,
            self.results@[pair.0],
            self.figures@[pair.0],
            self.earlier.report.results@[pair.1],
            self.earlier.figures@[pair.1],
            self.changes,
            self.numbers,
        )
    }

    pub open spec fn deltas_of(&self, pair: (int, int)) -> CounterDeltas {
        deltas_between(
            self.results@[pair.0].stats,
            self.earlier.report.results@[pair.1].stats,
            self.changes,
        )
    }

    pub open spec fn counter_row_of(&self, pair: (int, int)) -> Seq<Seq<char>> {
        counter_row(
            self.terminal,
            self.results@[pair.0].name@,
            self.deltas_of(pair),
            self.numbers,
        )
    }

    pub open spec fn stat_model(&self, pairs: Counterparts) -> TableModel {
        TableModel {
            headers: seq!["Benchmark"@, "Thrpt"@, "Median"@, "P95"@, "MAD"@, "CV"@],
            widths: seq![25usize, 10, 10, 10, 10, 10],
            rows: pairs.map_values(|pair: (int, int)| self.stat_row_of(pair)),
            alignments: figures_alignments(6),
            split: None,
            color: None,
        }
    }

    pub open spec fn counter_model(&self, pairs: Counterparts) -> TableModel {
        TableModel {
            headers: seq!["Benchmark"@, "IPC"@, "BrMiss"@, "Cache"@, "FE Stall"@, "BE Stall"@],
            widths: seq![25usize, 10, 10, 10, 10, 10],
            rows: pairs.map_values(|pair: (int, int)| self.counter_row_of(pair)),
            alignments: figures_alignments(6),
            split: None,
            color: None,
        }
    }

    /// Whether some counter of some pair can be compared.
    pub open spec fn any_counters(&self, pairs: Counterparts) -> bool {
        exists|k: int| 0 <= k < pairs.len() && self.deltas_of(#[trigger] pairs[k]).any()
    }

    /// What the shifts of a pair suggest.
    pub open spec fn diagnosis_of(&self, pair: (int, int)) -> Seq<char> {
        changes::comparative_text(
            changes::shifts_between(
                self.results@[pair.0].stats,
                self.figures@[pair.0].mops,
                self.earlier.report.results@[pair.1].stats,
                self.earlier.figures@[pair.1].mops,
                self.changes,
            ),
            self.numbers,
        )
    }

    /// The diagnoses of the first `count` pairs that have one, a line each.
    pub open spec fn diagnosis_lines(&self, pairs: Counterparts, count: int) -> Seq<char>
        decreases count,
    {
        if count <= 0 || count > pairs.len() {
            Seq::empty()
        } else if self.diagnosis_of(pairs[count - 1]).len() == 0 {
            self.diagnosis_lines(pairs, count - 1)
        } else {
            self.diagnosis_lines(pairs, count - 1) + "   - "@ + self.results@[pairs[count
                - 1].0].name@ + ": "@ + table::colored_if(
                self.terminal,
                "31"@,
                self.diagnosis_of(pairs[count - 1]),
            ) + "\n"@
        }
    }

    /// The diagnoses, if there are any.
    pub open spec fn diagnosis_section(&self, pairs: Counterparts) -> Seq<char> {
        let lines = self.diagnosis_lines(pairs, pairs.len() as int);
        if lines.len() == 0 {
            Seq::empty()
        } else {
            "   Comparative diagnosis:\n"@ + lines + "\n"@
        }
    }

    /// The table of counters, if any can be compared.
    pub open spec fn counter_section(&self, pairs: Counterparts) -> Seq<char> {
        if self.any_counters(pairs) {
            "   PMU comparison:\n"@ + self.counter_model(pairs).table_text(self.terminal) + "\n"@
        } else {
            Seq::empty()
        }
    }

    /// The comparison of the pairs of one group, if it has any.
    pub open spec fn comparison_section(&self, pairs: Counterparts) -> Seq<char> {
        if pairs.len() == 0 {
            Seq::empty()
        } else {
            "   Per-stat comparison:\n"@ + self.stat_model(pairs).table_text(self.terminal)
                + "\n"@ + self.counter_section(pairs) + self.diagnosis_section(pairs)
        }
    }

    fn render_stat_table(&self, pairs: &Vec<(usize, usize)>) -> (r: String)
        requires
            self.well_formed(),
            self.holds_pairs(crate::comparison::pairing::as_pairs(pairs@)),
        ensures
            r@ == self.stat_model(crate::comparison::pairing::as_pairs(pairs@)).table_text(
                self.terminal,
            ),
    {
        let ghost view = crate::comparison::pairing::as_pairs(pairs@);
        let ghost model = self.stat_model(view);
        let mut rows: Vec<Vec<String>> = Vec::new();
        let mut k: usize = 0;
        assert(table::row_texts(rows@) =~= model.rows.take(0));
        while k < pairs.len()
            invariant
                k <= pairs.len(),
                self.well_formed(),
                view == crate::comparison::pairing::as_pairs(pairs@),
                self.holds_pairs(view),
                model == self.stat_model(view),
                table::row_texts(rows@) == model.rows.take(k as int),
            decreases pairs.len() - k,
        {
            let (i, j) = pairs[k];
            assert(view[k as int] == (i as int, j as int));
            let row = render_stat_row(
                self.terminal,
                &self.results[i],
                &self.figures[i],
                &self.earlier.report.results[j],
                &self.earlier.figures[j],
                self.changes,
                self.numbers,
            );
            assert(model.rows[k as int] == text::texts(row@));
            push_row_cells(&mut rows, row);
            k += 1;
            assert(table::row_texts(rows@) =~= model.rows.take(k as int));
        }
        assert(model.rows.take(pairs@.len() as int) =~= model.rows);
        let mut t = TableFormatter::new(
            vec!["Benchmark", "Thrpt", "Median", "P95", "MAD", "CV"],
            vec![25, 10, 10, 10, 10, 10],
        );
        t.rows = rows;
        proof {
            assert(t.model().headers =~= model.headers);
            assert(t.model().widths =~= model.widths);
            assert(t.model().alignments =~= model.alignments);
        }
        t.render(self.terminal)
    }

    fn render_counter_section(&self, pairs: &Vec<(usize, usize)>) -> (r: String)
        requires
            self.well_formed(),
            self.holds_pairs(crate::comparison::pairing::as_pairs(pairs@)),
        ensures
            r@ == self.counter_section(crate::comparison::pairing::as_pairs(pairs@)),
    {
        let ghost view = crate::comparison::pairing::as_pairs(pairs@);
        let ghost model = self.counter_model(view);
        let mut rows: Vec<Vec<String>> = Vec::new();
        let mut any = false;
        let mut k: usize = 0;
        assert(table::row_texts(rows@) =~= model.rows.take(0));
        while k < pairs.len()
            invariant
                k <= pairs.len(),
                self.well_formed(),
                view == crate::comparison::pairing::as_pairs(pairs@),
                self.holds_pairs(view),
                model == self.counter_model(view),
                table::row_texts(rows@) == model.rows.take(k as int),
                any == exists|l: int| 0 <= l < k && self.deltas_of(#[trigger] view[l]).any(),
            decreases pairs.len() - k,
        {
            let (i, j) = pairs[k];
            assert(view[k as int] == (i as int, j as int));
            let deltas = counter_deltas(
                &self.results[i].stats,
                &self.earlier.report.results[j].stats,
                self.changes,
            );
            assert(deltas == self.deltas_of(view[k as int]));
            if deltas.ipc.is_some() || deltas.branch.is_some() || deltas.cache.is_some()
                || deltas.frontend.is_some() || deltas.backend.is_some() {
                any = true;
            }
            let row = render_counter_row(
                self.terminal,
                self.results[i].name.as_str(),
                deltas,
                self.numbers,
            );
            assert(model.rows[k as int] == text::texts(row@));
            push_row_cells(&mut rows, row);
            k += 1;
            assert(table::row_texts(rows@) =~= model.rows.take(k as int));
        }
        if !any {
            return String::new();
        }
        assert(model.rows.take(pairs@.len() as int) =~= model.rows);
        let mut t = TableFormatter::new(
            vec!["Benchmark", "IPC", "BrMiss", "Cache", "FE Stall", "BE Stall"],
            vec![25, 10, 10, 10, 10, 10],
        );
        t.rows = rows;
        proof {
            assert(t.model().headers =~= model.headers);
            assert(t.model().widths =~= model.widths);
            assert(t.model().alignments =~= model.alignments);
        }
        let mut r = "   PMU comparison:\n".to_owned();
        r.append(t.render(self.terminal).as_str());
        r.append("\n");
        r
    }

    fn render_diagnosis_section(&self, pairs: &Vec<(usize, usize)>) -> (r: String)
        requires
            self.well_formed(),
            self.holds_pairs(crate::comparison::pairing::as_pairs(pairs@)),
        ensures
            r@ == self.diagnosis_section(crate::comparison::pairing::as_pairs(pairs@)),
    {
        let ghost view = crate::comparison::pairing::as_pairs(pairs@);
        let mut lines = String::new();
        let mut any = false;
        let mut k: usize = 0;
        assert(lines@ =~= self.diagnosis_lines(view, 0));
        while k < pairs.len()
            invariant
                k <= pairs.len(),
                self.well_formed(),
                view == crate::comparison::pairing::as_pairs(pairs@),
                self.holds_pairs(view),
                lines@ == self.diagnosis_lines(view, k as int),
                any == (lines@.len() > 0),
            decreases pairs.len() - k,
        {
            let (i, j) = pairs[k];
            assert(view[k as int] == (i as int, j as int));
            let shifts = measure_shifts(
                &self.results[i].stats,
                self.figures[i].mops,
                &self.earlier.report.results[j].stats,
                self.earlier.figures[j].mops,
                self.changes,
            );
            let diagnosis = comparative_diagnosis(shifts, self.numbers);
            assert(diagnosis@ == self.diagnosis_of(view[k as int]));
            if text::chars_of(diagnosis.as_str()).len() > 0 {
                proof {
                    reveal_strlit("   - ");
                }
                lines.append("   - ");
                lines.append(self.results[i].name.as_str());
                lines.append(": ");
                lines.append(colorize_if(self.terminal, "31", diagnosis.as_str()).as_str());
                lines.append("\n");
                any = true;
                assert(lines@ =~= self.diagnosis_lines(view, k + 1));
            } else {
                assert(lines@ =~= self.diagnosis_lines(view, k + 1));
            }
            k += 1;
        }
        if !any {
            return String::new();
        }
        let mut r = "   Comparative diagnosis:\n".to_owned();
        r.append(lines.as_str());
        r.append("\n");
        r
    }

    fn render_comparison(&self, pairs: &Vec<(usize, usize)>) -> (r: String)
        requires
            self.well_formed(),
            self.holds_pairs(crate::comparison::pairing::as_pairs(pairs@)),
        ensures
            r@ == self.comparison_section(crate::comparison::pairing::as_pairs(pairs@)),
    {
        if pairs.len() == 0 {
            return String::new();
        }
        let mut r = "   Per-stat comparison:\n".to_owned();
        r.append(self.render_stat_table(pairs).as_str());
        r.append("\n");
        r.append(self.render_counter_section(pairs).as_str());
        r.append(self.render_diagnosis_section(pairs).as_str());
        r
    }
}

/// What a summary is made of.
pub struct SummaryInput<'a> {
    pub results: &'a Vec<BenchmarkResult>,
    pub figures: &'a Vec<Figures>,
    pub earlier: Option<&'a EarlierSession>,
    pub changes: &'a Changes,
    pub numbers: &'a NumberTexts,
    pub terminal: bool,
    /// The largest throughput divided by the smallest.
    pub speed_ratio: DoubleBits,
    /// The mean of the changes since the earlier session.
    pub average_change: DoubleBits,
}

/// Whether a result can be ranked by its throughput.
pub open spec fn ranked(figures: Seq<Figures>, i: int) -> bool {
    0 <= i < figures.len() && session::rankable(figures[i].mops)
}

/// Whether a result is the fastest: the last of those with the largest throughput.
pub open spec fn fastest(figures: Seq<Figures>, i: int) -> bool {
    &&& ranked(figures, i)
    &&& forall|j: int| #[trigger]
        ranked(figures, j) ==> figures[j].mops.total_rank() <= figures[i].mops.total_rank() && (j
            > i ==> figures[j].mops.total_rank() < figures[i].mops.total_rank())
}

/// Whether a result is the slowest: the first of those with the smallest throughput.
pub open spec fn slowest(figures: Seq<Figures>, i: int) -> bool {
    &&& ranked(figures, i)
    &&& forall|j: int| #[trigger]
        ranked(figures, j) ==> figures[i].mops.total_rank() <= figures[j].mops.total_rank() && (j
            < i ==> figures[i].mops.total_rank() < figures[j].mops.total_rank())
}

/// The fastest and the slowest result, where any can be ranked.
pub fn fastest_and_slowest(figures: &Vec<Figures>) -> (r: Option<(usize, usize)>)
    ensures
        r is None <==> forall|i: int| !ranked(figures@, i),
        r matches Some(pair) ==> fastest(figures@, pair.0 as int) && slowest(
            figures@,
            pair.1 as int,
        ),
{
    let mut found: Option<(usize, usize)> = None;
    let mut i: usize = 0;
    while i < figures.len()
        invariant
            i <= figures.len(),
            found is None ==> forall|j: int| 0 <= j < i ==> !#[trigger] ranked(figures@, j),
            found matches Some(pair) ==> {
                &&& pair.0 < i
                &&& pair.1 < i
                &&& ranked(figures@, pair.0 as int)
                &&& ranked(figures@, pair.1 as int)
                &&& forall|j: int|
                    0 <= j < i && #[trigger] ranked(figures@, j) ==> {
                        &&& figures@[j].mops.total_rank()
                            <= figures@[pair.0 as int].mops.total_rank()
                        &&& j > pair.0 ==> figures@[j].mops.total_rank()
                            < figures@[pair.0 as int].mops.total_rank()
                        &&& figures@[pair.1 as int].mops.total_rank()
                            <= figures@[j].mops.total_rank()
                        &&& j < pair.1 ==> figures@[pair.1 as int].mops.total_rank()
                            < figures@[j].mops.total_rank()
                    }
            },
        decreases figures.len() - i,
    {
        match finite_mops(figures[i].mops) {
            Some(mops) => {
                assert(ranked(figures@, i as int));
                found = match found {
                    None => Some((i, i)),
                    Some((fast, slow)) => {
                        let new_fast: usize = if mops.total_before(figures[fast].mops) {
                            fast
                        } else {
                            i
                        };
                        let new_slow: usize = if mops.total_before(figures[slow].mops) {
                            i
                        } else {
                            slow
                        };
                        Some((new_fast, new_slow))
                    },
                };
            },
            None => {
                assert(!ranked(figures@, i as int));
            },
        }
        i += 1;
    }
    found
}

/// There is only one fastest and only one slowest result.
pub proof fn extremes_are_unique(figures: Seq<Figures>, i: int, j: int)
    ensures
        fastest(figures, i) && fastest(figures, j) ==> i == j,
        slowest(figures, i) && slowest(figures, j) ==> i == j,
{
}

/// How many results moved, and by how much each.
#[derive(Debug)]
pub struct ChangeTally {
    pub changes: Vec<DoubleBits>,
    pub improvements: usize,
    pub regressions: usize,
}

/// The change of one result since the earlier session, if it can be told.
pub open spec fn change_of(
    result: BenchmarkResult,
    figures: Figures,
    earlier: &EarlierSession,
    changes: &Changes,
) -> Option<DoubleBits> {
    match earlier_place(earlier, result) {
        Some(j) => changes::percent_change(figures.mops, earlier.figures@[j].mops, changes),
        None => None,
    }
}

/// The changes of the first `count` results.
pub open spec fn known_changes(
    results: Seq<BenchmarkResult>,
    figures: Seq<Figures>,
    earlier: &EarlierSession,
    changes: &Changes,
    count: int,
) -> Seq<DoubleBits>
    decreases count,
{
    if count <= 0 || count > results.len() {
        Seq::empty()
    } else {
        let before = known_changes(results, figures, earlier, changes, count - 1);
        match change_of(results[count - 1], figures[count - 1], earlier, changes) {
            Some(change) => before.push(change),
            None => before,
        }
    }
}

/// How many changes are of more than one percent for the better.
pub open spec fn improvement_count(list: Seq<DoubleBits>) -> nat
    decreases list.len(),
{
    if list.len() == 0 {
        0
    } else {
        improvement_count(list.drop_last()) + (if (DoubleBits { bits: ONE_BITS }).below(
            list.last(),
        ) {
            1nat
        } else {
            0nat
        })
    }
}

/// How many changes are of more than one percent for the worse.
pub open spec fn regression_count(list: Seq<DoubleBits>) -> nat
    decreases list.len(),
{
    if list.len() == 0 {
        0
    } else {
        regression_count(list.drop_last()) + (if list.last().below(
            (DoubleBits { bits: ONE_BITS }).negated(),
        ) {
            1nat
        } else {
            0nat
        })
    }
}

/// No change is both for the better and for the worse.
pub proof fn tallies_are_bounded(list: Seq<DoubleBits>)
    ensures
        improvement_count(list) + regression_count(list) <= list.len(),
    decreases list.len(),
{
    if list.len() > 0 {
        tallies_are_bounded(list.drop_last());
    }
}

pub fn tally_changes(
    results: &Vec<BenchmarkResult>,
    figures: &Vec<Figures>,
    earlier: &EarlierSession,
    changes: &Changes,
) -> (r: ChangeTally)
    requires
        figures@.len() == results@.len(),
        earlier.well_formed(),
    ensures
        r.changes@ == known_changes(
            results@,
            figures@,
            earlier,
            changes,
            results@.len() as int,
        ),
        r.improvements == improvement_count(r.changes@),
        r.regressions == regression_count(r.changes@),
{
    let mut list: Vec<DoubleBits> = Vec::new();
    let mut improvements: usize = 0;
    let mut regressions: usize = 0;
    let mut i: usize = 0;
    while i < results.len()
        invariant
            i <= results.len(),
            figures@.len() == results@.len(),
            earlier.well_formed(),
            list@ == known_changes(results@, figures@, earlier, changes, i as int),
            list@.len() <= i,
            improvements == improvement_count(list@),
            regressions == regression_count(list@),
        decreases results.len() - i,
    {
        proof {
            tallies_are_bounded(list@);
        }
        let change = match find_place(&earlier.report.results, &results[i]) {
            Some(j) => safe_percent_change(figures[i].mops, earlier.figures[j].mops, changes),
            None => None,
        };
        match change {
            Some(change) => {
                let ghost before = list@;
                list.push(change);
                assert(list@.drop_last() =~= before);
                if change.gt(DoubleBits { bits: ONE_BITS }) {
                    improvements += 1;
                }
                if change.lt((DoubleBits { bits: ONE_BITS }).neg()) {
                    regressions += 1;
                }
            },
            None => {},
        }
        i += 1;
    }
    ChangeTally { changes: list, improvements, regressions }
}

impl<'a> SummaryInput<'a> {
    pub open spec fn well_formed(&self) -> bool {
        &&& self.figures@.len() == self.results@.len()
        &&& self.earlier matches Some(earlier) ==> earlier.well_formed()
    }

    pub open spec fn comparand(&self) -> Comparand<'a> {
        Comparand {
            results: self.results,
            figures: self.figures,
            earlier: self.earlier->0,
            changes: self.changes,
            numbers: self.numbers,
            terminal: self.terminal,
        }
    }

    /// The part of a group.
    pub open spec fn group_text(&self, group: Seq<char>) -> Seq<char> {
        let places = members(self.results@, group, self.results@.len() as int);
        "📈 "@ + text::uppercase_form(group) + " ("@ + text::decimal(places.len())
            + " benchmarks)\n"@ + group_model(
            self.terminal,
            self.results@,
            self.figures@,
            places,
            self.earlier,
            self.changes,
            self.numbers,
        ).table_text(self.terminal) + "\n"@ + match self.earlier {
            Some(earlier) => self.comparand().comparison_section(
                counterparts(self.results@, places, earlier, places.len() as int),
            ),
            None => Seq::empty(),
        }
    }

    /// The parts of the first `count` groups.
    pub open spec fn groups_text(&self, groups: Seq<Seq<char>>, count: int) -> Seq<char>
        decreases count,
    {
        if count <= 0 || count > groups.len() {
            Seq::empty()
        } else {
            self.groups_text(groups, count - 1) + self.group_text(groups[count - 1])
        }
    }

    /// Which session this one is compared with.
    pub open spec fn earlier_text(&self) -> Seq<char> {
        match self.earlier {
            Some(earlier) => "📊 Comparing with previous run from "@ + earlier.report.timestamp@
                + "\n"@ + (match earlier.report.suite {
                Some(suite) => "   Previous suite: "@ + suite@ + "\n"@,
                None => Seq::empty(),
            }) + (match earlier.report.git_commit {
                Some(commit) => "   Previous commit: "@ + commit@ + "\n"@,
                None => Seq::empty(),
            }) + "\n"@,
            None => Seq::empty(),
        }
    }

    /// Which result is the fastest and which the slowest.
    pub open spec fn insights_text(&self, extremes: Option<(int, int)>) -> Seq<char> {
        match extremes {
            Some(pair) => "   🏆 Fastest: "@ + self.results@[pair.0].name@ + " ("@
                + self.numbers.spec_text(
                self.figures@[pair.0].mops,
                NumberStyle::Fixed { places: 1 },
            ) + " Mops/s)\n   🐌 Slowest: "@ + self.results@[pair.1].name@ + " ("@
                + self.numbers.spec_text(
                self.figures@[pair.1].mops,
                NumberStyle::Fixed { places: 1 },
            ) + " Mops/s)\n   📊 Speed difference: "@ + (if (DoubleBits {
                bits: EPSILON_BITS,
            }).below(self.figures@[pair.1].mops) {
                self.numbers.spec_text(self.speed_ratio, NumberStyle::Fixed { places: 1 })
                    + "x\n"@
            } else {
                "n/a\n"@
            }),
            None => "   No finite throughput values available for insights.\n"@,
        }
    }

    /// How the results moved since the earlier session.
    pub open spec fn regression_text(&self) -> Seq<char> {
        match self.earlier {
            Some(earlier) => {
                let list = known_changes(
                    self.results@,
                    self.figures@,
                    earlier,
                    self.changes,
                    self.results@.len() as int,
                );
                "\n📊 REGRESSION ANALYSIS:\n   ✅ Improvements: "@ + text::decimal(
                    improvement_count(list),
                ) + " benchmarks\n   ❌ Regressions: "@ + text::decimal(regression_count(list))
                    + " benchmarks\n   📈 Average change: "@ + (if list.len() > 0 {
                    self.numbers.spec_text(self.average_change, NumberStyle::Fixed { places: 1 })
                        + "%\n"@
                } else {
                    "n/a\n"@
                })
            },
            None => Seq::empty(),
        }
    }

    /// The summary of a session, given which results are the extremes.
    pub open spec fn summary_text(&self, extremes: Option<(int, int)>) -> Seq<char> {
        if self.results@.len() == 0 {
            Seq::empty()
        } else {
            "\n🎯 BENCHMARK SESSION SUMMARY\n═══════════════════════════════════════════════════════════════════════\n"@
                + self.earlier_text() + self.groups_text(
                groups_of(self.results@, self.results@.len() as int),
                groups_of(self.results@, self.results@.len() as int).len() as int,
            ) + "🔍 KEY INSIGHTS:\n"@ + self.insights_text(extremes) + self.regression_text()
                + "═══════════════════════════════════════════════════════════════════════\n"@
        }
    }

    /// Whether these are the fastest and the slowest result.
    pub open spec fn are_extremes(&self, extremes: Option<(int, int)>) -> bool {
        match extremes {
            Some(pair) => fastest(self.figures@, pair.0) && slowest(self.figures@, pair.1),
            None => forall|i: int| !ranked(self.figures@, i),
        }
    }

    fn render_group(&self, group: &str) -> (r: String)
        requires
            self.well_formed(),
        ensures
            r@ == self.group_text(group@),
    {
        let places = list_members(self.results, group);
        let ghost all = members(self.results@, group@, self.results@.len() as int);
        let mut r = "📈 ".to_owned();
        r.append(text::uppercase_text(group).as_str());
        r.append(" (");
        assert(as_places(places@).len() == places@.len());
        r.append(text::decimal_text(places.len() as u64).as_str());
        r.append(" benchmarks)\n");
        r.append(
            render_group_table(
                self.terminal,
                self.results,
                self.figures,
                &places,
                self.earlier,
                self.changes,
                self.numbers,
            ).as_str(),
        );
        r.append("\n");
        match self.earlier {
            Some(earlier) => {
                let pairs = list_counterparts(self.results, &places, earlier);
                let comparand = Comparand {
                    results: self.results,
                    figures: self.figures,
                    earlier,
                    changes: self.changes,
                    numbers: self.numbers,
                    terminal: self.terminal,
                };
                assert(comparand.holds_pairs(crate::comparison::pairing::as_pairs(pairs@)));
                r.append(comparand.render_comparison(&pairs).as_str());
            },
            None => {},
        }
        assert(r@ =~= self.group_text(group@));
        r
    }

    fn render_earlier(&self) -> (r: String)
        ensures
            r@ == self.earlier_text(),
    {
        match self.earlier {
            Some(earlier) => {
                let mut r = "📊 Comparing with previous run from ".to_owned();
                r.append(earlier.report.timestamp.as_str());
                r.append("\n");
                match &earlier.report.suite {
                    Some(suite) => {
                        r.append("   Previous suite: ");
                        r.append(suite.as_str());
                        r.append("\n");
                    },
                    None => {},
                }
                match &earlier.report.git_commit {
                    Some(commit) => {
                        r.append("   Previous commit: ");
                        r.append(commit.as_str());
                        r.append("\n");
                    },
                    None => {},
                }
                r.append("\n");
                assert(r@ =~= self.earlier_text());
                r
            },
            None => String::new(),
        }
    }

    fn render_insights(&self, extremes: Option<(usize, usize)>) -> (r: String)
        requires
            self.well_formed(),
            extremes matches Some(pair) ==> pair.0 < self.results@.len() && pair.1
                < self.results@.len(),
        ensures
            r@ == self.insights_text(
                match extremes {
                    Some(pair) => Some((pair.0 as int, pair.1 as int)),
                    None => None,
                },
            ),
    {
        match extremes {
            Some((fast, slow)) => {
                let mut r = "   🏆 Fastest: ".to_owned();
                r.append(self.results[fast].name.as_str());
                r.append(" (");
                r.append(
                    self.numbers.text(
                        self.figures[fast].mops,
                        NumberStyle::Fixed { places: 1 },
                    ).as_str(),
                );
                r.append(" Mops/s)\n   🐌 Slowest: ");
                r.append(self.results[slow].name.as_str());
                r.append(" (");
                r.append(
                    self.numbers.text(
                        self.figures[slow].mops,
                        NumberStyle::Fixed { places: 1 },
                    ).as_str(),
                );
                r.append(" Mops/s)\n   📊 Speed difference: ");
                if self.figures[slow].mops.gt(DoubleBits { bits: EPSILON_BITS }) {
                    let mut ratio = self.numbers.text(
                        self.speed_ratio,
                        NumberStyle::Fixed { places: 1 },
                    );
                    ratio.append("x\n");
                    r.append(ratio.as_str());
                } else {
                    r.append("n/a\n");
                }
                r
            },
            None => "   No finite throughput values available for insights.\n".to_owned(),
        }
    }

    fn render_regressions(&self) -> (r: String)
        requires
            self.well_formed(),
        ensures
            r@ == self.regression_text(),
    {
        match self.earlier {
            Some(earlier) => {
                let tally = tally_changes(self.results, self.figures, earlier, self.changes);
                let mut r = "\n📊 REGRESSION ANALYSIS:\n   ✅ Improvements: ".to_owned();
                r.append(text::decimal_text(tally.improvements as u64).as_str());
                r.append(" benchmarks\n   ❌ Regressions: ");
                r.append(text::decimal_text(tally.regressions as u64).as_str());
                r.append(" benchmarks\n   📈 Average change: ");
                if tally.changes.len() > 0 {
                    let mut average = self.numbers.text(
                        self.average_change,
                        NumberStyle::Fixed { places: 1 },
                    );
                    average.append("%\n");
                    r.append(average.as_str());
                } else {
                    r.append("n/a\n");
                }
                r
            },
            None => String::new(),
        }
    }

    /// The summary of a session; empty where it has no results.
    pub fn render(&self) -> (r: String)
        requires
            self.well_formed(),
        ensures
            exists|extremes: Option<(int, int)>| #[trigger]
                self.are_extremes(extremes) && r@ == self.summary_text(extremes),
    {
        let extremes = fastest_and_slowest(self.figures);
        let ghost shown: Option<(int, int)> = match extremes {
            Some(pair) => Some((pair.0 as int, pair.1 as int)),
            None => None,
        };
        assert(self.are_extremes(shown));
        if self.results.len() == 0 {
            let r = String::new();
            assert(r@ =~= self.summary_text(shown));
            return r;
        }
        let mut r =
            "\n🎯 BENCHMARK SESSION SUMMARY\n═══════════════════════════════════════════════════════════════════════\n".to_owned();
        r.append(self.render_earlier().as_str());
        let groups = list_groups(self.results);
        let ghost names = groups_of(self.results@, self.results@.len() as int);
        let ghost head = r@;
        let mut i: usize = 0;
        assert(r@ =~= head + self.groups_text(names, 0));
        while i < groups.len()
            invariant
                i <= groups.len(),
                self.well_formed(),
                names == text::texts(groups@),
                r@ == head + self.groups_text(names, i as int),
            decreases groups.len() - i,
        {
            assert(names[i as int] == groups@[i as int]@);
            r.append(self.render_group(groups[i].as_str()).as_str());
            i += 1;
            assert(r@ =~= head + self.groups_text(names, i as int));
        }
        r.append("🔍 KEY INSIGHTS:\n");
        r.append(self.render_insights(extremes).as_str());
        r.append(self.render_regressions().as_str());
        r.append("═══════════════════════════════════════════════════════════════════════\n");
        assert(r@ =~= self.summary_text(shown));
        r
    }
}

} // verus!
