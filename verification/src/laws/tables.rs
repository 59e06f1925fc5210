//! How tables are laid out.
use crate::laws::rendering::{held_parts_stay_held, holds, middle_is_held};
use crate::laws::texts::stands_at;
use crate::table;
use crate::table::{
    colorize, colorize_if, display_text_width, strip_ansi, truncate_display_text, Alignment,
    BorderColor, Rule, TableFormatter, TableModel,
};
use crate::text;
use vstd::prelude::*;

verus! {

/// A text that fits its cell stands at its end, at its start or in its middle,
/// with spaces round it; nothing of it is lost.
pub proof fn cells_are_filled_with_spaces(
    formatter: TableFormatter,
    s: &str,
    width: usize,
    columns: usize,
    left: String,
    right: String,
    middle: String,
)
    requires
        call_ensures(display_text_width, (s,), columns),
        columns <= width,
        call_ensures(TableFormatter::format_cell, (&formatter, s, width, Alignment::Left), left),
        call_ensures(TableFormatter::format_cell, (&formatter, s, width, Alignment::Right), right),
        call_ensures(TableFormatter::format_cell, (&formatter, s, width, Alignment::Center), middle),
    ensures
        ({
            let room = width - columns;
            let half = room / 2;
            &&& left@.len() == s@.len() + room
            &&& left@.subrange(0, s@.len() as int) == s@
            &&& forall|i: int| s@.len() <= i < left@.len() ==> #[trigger] left@[i] == ' '
            &&& right@.len() == s@.len() + room
            &&& right@.subrange(room, right@.len() as int) == s@
            &&& forall|i: int| 0 <= i < room ==> #[trigger] right@[i] == ' '
            &&& middle@.len() == s@.len() + room
            &&& middle@.subrange(half, half + s@.len()) == s@
            &&& forall|i: int|
                0 <= i < half || half + s@.len() <= i < middle@.len() ==> #[trigger] middle@[i]
                    == ' '
        }),
{
    let room = width - columns;
    let half = room / 2;
    assert(left@.subrange(0, s@.len() as int) =~= s@);
    assert(right@.subrange(room, right@.len() as int) =~= s@);
    assert(middle@.subrange(half, half + s@.len()) =~= s@);
}

/// A text that does not fit ends in three dots, and what is left of it fits with
/// them.
pub proof fn long_cells_end_in_dots(
    formatter: TableFormatter,
    s: &str,
    width: usize,
    align: Alignment,
    columns: usize,
    r: String,
)
    requires
        call_ensures(display_text_width, (s,), columns),
        columns > width >= 3,
        call_ensures(TableFormatter::format_cell, (&formatter, s, width, align), r),
    ensures
        r@.len() >= 3,
        r@.subrange(r@.len() - 3, r@.len() as int) == "..."@,
        table::visible_columns(r@.subrange(0, r@.len() - 3), 0) <= width - 3,
{
    reveal_strlit("...");
    let cut = table::cut(s@, (width - 3) as nat);
    table::truncation_fits(s@, (width - 3) as nat);
    assert(r@.subrange(r@.len() - 3, r@.len() as int) =~= "..."@);
    assert(r@.subrange(0, r@.len() - 3) =~= cut);
}

proof fn plain_text_is_kept(front: Seq<char>, s: Seq<char>, from: int)
    requires
        0 <= from <= s.len(),
        forall|i: int| 0 <= i < s.len() ==> #[trigger] s[i] != '\u{1b}',
    ensures
        table::stripped_from(
            front + s + "\x1b[0m"@,
            front.len() + from,
        ) == s.skip(from),
    decreases s.len() - from,
{
    reveal_strlit("\x1b[0m");
    let whole = front + s + "\x1b[0m"@;
    let at = front.len() + from;
    if from < s.len() {
        assert(whole[at] == s[from]);
        assert(s[from] != '\u{1b}');
        plain_text_is_kept(front, s, from + 1);
        assert(seq![s[from]] + s.skip(from + 1) =~= s.skip(from));
    } else {
        assert(whole.len() == at + 4);
        assert(whole[at] == '\u{1b}' && whole[at + 1] == '[' && whole[at + 2] == '0' && whole[at + 3]
            == 'm');
        assert(table::through_m(whole, at + 3) == 1);
        assert(table::through_m(whole, at + 2) == 2);
        assert(table::stripped_from(whole, at + 4) =~= Seq::<char>::empty());
        assert(s.skip(from) =~= Seq::<char>::empty());
    }
}

proof fn codes_end_at_their_mark(whole: Seq<char>, from: int, end: int)
    requires
        0 <= from <= end < whole.len(),
        whole[end] == 'm',
        forall|i: int| from <= i < end ==> #[trigger] whole[i] != 'm',
    ensures
        table::through_m(whole, from) == end - from + 1,
    decreases end - from,
{
    if from < end {
        assert(whole[from] != 'm');
        codes_end_at_their_mark(whole, from + 1, end);
    }
}

/// Colour is put round a text and taken away again; without a terminal there is
/// none.
pub proof fn colours_are_taken_away_again(
    code: &str,
    s: &str,
    r: String,
    shown: &str,
    bare: String,
    plain: String,
    bright: String,
)
    requires
        forall|i: int| 0 <= i < s@.len() ==> #[trigger] s@[i] != '\u{1b}',
        forall|i: int| 0 <= i < code@.len() ==> #[trigger] code@[i] != 'm',
        call_ensures(colorize, (code, s), r),
        shown@ == r@,
        call_ensures(strip_ansi, (shown,), bare),
        call_ensures(colorize_if, (false, code, s), plain),
        call_ensures(colorize_if, (true, code, s), bright),
    ensures
        bare@ == s@,
        plain@ == s@,
        bright@ == r@,
        stands_at(r@, s@, code@.len() + 3int),
{
    reveal_strlit("\x1b[");
    reveal_strlit("m");
    reveal_strlit("\x1b[0m");
    let front = "\x1b["@ + code@ + "m"@;
    assert(r@ =~= front + s@ + "\x1b[0m"@);
    let end = 2 + code@.len() as int;
    assert(r@[end] == 'm');
    assert forall|i: int| 2 <= i < end implies #[trigger] r@[i] != 'm' by {
        assert(r@[i] == code@[i - 2]);
    }
    codes_end_at_their_mark(r@, 2, end);
    plain_text_is_kept(front, s@, 0);
    assert(s@.skip(0) =~= s@);
    assert(r@[0] == '\u{1b}' && r@[1] == '[');
    assert(stands_at(r@, s@, front.len() as int));
}

proof fn bodies_hold_their_rows(model: TableModel, terminal: bool, count: int, k: int)
    requires
        0 <= k < count <= model.rows.len(),
    ensures
        holds(model.body_text(terminal, count), model.row_text(terminal, model.rows[k], false)),
    decreases count,
{
    let row = model.row_text(terminal, model.rows[k], false);
    let front = model.body_text(terminal, count - 1);
    let last = model.row_text(terminal, model.rows[count - 1], false);
    if k == count - 1 {
        middle_is_held(front, row, Seq::empty());
        assert(front + row + Seq::empty() =~= front + row);
    } else {
        bodies_hold_their_rows(model, terminal, count - 1, k);
        held_parts_stay_held(Seq::empty(), front, last, row);
        assert(Seq::empty() + front + last =~= front + last);
    }
}

/// A table holds its headers and every one of its rows.
pub proof fn tables_hold_their_rows(
    formatter: TableFormatter,
    terminal: bool,
    r: String,
    k: int,
)
    requires
        call_ensures(TableFormatter::render, (&formatter, terminal), r),
        0 <= k < formatter.rows@.len(),
    ensures
        holds(
            r@,
            formatter.model().row_text(terminal, text::texts(formatter.rows@[k]@), false),
        ),
        formatter.headers@.len() > 0 ==> holds(
            r@,
            formatter.model().row_text(terminal, text::texts(formatter.headers@), true),
        ),
{
    reveal(TableModel::table_text);
    let model = formatter.model();
    let top = model.rule_text(terminal, Rule::Top);
    let bottom = model.rule_text(terminal, Rule::Bottom);
    let line = model.rule_text(terminal, Rule::Header);
    let names = model.row_text(terminal, model.headers, true);
    let head = if model.headers.len() > 0 {
        names + line
    } else {
        Seq::empty()
    };
    let body = model.body_text(terminal, model.rows.len() as int);
    assert(model.rows[k] == text::texts(formatter.rows@[k]@));
    bodies_hold_their_rows(model, terminal, model.rows.len() as int, k);
    let row = model.row_text(terminal, model.rows[k], false);
    held_parts_stay_held(top + head, body, bottom, row);
    assert(r@ =~= (top + head) + body + bottom);
    if formatter.headers@.len() > 0 {
        assert(r@ =~= top + names + (line + body + bottom));
        middle_is_held(top, names, line + body + bottom);
    }
}

/// Setting one thing of a table leaves the others.
pub proof fn tables_keep_the_rest(
    formatter: TableFormatter,
    alignments: Vec<Alignment>,
    a: TableFormatter,
    column: usize,
    b: TableFormatter,
    color: BorderColor,
    c: TableFormatter,
)
    requires
        call_ensures(TableFormatter::with_alignments, (formatter, alignments), a),
        call_ensures(TableFormatter::with_group_split_after, (formatter, column), b),
        call_ensures(TableFormatter::with_border_color, (formatter, color), c),
    ensures
        a.column_alignments == alignments && a.rows == formatter.rows && a.headers
            == formatter.headers && a.column_widths == formatter.column_widths
            && a.group_split_after == formatter.group_split_after && a.border_color
            == formatter.border_color,
        b.group_split_after == Some(column) && b.rows == formatter.rows && b.headers
            == formatter.headers && b.column_alignments == formatter.column_alignments
            && b.border_color == formatter.border_color,
        c.border_color == Some(color) && c.rows == formatter.rows && c.headers
            == formatter.headers && c.column_alignments == formatter.column_alignments
            && c.group_split_after == formatter.group_split_after,
{
}

/// The columns that a text takes, a character without columns taking none.
pub open spec fn taken(s: Seq<char>) -> nat
    decreases s.len(),
{
    if s.len() == 0 {
        0
    } else {
        taken(s.drop_last()) + match table::char_columns(s.last()) {
            Some(n) => n as nat,
            None => 0,
        }
    }
}

proof fn cut_text_is_a_beginning(s: Seq<char>, from: int, budget: nat, room: nat)
    requires
        0 <= from <= s.len(),
        forall|i: int| 0 <= i < s.len() ==> s[i] != '\u{1b}',
        taken(s.take(from)) + budget == room,
    ensures
        ({
            let end = from + table::cut_from(s, from, budget).len();
            &&& end <= s.len()
            &&& s.take(from) + table::cut_from(s, from, budget) == s.take(end)
            &&& taken(s.take(end)) <= room
            &&& end < s.len() ==> taken(s.take(end + 1)) > room
        }),
    decreases s.len() - from,
{
    if from < s.len() {
        assert(s.take(from + 1).drop_last() =~= s.take(from));
        assert(s.take(from + 1).last() == s[from]);
        let c = table::columns(s[from]);
        if c <= budget {
            let rest = table::cut_from(s, from + 1, (budget - c) as nat);
            cut_text_is_a_beginning(s, from + 1, (budget - c) as nat, room);
            assert(s.take(from) + (seq![s[from]] + rest) =~= s.take(from + 1) + rest);
        } else {
            assert(s.take(from) + table::cut_from(s, from, budget) =~= s.take(from));
        }
    } else {
        assert(s.take(from) + table::cut_from(s, from, budget) =~= s.take(from));
    }
}

/// A text without escape sequences is cut to the longest beginning of it that has
/// room; one that has room is kept whole.
pub proof fn long_texts_are_cut(s: &str, width: usize, r: String)
    requires
        call_ensures(truncate_display_text, (s, width), r),
        forall|i: int| 0 <= i < s@.len() ==> s@[i] != '\u{1b}',
    ensures
        r@.len() <= s@.len(),
        r@ == s@.take(r@.len() as int),
        taken(r@) <= width,
        r@.len() < s@.len() ==> taken(s@.take(r@.len() as int + 1)) > width,
{
    assert(s@.take(0) =~= Seq::empty());
    cut_text_is_a_beginning(s@, 0, width as nat, width as nat);
    assert(s@.take(0) + r@ =~= r@);
}

} // verus!
