//! Text tables whose columns line up on a terminal, whatever the width of the
//! characters in them.
use crate::text;
use unicode_width::{UnicodeWidthChar, UnicodeWidthStr};
use vstd::prelude::*;

verus! {

pub const ESCAPE: char = '\u{1b}';

/// The columns that a text takes on a terminal.
pub uninterp spec fn text_columns(s: Seq<char>) -> usize;

/// The columns that a character takes on a terminal; none for a control character.
pub uninterp spec fn char_columns(c: char) -> Option<usize>;

/// A character from the space to the tilde.
pub open spec fn printable_ascii(c: char) -> bool {
    0x20 <= c as u32 && (c as u32) < 0x7f
}

/// A text of characters from the space to the tilde.
pub open spec fn printable_ascii_text(s: Seq<char>) -> bool {
    forall|i: int| 0 <= i < s.len() ==> printable_ascii(#[trigger] s[i])
}

/// Calls `UnicodeWidthStr::width`. A text of printable ASCII characters is as
/// wide as it is long; the width of any other text is left to that function.
#[verifier::external_body]
fn columns_of_text(s: &str) -> (r: usize)
    ensures
        r == text_columns(s@),
        printable_ascii_text(s@) ==> r == s@.len(),
{
    UnicodeWidthStr::width(s)
}

/// Calls `UnicodeWidthChar::width`. Printable ASCII characters take one column,
/// and control characters alone have no width; the width of any other character
/// is left to that function.
#[verifier::external_body]
fn columns_of_char(c: char) -> (r: Option<usize>)
    ensures
        r == char_columns(c),
        printable_ascii(c) ==> r == Some(1usize),
        r is None <==> text::control(c),
{
    UnicodeWidthChar::width(c)
}

/// How many characters from `from` on stand up to and with the next `m`, or to the end.
pub open spec fn through_m(s: Seq<char>, from: int) -> int
    decreases s.len() - from,
{
    if from < 0 || from >= s.len() {
        0
    } else if s[from] == 'm' {
        1
    } else {
        1 + through_m(s, from + 1)
    }
}

proof fn through_m_bounds(s: Seq<char>, from: int)
    requires
        0 <= from <= s.len(),
    ensures
        0 <= through_m(s, from) <= s.len() - from,
    decreases s.len() - from,
{
    if from < s.len() && s[from] != 'm' {
        through_m_bounds(s, from + 1);
    }
}

/// The text from `from` on without its colour sequences: an escape character,
/// `[`, and all up to the next `m`.
pub open spec fn stripped_from(s: Seq<char>, from: int) -> Seq<char>
    decreases s.len() - from,
    when 0 <= from
    via stripped_decreases
{
    if from >= s.len() {
        Seq::empty()
    } else if s[from] == ESCAPE && from + 1 < s.len() && s[from + 1] == '[' {
        stripped_from(s, from + 2 + through_m(s, from + 2))
    } else {
        seq![s[from]] + stripped_from(s, from + 1)
    }
}

#[via_fn]
proof fn stripped_decreases(s: Seq<char>, from: int) {
    if from + 2 <= s.len() {
        through_m_bounds(s, from + 2);
    }
}

/// The text without its colour sequences.
pub open spec fn stripped(s: Seq<char>) -> Seq<char> {
    stripped_from(s, 0)
}

pub fn strip_ansi(text: &str) -> (r: String)
    ensures
        r@ == stripped(text@),
{
    let chars = text::chars_of(text);
    let mut output = String::new();
    let mut at: usize = 0;
    assert(output@ + stripped_from(text@, 0) =~= stripped(text@));
    while at < chars.len()
        invariant
            at <= chars.len(),
            chars@ == text@,
            output@ + stripped_from(text@, at as int) == stripped(text@),
        decreases chars.len() - at,
    {
        if chars[at] == ESCAPE && chars.len() - at > 1 && chars[at + 1] == '[' {
            let ghost start = at + 2;
            proof {
                through_m_bounds(text@, at + 2);
            }
            at += 2;
            while at < chars.len() && chars[at] != 'm'
                invariant
                    start <= at <= chars.len(),
                    chars@ == text@,
                    through_m(text@, start) == (at - start) + through_m(text@, at as int),
                decreases chars.len() - at,
            {
                at += 1;
            }
            if at < chars.len() {
                at += 1;
            }
        } else {
            proof {
                assert(output@.push(text@[at as int]) + stripped_from(text@, at + 1) =~= output@ + (
                seq![text@[at as int]] + stripped_from(text@, at + 1)));
            }
            output.push(chars[at]);
            at += 1;
        }
    }
    assert(stripped_from(text@, at as int) =~= Seq::empty());
    assert(output@ =~= stripped(text@));
    output
}

/// The columns of a text, colour sequences not counted.
pub open spec fn display_columns(s: Seq<char>) -> usize {
    text_columns(stripped(s))
}

pub fn display_text_width(text: &str) -> (r: usize)
    ensures
        r == display_columns(text@),
        printable_ascii_text(text@) ==> r == text@.len(),
{
    let plain = strip_ansi(text);
    proof {
        if printable_ascii_text(text@) {
            stripping_printable_text(text@, 0);
            assert(text@.skip(0) =~= text@);
        }
    }
    columns_of_text(plain.as_str())
}

proof fn stripping_printable_text(s: Seq<char>, from: int)
    requires
        printable_ascii_text(s),
        0 <= from <= s.len(),
    ensures
        stripped_from(s, from) == s.skip(from),
    decreases s.len() - from,
{
    if from < s.len() {
        assert(printable_ascii(s[from]));
        stripping_printable_text(s, from + 1);
        assert(seq![s[from]] + s.skip(from + 1) =~= s.skip(from));
    } else {
        assert(s.skip(from) =~= Seq::empty());
    }
}

/// The columns of a character, none counted for a control character.
pub open spec fn columns(c: char) -> nat {
    match char_columns(c) {
        Some(n) => n as nat,
        None => 0,
    }
}

/// The text from `from` on, cut before the first character that does not fit
/// `budget` columns. Escape sequences take no columns.
pub open spec fn cut_from(s: Seq<char>, from: int, budget: nat) -> Seq<char>
    decreases s.len() - from,
    when 0 <= from
    via cut_decreases
{
    if from >= s.len() {
        Seq::empty()
    } else if s[from] == ESCAPE {
        let length = 1 + through_m(s, from + 1);
        s.subrange(from, from + length) + cut_from(s, from + length, budget)
    } else if columns(s[from]) > budget {
        Seq::empty()
    } else {
        seq![s[from]] + cut_from(s, from + 1, (budget - columns(s[from])) as nat)
    }
}

#[via_fn]
proof fn cut_decreases(s: Seq<char>, from: int, budget: nat) {
    if from < s.len() {
        through_m_bounds(s, from + 1);
    }
}

/// The longest beginning of a text that fits `budget` columns.
pub open spec fn cut(s: Seq<char>, budget: nat) -> Seq<char> {
    cut_from(s, 0, budget)
}

pub fn truncate_display_text(text: &str, target_width: usize) -> (r: String)
    ensures
        r@ == cut(text@, target_width as nat),
        printable_ascii_text(text@) && target_width <= text@.len() ==> r@ == text@.take(
            target_width as int,
        ),
{
    let chars = text::chars_of(text);
    let mut output = String::new();
    let mut left: usize = target_width;
    let mut at: usize = 0;
    assert(output@ + cut_from(text@, 0, left as nat) =~= cut(text@, target_width as nat));
    while at < chars.len()
        invariant
            at <= chars.len(),
            chars@ == text@,
            output@ + cut_from(text@, at as int, left as nat) == cut(text@, target_width as nat),
            printable_ascii_text(text@) && target_width <= text@.len() ==> left + at == target_width
                && output@ == text@.take(at as int),
        decreases chars.len() - at,
    {
        let ghost start = at as int;
        let ghost before = output@;
        assert(printable_ascii_text(text@) ==> printable_ascii(text@[start]));
        if chars[at] == ESCAPE {
            output.push(chars[at]);
            at += 1;
            let mut ended: bool = false;
            proof {
                through_m_bounds(text@, start + 1);
            }
            while at < chars.len() && !ended
                invariant
                    start + 1 <= at <= chars.len(),
                    chars@ == text@,
                    0 <= start < text@.len(),
                    output@ == before + text@.subrange(start, at as int),
                    through_m(text@, start + 1) == (at - start - 1) + (if ended {
                        0
                    } else {
                        through_m(text@, at as int)
                    }),
                decreases chars.len() - at,
            {
                output.push(chars[at]);
                ended = chars[at] == 'm';
                at += 1;
                assert(output@ =~= before + text@.subrange(start, at as int));
            }
            proof {
                let length = 1 + through_m(text@, start + 1);
                assert(at == start + length);
                assert(before + (text@.subrange(start, start + length) + cut_from(
                    text@,
                    start + length,
                    left as nat,
                )) =~= output@ + cut_from(text@, at as int, left as nat));
            }
        } else {
            let ch_width: usize = match columns_of_char(chars[at]) {
                Some(n) => n,
                None => 0,
            };
            if ch_width > left {
                assert(output@ =~= cut(text@, target_width as nat));
                return output;
            }
            proof {
                assert(before + (seq![text@[start]] + cut_from(
                    text@,
                    start + 1,
                    (left - ch_width) as nat,
                )) =~= before.push(text@[start]) + cut_from(
                    text@,
                    start + 1,
                    (left - ch_width) as nat,
                ));
            }
            left = left - ch_width;
            output.push(chars[at]);
            at += 1;
            assert(before == text@.take(start) ==> output@ =~= text@.take(at as int));
        }
    }
    assert(output@ =~= cut(text@, target_width as nat));
    output
}

/// The columns of a text outside its escape sequences, added up character by character.
pub open spec fn visible_columns(s: Seq<char>, from: int) -> nat
    decreases s.len() - from,
    when 0 <= from
    via visible_decreases
{
    if from >= s.len() {
        0
    } else if s[from] == ESCAPE {
        visible_columns(s, from + 1 + through_m(s, from + 1))
    } else {
        columns(s[from]) + visible_columns(s, from + 1)
    }
}

#[via_fn]
proof fn visible_decreases(s: Seq<char>, from: int) {
    if from < s.len() {
        through_m_bounds(s, from + 1);
    }
}

proof fn through_m_of_tail(s: Seq<char>, from: int, at: int)
    requires
        0 <= from <= at <= s.len(),
    ensures
        through_m(s.skip(from), at - from) == through_m(s, at),
    decreases s.len() - at,
{
    if at < s.len() {
        assert(s.skip(from)[at - from] == s[at]);
        if s[at] != 'm' {
            through_m_of_tail(s, from, at + 1);
        }
    }
}

proof fn through_m_of_whole(head: Seq<char>, tail: Seq<char>, at: int)
    requires
        0 <= at <= head.len(),
    ensures
        at + through_m(head, at) < head.len() ==> through_m(head + tail, at) == through_m(head, at),
        through_m(head, at) > 0 && head[at + through_m(head, at) - 1] == 'm' ==> through_m(
            head + tail,
            at,
        ) == through_m(head, at),
    decreases head.len() - at,
{
    if at < head.len() {
        assert((head + tail)[at] == head[at]);
        if head[at] != 'm' {
            through_m_of_whole(head, tail, at + 1);
            through_m_bounds(head, at + 1);
        }
    }
}

proof fn through_m_ends(s: Seq<char>, at: int)
    requires
        0 <= at <= s.len(),
    ensures
        at + through_m(s, at) < s.len() ==> through_m(s, at) > 0 && s[at + through_m(s, at) - 1] == 'm',
    decreases s.len() - at,
{
    if at < s.len() && s[at] != 'm' {
        through_m_ends(s, at + 1);
    }
}

proof fn visible_of_tail(s: Seq<char>, from: int, at: int)
    requires
        0 <= from <= at <= s.len(),
    ensures
        visible_columns(s.skip(from), at - from) == visible_columns(s, at),
    decreases s.len() - at,
{
    if at < s.len() {
        assert(s.skip(from)[at - from] == s[at]);
        if s[at] == ESCAPE {
            through_m_of_tail(s, from, at + 1);
            through_m_bounds(s, at + 1);
            visible_of_tail(s, from, at + 1 + through_m(s, at + 1));
        } else {
            visible_of_tail(s, from, at + 1);
        }
    }
}

proof fn cut_is_within(s: Seq<char>, from: int, budget: nat)
    requires
        0 <= from <= s.len(),
    ensures
        visible_columns(cut_from(s, from, budget), 0) <= budget,
    decreases s.len() - from,
{
    let r = cut_from(s, from, budget);
    if from < s.len() {
        if s[from] == ESCAPE {
            let length = 1 + through_m(s, from + 1);
            through_m_bounds(s, from + 1);
            let head = s.subrange(from, from + length);
            let tail = cut_from(s, from + length, budget);
            cut_is_within(s, from + length, budget);
            assert(r[0] == ESCAPE);
            if from + length < s.len() {
                through_m_ends(s, from + 1);
                escape_is_whole(s, from, length);
                through_m_of_whole(head, tail, 1);
                assert(through_m(r, 1) == length - 1);
                assert(r.skip(length) =~= tail);
                visible_of_tail(r, length, length);
                assert(visible_columns(r, 0) == visible_columns(r, length));
            } else {
                assert(tail =~= Seq::empty());
                assert(r =~= head);
                escape_is_whole(s, from, length);
                assert(visible_columns(r, length) == 0);
            }
        } else if columns(s[from]) <= budget {
            let rest = (budget - columns(s[from])) as nat;
            cut_is_within(s, from + 1, rest);
            assert(r[0] == s[from]);
            assert(r.skip(1) =~= cut_from(s, from + 1, rest));
            visible_of_tail(r, 1, 1);
        }
    }
}

proof fn escape_is_whole(s: Seq<char>, from: int, length: int)
    requires
        0 <= from < s.len(),
        length == 1 + through_m(s, from + 1),
    ensures
        through_m(s.subrange(from, from + length), 1) == length - 1,
{
    through_m_bounds(s, from + 1);
    through_m_of_part(s, from, from + length, from + 1);
}

proof fn through_m_of_part(s: Seq<char>, from: int, end: int, at: int)
    requires
        0 <= from <= at <= end <= s.len(),
        end == at + through_m(s, at),
    ensures
        through_m(s.subrange(from, end), at - from) == through_m(s, at),
    decreases end - at,
{
    if at < s.len() {
        through_m_bounds(s, at + 1);
        assert(s.subrange(from, end)[at - from] == s[at]);
        if s[at] != 'm' {
            through_m_of_part(s, from, end, at + 1);
        }
    }
}

/// A truncated text never takes more columns than it was given.
pub proof fn truncation_fits(s: Seq<char>, budget: nat)
    ensures
        visible_columns(cut(s, budget), 0) <= budget,
{
    cut_is_within(s, 0, budget);
}

#[derive(Clone, Copy, Debug, PartialEq, Eq, Structural)]
pub enum Alignment {
    Left,
    Right,
    Center,
}

#[derive(Clone, Copy, Debug, PartialEq, Eq, Structural)]
pub enum BorderColor {
    Cyan,
}

/// A table with a header row and columns of fixed width.
pub struct TableFormatter {
    pub headers: Vec<String>,
    pub column_widths: Vec<usize>,
    pub rows: Vec<Vec<String>>,
    pub column_alignments: Vec<Alignment>,
    pub group_split_after: Option<usize>,
    pub border_color: Option<BorderColor>,
}

/// The horizontal lines of a table.
#[derive(Clone, Copy, Debug, PartialEq, Eq, Structural)]
pub enum Rule {
    Top,
    Header,
    Bottom,
}

impl Rule {
    pub open spec fn left(self) -> Seq<char> {
        match self {
            Rule::Top => "┌"@,
            Rule::Header => "╞"@,
            Rule::Bottom => "└"@,
        }
    }

    pub open spec fn right(self) -> Seq<char> {
        match self {
            Rule::Top => "┐"@,
            Rule::Header => "╡"@,
            Rule::Bottom => "┘"@,
        }
    }

    pub open spec fn line(self) -> char {
        match self {
            Rule::Top => '─',
            Rule::Header => '═',
            Rule::Bottom => '─',
        }
    }

    /// What stands where a column border meets the line, double at the split
    /// between the groups of columns.
    pub open spec fn joint(self, split: bool) -> Seq<char> {
        match self {
            Rule::Top => if split {
                "╥"@
            } else {
                "┬"@
            },
            Rule::Header => if split {
                "╪"@
            } else {
                "╤"@
            },
            Rule::Bottom => if split {
                "╨"@
            } else {
                "┴"@
            },
        }
    }
}

/// A text in a cell of a given width: padded where it is narrower, cut and
/// ended by three dots where it is wider.
pub open spec fn cell_text(text: Seq<char>, width: nat, align: Alignment) -> Seq<char> {
    let taken = display_columns(text) as nat;
    if taken > width {
        cut(text, if width >= 3 { (width - 3) as nat } else { 0 }) + "..."@
    } else {
        let padding = (width - taken) as nat;
        match align {
            Alignment::Left => text + text::repeated(' ', padding),
            Alignment::Right => text::repeated(' ', padding) + text,
            Alignment::Center => text::repeated(' ', padding / 2) + text + text::repeated(
                ' ',
                (padding - padding / 2) as nat,
            ),
        }
    }
}

/// A text in a terminal colour.
pub open spec fn colored_text(code: Seq<char>, text: Seq<char>) -> Seq<char> {
    "\x1b["@ + code + "m"@ + text + "\x1b[0m"@
}

/// Puts a text into a terminal colour.
pub fn colorize(code: &str, text: &str) -> (r: String)
    ensures
        r@ == colored_text(code@, text@),
{
    let mut r = "\x1b[".to_owned();
    r.append(code);
    r.append("m");
    r.append(text);
    r.append("\x1b[0m");
    r
}

/// A text in a terminal colour where the output is a terminal.
pub open spec fn colored_if(terminal: bool, code: Seq<char>, text: Seq<char>) -> Seq<char> {
    if terminal {
        colored_text(code, text)
    } else {
        text
    }
}

pub fn colorize_if(terminal: bool, code: &str, text: &str) -> (r: String)
    ensures
        r@ == colored_if(terminal, code@, text@),
{
    if terminal {
        colorize(code, text)
    } else {
        text.to_owned()
    }
}

/// What a table shows.
pub struct TableModel {
    pub headers: Seq<Seq<char>>,
    pub widths: Seq<usize>,
    pub rows: Seq<Seq<Seq<char>>>,
    pub alignments: Seq<Alignment>,
    pub split: Option<usize>,
    pub color: Option<BorderColor>,
}

/// The texts of the cells of a list of rows.
pub open spec fn row_texts(rows: Seq<Vec<String>>) -> Seq<Seq<Seq<char>>> {
    rows.map_values(|r: Vec<String>| text::texts(r@))
}

impl TableModel {
    /// A piece of the border, in the border's colour on a terminal.
    pub open spec fn border(self, terminal: bool, piece: Seq<char>) -> Seq<char> {
        match self.color {
            Some(BorderColor::Cyan) => colored_if(terminal, "36"@, piece),
            None => piece,
        }
    }

    pub open spec fn splits(self, column: int) -> bool {
        self.split matches Some(c) && c == column
    }

    /// The border behind a cell: double at the split, but single at the right edge.
    pub open spec fn cell_border(self, column: int) -> Seq<char> {
        if column + 1 == self.widths.len() {
            "│"@
        } else if self.splits(column) {
            "║"@
        } else {
            "│"@
        }
    }

    /// The first `count` columns of a horizontal line.
    pub open spec fn rule_columns(self, terminal: bool, rule: Rule, count: int) -> Seq<char>
        decreases count,
    {
        if count <= 0 {
            Seq::empty()
        } else {
            let i = count - 1;
            self.rule_columns(terminal, rule, i) + self.border(
                terminal,
                text::repeated(rule.line(), self.widths[i] as nat),
            ) + if i < self.widths.len() - 1 {
                self.border(terminal, rule.joint(self.splits(i)))
            } else {
                Seq::empty()
            }
        }
    }

    /// A horizontal line.
    pub open spec fn rule_text(self, terminal: bool, rule: Rule) -> Seq<char> {
        self.border(terminal, rule.left()) + self.rule_columns(
            terminal,
            rule,
            self.widths.len() as int,
        ) + self.border(terminal, rule.right()) + "\n"@
    }

    /// How the cells of a column are aligned; a header is centred.
    pub open spec fn alignment(self, column: int, header: bool) -> Alignment {
        if header {
            Alignment::Center
        } else if column < self.alignments.len() {
            self.alignments[column]
        } else {
            Alignment::Right
        }
    }

    /// The first `count` cells of a row, each with the border behind it.
    pub open spec fn row_cells(
        self,
        terminal: bool,
        cells: Seq<Seq<char>>,
        header: bool,
        count: int,
    ) -> Seq<char>
        decreases count,
    {
        if count <= 0 {
            Seq::empty()
        } else {
            let i = count - 1;
            self.row_cells(terminal, cells, header, i) + cell_text(
                cells[i],
                self.widths[i] as nat,
                self.alignment(i, header),
            ) + self.border(terminal, self.cell_border(i))
        }
    }

    /// How many cells of a row are shown: cells without a column are left out.
    pub open spec fn shown(self, cells: Seq<Seq<char>>) -> int {
        if cells.len() <= self.widths.len() {
            cells.len() as int
        } else {
            self.widths.len() as int
        }
    }

    pub open spec fn row_text(self, terminal: bool, cells: Seq<Seq<char>>, header: bool) -> Seq<char> {
        self.border(terminal, "│"@) + self.row_cells(terminal, cells, header, self.shown(cells))
            + "\n"@
    }

    /// The first `count` rows.
    pub open spec fn body_text(self, terminal: bool, count: int) -> Seq<char>
        decreases count,
    {
        if count <= 0 {
            Seq::empty()
        } else {
            self.body_text(terminal, count - 1) + self.row_text(
                terminal,
                self.rows[count - 1],
                false,
            )
        }
    }

    /// The whole table: top line, header row and header line where there are
    /// headers, rows, bottom line.
    #[verifier::opaque]
    pub open spec fn table_text(self, terminal: bool) -> Seq<char> {
        self.rule_text(terminal, Rule::Top) + (if self.headers.len() > 0 {
            self.row_text(terminal, self.headers, true) + self.rule_text(
                terminal,
                Rule::Header,
            )
        } else {
            Seq::empty()
        }) + self.body_text(terminal, self.rows.len() as int) + self.rule_text(
            terminal,
            Rule::Bottom,
        )
    }
}

impl TableFormatter {
    pub open spec fn model(&self) -> TableModel {
        TableModel {
            headers: text::texts(self.headers@),
            widths: self.column_widths@,
            rows: row_texts(self.rows@),
            alignments: self.column_alignments@,
            split: self.group_split_after,
            color: self.border_color,
        }
    }

    pub fn new(headers: Vec<&str>, column_widths: Vec<usize>) -> (r: TableFormatter)
        ensures
            r.model() == (TableModel {
                headers: headers@.map_values(|h: &str| h@),
                widths: column_widths@,
                rows: Seq::empty(),
                alignments: Seq::new(
                    column_widths@.len(),
                    |i: int|
                        if i == 0 {
                            Alignment::Left
                        } else {
                            Alignment::Right
                        },
                ),
                split: None,
                color: None,
            }),
    {
        let owned = owned_cells(&headers);
        let mut alignments: Vec<Alignment> = Vec::new();
        let mut i: usize = 0;
        while i < column_widths.len()
            invariant
                i <= column_widths.len(),
                alignments@.len() == i,
                forall|j: int|
                    0 <= j < i ==> #[trigger] alignments@[j] == (if j == 0 {
                        Alignment::Left
                    } else {
                        Alignment::Right
                    }),
            decreases column_widths.len() - i,
        {
            alignments.push(
                if i == 0 {
                    Alignment::Left
                } else {
                    Alignment::Right
                },
            );
            i += 1;
        }
        let r = TableFormatter {
            headers: owned,
            column_widths,
            rows: Vec::new(),
            column_alignments: alignments,
            group_split_after: None,
            border_color: None,
        };
        assert(r.model().rows =~= Seq::empty());
        assert(r.model().alignments =~= Seq::new(
            column_widths@.len(),
            |i: int|
                if i == 0 {
                    Alignment::Left
                } else {
                    Alignment::Right
                },
        ));
        r
    }

    pub fn with_alignments(self, alignments: Vec<Alignment>) -> (r: TableFormatter)
        ensures
            r == (TableFormatter { column_alignments: alignments, ..self }),
    {
        TableFormatter { column_alignments: alignments, ..self }
    }

    pub fn with_group_split_after(self, column: usize) -> (r: TableFormatter)
        ensures
            r == (TableFormatter { group_split_after: Some(column), ..self }),
    {
        TableFormatter { group_split_after: Some(column), ..self }
    }

    pub fn with_border_color(self, color: BorderColor) -> (r: TableFormatter)
        ensures
            r == (TableFormatter { border_color: Some(color), ..self }),
    {
        TableFormatter { border_color: Some(color), ..self }
    }

    /// Appends a row.
    pub fn add_row(&mut self, row: Vec<&str>)
        ensures
            final(self).model() == (TableModel {
                rows: old(self).model().rows.push(row@.map_values(|c: &str| c@)),
                ..old(self).model()
            }),
    {
        let owned = owned_cells(&row);
        self.rows.push(owned);
        assert(self.model().rows =~= old(self).model().rows.push(row@.map_values(|c: &str| c@)));
    }

    pub fn format_cell(&self, text: &str, width: usize, align: Alignment) -> (r: String)
        ensures
            r@ == cell_text(text@, width as nat, align),
            printable_ascii_text(text@) && width >= 3 ==> r@.len() == width
                && printable_ascii_text(r@),
    {
        proof {
            reveal_strlit("...");
        }
        let taken: usize = display_text_width(text);
        if taken > width {
            let room: usize = if width >= 3 {
                width - 3
            } else {
                0
            };
            let mut r = truncate_display_text(text, room);
            r.append("...");
            r
        } else {
            let padding: usize = width - taken;
            match align {
                Alignment::Left => {
                    let mut r = text.to_owned();
                    text::push_repeated(&mut r, ' ', padding);
                    r
                },
                Alignment::Right => {
                    let mut r = String::new();
                    text::push_repeated(&mut r, ' ', padding);
                    r.append(text);
                    assert(r@ =~= text::repeated(' ', padding as nat) + text@);
                    r
                },
                Alignment::Center => {
                    let left_pad: usize = padding / 2;
                    let mut r = String::new();
                    text::push_repeated(&mut r, ' ', left_pad);
                    r.append(text);
                    text::push_repeated(&mut r, ' ', padding - left_pad);
                    assert(r@ =~= cell_text(text@, width as nat, align));
                    r
                },
            }
        }
    }

    fn borderize(&self, terminal: bool, piece: &str) -> (r: String)
        ensures
            r@ == self.model().border(terminal, piece@),
    {
        match self.border_color {
            Some(BorderColor::Cyan) => colorize_if(terminal, "36", piece),
            None => piece.to_owned(),
        }
    }

    fn is_split(&self, column: usize) -> (r: bool)
        ensures
            r == self.model().splits(column as int),
    {
        match self.group_split_after {
            Some(c) => c == column,
            None => false,
        }
    }

    pub fn vertical_top(&self, column: usize) -> (r: &'static str)
        ensures
            r@ == Rule::Top.joint(self.model().splits(column as int)),
    {
        if self.is_split(column) {
            "╥"
        } else {
            "┬"
        }
    }

    pub fn vertical_header(&self, column: usize) -> (r: &'static str)
        ensures
            r@ == Rule::Header.joint(self.model().splits(column as int)),
    {
        if self.is_split(column) {
            "╪"
        } else {
            "╤"
        }
    }

    pub fn vertical_bottom(&self, column: usize) -> (r: &'static str)
        ensures
            r@ == Rule::Bottom.joint(self.model().splits(column as int)),
    {
        if self.is_split(column) {
            "╨"
        } else {
            "┴"
        }
    }

    pub fn vertical_body(&self, column: usize) -> (r: &'static str)
        requires
            column < usize::MAX,
        ensures
            r@ == self.model().cell_border(column as int),
    {
        if column + 1 == self.column_widths.len() {
            "│"
        } else if self.is_split(column) {
            "║"
        } else {
            "│"
        }
    }

    fn push_rule(&self, out: &mut String, terminal: bool, rule: Rule)
        ensures
            final(out)@ == old(out)@ + self.model().rule_text(terminal, rule),
    {
        let left = match rule {
            Rule::Top => "┌",
            Rule::Header => "╞",
            Rule::Bottom => "└",
        };
        let right = match rule {
            Rule::Top => "┐",
            Rule::Header => "╡",
            Rule::Bottom => "┘",
        };
        let line: char = match rule {
            Rule::Top => '─',
            Rule::Header => '═',
            Rule::Bottom => '─',
        };
        out.append(self.borderize(terminal, left).as_str());
        let ghost start = out@;
        let mut i: usize = 0;
        assert(out@ =~= start + self.model().rule_columns(terminal, rule, 0));
        while i < self.column_widths.len()
            invariant
                i <= self.column_widths.len(),
                line == rule.line(),
                out@ == start + self.model().rule_columns(terminal, rule, i as int),
            decreases self.column_widths.len() - i,
        {
            let ghost before = out@;
            let mut filled = String::new();
            text::push_repeated(&mut filled, line, self.column_widths[i]);
            assert(filled@ =~= text::repeated(line, self.column_widths@[i as int] as nat));
            out.append(self.borderize(terminal, filled.as_str()).as_str());
            if i < self.column_widths.len() - 1 {
                let joint = match rule {
                    Rule::Top => self.vertical_top(i),
                    Rule::Header => self.vertical_header(i),
                    Rule::Bottom => self.vertical_bottom(i),
                };
                out.append(self.borderize(terminal, joint).as_str());
            }
            i += 1;
            assert(out@ =~= start + self.model().rule_columns(terminal, rule, i as int));
        }
        out.append(self.borderize(terminal, right).as_str());
        out.append("\n");
        assert(out@ =~= old(out)@ + self.model().rule_text(terminal, rule));
    }

    fn push_row(&self, out: &mut String, terminal: bool, cells: &Vec<String>, header: bool)
        ensures
            final(out)@ == old(out)@ + self.model().row_text(terminal, text::texts(cells@), header),
    {
        out.append(self.borderize(terminal, "│").as_str());
        let ghost start = out@;
        let ghost all = text::texts(cells@);
        let mut i: usize = 0;
        assert(out@ =~= start + self.model().row_cells(terminal, all, header, 0));
        while i < cells.len() && i < self.column_widths.len()
            invariant
                i <= cells.len(),
                i <= self.column_widths.len(),
                all == text::texts(cells@),
                out@ == start + self.model().row_cells(terminal, all, header, i as int),
            decreases cells.len() - i,
        {
            let align = if header {
                Alignment::Center
            } else if i < self.column_alignments.len() {
                self.column_alignments[i]
            } else {
                Alignment::Right
            };
            let formatted = self.format_cell(cells[i].as_str(), self.column_widths[i], align);
            out.append(formatted.as_str());
            out.append(self.borderize(terminal, self.vertical_body(i)).as_str());
            i += 1;
            assert(out@ =~= start + self.model().row_cells(terminal, all, header, i as int));
        }
        out.append("\n");
        assert(out@ =~= old(out)@ + self.model().row_text(terminal, all, header));
    }

    /// The table as text; its border is coloured where the output is a terminal.
    pub fn render(&self, terminal: bool) -> (out: String)
        ensures
            out@ == self.model().table_text(terminal),
    {
        reveal(TableModel::table_text);
        let mut out = String::new();
        self.push_rule(&mut out, terminal, Rule::Top);
        if self.headers.len() > 0 {
            self.push_row(&mut out, terminal, &self.headers, true);
            self.push_rule(&mut out, terminal, Rule::Header);
        }
        let ghost start = out@;
        let mut i: usize = 0;
        assert(out@ =~= start + self.model().body_text(terminal, 0));
        while i < self.rows.len()
            invariant
                i <= self.rows.len(),
                out@ == start + self.model().body_text(terminal, i as int),
            decreases self.rows.len() - i,
        {
            self.push_row(&mut out, terminal, &self.rows[i], false);
            i += 1;
            assert(out@ =~= start + self.model().body_text(terminal, i as int));
        }
        self.push_rule(&mut out, terminal, Rule::Bottom);
        assert(out@ =~= self.model().table_text(terminal));
        out
    }
}

fn owned_cells(cells: &Vec<&str>) -> (r: Vec<String>)
    ensures
        text::texts(r@) == cells@.map_values(|c: &str| c@),
{
    let mut r: Vec<String> = Vec::new();
    let mut i: usize = 0;
    while i < cells.len()
        invariant
            i <= cells.len(),
            r@.len() == i,
            forall|j: int| 0 <= j < i ==> (#[trigger] r@[j])@ == cells@[j]@,
        decreases cells.len() - i,
    {
        r.push(cells[i].to_owned());
        i += 1;
    }
    assert(text::texts(r@) =~= cells@.map_values(|c: &str| c@));
    r
}

} // verus!
