//! How texts are read, written and ordered.
use crate::bench::perf;
use crate::bench::perf::signed_decimal_text;
use crate::parse;
use crate::parse::{parse_cpu_list, parse_i32, parse_setting, parse_u32, parse_usize, trim_chars};
use crate::text;
use crate::text::{
    align_left, align_right, ascii_lowercase_chars, comes_before, contains, decimal_text, ends_with,
    is_blank, is_control, is_whitespace, join, list_contains, same, same_ignoring_case,
    starts_with, to_ascii_lower,
};
use vstd::prelude::*;

verus! {

/// The white space of Unicode, by code point.
pub open spec fn white(c: char) -> bool {
    let n = c as u32;
    n == 0x9 || n == 0xa || n == 0xb || n == 0xc || n == 0xd || n == 0x20 || n == 0x85 || n == 0xa0
        || n == 0x1680 || (0x2000 <= n && n <= 0x200a) || n == 0x2028 || n == 0x2029 || n == 0x202f
        || n == 0x205f || n == 0x3000
}

/// White space is known by its code points, control characters by theirs.
pub proof fn characters_are_known_by_their_code(c: char, space: bool, control: bool)
    requires
        call_ensures(is_whitespace, (c,), space),
        call_ensures(is_control, (c,), control),
    ensures
        space <==> white(c),
        control <==> (c as u32) < 0x20 || 0x7f <= (c as u32) < 0xa0,
{
}

/// A text is blank where it holds white space alone.
pub proof fn blank_texts_hold_white_space(s: &str, r: bool)
    requires
        call_ensures(is_blank, (s,), r),
    ensures
        r <==> forall|i: int| 0 <= i < s@.len() ==> white(#[trigger] s@[i]),
{
    if forall|i: int| 0 <= i < s@.len() ==> white(#[trigger] s@[i]) {
        assert forall|i: int| 0 <= i < s@.len() implies text::whitespace(#[trigger] s@[i]) by {
            assert(white(s@[i]));
        }
    }
    if text::blank(s@) {
        assert forall|i: int| 0 <= i < s@.len() implies white(#[trigger] s@[i]) by {
            assert(text::whitespace(s@[i]));
        }
    }
}

/// The small letter of a letter from A to Z; any other character itself.
pub open spec fn small(c: char) -> char {
    if 0x41 <= c as u32 <= 0x5a {
        (c as u32 + 0x20) as char
    } else {
        c
    }
}

/// Only the letters from A to Z have a small letter.
pub proof fn capitals_have_small_letters(c: char, r: char, s: &str, all: Vec<char>)
    requires
        call_ensures(to_ascii_lower, (c,), r),
        call_ensures(ascii_lowercase_chars, (s,), all),
    ensures
        r == small(c),
        all@.len() == s@.len(),
        forall|i: int| 0 <= i < s@.len() ==> (#[trigger] all@[i]) == small(s@[i]),
{
}

/// Two texts are the same where their characters are, and the same but for case
/// where their small letters are.
pub proof fn texts_are_the_same_by_character(a: &str, b: &str, exact: bool, loose: bool)
    requires
        call_ensures(same, (a, b), exact),
        call_ensures(same_ignoring_case, (a, b), loose),
    ensures
        exact <==> a@ == b@,
        loose <==> a@.len() == b@.len() && forall|i: int|
            0 <= i < a@.len() ==> small(#[trigger] a@[i]) == small(b@[i]),
        exact ==> loose,
{
    let x = text::ascii_lower_all(a@);
    let y = text::ascii_lower_all(b@);
    assert forall|i: int| 0 <= i < a@.len() implies (#[trigger] x[i]) == small(a@[i]) by {}
    assert forall|i: int| 0 <= i < b@.len() implies (#[trigger] y[i]) == small(b@[i]) by {}
    if a@.len() == b@.len() && forall|i: int|
        0 <= i < a@.len() ==> small(#[trigger] a@[i]) == small(b@[i]) {
        assert forall|i: int| 0 <= i < x.len() implies x[i] == y[i] by {
            assert(small(a@[i]) == small(b@[i]));
        }
        assert(x =~= y);
    }
    if x == y {
        assert(x.len() == y.len());
        assert forall|i: int| 0 <= i < a@.len() implies small(#[trigger] a@[i]) == small(b@[i]) by {
            assert(x[i] == y[i]);
        }
    }
}

/// Whether a part stands in a text from a place on.
pub open spec fn stands_at(whole: Seq<char>, part: Seq<char>, at: int) -> bool {
    0 <= at && at + part.len() <= whole.len() && forall|i: int|
        0 <= i < part.len() ==> #[trigger] part[i] == whole[at + i]
}

proof fn standing_is_occurring(whole: Seq<char>, part: Seq<char>, at: int)
    ensures
        text::occurs_at(whole, part, at) == stands_at(whole, part, at),
{
    if stands_at(whole, part, at) {
        assert(whole.subrange(at, at + part.len()) =~= part);
    }
    if text::occurs_at(whole, part, at) {
        let cut = whole.subrange(at, at + part.len());
        assert forall|i: int| 0 <= i < part.len() implies #[trigger] part[i] == whole[at + i] by {
            assert(cut[i] == whole[at + i]);
        }
    }
}

/// A text holds a part where the part stands somewhere in it, starts with it
/// where that is at the start, and ends with it where that is at the end.
pub proof fn parts_stand_in_texts(whole: &str, part: &str, holds: bool, starts: bool, ends: bool)
    requires
        call_ensures(contains, (whole, part), holds),
        call_ensures(starts_with, (whole, part), starts),
        call_ensures(ends_with, (whole, part), ends),
    ensures
        holds <==> exists|at: int| stands_at(whole@, part@, at),
        starts <==> stands_at(whole@, part@, 0),
        ends <==> stands_at(whole@, part@, whole@.len() - part@.len()),
{
    standing_is_occurring(whole@, part@, 0);
    standing_is_occurring(whole@, part@, whole@.len() - part@.len());
    if text::occurs(whole@, part@) {
        let at = choose|at: int| text::occurs_at(whole@, part@, at);
        standing_is_occurring(whole@, part@, at);
        assert(stands_at(whole@, part@, at));
    }
    if exists|at: int| stands_at(whole@, part@, at) {
        let at = choose|at: int| stands_at(whole@, part@, at);
        standing_is_occurring(whole@, part@, at);
        assert(text::occurs_at(whole@, part@, at));
    }
}

/// A list holds a text where one of its texts is the same.
pub proof fn lists_hold_their_texts(list: Vec<String>, item: &str, r: bool)
    requires
        call_ensures(list_contains, (&list, item), r),
    ensures
        r <==> exists|i: int| 0 <= i < list@.len() && (#[trigger] list@[i])@ == item@,
{
    let texts = text::texts(list@);
    if texts.contains(item@) {
        let i = choose|i: int| 0 <= i < texts.len() && texts[i] == item@;
        assert(list@[i]@ == item@);
    }
    if exists|i: int| 0 <= i < list@.len() && (#[trigger] list@[i])@ == item@ {
        let i = choose|i: int| 0 <= i < list@.len() && (#[trigger] list@[i])@ == item@;
        assert(texts[i] == item@);
    }
}

/// The digits of a number stand for it.
pub proof fn decimals_are_read_back(n: nat)
    ensures
        parse::all_digits(text::decimal(n)),
        parse::digits_value(text::decimal(n)) == n,
        n > 0 ==> text::decimal(n)[0] != '0',
        text::decimal(n)[0] != '+' && text::decimal(n)[0] != '-',
    decreases n,
{
    if n < 10 {
        let s = text::decimal(n);
        assert(s.len() == 1);
        assert(s[0] == (n + 48) as char);
        assert(s.drop_last() =~= Seq::<char>::empty());
        reveal_with_fuel(parse::digits_value, 2);
    } else {
        decimals_are_read_back(n / 10);
        let front = text::decimal(n / 10);
        let s = text::decimal(n);
        assert(s.drop_last() =~= front);
        assert(s.last() == (n % 10 + 48) as char);
        assert forall|i: int| 0 <= i < s.len() implies parse::is_digit(#[trigger] s[i]) by {
            if i < front.len() {
                assert(parse::is_digit(front[i]));
            }
        }
        assert(s[0] == front[0]);
    }
}

/// A number that is written is read back, and is written without leading zeros.
pub proof fn written_numbers_are_read_back(n: u64, s: String, read: &str, r: Option<usize>)
    requires
        call_ensures(decimal_text, (n,), s),
        read@ == s@,
        call_ensures(parse_usize, (read,), r),
    ensures
        n <= usize::MAX ==> r == Some(n as usize),
        n > usize::MAX ==> r is None,
        s@.len() > 0,
        n > 0 ==> s@[0] != '0',
        forall|i: int| 0 <= i < s@.len() ==> '0' <= #[trigger] s@[i] <= '9',
{
    decimals_are_read_back(n as nat);
    assert forall|i: int| 0 <= i < s@.len() implies '0' <= #[trigger] s@[i] <= '9' by {
        assert(parse::is_digit(s@[i]));
    }
}

/// A signed number that is written is read back.
pub proof fn signed_numbers_are_read_back(n: i32, s: String, chars: Vec<char>, r: Option<i32>)
    requires
        call_ensures(signed_decimal_text, (n,), s),
        chars@ == s@,
        call_ensures(parse_i32, (&chars,), r),
    ensures
        r == Some(n),
{
    reveal_strlit("-");
    if n < 0 {
        decimals_are_read_back((-n) as nat);
        assert(s@.drop_first() =~= text::decimal((-n) as nat));
        assert(s@[0] == '-');
    } else {
        decimals_are_read_back(n as nat);
    }
}

/// What is read as a number is a plus sign at most and digits, and stands for the
/// number that they write.
pub proof fn read_numbers_are_digits(read: &str, r: Option<usize>)
    requires
        call_ensures(parse_usize, (read,), r),
    ensures
        r is Some ==> read@.len() > 0 && forall|i: int|
            #![trigger read@[i]]
            (0 < i < read@.len() ==> '0' <= read@[i] <= '9') && (i == 0 ==> '0' <= read@[i] <= '9'
                || read@[i] == '+'),
        r matches Some(n) ==> (read@.len() == 1 ==> n == read@[0] as int - 0x30),
{
    if r is Some {
        let digits = if read@[0] == '+' {
            read@.drop_first()
        } else {
            read@
        };
        assert forall|i: int|
            #![trigger read@[i]]
            (0 < i < read@.len() ==> '0' <= read@[i] <= '9') && (i == 0 ==> '0' <= read@[i] <= '9'
                || read@[i] == '+') by {
            if read@[0] == '+' {
                if 0 < i < read@.len() {
                    assert(parse::is_digit(digits[i - 1]));
                    assert(digits[i - 1] == read@[i]);
                }
            } else if 0 <= i < read@.len() {
                assert(parse::is_digit(digits[i]));
            }
        }
        if read@.len() == 1 && read@[0] != '+' {
            assert(digits.drop_last() =~= Seq::<char>::empty());
            reveal_with_fuel(parse::digits_value, 2);
        }
    }
}

/// White space round a number is no part of it.
pub proof fn numbers_are_read_without_white_space(
    padded: &str,
    bare: &str,
    bare_chars: Vec<char>,
    r: Option<u32>,
    s: Option<u32>,
    setting: Option<i32>,
    number: Option<i32>,
)
    requires
        bare@ == parse::trimmed(padded@),
        bare_chars@ == bare@,
        call_ensures(parse_u32, (padded,), r),
        call_ensures(parse_u32, (bare,), s),
        call_ensures(parse_setting, (padded,), setting),
        call_ensures(parse_i32, (&bare_chars,), number),
    ensures
        r == s,
        setting == number,
{
    parse::trimming_is_idempotent(padded@);
}

proof fn trimming_cuts_white_space(s: Seq<char>) -> (ends: (int, int))
    ensures
        0 <= ends.0 <= ends.1 <= s.len(),
        parse::trimmed(s) == s.subrange(ends.0, ends.1),
        forall|i: int| 0 <= i < ends.0 || ends.1 <= i < s.len() ==> white(#[trigger] s[i]),
    decreases s.len(),
{
    if s.len() == 0 {
        assert(s.subrange(0, 0) =~= s);
        (0, 0)
    } else if text::whitespace(s.first()) {
        let rest = s.drop_first();
        let inner = trimming_cuts_white_space(rest);
        let ends = (inner.0 + 1, inner.1 + 1);
        assert(rest.subrange(inner.0, inner.1) =~= s.subrange(ends.0, ends.1));
        assert forall|i: int| 0 <= i < ends.0 || ends.1 <= i < s.len() implies white(
            #[trigger] s[i],
        ) by {
            if i > 0 {
                assert(rest[i - 1] == s[i]);
            }
        }
        ends
    } else if text::whitespace(s.last()) {
        let rest = s.drop_last();
        let inner = trimming_cuts_white_space(rest);
        assert(rest.subrange(inner.0, inner.1) =~= s.subrange(inner.0, inner.1));
        assert forall|i: int| 0 <= i < inner.0 || inner.1 <= i < s.len() implies white(
            #[trigger] s[i],
        ) by {
            if i < rest.len() {
                assert(rest[i] == s[i]);
            }
        }
        inner
    } else {
        assert(s.subrange(0, s.len() as int) =~= s);
        (0, s.len() as int)
    }
}

/// Trimming cuts the white space at both ends of a text, and nothing else.
pub proof fn trimming_cuts_both_ends(s: Vec<char>, r: Vec<char>) -> (ends: (int, int))
    requires
        call_ensures(trim_chars, (&s,), r),
    ensures
        0 <= ends.0 <= ends.1 <= s@.len(),
        r@ == s@.subrange(ends.0, ends.1),
        forall|i: int| 0 <= i < ends.0 || ends.1 <= i < s@.len() ==> white(#[trigger] s@[i]),
        r@.len() > 0 ==> !white(r@.first()) && !white(r@.last()),
{
    parse::trimming_is_idempotent(s@);
    trimming_cuts_white_space(s@)
}

/// Whether one text comes before another: it is a beginning of the other, or has
/// the lower character where they first differ.
pub open spec fn first_difference(a: Seq<char>, b: Seq<char>, at: int) -> bool {
    &&& 0 <= at <= a.len()
    &&& at < b.len()
    &&& forall|i: int| 0 <= i < at ==> #[trigger] a[i] == b[i]
    &&& at < a.len() ==> a[at] < b[at]
}

proof fn order_has_a_first_difference(a: Seq<char>, b: Seq<char>)
    ensures
        text::less(a, b) <==> exists|at: int| first_difference(a, b, at),
    decreases a.len(),
{
    if b.len() > 0 && a.len() > 0 && a[0] == b[0] {
        let x = a.skip(1);
        let y = b.skip(1);
        order_has_a_first_difference(x, y);
        if text::less(x, y) {
            let at = choose|at: int| first_difference(x, y, at);
            assert forall|i: int| 0 <= i < at + 1 implies #[trigger] a[i] == b[i] by {
                if i > 0 {
                    assert(x[i - 1] == y[i - 1]);
                }
            }
            assert(first_difference(a, b, at + 1));
        }
        if exists|at: int| first_difference(a, b, at) {
            let at = choose|at: int| first_difference(a, b, at);
            assert forall|i: int| 0 <= i < at - 1 implies #[trigger] x[i] == y[i] by {
                assert(a[i + 1] == b[i + 1]);
            }
            assert(first_difference(x, y, at - 1));
        }
    } else if text::less(a, b) {
        assert(first_difference(a, b, 0));
    } else if exists|at: int| first_difference(a, b, at) {
        let at = choose|at: int| first_difference(a, b, at);
        if at > 0 {
            assert(a[0] == b[0]);
        }
    }
}

/// Texts are ordered by their first difference; of two that differ one comes
/// before the other.
pub proof fn texts_are_ordered_by_their_first_difference(
    a: &str,
    b: &str,
    forth: bool,
    back: bool,
)
    requires
        call_ensures(comes_before, (a, b), forth),
        call_ensures(comes_before, (b, a), back),
    ensures
        forth <==> exists|at: int| first_difference(a@, b@, at),
        !(forth && back),
        a@ != b@ ==> forth || back,
{
    order_has_a_first_difference(a@, b@);
    text::less_is_total(a@, b@);
}

/// Joined texts stand in their order, with the separator between each two.
pub proof fn joined_texts_are_separated(
    list: Vec<String>,
    longer: Vec<String>,
    next: Seq<char>,
    separator: &str,
    r: String,
    more: String,
)
    requires
        call_ensures(join, (&list, separator), r),
        call_ensures(join, (&longer, separator), more),
        longer@.len() == list@.len() + 1,
        forall|i: int| 0 <= i < list@.len() ==> (#[trigger] longer@[i])@ == list@[i]@,
        longer@.last()@ == next,
    ensures
        list@.len() == 0 ==> r@.len() == 0 && more@ == next,
        list@.len() > 0 ==> more@ == r@ + separator@ + next,
{
    let all = text::texts(longer@);
    assert(all.drop_last() =~= text::texts(list@));
    assert(all.last() == next);
}

/// A text is widened with spaces on one side, and never cut.
pub proof fn aligned_texts_are_widened(s: &str, width: usize, right: String, left: String)
    requires
        call_ensures(align_right, (s, width), right),
        call_ensures(align_left, (s, width), left),
    ensures
        right@.len() == (if s@.len() < width {
            width as nat
        } else {
            s@.len()
        }),
        left@.len() == right@.len(),
        right@.subrange(right@.len() - s@.len(), right@.len() as int) == s@,
        left@.subrange(0, s@.len() as int) == s@,
        forall|i: int| 0 <= i < right@.len() - s@.len() ==> #[trigger] right@[i] == ' ',
        forall|i: int| s@.len() <= i < left@.len() ==> #[trigger] left@[i] == ' ',
{
    assert(right@.subrange(right@.len() - s@.len(), right@.len() as int) =~= s@);
    assert(left@.subrange(0, s@.len() as int) =~= s@);
}

proof fn digits_hold_no_other(s: Seq<char>, c: char, from: int)
    requires
        0 <= from <= s.len(),
        parse::all_digits(s),
        !parse::is_digit(c),
    ensures
        parse::place_of(s, c, from) == s.len(),
    decreases s.len() - from,
{
    if from < s.len() {
        assert(parse::is_digit(s[from]));
        digits_hold_no_other(s, c, from + 1);
    }
}

proof fn digits_end_at_the_mark(s: Seq<char>, c: char, mark: int, from: int)
    requires
        0 <= from <= mark < s.len(),
        s[mark] == c,
        forall|i: int| 0 <= i < mark ==> #[trigger] s[i] != c,
    ensures
        parse::place_of(s, c, from) == mark,
    decreases mark - from,
{
    if from < mark {
        assert(s[from] != c);
        digits_end_at_the_mark(s, c, mark, from + 1);
    }
}

/// A single number names its core, and two numbers with a dash between them name
/// every core from the first to the last.
pub proof fn core_lists_name_spans(
    first: usize,
    last: usize,
    one: &str,
    span: &str,
    r: Result<Vec<usize>, String>,
    s: Result<Vec<usize>, String>,
)
    requires
        one@ == text::decimal(first as nat),
        span@ == text::decimal(first as nat) + "-"@ + text::decimal(last as nat),
        call_ensures(parse_cpu_list, (one,), r),
        call_ensures(parse_cpu_list, (span,), s),
    ensures
        r matches Ok(list) && list@ == seq![first],
        first <= last ==> (s matches Ok(list) && list@.len() == last - first + 1 && forall|i: int|
            0 <= i < list@.len() ==> #[trigger] list@[i] == first + i),
        first > last ==> s is Err,
{
    reveal_strlit("-");
    let a = text::decimal(first as nat);
    let b = text::decimal(last as nat);
    decimals_are_read_back(first as nat);
    decimals_are_read_back(last as nat);
    // One number.
    assert(parse::is_digit(a.first()) && parse::is_digit(a.last()));
    assert(parse::trimmed(a) == a);
    digits_hold_no_other(a, '-', 0);
    digits_hold_no_other(a, ',', 0);
    assert(a.subrange(0, a.len() as int) =~= a);
    assert(parse::entry_cpus(a) == Some(seq![first]));
    // Two numbers.
    let t = span@;
    let mark = a.len() as int;
    assert(t[mark] == '-');
    assert(t.first() == a.first());
    assert(t.last() == b.last());
    assert(parse::is_digit(b.last()));
    assert(parse::trimmed(t) == t);
    assert forall|i: int| 0 <= i < mark implies #[trigger] t[i] != '-' by {
        assert(t[i] == a[i]);
        assert(parse::is_digit(a[i]));
    }
    digits_end_at_the_mark(t, '-', mark, 0);
    assert(t.take(mark) =~= a);
    assert(t.skip(mark + 1) =~= b);
    assert forall|i: int| 0 <= i < t.len() implies #[trigger] t[i] != ',' by {
        if i < mark {
            assert(parse::is_digit(a[i]));
        } else if i > mark {
            assert(t[i] == b[i - mark - 1]);
            assert(parse::is_digit(b[i - mark - 1]));
        }
    }
    no_mark_is_found(t, ',', 0);
    assert(t.subrange(0, t.len() as int) =~= t);
}

proof fn no_mark_is_found(s: Seq<char>, c: char, from: int)
    requires
        0 <= from <= s.len(),
        forall|i: int| 0 <= i < s.len() ==> #[trigger] s[i] != c,
    ensures
        parse::place_of(s, c, from) == s.len(),
    decreases s.len() - from,
{
    if from < s.len() {
        assert(s[from] != c);
        no_mark_is_found(s, c, from + 1);
    }
}

proof fn places_move_with_the_text(front: Seq<char>, s: Seq<char>, c: char, from: int)
    requires
        0 <= from <= s.len(),
    ensures
        parse::place_of(front + s, c, front.len() + from) == front.len() + parse::place_of(
            s,
            c,
            from,
        ),
        from <= parse::place_of(s, c, from) <= s.len(),
    decreases s.len() - from,
{
    if from < s.len() {
        assert((front + s)[front.len() + from] == s[from]);
        if s[from] != c {
            places_move_with_the_text(front, s, c, from + 1);
        }
    }
}

proof fn entries_move_with_the_text(front: Seq<char>, s: Seq<char>, from: int)
    requires
        0 <= from <= s.len(),
    ensures
        parse::cpus_from(front + s, front.len() + from) == parse::cpus_from(s, from),
    decreases s.len() - from,
{
    places_move_with_the_text(front, s, ',', from);
    let comma = parse::place_of(s, ',', from);
    assert((front + s).subrange(front.len() + from, front.len() + comma) =~= s.subrange(
        from,
        comma,
    ));
    if comma < s.len() {
        entries_move_with_the_text(front, s, comma + 1);
    }
}

/// A list of cores is read entry by entry: what stands before a comma and what
/// stands behind it are read alone, and a list with a bad entry is not read.
pub proof fn core_lists_are_read_entry_by_entry(
    first: &str,
    rest: &str,
    whole: &str,
    a: Result<Vec<usize>, String>,
    b: Result<Vec<usize>, String>,
    r: Result<Vec<usize>, String>,
)
    requires
        forall|i: int| 0 <= i < first@.len() ==> #[trigger] first@[i] != ',',
        whole@ == first@ + ","@ + rest@,
        call_ensures(parse_cpu_list, (first,), a),
        call_ensures(parse_cpu_list, (rest,), b),
        call_ensures(parse_cpu_list, (whole,), r),
    ensures
        r is Ok <==> a is Ok && b is Ok,
        r matches Ok(list) ==> list@ == a->Ok_0@ + b->Ok_0@,
{
    reveal_strlit(",");
    let s = whole@;
    let n = first@.len() as int;
    assert(s[n] == ',');
    assert forall|i: int| 0 <= i < n implies #[trigger] s[i] != ',' by {
        assert(s[i] == first@[i]);
    }
    digits_end_at_the_mark(s, ',', n, 0);
    no_mark_is_found(first@, ',', 0);
    assert(s.subrange(0, n) =~= first@);
    assert(first@.subrange(0, n) =~= first@);
    let front = first@ + ","@;
    assert(s =~= front + rest@);
    entries_move_with_the_text(front, rest@, 0);
    assert(front.len() == n + 1);
}

} // verus!
