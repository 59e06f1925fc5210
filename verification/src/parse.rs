//! Whole numbers and lists of processors as the system writes them.
use crate::text;
use vstd::prelude::*;

verus! {

/// The text without the whitespace around it.
pub open spec fn trimmed(s: Seq<char>) -> Seq<char>
    decreases s.len(),
{
    if s.len() == 0 {
        s
    } else if text::whitespace(s.first()) {
        trimmed(s.drop_first())
    } else if text::whitespace(s.last()) {
        trimmed(s.drop_last())
    } else {
        s
    }
}

/// Copies a part of a list of characters.
fn part_of(chars: &Vec<char>, start: usize, end: usize) -> (r: Vec<char>)
    requires
        start <= end <= chars@.len(),
    ensures
        r@ == chars@.subrange(start as int, end as int),
{
    let mut r: Vec<char> = Vec::new();
    let mut i: usize = start;
    while i < end
        invariant
            start <= i <= end <= chars@.len(),
            r@ == chars@.subrange(start as int, i as int),
        decreases end - i,
    {
        r.push(chars[i]);
        i += 1;
        assert(r@ =~= chars@.subrange(start as int, i as int));
    }
    r
}

pub fn trim_chars(chars: &Vec<char>) -> (r: Vec<char>)
    ensures
        r@ == trimmed(chars@),
{
    let mut start: usize = 0;
    let mut end: usize = chars.len();
    assert(chars@.subrange(0, chars@.len() as int) =~= chars@);
    while start < end && text::is_whitespace(chars[start])
        invariant
            start <= end == chars@.len(),
            trimmed(chars@.subrange(start as int, end as int)) == trimmed(chars@),
        decreases end - start,
    {
        let ghost rest = chars@.subrange(start as int, end as int);
        assert(rest.drop_first() =~= chars@.subrange(start + 1, end as int));
        start += 1;
    }
    while start < end && text::is_whitespace(chars[end - 1])
        invariant
            start <= end <= chars@.len(),
            start < end ==> !text::whitespace(chars@[start as int]),
            trimmed(chars@.subrange(start as int, end as int)) == trimmed(chars@),
        decreases end - start,
    {
        let ghost rest = chars@.subrange(start as int, end as int);
        assert(rest.drop_last() =~= chars@.subrange(start as int, end - 1));
        end -= 1;
    }
    let r = part_of(chars, start, end);
    assert(r@.len() > 0 ==> r@.first() == chars@[start as int] && r@.last() == chars@[end - 1]);
    r
}

/// Trimming leaves no whitespace at either end, and trimming again changes nothing.
pub proof fn trimming_is_idempotent(s: Seq<char>)
    ensures
        trimmed(trimmed(s)) == trimmed(s),
        trimmed(s).len() > 0 ==> !text::whitespace(trimmed(s).first()) && !text::whitespace(
            trimmed(s).last(),
        ),
    decreases s.len(),
{
    if s.len() > 0 {
        if text::whitespace(s.first()) {
            trimming_is_idempotent(s.drop_first());
        } else if text::whitespace(s.last()) {
            trimming_is_idempotent(s.drop_last());
        }
    }
}

pub open spec fn is_digit(c: char) -> bool {
    '0' <= c <= '9'
}

/// A text of digits, at least one.
pub open spec fn all_digits(s: Seq<char>) -> bool {
    s.len() > 0 && forall|i: int| 0 <= i < s.len() ==> is_digit(#[trigger] s[i])
}

/// The number that digits stand for.
pub open spec fn digits_value(s: Seq<char>) -> nat
    decreases s.len(),
{
    if s.len() == 0 {
        0
    } else {
        digits_value(s.drop_last()) * 10 + (s.last() as nat - '0' as nat) as nat
    }
}

/// The whole number that a text of digits stands for, behind a plus sign or not.
pub open spec fn unsigned(s: Seq<char>) -> Option<nat> {
    let digits = if s.len() > 0 && s[0] == '+' {
        s.drop_first()
    } else {
        s
    };
    if all_digits(digits) {
        Some(digits_value(digits))
    } else {
        None
    }
}

/// The whole number that a text stands for, if it is not larger than `max`.
pub open spec fn unsigned_within(s: Seq<char>, max: nat) -> Option<nat> {
    match unsigned(s) {
        Some(value) => if value <= max {
            Some(value)
        } else {
            None
        },
        None => None,
    }
}

/// The number that a text stands for, if it is a whole number of 32 bits.
pub open spec fn signed(s: Seq<char>) -> Option<int> {
    if s.len() > 0 && s[0] == '-' {
        if all_digits(s.drop_first()) && digits_value(s.drop_first()) <= 0x8000_0000 {
            Some(-(digits_value(s.drop_first()) as int))
        } else {
            None
        }
    } else {
        match unsigned_within(s, 0x7fff_ffff) {
            Some(value) => Some(value as int),
            None => None,
        }
    }
}

proof fn more_digits_are_larger(s: Seq<char>, count: int)
    requires
        0 <= count <= s.len(),
    ensures
        digits_value(s.take(count)) <= digits_value(s),
    decreases s.len() - count,
{
    if count < s.len() {
        more_digits_are_larger(s, count + 1);
        assert(s.take(count + 1).drop_last() =~= s.take(count));
    } else {
        assert(s.take(count) =~= s);
    }
}

/// Reads digits from a place on.
fn parse_digits(chars: &Vec<char>, from: usize, max: u64) -> (r: Option<u64>)
    requires
        from <= chars@.len(),
    ensures
        ({
            let digits = chars@.skip(from as int);
            match r {
                Some(value) => all_digits(digits) && value == digits_value(digits) && value <= max,
                None => !all_digits(digits) || digits_value(digits) > max,
            }
        }),
{
    let ghost digits = chars@.skip(from as int);
    if from == chars.len() {
        return None;
    }
    let mut value: u128 = 0;
    let mut i: usize = from;
    while i < chars.len()
        invariant
            from <= i <= chars@.len(),
            digits == chars@.skip(from as int),
            forall|j: int| 0 <= j < i - from ==> is_digit(#[trigger] digits[j]),
            value == digits_value(digits.take(i - from)),
            value <= max,
            max <= 0xffff_ffff_ffff_ffff,
        decreases chars@.len() - i,
    {
        let c = chars[i];
        assert(digits[i - from] == c);
        if !('0' <= c && c <= '9') {
            return None;
        }
        let d: u128 = (c as u32 - '0' as u32) as u128;
        assert(digits.take(i - from + 1).drop_last() =~= digits.take(i - from));
        let next: u128 = value * 10 + d;
        if next > max as u128 {
            proof {
                more_digits_are_larger(digits, i - from + 1);
            }
            return None;
        }
        value = next;
        i += 1;
    }
    assert(digits.take(digits.len() as int) =~= digits);
    Some(value as u64)
}

/// Reads a whole number that is not larger than `max`.
pub fn parse_unsigned(chars: &Vec<char>, max: u64) -> (r: Option<u64>)
    ensures
        r is Some == unsigned_within(chars@, max as nat) is Some,
        r matches Some(value) ==> value == unsigned_within(chars@, max as nat)->0,
{
    if chars.len() > 0 && chars[0] == '+' {
        assert(chars@.skip(1) =~= chars@.drop_first());
        parse_digits(chars, 1, max)
    } else {
        assert(chars@.skip(0) =~= chars@);
        parse_digits(chars, 0, max)
    }
}

pub fn parse_usize(s: &str) -> (r: Option<usize>)
    ensures
        r is Some == unsigned_within(s@, usize::MAX as nat) is Some,
        r matches Some(value) ==> value == unsigned_within(s@, usize::MAX as nat)->0,
{
    let chars = text::chars_of(s);
    match parse_unsigned(&chars, usize::MAX as u64) {
        Some(value) => Some(value as usize),
        None => None,
    }
}

/// Reads a number of 32 bits out of the text of a file.
pub fn parse_u32(s: &str) -> (r: Option<u32>)
    ensures
        r is Some == unsigned_within(trimmed(s@), u32::MAX as nat) is Some,
        r matches Some(value) ==> value == unsigned_within(trimmed(s@), u32::MAX as nat)->0,
{
    let chars = trim_chars(&text::chars_of(s));
    match parse_unsigned(&chars, u32::MAX as u64) {
        Some(value) => Some(value as u32),
        None => None,
    }
}

/// Reads a number of 32 bits that may be negative.
pub fn parse_i32(chars: &Vec<char>) -> (r: Option<i32>)
    ensures
        r is Some == signed(chars@) is Some,
        r matches Some(value) ==> value == signed(chars@)->0,
{
    if chars.len() > 0 && chars[0] == '-' {
        assert(chars@.skip(1) =~= chars@.drop_first());
        match parse_digits(chars, 1, 0x8000_0000) {
            Some(value) => Some((-(value as i64)) as i32),
            None => None,
        }
    } else {
        match parse_unsigned(chars, 0x7fff_ffff) {
            Some(value) => Some(value as i32),
            None => None,
        }
    }
}

/// The kernel's `perf_event_paranoid` setting, out of the text of its file.
pub fn parse_setting(s: &str) -> (r: Option<i32>)
    ensures
        r is Some == signed(trimmed(s@)) is Some,
        r matches Some(value) ==> value == signed(trimmed(s@))->0,
{
    parse_i32(&trim_chars(&text::chars_of(s)))
}

/// The whole numbers from `first` to `last`.
pub open spec fn span(first: nat, last: nat) -> Seq<usize> {
    Seq::new((last - first + 1) as nat, |i: int| (first + i) as usize)
}

/// The first place of a character from `from` on, or the length.
pub open spec fn place_of(s: Seq<char>, c: char, from: int) -> int
    decreases s.len() - from,
{
    if from < 0 || from >= s.len() {
        s.len() as int
    } else if s[from] == c {
        from
    } else {
        place_of(s, c, from + 1)
    }
}

/// What one entry of a list of processors stands for: a number, or two with a
/// dash between them for all from one to the other.
pub open spec fn entry_cpus(entry: Seq<char>) -> Option<Seq<usize>> {
    let s = trimmed(entry);
    let dash = place_of(s, '-', 0);
    if dash == s.len() {
        match unsigned_within(s, usize::MAX as nat) {
            Some(value) => Some(seq![value as usize]),
            None => None,
        }
    } else {
        match (
            unsigned_within(s.take(dash), usize::MAX as nat),
            unsigned_within(s.skip(dash + 1), usize::MAX as nat),
        ) {
            (Some(first), Some(last)) => if first <= last {
                Some(span(first, last))
            } else {
                None
            },
            _ => None,
        }
    }
}

/// What the entries of a list from `from` on stand for; the entries are
/// separated by commas.
pub open spec fn cpus_from(s: Seq<char>, from: int) -> Option<Seq<usize>>
    decreases s.len() - from,
{
    if from < 0 || from > s.len() {
        None
    } else {
        let comma = place_of(s, ',', from);
        if comma < from || comma > s.len() {
            None
        } else {
            let here = entry_cpus(s.subrange(from, comma));
            if comma == s.len() {
                here
            } else {
                match (here, cpus_from(s, comma + 1)) {
                    (Some(front), Some(rest)) => Some(front + rest),
                    _ => None,
                }
            }
        }
    }
}

/// The processors of a list such as `0-3,8`.
pub open spec fn cpu_list(s: Seq<char>) -> Option<Seq<usize>> {
    cpus_from(s, 0)
}

proof fn place_facts(s: Seq<char>, c: char, from: int)
    requires
        0 <= from <= s.len(),
    ensures
        from <= place_of(s, c, from) <= s.len(),
        place_of(s, c, from) < s.len() ==> s[place_of(s, c, from)] == c,
    decreases s.len() - from,
{
    if from < s.len() && s[from] != c {
        place_facts(s, c, from + 1);
    }
}

fn find_char(chars: &Vec<char>, c: char, from: usize) -> (r: usize)
    requires
        from <= chars@.len(),
    ensures
        r == place_of(chars@, c, from as int),
        from <= r <= chars@.len(),
{
    let mut i: usize = from;
    while i < chars.len()
        invariant
            from <= i <= chars@.len(),
            place_of(chars@, c, i as int) == place_of(chars@, c, from as int),
        decreases chars@.len() - i,
    {
        if chars[i] == c {
            return i;
        }
        i += 1;
    }
    i
}

fn push_span(list: &mut Vec<usize>, first: usize, last: usize)
    requires
        first <= last,
    ensures
        final(list)@ == old(list)@ + span(first as nat, last as nat),
{
    let ghost before = list@;
    let ghost all = span(first as nat, last as nat);
    let mut cpu: usize = first;
    while cpu < last
        invariant
            first <= cpu <= last,
            all == span(first as nat, last as nat),
            list@ == before + all.take(cpu - first),
        decreases last - cpu,
    {
        list.push(cpu);
        cpu += 1;
        assert(list@ =~= before + all.take(cpu - first));
    }
    list.push(cpu);
    assert(list@ =~= before + all);
}

fn push_entry(list: &mut Vec<usize>, entry: &Vec<char>) -> (r: bool)
    ensures
        r == (entry_cpus(entry@) is Some),
        r ==> final(list)@ == old(list)@ + entry_cpus(entry@)->0,
{
    let s = trim_chars(entry);
    let dash: usize = find_char(&s, '-', 0);
    if dash == s.len() {
        match parse_unsigned(&s, usize::MAX as u64) {
            Some(value) => {
                list.push(value as usize);
                assert(list@ =~= old(list)@ + seq![value as usize]);
                true
            },
            None => false,
        }
    } else {
        proof {
            place_facts(s@, '-', 0);
        }
        let left = part_of(&s, 0, dash);
        let right = part_of(&s, dash + 1, s.len());
        assert(left@ =~= s@.take(dash as int));
        assert(right@ =~= s@.skip(dash + 1));
        match (parse_unsigned(&left, usize::MAX as u64), parse_unsigned(&right, usize::MAX as u64)) {
            (Some(first), Some(last)) => {
                if first <= last {
                    push_span(list, first as usize, last as usize);
                    true
                } else {
                    false
                }
            },
            _ => false,
        }
    }
}

/// Reads a list of processors; it is an error where an entry is neither a
/// number nor a range.
pub fn parse_cpu_list(s: &str) -> (r: Result<Vec<usize>, String>)
    ensures
        r is Ok == cpu_list(s@) is Some,
        r matches Ok(list) ==> list@ == cpu_list(s@)->0,
        r matches Err(message) ==> message@ == "invalid CPU list "@ + text::debug_form(s@),
{
    let chars = text::chars_of(s);
    let mut list: Vec<usize> = Vec::new();
    let mut from: usize = 0;
    let mut bad = false;
    let mut done = false;
    while !bad && !done
        invariant
            chars@ == s@,
            from <= chars@.len(),
            bad ==> cpu_list(s@) is None,
            !bad && done ==> cpu_list(s@) == Some(list@),
            !bad && !done ==> match cpus_from(s@, from as int) {
                Some(rest) => cpu_list(s@) == Some(list@ + rest),
                None => cpu_list(s@) is None,
            },
        decreases
                chars@.len() - from + if bad || done {
                    0int
                } else {
                    1
                },
    {
        let comma: usize = find_char(&chars, ',', from);
        let entry = part_of(&chars, from, comma);
        let ghost before = list@;
        if push_entry(&mut list, &entry) {
            if comma == chars.len() {
                done = true;
            } else {
                proof {
                    match cpus_from(s@, comma + 1) {
                        Some(rest) => {
                            assert(before + (entry_cpus(entry@)->0 + rest) =~= list@ + rest);
                        },
                        None => {},
                    }
                }
                from = comma + 1;
            }
        } else {
            bad = true;
        }
    }
    if bad {
        let mut message = "invalid CPU list ".to_owned();
        message.append(text::debug_text(s).as_str());
        return Err(message);
    }
    Ok(list)
}

} // verus!
