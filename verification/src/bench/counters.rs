//! Named event counters of concurrent workers, and how they are merged.
use crate::text;
use vstd::prelude::*;

verus! {

/// A named count.
#[derive(Clone, Copy, Debug)]
pub struct CounterValue {
    pub name: &'static str,
    pub value: u64,
}

impl CounterValue {
    pub fn new(name: &'static str, value: u64) -> (r: CounterValue)
        ensures
            r.name == name,
            r.value == value,
    {
        CounterValue { name, value }
    }
}

/// What one worker reports: how many operations it did, and its counters.
#[derive(Debug)]
pub struct ConcurrentWorkerResult {
    pub operations: u64,
    pub counters: Vec<CounterValue>,
}

impl Default for ConcurrentWorkerResult {
    fn default() -> (r: ConcurrentWorkerResult)
        ensures
            r.operations == 0,
            r.counters@.len() == 0,
    {
        ConcurrentWorkerResult { operations: 0, counters: Vec::new() }
    }
}

impl From<u64> for ConcurrentWorkerResult {
    fn from(operations: u64) -> (r: ConcurrentWorkerResult)
        ensures
            r.operations == operations,
            r.counters@.len() == 0,
    {
        ConcurrentWorkerResult::operations(operations)
    }
}

/// What comes of a count is stated at `from` itself, over the views.
impl vstd::std_specs::convert::FromSpecImpl<u64> for ConcurrentWorkerResult {
    open spec fn obeys_from_spec() -> bool {
        false
    }

    open spec fn from_spec(operations: u64) -> ConcurrentWorkerResult {
        arbitrary()
    }
}

impl ConcurrentWorkerResult {
    pub fn operations(operations: u64) -> (r: ConcurrentWorkerResult)
        ensures
            r.operations == operations,
            r.counters@.len() == 0,
    {
        ConcurrentWorkerResult { operations, counters: Vec::new() }
    }

    pub fn with_counter(self, name: &'static str, value: u64) -> (r: ConcurrentWorkerResult)
        ensures
            r.operations == self.operations,
            r.counters@ == self.counters@.push(CounterValue { name, value }),
    {
        let mut counters = self.counters;
        counters.push(CounterValue::new(name, value));
        ConcurrentWorkerResult { operations: self.operations, counters }
    }
}

/// `a + b`, or the largest `u64` when that is larger.
pub open spec fn saturated(total: nat) -> u64 {
    if total <= u64::MAX {
        total as u64
    } else {
        u64::MAX
    }
}

/// The first place at or after `from` where the name stands, or the length.
pub open spec fn place_of(s: Seq<CounterValue>, name: Seq<char>, from: int) -> int
    decreases s.len() - from,
{
    if from < 0 || from >= s.len() {
        s.len() as int
    } else if s[from].name@ == name {
        from
    } else {
        place_of(s, name, from + 1)
    }
}

/// One counter merged in: added to the first of the same name, or put at the end.
pub open spec fn merged_one(s: Seq<CounterValue>, v: CounterValue) -> Seq<CounterValue> {
    let at = place_of(s, v.name@, 0);
    if at < s.len() {
        s.update(at, CounterValue { name: s[at].name, value: saturated((s[at].value + v.value) as nat) })
    } else {
        s.push(v)
    }
}

/// Counters merged in, one after the other.
pub open spec fn merged_all(s: Seq<CounterValue>, new_values: Seq<CounterValue>) -> Seq<CounterValue>
    decreases new_values.len(),
{
    if new_values.len() == 0 {
        s
    } else {
        merged_one(merged_all(s, new_values.drop_last()), new_values.last())
    }
}

/// A counter put behind every counter whose name does not come after its own.
pub open spec fn inserted(s: Seq<CounterValue>, v: CounterValue) -> Seq<CounterValue>
    decreases s.len(),
{
    if s.len() == 0 || !text::less(v.name@, s.last().name@) {
        s.push(v)
    } else {
        inserted(s.drop_last(), v).push(s.last())
    }
}

/// The counters in the order of their names; equal names keep their order.
pub open spec fn by_name(s: Seq<CounterValue>) -> Seq<CounterValue>
    decreases s.len(),
{
    if s.len() == 0 {
        s
    } else {
        inserted(by_name(s.drop_last()), s.last())
    }
}

/// No name comes after the name that follows it.
pub open spec fn in_name_order(s: Seq<CounterValue>) -> bool {
    forall|i: int, j: int|
        0 <= i < j < s.len() ==> text::at_most(#[trigger] s[i].name@, #[trigger] s[j].name@)
}

/// The sum of the values under a name.
pub open spec fn tally(s: Seq<CounterValue>, name: Seq<char>) -> nat
    decreases s.len(),
{
    if s.len() == 0 {
        0
    } else {
        tally(s.drop_last(), name) + if s.last().name@ == name {
            s.last().value as nat
        } else {
            0
        }
    }
}

/// How many counters have the name.
pub open spec fn occurrences(s: Seq<CounterValue>, name: Seq<char>) -> nat
    decreases s.len(),
{
    if s.len() == 0 {
        0
    } else {
        occurrences(s.drop_last(), name) + if s.last().name@ == name {
            1nat
        } else {
            0
        }
    }
}

/// Every name occurs at most once.
pub open spec fn names_unique(s: Seq<CounterValue>) -> bool {
    forall|name: Seq<char>| #[trigger] occurrences(s, name) <= 1
}

proof fn place_of_is_first(s: Seq<CounterValue>, name: Seq<char>, from: int)
    requires
        0 <= from <= s.len(),
    ensures
        from <= place_of(s, name, from) <= s.len(),
        place_of(s, name, from) < s.len() ==> s[place_of(s, name, from)].name@ == name,
        forall|i: int| from <= i < place_of(s, name, from) ==> #[trigger] s[i].name@ != name,
    decreases s.len() - from,
{
    if from < s.len() && s[from].name@ != name {
        place_of_is_first(s, name, from + 1);
    }
}

proof fn absent_means_zero(s: Seq<CounterValue>, name: Seq<char>)
    requires
        forall|i: int| 0 <= i < s.len() ==> #[trigger] s[i].name@ != name,
    ensures
        tally(s, name) == 0,
        occurrences(s, name) == 0,
    decreases s.len(),
{
    if s.len() > 0 {
        assert(s.last() == s[s.len() - 1]);
        assert forall|i: int| 0 <= i < s.drop_last().len() implies #[trigger] s.drop_last()[i].name@
            != name by {
            assert(s.drop_last()[i] == s[i]);
        }
        absent_means_zero(s.drop_last(), name);
    }
}

proof fn present_means_counted(s: Seq<CounterValue>, at: int)
    requires
        0 <= at < s.len(),
    ensures
        occurrences(s, s[at].name@) >= 1,
        tally(s, s[at].name@) >= s[at].value,
        occurrences(s, s[at].name@) == 1 ==> tally(s, s[at].name@) == s[at].value,
    decreases s.len(),
{
    let name = s[at].name@;
    if at < s.len() - 1 {
        assert(s.drop_last()[at] == s[at]);
        present_means_counted(s.drop_last(), at);
    } else {
        zero_occurrences_zero_tally(s.drop_last(), name);
    }
}

proof fn zero_occurrences_zero_tally(s: Seq<CounterValue>, name: Seq<char>)
    ensures
        occurrences(s, name) == 0 ==> tally(s, name) == 0,
    decreases s.len(),
{
    if s.len() > 0 {
        zero_occurrences_zero_tally(s.drop_last(), name);
    }
}

proof fn update_moves_tally(s: Seq<CounterValue>, at: int, value: u64, name: Seq<char>)
    requires
        0 <= at < s.len(),
    ensures
        occurrences(s.update(at, CounterValue { name: s[at].name, value }), name) == occurrences(
            s,
            name,
        ),
        tally(s.update(at, CounterValue { name: s[at].name, value }), name) + (if s[at].name@
            == name {
            s[at].value as nat
        } else {
            0
        }) == tally(s, name) + (if s[at].name@ == name {
            value as nat
        } else {
            0
        }),
    decreases s.len(),
{
    let t = s.update(at, CounterValue { name: s[at].name, value });
    if at < s.len() - 1 {
        assert(t.drop_last() =~= s.drop_last().update(
            at,
            CounterValue { name: s.drop_last()[at].name, value },
        ));
        assert(t.last() == s.last());
        update_moves_tally(s.drop_last(), at, value, name);
    } else {
        assert(t.drop_last() =~= s.drop_last());
        assert(t.last().name == s[at].name);
    }
}

proof fn merged_one_counts(s: Seq<CounterValue>, v: CounterValue)
    requires
        names_unique(s),
    ensures
        names_unique(merged_one(s, v)),
        forall|name: Seq<char>| #[trigger]
            tally(merged_one(s, v), name) == if name == v.name@ {
                saturated(tally(s, name) + v.value as nat) as nat
            } else {
                tally(s, name)
            },
{
    let at = place_of(s, v.name@, 0);
    place_of_is_first(s, v.name@, 0);
    let t = merged_one(s, v);
    assert forall|name: Seq<char>| true implies #[trigger] occurrences(t, name) <= 1 && tally(t, name)
        == (if name == v.name@ {
        saturated(tally(s, name) + v.value as nat) as nat
    } else {
        tally(s, name)
    }) by {
        assert(occurrences(s, name) <= 1);
        if at < s.len() {
            update_moves_tally(s, at, saturated((s[at].value + v.value) as nat), name);
            present_means_counted(s, at);
            assert(occurrences(s, v.name@) <= 1);
        } else {
            absent_means_zero(s, v.name@);
            assert(t.drop_last() =~= s);
        }
    }
    assert forall|name: Seq<char>| #[trigger]
        tally(t, name) == (if name == v.name@ {
            saturated(tally(s, name) + v.value as nat) as nat
        } else {
            tally(s, name)
        }) by {
        assert(occurrences(t, name) <= 1);
    }
}

proof fn merged_all_counts(s: Seq<CounterValue>, new_values: Seq<CounterValue>)
    requires
        names_unique(s),
    ensures
        names_unique(merged_all(s, new_values)),
        forall|name: Seq<char>| tally(s, name) <= u64::MAX ==> #[trigger]
            tally(merged_all(s, new_values), name) == saturated(
                tally(s, name) + tally(new_values, name),
            ),
    decreases new_values.len(),
{
    if new_values.len() > 0 {
        let before = merged_all(s, new_values.drop_last());
        merged_all_counts(s, new_values.drop_last());
        merged_one_counts(before, new_values.last());
    }
}

proof fn inserted_counts(s: Seq<CounterValue>, v: CounterValue, name: Seq<char>)
    ensures
        inserted(s, v).len() == s.len() + 1,
        tally(inserted(s, v), name) == tally(s.push(v), name),
        occurrences(inserted(s, v), name) == occurrences(s.push(v), name),
    decreases s.len(),
{
    reveal_with_fuel(tally, 3);
    reveal_with_fuel(occurrences, 3);
    assert(s.push(v).drop_last() =~= s);
    if s.len() != 0 && text::less(v.name@, s.last().name@) {
        inserted_counts(s.drop_last(), v, name);
        assert(s.drop_last().push(v).drop_last() =~= s.drop_last());
        assert(inserted(s, v).drop_last() =~= inserted(s.drop_last(), v));
        assert(inserted(s, v).last() == s.last());
    }
}

proof fn by_name_counts(s: Seq<CounterValue>, name: Seq<char>)
    ensures
        by_name(s).len() == s.len(),
        tally(by_name(s), name) == tally(s, name),
        occurrences(by_name(s), name) == occurrences(s, name),
    decreases s.len(),
{
    if s.len() > 0 {
        by_name_counts(s.drop_last(), name);
        let front = by_name(s.drop_last());
        inserted_counts(front, s.last(), name);
        assert(front.push(s.last()).drop_last() =~= front);
    }
}

proof fn inserted_keeps_order(s: Seq<CounterValue>, v: CounterValue)
    requires
        in_name_order(s),
    ensures
        in_name_order(inserted(s, v)),
        forall|i: int|
            0 <= i < inserted(s, v).len() ==> s.contains(#[trigger] inserted(s, v)[i]) || inserted(
                s,
                v,
            )[i] == v,
    decreases s.len(),
{
    let t = inserted(s, v);
    if s.len() == 0 {
    } else if !text::less(v.name@, s.last().name@) {
        assert forall|i: int, j: int| 0 <= i < j < t.len() implies text::at_most(
            #[trigger] t[i].name@,
            #[trigger] t[j].name@,
        ) by {
            if j == s.len() && i < s.len() - 1 {
                assert(s[i] == t[i]);
                assert(text::at_most(s[i].name@, s[s.len() - 1].name@));
                text::at_most_is_transitive(t[i].name@, s.last().name@, v.name@);
            }
        }
        assert forall|i: int| 0 <= i < t.len() implies s.contains(#[trigger] t[i]) || t[i] == v by {
            if i < s.len() {
                assert(t[i] == s[i]);
            }
        }
    } else {
        let front = s.drop_last();
        assert forall|i: int, j: int| 0 <= i < j < front.len() implies text::at_most(
            #[trigger] front[i].name@,
            #[trigger] front[j].name@,
        ) by {
            assert(front[i] == s[i] && front[j] == s[j]);
        }
        inserted_keeps_order(front, v);
        let u = inserted(front, v);
        inserted_counts(front, v, v.name@);
        assert forall|i: int| 0 <= i < u.len() implies text::at_most(
            #[trigger] u[i].name@,
            s.last().name@,
        ) by {
            if u[i] == v {
                text::less_is_total(v.name@, s.last().name@);
            } else {
                let k = choose|k: int| 0 <= k < front.len() && front[k] == u[i];
                assert(front[k] == s[k]);
            }
        }
        assert forall|i: int, j: int| 0 <= i < j < t.len() implies text::at_most(
            #[trigger] t[i].name@,
            #[trigger] t[j].name@,
        ) by {
            assert(t[i] == u[i]);
            if j < u.len() {
                assert(t[j] == u[j]);
            } else {
                assert(t[j] == s.last());
            }
        }
        assert forall|i: int| 0 <= i < t.len() implies s.contains(#[trigger] t[i]) || t[i] == v by {
            if i < u.len() {
                assert(t[i] == u[i]);
                if u[i] != v {
                    let k = choose|k: int| 0 <= k < front.len() && front[k] == u[i];
                    assert(s[k] == t[i]);
                }
            } else {
                assert(t[i] == s[s.len() - 1]);
            }
        }
    }
}

proof fn by_name_is_ordered(s: Seq<CounterValue>)
    ensures
        in_name_order(by_name(s)),
    decreases s.len(),
{
    if s.len() > 0 {
        by_name_is_ordered(s.drop_last());
        inserted_keeps_order(by_name(s.drop_last()), s.last());
    }
}

/// Merging keeps one entry per name, in the order of the names, and loses no
/// count: each name's entry is the sum of all values given under it, up to the
/// largest `u64`.
pub proof fn merging_keeps_totals(acc: Seq<CounterValue>, new_values: Seq<CounterValue>)
    requires
        names_unique(acc),
    ensures
        names_unique(by_name(merged_all(acc, new_values))),
        in_name_order(by_name(merged_all(acc, new_values))),
        forall|name: Seq<char>| tally(acc, name) <= u64::MAX ==> #[trigger]
            tally(by_name(merged_all(acc, new_values)), name) == saturated(
                tally(acc, name) + tally(new_values, name),
            ),
{
    merged_all_counts(acc, new_values);
    let all = merged_all(acc, new_values);
    by_name_is_ordered(all);
    assert forall|name: Seq<char>| #[trigger] occurrences(by_name(all), name) <= 1 by {
        by_name_counts(all, name);
        assert(occurrences(all, name) <= 1);
    }
    assert forall|name: Seq<char>| tally(acc, name) <= u64::MAX implies #[trigger] tally(
        by_name(all),
        name,
    ) == saturated(tally(acc, name) + tally(new_values, name)) by {
        by_name_counts(all, name);
        assert(tally(all, name) == saturated(tally(acc, name) + tally(new_values, name)));
    }
}

fn merge_one(acc: &mut Vec<CounterValue>, v: &CounterValue)
    ensures
        final(acc)@ == merged_one(old(acc)@, *v),
{
    let mut i: usize = 0;
    while i < acc.len()
        invariant
            i <= acc.len(),
            acc@ == old(acc)@,
            place_of(acc@, v.name@, 0) == place_of(acc@, v.name@, i as int),
        decreases acc.len() - i,
    {
        if text::same(acc[i].name, v.name) {
            let name = acc[i].name;
            let value: u64 = acc[i].value.saturating_add(v.value);
            acc.set(i, CounterValue { name, value });
            return ;
        }
        i += 1;
    }
    acc.push(*v);
}

fn insert_by_name(sorted: &mut Vec<CounterValue>, v: CounterValue)
    ensures
        final(sorted)@ == inserted(old(sorted)@, v),
{
    let mut at: usize = sorted.len();
    let ghost whole = sorted@;
    assert(whole.take(at as int) =~= whole);
    assert(whole.skip(at as int) =~= Seq::empty());
    assert(inserted(whole.take(at as int), v) + whole.skip(at as int) =~= inserted(whole, v));
    while at > 0 && text::comes_before(v.name, sorted[at - 1].name)
        invariant
            at <= sorted.len(),
            sorted@ == whole,
            inserted(whole.take(at as int), v) + whole.skip(at as int) == inserted(whole, v),
        decreases at,
    {
        proof {
            let part = whole.take(at as int);
            assert(part.drop_last() =~= whole.take(at - 1));
            assert(inserted(part, v) =~= inserted(part.drop_last(), v).push(part.last()));
            assert(inserted(whole.take(at - 1), v) + whole.skip(at - 1) =~= inserted(part, v)
                + whole.skip(at as int));
        }
        at -= 1;
    }
    sorted.insert(at, v);
    proof {
        let part = whole.take(at as int);
        assert(part.len() > 0 ==> part.last() == whole[at - 1]);
        assert(inserted(part, v) == part.push(v));
        assert(whole.insert(at as int, v) =~= part.push(v) + whole.skip(at as int));
    }
}

/// Adds the new counters to those of the same name, appends the others, and
/// puts all in the order of their names.
pub fn merge_counter_values(acc: &mut Vec<CounterValue>, new_values: &[CounterValue])
    ensures
        final(acc)@ == by_name(merged_all(old(acc)@, new_values@)),
{
    let mut i: usize = 0;
    while i < new_values.len()
        invariant
            i <= new_values.len(),
            acc@ == merged_all(old(acc)@, new_values@.take(i as int)),
        decreases new_values.len() - i,
    {
        merge_one(acc, &new_values[i]);
        proof {
            assert(new_values@.take(i + 1).drop_last() =~= new_values@.take(i as int));
        }
        i += 1;
    }
    assert(new_values@.take(new_values@.len() as int) =~= new_values@);
    let ghost all = acc@;
    let mut sorted: Vec<CounterValue> = Vec::new();
    let mut j: usize = 0;
    while j < acc.len()
        invariant
            j <= acc.len(),
            acc@ == all,
            sorted@ == by_name(all.take(j as int)),
        decreases acc.len() - j,
    {
        insert_by_name(&mut sorted, acc[j]);
        proof {
            assert(all.take(j + 1).drop_last() =~= all.take(j as int));
        }
        j += 1;
    }
    assert(all.take(all.len() as int) =~= all);
    *acc = sorted;
}

} // verus!
