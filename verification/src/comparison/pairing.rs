//! Pairing the items of two lists by what identifies them, one to one.
use vstd::prelude::*;

verus! {

/// What can be paired: items with a key.
pub trait Matchable: Sized {
    type Key;

    spec fn match_key(&self) -> Self::Key;

    /// Whether two items have the same key.
    fn matches_with(&self, other: &Self) -> (r: bool)
        ensures
            r == (self.match_key() == other.match_key()),
    ;
}

/// The keys of a list.
pub open spec fn keys_of<T: Matchable>(list: Seq<T>) -> Seq<T::Key> {
    Seq::new(list.len(), |i: int| list[i].match_key())
}

/// Whether some pair holds the current item `i`.
pub open spec fn paired_current(pairs: Seq<(int, int)>, i: int) -> bool {
    exists|k: int| 0 <= k < pairs.len() && (#[trigger] pairs[k]).0 == i
}

/// Whether some pair holds the baseline item `j`.
pub open spec fn paired_baseline(pairs: Seq<(int, int)>, j: int) -> bool {
    exists|k: int| 0 <= k < pairs.len() && (#[trigger] pairs[k]).1 == j
}

/// The first baseline item from `from` on that has the key and is not paired yet.
pub open spec fn partner<K>(key: K, baseline: Seq<K>, pairs: Seq<(int, int)>, from: int) -> Option<int>
    decreases baseline.len() - from,
{
    if from < 0 || from >= baseline.len() {
        None
    } else if baseline[from] == key && !paired_baseline(pairs, from) {
        Some(from)
    } else {
        partner(key, baseline, pairs, from + 1)
    }
}

/// The pairs of the first `count` current items: each is paired with the first
/// baseline item with its key that is left.
pub open spec fn pairing<K>(current: Seq<K>, baseline: Seq<K>, count: int) -> Seq<(int, int)>
    decreases count,
{
    if count <= 0 {
        Seq::empty()
    } else {
        let before = pairing(current, baseline, count - 1);
        match partner(current[count - 1], baseline, before, 0) {
            Some(j) => before.push((count - 1, j)),
            None => before,
        }
    }
}

/// The pairs of two lists.
pub open spec fn pairs_between<K>(current: Seq<K>, baseline: Seq<K>) -> Seq<(int, int)> {
    pairing(current, baseline, current.len() as int)
}

/// A list of pairs of machine integers as one of integers.
pub open spec fn as_pairs(pairs: Seq<(usize, usize)>) -> Seq<(int, int)> {
    pairs.map_values(|p: (usize, usize)| (p.0 as int, p.1 as int))
}

proof fn partner_facts<K>(key: K, baseline: Seq<K>, pairs: Seq<(int, int)>, from: int)
    requires
        from >= 0,
    ensures
        partner(key, baseline, pairs, from) matches Some(j) ==> {
            &&& from <= j < baseline.len()
            &&& baseline[j] == key
            &&& !paired_baseline(pairs, j)
        },
        partner(key, baseline, pairs, from) is None ==> forall|j: int|
            from <= j < baseline.len() && #[trigger] baseline[j] == key ==> paired_baseline(
                pairs,
                j,
            ),
    decreases baseline.len() - from,
{
    if from < baseline.len() {
        partner_facts(key, baseline, pairs, from + 1);
    }
}

proof fn pairing_facts<K>(current: Seq<K>, baseline: Seq<K>, count: int)
    requires
        0 <= count <= current.len(),
    ensures
        pairing(current, baseline, count).len() <= count,
        forall|k: int|
            0 <= k < pairing(current, baseline, count).len() ==> {
                let pair = #[trigger] pairing(current, baseline, count)[k];
                &&& 0 <= pair.0 < count
                &&& 0 <= pair.1 < baseline.len()
                &&& current[pair.0] == baseline[pair.1]
            },
        forall|k: int, l: int|
            0 <= k < l < pairing(current, baseline, count).len() ==> {
                &&& (#[trigger] pairing(current, baseline, count)[k]).0 < (#[trigger] pairing(
                    current,
                    baseline,
                    count,
                )[l]).0
                &&& pairing(current, baseline, count)[k].1 != pairing(current, baseline, count)[l].1
            },
        forall|i: int, j: int|
            0 <= i < count && 0 <= j < baseline.len() && #[trigger] current[i]
                == #[trigger] baseline[j] ==> paired_current(
                pairing(current, baseline, count),
                i,
            ) || paired_baseline(pairing(current, baseline, count), j),
    decreases count,
{
    if count > 0 {
        let before = pairing(current, baseline, count - 1);
        let after = pairing(current, baseline, count);
        pairing_facts(current, baseline, count - 1);
        partner_facts(current[count - 1], baseline, before, 0);
        match partner(current[count - 1], baseline, before, 0) {
            Some(j) => {
                assert(after == before.push((count - 1, j)));
                assert forall|i: int, m: int|
                    0 <= i < count && 0 <= m < baseline.len() && #[trigger] current[i]
                        == #[trigger] baseline[m] implies paired_current(after, i)
                    || paired_baseline(after, m) by {
                    if i == count - 1 {
                        assert(after[after.len() - 1].0 == i);
                    } else {
                        keeps_pairs(before, (count - 1, j), i, m);
                    }
                }
                assert forall|k: int, l: int| 0 <= k < l < after.len() implies (#[trigger] after[k]).1
                    != (#[trigger] after[l]).1 by {
                    if l == after.len() - 1 {
                        assert(before[k].1 == after[k].1);
                        assert(!paired_baseline(before, j));
                    } else {
                        assert(before[k] == after[k] && before[l] == after[l]);
                    }
                }
            },
            None => {},
        }
    }
}

proof fn keeps_pairs(pairs: Seq<(int, int)>, last: (int, int), i: int, j: int)
    ensures
        paired_current(pairs, i) ==> paired_current(pairs.push(last), i),
        paired_baseline(pairs, j) ==> paired_baseline(pairs.push(last), j),
{
    if paired_current(pairs, i) {
        let k = choose|k: int| 0 <= k < pairs.len() && (#[trigger] pairs[k]).0 == i;
        assert(pairs.push(last)[k].0 == i);
    }
    if paired_baseline(pairs, j) {
        let k = choose|k: int| 0 <= k < pairs.len() && (#[trigger] pairs[k]).1 == j;
        assert(pairs.push(last)[k].1 == j);
    }
}

/// A pairing joins items with the same key, in the order of the current list,
/// and no item is in two pairs.
pub proof fn pairs_are_one_to_one<K>(current: Seq<K>, baseline: Seq<K>, k: int, l: int)
    requires
        0 <= k < l < pairs_between(current, baseline).len(),
    ensures
        ({
            let a = pairs_between(current, baseline)[k];
            let b = pairs_between(current, baseline)[l];
            &&& 0 <= a.0 < b.0 < current.len()
            &&& 0 <= a.1 < baseline.len()
            &&& 0 <= b.1 < baseline.len()
            &&& a.1 != b.1
            &&& current[a.0] == baseline[a.1]
            &&& current[b.0] == baseline[b.1]
        }),
{
    pairing_facts(current, baseline, current.len() as int);
}

/// Every pair joins items with the same key.
pub proof fn pairs_share_keys<K>(current: Seq<K>, baseline: Seq<K>, k: int)
    requires
        0 <= k < pairs_between(current, baseline).len(),
    ensures
        0 <= pairs_between(current, baseline)[k].0 < current.len(),
        0 <= pairs_between(current, baseline)[k].1 < baseline.len(),
        current[pairs_between(current, baseline)[k].0] == baseline[pairs_between(
            current,
            baseline,
        )[k].1],
{
    pairing_facts(current, baseline, current.len() as int);
}

/// No two items with the same key are both left over.
pub proof fn pairing_is_maximal<K>(current: Seq<K>, baseline: Seq<K>, i: int, j: int)
    requires
        0 <= i < current.len(),
        0 <= j < baseline.len(),
        current[i] == baseline[j],
    ensures
        paired_current(pairs_between(current, baseline), i) || paired_baseline(
            pairs_between(current, baseline),
            j,
        ),
{
    pairing_facts(current, baseline, current.len() as int);
}

/// Every key of the list occurs once.
pub open spec fn distinct<K>(keys: Seq<K>) -> bool {
    forall|i: int, j: int| 0 <= i < j < keys.len() ==> #[trigger] keys[i] != #[trigger] keys[j]
}

/// Where no key occurs twice, an item is paired exactly when the other list
/// has its key.
pub proof fn distinct_keys_decide<K>(current: Seq<K>, baseline: Seq<K>, i: int)
    requires
        distinct(current),
        distinct(baseline),
        0 <= i < current.len(),
    ensures
        paired_current(pairs_between(current, baseline), i) <==> baseline.contains(current[i]),
{
    let pairs = pairs_between(current, baseline);
    pairing_facts(current, baseline, current.len() as int);
    if paired_current(pairs, i) {
        let k = choose|k: int| 0 <= k < pairs.len() && (#[trigger] pairs[k]).0 == i;
        assert(baseline[pairs[k].1] == current[i]);
    }
    if baseline.contains(current[i]) {
        let j = choose|j: int| 0 <= j < baseline.len() && baseline[j] == current[i];
        pairing_is_maximal(current, baseline, i, j);
        if paired_baseline(pairs, j) {
            let k = choose|k: int| 0 <= k < pairs.len() && (#[trigger] pairs[k]).1 == j;
            assert(current[pairs[k].0] == baseline[j]);
            assert(pairs[k].0 == i);
        }
    }
}

proof fn paired_with_itself<K>(keys: Seq<K>, count: int)
    requires
        distinct(keys),
        0 <= count <= keys.len(),
    ensures
        pairing(keys, keys, count) == Seq::new(count as nat, |i: int| (i, i)),
    decreases count,
{
    if count > 0 {
        paired_with_itself(keys, count - 1);
        let before = pairing(keys, keys, count - 1);
        partner_facts(keys[count - 1], keys, before, 0);
        assert(!paired_baseline(before, count - 1)) by {
            if paired_baseline(before, count - 1) {
                let k = choose|k: int|
                    0 <= k < before.len() && (#[trigger] before[k]).1 == count - 1;
                assert(before[k].1 == k);
            }
        }
        assert(pairing(keys, keys, count) =~= Seq::new(count as nat, |i: int| (i, i)));
    } else {
        assert(pairing(keys, keys, count) =~= Seq::new(count as nat, |i: int| (i, i)));
    }
}

/// A list without repeated keys is paired with itself item by item.
pub proof fn pairing_is_reflexive<K>(keys: Seq<K>)
    requires
        distinct(keys),
    ensures
        pairs_between(keys, keys) == Seq::new(keys.len(), |i: int| (i, i)),
{
    paired_with_itself(keys, keys.len() as int);
}

fn find_partner<T: Matchable>(item: &T, baseline: &Vec<T>, marks: &Vec<bool>, Ghost(pairs): Ghost<
    Seq<(int, int)>,
>) -> (r: Option<usize>)
    requires
        marks@.len() == baseline@.len(),
        forall|j: int|
            0 <= j < marks@.len() ==> #[trigger] marks@[j] == paired_baseline(pairs, j),
    ensures
        r is Some == partner(item.match_key(), keys_of(baseline@), pairs, 0) is Some,
        r matches Some(j) ==> partner(item.match_key(), keys_of(baseline@), pairs, 0) == Some(
            j as int,
        ),
{
    let ghost keys = keys_of(baseline@);
    let mut j: usize = 0;
    while j < baseline.len()
        invariant
            j <= baseline.len(),
            marks@.len() == baseline@.len(),
            keys == keys_of(baseline@),
            forall|m: int|
                0 <= m < marks@.len() ==> #[trigger] marks@[m] == paired_baseline(pairs, m),
            partner(item.match_key(), keys, pairs, 0) == partner(
                item.match_key(),
                keys,
                pairs,
                j as int,
            ),
        decreases baseline.len() - j,
    {
        assert(keys[j as int] == baseline@[j as int].match_key());
        if !marks[j] && item.matches_with(&baseline[j]) {
            return Some(j);
        }
        j += 1;
    }
    None
}

/// Pairs the items of two lists.
pub fn pair_items<T: Matchable>(current: &Vec<T>, baseline: &Vec<T>) -> (r: Vec<(usize, usize)>)
    ensures
        as_pairs(r@) == pairs_between(keys_of(current@), keys_of(baseline@)),
{
    let ghost ck = keys_of(current@);
    let ghost bk = keys_of(baseline@);
    let mut marks: Vec<bool> = Vec::new();
    let mut j: usize = 0;
    while j < baseline.len()
        invariant
            j <= baseline.len(),
            marks@.len() == j,
            forall|m: int| 0 <= m < j ==> !(#[trigger] marks@[m]),
        decreases baseline.len() - j,
    {
        marks.push(false);
        j += 1;
    }
    let mut pairs: Vec<(usize, usize)> = Vec::new();
    let mut i: usize = 0;
    assert(as_pairs(pairs@) =~= pairing(ck, bk, 0));
    while i < current.len()
        invariant
            i <= current.len(),
            ck == keys_of(current@),
            bk == keys_of(baseline@),
            marks@.len() == baseline@.len(),
            as_pairs(pairs@) == pairing(ck, bk, i as int),
            forall|m: int|
                0 <= m < marks@.len() ==> #[trigger] marks@[m] == paired_baseline(
                    as_pairs(pairs@),
                    m,
                ),
        decreases current.len() - i,
    {
        let ghost before = as_pairs(pairs@);
        proof {
            assert(ck[i as int] == current@[i as int].match_key());
        }
        match find_partner(&current[i], baseline, &marks, Ghost(before)) {
            Some(j) => {
                proof {
                    partner_facts(ck[i as int], bk, before, 0);
                }
                let ghost old_marks = marks@;
                marks.set(j, true);
                pairs.push((i, j));
                assert(as_pairs(pairs@) =~= before.push((i as int, j as int)));
                assert forall|m: int| 0 <= m < marks@.len() implies #[trigger] marks@[m]
                    == paired_baseline(as_pairs(pairs@), m) by {
                    let after = as_pairs(pairs@);
                    keeps_pairs(before, (i as int, j as int), 0, m);
                    if m == j {
                        assert(after[after.len() - 1].1 == m);
                    } else if paired_baseline(after, m) {
                        let k = choose|k: int|
                            0 <= k < after.len() && (#[trigger] after[k]).1 == m;
                        assert(before[k].1 == m);
                    }
                    assert(m != j ==> marks@[m] == old_marks[m]);
                }
            },
            None => {},
        }
        i += 1;
    }
    pairs
}

/// The items below `count` that no pair holds, in order.
pub open spec fn left_over(marked: spec_fn(int) -> bool, count: int) -> Seq<int>
    decreases count,
{
    if count <= 0 {
        Seq::empty()
    } else if marked(count - 1) {
        left_over(marked, count - 1)
    } else {
        left_over(marked, count - 1).push(count - 1)
    }
}

/// The current items that were not paired, in order.
pub open spec fn unpaired_current(pairs: Seq<(int, int)>, count: int) -> Seq<int> {
    left_over(|i: int| paired_current(pairs, i), count)
}

/// The baseline items that were not paired, in order.
pub open spec fn unpaired_baseline(pairs: Seq<(int, int)>, count: int) -> Seq<int> {
    left_over(|j: int| paired_baseline(pairs, j), count)
}

fn list_unmarked(marks: &Vec<bool>, Ghost(marked): Ghost<spec_fn(int) -> bool>) -> (r: Vec<usize>)
    requires
        forall|i: int| 0 <= i < marks@.len() ==> #[trigger] marks@[i] == marked(i),
    ensures
        r@.map_values(|i: usize| i as int) == left_over(marked, marks@.len() as int),
{
    let mut r: Vec<usize> = Vec::new();
    let mut i: usize = 0;
    assert(r@.map_values(|i: usize| i as int) =~= left_over(marked, 0));
    while i < marks.len()
        invariant
            i <= marks.len(),
            forall|i: int| 0 <= i < marks@.len() ==> #[trigger] marks@[i] == marked(i),
            r@.map_values(|i: usize| i as int) == left_over(marked, i as int),
        decreases marks.len() - i,
    {
        let ghost before = r@;
        assert(marks@[i as int] == marked(i as int));
        if !marks[i] {
            r.push(i);
            assert(r@.map_values(|i: usize| i as int) =~= before.map_values(
                |i: usize| i as int,
            ).push(i as int));
        }
        i += 1;
    }
    r
}

/// Where the items are that no pair holds.
fn mark_pairs(pairs: &Vec<(usize, usize)>, count: usize, baseline: bool) -> (r: Vec<bool>)
    requires
        forall|k: int|
            0 <= k < pairs@.len() ==> (if baseline {
                (#[trigger] pairs@[k]).1
            } else {
                pairs@[k].0
            }) < count,
    ensures
        r@.len() == count,
        forall|i: int|
            0 <= i < count ==> #[trigger] r@[i] == if baseline {
                paired_baseline(as_pairs(pairs@), i)
            } else {
                paired_current(as_pairs(pairs@), i)
            },
{
    let mut marks: Vec<bool> = Vec::new();
    let mut i: usize = 0;
    while i < count
        invariant
            i <= count,
            marks@.len() == i,
            forall|m: int| 0 <= m < i ==> !(#[trigger] marks@[m]),
        decreases count - i,
    {
        marks.push(false);
        i += 1;
    }
    let mut k: usize = 0;
    while k < pairs.len()
        invariant
            k <= pairs.len(),
            marks@.len() == count,
            forall|l: int|
                0 <= l < pairs@.len() ==> (if baseline {
                    (#[trigger] pairs@[l]).1
                } else {
                    pairs@[l].0
                }) < count,
            forall|m: int|
                0 <= m < count ==> #[trigger] marks@[m] == exists|l: int|
                    0 <= l < k && (if baseline {
                        (#[trigger] pairs@[l]).1
                    } else {
                        pairs@[l].0
                    }) == m,
        decreases pairs.len() - k,
    {
        let at: usize = if baseline {
            pairs[k].1
        } else {
            pairs[k].0
        };
        let ghost before = marks@;
        marks.set(at, true);
        k += 1;
        assert forall|m: int| 0 <= m < count implies #[trigger] marks@[m] == exists|l: int|
            0 <= l < k && (if baseline {
                (#[trigger] pairs@[l]).1
            } else {
                pairs@[l].0
            }) == m by {
            if m == at {
                assert(pairs@[k - 1] == pairs@[k - 1]);
            } else {
                assert(marks@[m] == before[m]);
            }
        }
    }
    assert forall|i: int| 0 <= i < count implies #[trigger] marks@[i] == if baseline {
        paired_baseline(as_pairs(pairs@), i)
    } else {
        paired_current(as_pairs(pairs@), i)
    } by {
        let view = as_pairs(pairs@);
        if marks@[i] {
            let l = choose|l: int|
                0 <= l < k && (if baseline {
                    (#[trigger] pairs@[l]).1
                } else {
                    pairs@[l].0
                }) == i;
            assert(view[l] == (pairs@[l].0 as int, pairs@[l].1 as int));
        } else {
            assert forall|l: int| 0 <= l < view.len() implies (if baseline {
                (#[trigger] view[l]).1
            } else {
                view[l].0
            }) != i by {
                assert(view[l] == (pairs@[l].0 as int, pairs@[l].1 as int));
                assert(pairs@[l] == pairs@[l]);
            }
        }
    }
    marks
}

/// The current items that no pair holds.
pub fn list_unpaired_current(pairs: &Vec<(usize, usize)>, count: usize) -> (r: Vec<usize>)
    requires
        forall|k: int| 0 <= k < pairs@.len() ==> (#[trigger] pairs@[k]).0 < count,
    ensures
        r@.map_values(|i: usize| i as int) == unpaired_current(as_pairs(pairs@), count as int),
{
    let marks = mark_pairs(pairs, count, false);
    list_unmarked(&marks, Ghost(|i: int| paired_current(as_pairs(pairs@), i)))
}

/// The baseline items that no pair holds.
pub fn list_unpaired_baseline(pairs: &Vec<(usize, usize)>, count: usize) -> (r: Vec<usize>)
    requires
        forall|k: int| 0 <= k < pairs@.len() ==> (#[trigger] pairs@[k]).1 < count,
    ensures
        r@.map_values(|i: usize| i as int) == unpaired_baseline(as_pairs(pairs@), count as int),
{
    let marks = mark_pairs(pairs, count, true);
    list_unmarked(&marks, Ghost(|i: int| paired_baseline(as_pairs(pairs@), i)))
}

proof fn left_over_facts(marked: spec_fn(int) -> bool, count: int)
    requires
        count >= 0,
    ensures
        forall|k: int|
            0 <= k < left_over(marked, count).len() ==> {
                &&& 0 <= #[trigger] left_over(marked, count)[k] < count
                &&& !marked(left_over(marked, count)[k])
            },
        left_over(marked, count).len() <= count,
    decreases count,
{
    if count > 0 {
        left_over_facts(marked, count - 1);
    }
}

/// What is left over is in range and is not paired.
pub proof fn left_over_is_unpaired(pairs: Seq<(int, int)>, count: int, k: int)
    requires
        count >= 0,
    ensures
        0 <= k < unpaired_current(pairs, count).len() ==> 0 <= unpaired_current(pairs, count)[k]
            < count && !paired_current(pairs, unpaired_current(pairs, count)[k]),
        0 <= k < unpaired_baseline(pairs, count).len() ==> 0 <= unpaired_baseline(pairs, count)[k]
            < count && !paired_baseline(pairs, unpaired_baseline(pairs, count)[k]),
{
    left_over_facts(|i: int| paired_current(pairs, i), count);
    left_over_facts(|i: int| paired_baseline(pairs, i), count);
}

proof fn unmarked_is_left_over(marked: spec_fn(int) -> bool, count: int, i: int)
    requires
        0 <= i < count,
        !marked(i),
    ensures
        left_over(marked, count).len() > 0,
    decreases count,
{
    if i < count - 1 {
        unmarked_is_left_over(marked, count - 1, i);
    }
}

/// Where nothing is left over, two lists have the same keys.
pub proof fn complete_pairing_shares_keys<K>(current: Seq<K>, baseline: Seq<K>)
    requires
        unpaired_current(pairs_between(current, baseline), current.len() as int).len() == 0,
        unpaired_baseline(pairs_between(current, baseline), baseline.len() as int).len() == 0,
    ensures
        current.len() == baseline.len(),
        forall|key: K| #[trigger] current.contains(key) <==> baseline.contains(key),
{
    let pairs = pairs_between(current, baseline);
    pairing_is_a_partition(current, baseline);
    pairing_facts(current, baseline, current.len() as int);
    assert forall|key: K| #[trigger] current.contains(key) <==> baseline.contains(key) by {
        if current.contains(key) {
            let i = choose|i: int| 0 <= i < current.len() && current[i] == key;
            let marked = |i: int| paired_current(pairs, i);
            if !marked(i) {
                unmarked_is_left_over(marked, current.len() as int, i);
            }
            let k = choose|k: int| 0 <= k < pairs.len() && (#[trigger] pairs[k]).0 == i;
            assert(baseline[pairs[k].1] == key);
        }
        if baseline.contains(key) {
            let j = choose|j: int| 0 <= j < baseline.len() && baseline[j] == key;
            let marked = |j: int| paired_baseline(pairs, j);
            if !marked(j) {
                unmarked_is_left_over(marked, baseline.len() as int, j);
            }
            let k = choose|k: int| 0 <= k < pairs.len() && (#[trigger] pairs[k]).1 == j;
            assert(current[pairs[k].0] == key);
        }
    }
}

proof fn left_over_count(marked: spec_fn(int) -> bool, held: Set<int>, count: int)
    requires
        count >= 0,
        forall|i: int| #[trigger] held.contains(i) <==> (0 <= i < count && marked(i)),
    ensures
        held.finite(),
        held.len() + left_over(marked, count).len() == count,
    decreases count,
{
    if count == 0 {
        assert(held =~= Set::empty());
    } else {
        let rest = held.remove(count - 1);
        left_over_count(marked, rest, count - 1);
        if marked(count - 1) {
            assert(held =~= rest.insert(count - 1));
        } else {
            assert(held =~= rest);
        }
    }
}

proof fn held_by_pairs<K>(current: Seq<K>, baseline: Seq<K>, count: int, first: bool) -> (held: Set<
    int,
>)
    requires
        0 <= count <= pairs_between(current, baseline).len(),
    ensures
        held.finite(),
        held.len() == count,
        forall|i: int| #[trigger]
            held.contains(i) <==> exists|k: int|
                0 <= k < count && (if first {
                    (#[trigger] pairs_between(current, baseline)[k]).0
                } else {
                    pairs_between(current, baseline)[k].1
                }) == i,
    decreases count,
{
    let pairs = pairs_between(current, baseline);
    if count == 0 {
        Set::empty()
    } else {
        let rest = held_by_pairs(current, baseline, count - 1, first);
        let last = if first {
            pairs[count - 1].0
        } else {
            pairs[count - 1].1
        };
        pairing_facts(current, baseline, current.len() as int);
        assert(!rest.contains(last));
        let held = rest.insert(last);
        assert forall|i: int| #[trigger] held.contains(i) <==> exists|k: int|
            0 <= k < count && (if first {
                (#[trigger] pairs[k]).0
            } else {
                pairs[k].1
            }) == i by {
            if i == last {
                assert(pairs[count - 1] == pairs[count - 1]);
            }
        }
        held
    }
}

/// Every item is paired or left over: the pairs and what is left add up to
/// each list.
pub proof fn pairing_is_a_partition<K>(current: Seq<K>, baseline: Seq<K>)
    ensures
        pairs_between(current, baseline).len() + unpaired_current(
            pairs_between(current, baseline),
            current.len() as int,
        ).len() == current.len(),
        pairs_between(current, baseline).len() + unpaired_baseline(
            pairs_between(current, baseline),
            baseline.len() as int,
        ).len() == baseline.len(),
{
    let pairs = pairs_between(current, baseline);
    pairing_facts(current, baseline, current.len() as int);
    let a = held_by_pairs(current, baseline, pairs.len() as int, true);
    assert forall|i: int| #[trigger] a.contains(i) <==> (0 <= i < current.len() && paired_current(
        pairs,
        i,
    )) by {
        if a.contains(i) {
            let k = choose|k: int| 0 <= k < pairs.len() && (#[trigger] pairs[k]).0 == i;
            assert(pairs[k].0 == i);
        }
    }
    left_over_count(|i: int| paired_current(pairs, i), a, current.len() as int);
    let b = held_by_pairs(current, baseline, pairs.len() as int, false);
    assert forall|i: int| #[trigger] b.contains(i) <==> (0 <= i < baseline.len()
        && paired_baseline(pairs, i)) by {
        if b.contains(i) {
            let k = choose|k: int| 0 <= k < pairs.len() && (#[trigger] pairs[k]).1 == i;
            assert(pairs[k].1 == i);
        }
    }
    left_over_count(|i: int| paired_baseline(pairs, i), b, baseline.len() as int);
}

} // verus!
