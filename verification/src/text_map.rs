//! A map from texts to texts, kept in the order of its keys.
use crate::text;
use vstd::prelude::*;

verus! {

/// A key and its value.
pub type Pair = (Seq<char>, Seq<char>);

/// The keys come one after the other, each once.
pub open spec fn keys_increase(pairs: Seq<Pair>) -> bool {
    forall|i: int, j: int|
        0 <= i < j < pairs.len() ==> text::less((#[trigger] pairs[i]).0, (#[trigger] pairs[j]).0)
}

/// The map that a list of pairs stands for; a later pair replaces an earlier one.
pub open spec fn map_of(pairs: Seq<Pair>) -> Map<Seq<char>, Seq<char>>
    decreases pairs.len(),
{
    if pairs.len() == 0 {
        Map::empty()
    } else {
        map_of(pairs.drop_last()).insert(pairs.last().0, pairs.last().1)
    }
}

/// The keys and values of a list of entries.
pub open spec fn pairs_of(entries: Seq<(String, String)>) -> Seq<Pair> {
    entries.map_values(|e: (String, String)| (e.0@, e.1@))
}

/// A map from texts to texts.
#[derive(Debug)]
pub struct TextMap {
    entries: Vec<(String, String)>,
}

impl View for TextMap {
    type V = Map<Seq<char>, Seq<char>>;

    closed spec fn view(&self) -> Map<Seq<char>, Seq<char>> {
        map_of(pairs_of(self.entries@))
    }
}

proof fn map_of_has(pairs: Seq<Pair>, i: int)
    requires
        keys_increase(pairs),
        0 <= i < pairs.len(),
    ensures
        map_of(pairs).contains_key(pairs[i].0),
        map_of(pairs)[pairs[i].0] == pairs[i].1,
    decreases pairs.len(),
{
    if i < pairs.len() - 1 {
        front_increases(pairs);
        map_of_has(pairs.drop_last(), i);
        assert(pairs.drop_last()[i] == pairs[i]);
        text::less_is_total(pairs[i].0, pairs[pairs.len() - 1].0);
    }
}

proof fn front_increases(pairs: Seq<Pair>)
    requires
        keys_increase(pairs),
        pairs.len() > 0,
    ensures
        keys_increase(pairs.drop_last()),
{
    let front = pairs.drop_last();
    assert forall|i: int, j: int| 0 <= i < j < front.len() implies text::less(
        (#[trigger] front[i]).0,
        (#[trigger] front[j]).0,
    ) by {
        assert(front[i] == pairs[i] && front[j] == pairs[j]);
    }
}

proof fn map_of_only(pairs: Seq<Pair>, key: Seq<char>)
    requires
        map_of(pairs).contains_key(key),
    ensures
        exists|i: int| 0 <= i < pairs.len() && (#[trigger] pairs[i]).0 == key,
    decreases pairs.len(),
{
    if pairs.len() > 0 {
        if pairs.last().0 == key {
            assert(pairs[pairs.len() - 1].0 == key);
        } else {
            map_of_only(pairs.drop_last(), key);
            let i = choose|i: int|
                0 <= i < pairs.drop_last().len() && (#[trigger] pairs.drop_last()[i]).0 == key;
            assert(pairs[i].0 == key);
        }
    }
}

/// Two ordered lists stand for the same map only when they are the same.
proof fn order_is_canonical(a: Seq<Pair>, b: Seq<Pair>)
    requires
        keys_increase(a),
        keys_increase(b),
        map_of(a) == map_of(b),
    ensures
        a == b,
    decreases a.len(),
{
    if a.len() == 0 {
        if b.len() > 0 {
            map_of_has(b, 0);
        }
        assert(a =~= b);
    } else {
        map_of_has(a, a.len() - 1);
        map_of_only(b, a.last().0);
        let i = choose|i: int| 0 <= i < b.len() && (#[trigger] b[i]).0 == a.last().0;
        map_of_has(b, b.len() - 1);
        map_of_only(a, b.last().0);
        let j = choose|j: int| 0 <= j < a.len() && (#[trigger] a[j]).0 == b.last().0;
        if i < b.len() - 1 {
            assert(text::less(b[i].0, b[b.len() - 1].0));
            if j < a.len() - 1 {
                assert(text::less(a[j].0, a[a.len() - 1].0));
                text::less_is_total(a.last().0, b.last().0);
            } else {
                text::less_is_total(a.last().0, b.last().0);
            }
        }
        assert(a.last() == b.last());
        let front_a = a.drop_last();
        let front_b = b.drop_last();
        front_increases(a);
        front_increases(b);
        let key = a.last().0;
        last_key_is_new(a);
        last_key_is_new(b);
        assert(map_of(front_a) =~= map_of(a).remove(key));
        assert(map_of(front_b) =~= map_of(b).remove(key));
        order_is_canonical(front_a, front_b);
        assert(a =~= front_a.push(a.last()));
        assert(b =~= front_b.push(b.last()));
    }
}

proof fn last_key_is_new(pairs: Seq<Pair>)
    requires
        keys_increase(pairs),
        pairs.len() > 0,
    ensures
        !map_of(pairs.drop_last()).contains_key(pairs.last().0),
{
    if map_of(pairs.drop_last()).contains_key(pairs.last().0) {
        map_of_only(pairs.drop_last(), pairs.last().0);
        let i = choose|i: int|
            0 <= i < pairs.drop_last().len() && (#[trigger] pairs.drop_last()[i]).0
                == pairs.last().0;
        assert(pairs[i].0 == pairs[pairs.len() - 1].0);
        text::less_is_total(pairs[i].0, pairs[pairs.len() - 1].0);
    }
}

/// No pair of an ordered list has a key that an earlier pair has.
pub proof fn key_is_new(pairs: Seq<Pair>, at: int)
    requires
        keys_increase(pairs),
        0 <= at < pairs.len(),
    ensures
        !map_of(pairs.take(at)).contains_key(pairs[at].0),
{
    let front = pairs.take(at);
    if map_of(front).contains_key(pairs[at].0) {
        map_of_only(front, pairs[at].0);
        let i = choose|i: int| 0 <= i < front.len() && (#[trigger] front[i]).0 == pairs[at].0;
        assert(front[i] == pairs[i]);
        text::less_is_total(pairs[i].0, pairs[at].0);
    }
}

/// The map of a list in which one pair is new or replaced.
proof fn map_of_update(pairs: Seq<Pair>, at: int, pair: Pair)
    requires
        keys_increase(pairs),
        0 <= at < pairs.len(),
        pair.0 == pairs[at].0,
    ensures
        keys_increase(pairs.update(at, pair)),
        map_of(pairs.update(at, pair)) == map_of(pairs).insert(pair.0, pair.1),
    decreases pairs.len(),
{
    let r = pairs.update(at, pair);
    assert forall|i: int, j: int| 0 <= i < j < r.len() implies text::less(
        (#[trigger] r[i]).0,
        (#[trigger] r[j]).0,
    ) by {
        assert(r[i].0 == pairs[i].0 && r[j].0 == pairs[j].0);
    }
    if at == pairs.len() - 1 {
        assert(r.drop_last() =~= pairs.drop_last());
        assert(map_of(r) =~= map_of(pairs).insert(pair.0, pair.1));
    } else {
        front_increases(pairs);
        assert(r.drop_last() =~= pairs.drop_last().update(at, pair));
        map_of_update(pairs.drop_last(), at, pair);
        text::less_is_total(pairs[at].0, pairs[pairs.len() - 1].0);
        assert(text::less(pairs[at].0, pairs[pairs.len() - 1].0));
        assert(map_of(r) =~= map_of(pairs).insert(pair.0, pair.1));
    }
}

proof fn map_of_insert(pairs: Seq<Pair>, at: int, pair: Pair)
    requires
        keys_increase(pairs),
        0 <= at <= pairs.len(),
        forall|i: int| 0 <= i < at ==> text::less((#[trigger] pairs[i]).0, pair.0),
        forall|i: int| at <= i < pairs.len() ==> text::less(pair.0, (#[trigger] pairs[i]).0),
    ensures
        keys_increase(pairs.insert(at, pair)),
        map_of(pairs.insert(at, pair)) == map_of(pairs).insert(pair.0, pair.1),
    decreases pairs.len(),
{
    let r = pairs.insert(at, pair);
    assert forall|i: int, j: int| 0 <= i < j < r.len() implies text::less(
        (#[trigger] r[i]).0,
        (#[trigger] r[j]).0,
    ) by {
        if i < at {
            assert(r[i] == pairs[i]);
        } else if i > at {
            assert(r[i] == pairs[i - 1]);
        }
        if j < at {
            assert(r[j] == pairs[j]);
        } else if j > at {
            assert(r[j] == pairs[j - 1]);
        }
    }
    if at == pairs.len() {
        assert(r.drop_last() =~= pairs);
    } else {
        front_increases(pairs);
        assert(r.drop_last() =~= pairs.drop_last().insert(at, pair));
        assert(r.last() == pairs.last());
        map_of_insert(pairs.drop_last(), at, pair);
        text::less_is_total(pair.0, pairs[pairs.len() - 1].0);
        assert(text::less(pair.0, pairs[pairs.len() - 1].0));
        assert(map_of(r) =~= map_of(pairs).insert(pair.0, pair.1));
    }
}

impl TextMap {
    #[verifier::type_invariant]
    spec fn well_formed(self) -> bool {
        keys_increase(pairs_of(self.entries@))
    }

    /// The pairs in the order of their keys.
    pub closed spec fn pairs(&self) -> Seq<Pair> {
        pairs_of(self.entries@)
    }

    pub fn new() -> (r: TextMap)
        ensures
            r@ == Map::<Seq<char>, Seq<char>>::empty(),
            r.pairs().len() == 0,
    {
        TextMap { entries: Vec::new() }
    }

    /// The entries in the order of their keys.
    pub fn entries(&self) -> (r: &Vec<(String, String)>)
        ensures
            pairs_of(r@) == self.pairs(),
            keys_increase(self.pairs()),
            map_of(self.pairs()) == self@,
    {
        proof {
            use_type_invariant(self);
        }
        &self.entries
    }

    pub fn len(&self) -> (r: usize)
        ensures
            r == self.pairs().len(),
    {
        self.entries.len()
    }

    /// The value of a key.
    pub fn get(&self, key: &str) -> (r: Option<&String>)
        ensures
            r is Some == self@.contains_key(key@),
            r matches Some(value) ==> value@ == self@[key@],
    {
        proof {
            use_type_invariant(self);
        }
        let ghost pairs = pairs_of(self.entries@);
        let mut i: usize = 0;
        while i < self.entries.len()
            invariant
                i <= self.entries.len(),
                pairs == pairs_of(self.entries@),
                keys_increase(pairs),
                forall|j: int| 0 <= j < i ==> (#[trigger] pairs[j]).0 != key@,
            decreases self.entries.len() - i,
        {
            if text::same(self.entries[i].0.as_str(), key) {
                proof {
                    map_of_has(pairs, i as int);
                    assert(pairs[i as int] == (
                        self.entries@[i as int].0@,
                        self.entries@[i as int].1@,
                    ));
                }
                return Some(&self.entries[i].1);
            }
            assert(pairs[i as int].0 == self.entries@[i as int].0@);
            i += 1;
        }
        proof {
            if self@.contains_key(key@) {
                map_of_only(pairs, key@);
            }
        }
        None
    }

    pub fn contains_key(&self, key: &str) -> (r: bool)
        ensures
            r == self@.contains_key(key@),
    {
        self.get(key).is_some()
    }

    /// The map with a value under a key, in place of any that was there.
    pub fn inserted(self, key: String, value: String) -> (r: TextMap)
        ensures
            r@ == self@.insert(key@, value@),
    {
        proof {
            use_type_invariant(&self);
        }
        let mut entries = self.entries;
        let ghost pairs = pairs_of(entries@);
        let ghost pair = (key@, value@);
        let mut i: usize = 0;
        while i < entries.len() && text::comes_before(entries[i].0.as_str(), key.as_str())
            invariant
                i <= entries.len(),
                pairs == pairs_of(entries@),
                keys_increase(pairs),
                pair == (key@, value@),
                forall|j: int| 0 <= j < i ==> text::less((#[trigger] pairs[j]).0, key@),
            decreases entries.len() - i,
        {
            assert(pairs[i as int].0 == entries@[i as int].0@);
            i += 1;
        }
        if i < entries.len() {
            assert(pairs[i as int].0 == entries@[i as int].0@);
        }
        if i < entries.len() && text::same(entries[i].0.as_str(), key.as_str()) {
            proof {
                map_of_update(pairs, i as int, pair);
            }
            entries.set(i, (key, value));
            assert(pairs_of(entries@) =~= pairs.update(i as int, pair));
        } else {
            proof {
                assert forall|j: int| i <= j < pairs.len() implies text::less(
                    key@,
                    (#[trigger] pairs[j]).0,
                ) by {
                    text::less_is_total(pairs[i as int].0, key@);
                    if j > i {
                        assert(text::less(pairs[i as int].0, pairs[j].0));
                        text::less_is_transitive(key@, pairs[i as int].0, pairs[j].0);
                    }
                }
                map_of_insert(pairs, i as int, pair);
            }
            entries.insert(i, (key, value));
            assert(pairs_of(entries@) =~= pairs.insert(i as int, pair));
        }
        TextMap { entries }
    }

    /// The map with a value under a key where the key has none yet.
    pub fn inserted_if_absent(self, key: String, value: String) -> (r: TextMap)
        ensures
            r@ == if self@.contains_key(key@) {
                self@
            } else {
                self@.insert(key@, value@)
            },
    {
        if self.contains_key(key.as_str()) {
            self
        } else {
            self.inserted(key, value)
        }
    }

    /// Whether two maps have the same keys and values.
    pub fn same(&self, other: &TextMap) -> (r: bool)
        ensures
            r == (self@ == other@),
    {
        proof {
            use_type_invariant(self);
            use_type_invariant(other);
        }
        let ghost a = pairs_of(self.entries@);
        let ghost b = pairs_of(other.entries@);
        proof {
            if self@ == other@ {
                order_is_canonical(a, b);
            }
        }
        if self.entries.len() != other.entries.len() {
            return false;
        }
        let mut i: usize = 0;
        while i < self.entries.len()
            invariant
                i <= self.entries.len(),
                self.entries.len() == other.entries.len(),
                a == pairs_of(self.entries@),
                b == pairs_of(other.entries@),
                self@ == other@ ==> a == b,
                forall|j: int| 0 <= j < i ==> a[j] == b[j],
            decreases self.entries.len() - i,
        {
            if !text::same(self.entries[i].0.as_str(), other.entries[i].0.as_str()) || !text::same(
                self.entries[i].1.as_str(),
                other.entries[i].1.as_str(),
            ) {
                assert(a[i as int] != b[i as int]);
                return false;
            }
            i += 1;
        }
        assert(a =~= b);
        true
    }

    /// A copy.
    pub fn duplicate(&self) -> (r: TextMap)
        ensures
            r@ == self@,
            r.pairs() == self.pairs(),
    {
        proof {
            use_type_invariant(self);
        }
        let mut entries: Vec<(String, String)> = Vec::new();
        let mut i: usize = 0;
        while i < self.entries.len()
            invariant
                i <= self.entries.len(),
                entries@.len() == i,
                forall|j: int|
                    0 <= j < i ==> (#[trigger] entries@[j]).0@ == self.entries@[j].0@
                        && entries@[j].1@ == self.entries@[j].1@,
            decreases self.entries.len() - i,
        {
            entries.push((self.entries[i].0.clone(), self.entries[i].1.clone()));
            i += 1;
        }
        assert(pairs_of(entries@) =~= pairs_of(self.entries@));
        TextMap { entries }
    }
}

/// Two maps with the same contents hold their pairs in the same order.
pub proof fn pairs_are_canonical(a: Seq<Pair>, b: Seq<Pair>)
    requires
        keys_increase(a),
        keys_increase(b),
    ensures
        map_of(a) == map_of(b) ==> a == b,
{
    if map_of(a) == map_of(b) {
        order_is_canonical(a, b);
    }
}

} // verus!
