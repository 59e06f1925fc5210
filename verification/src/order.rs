//! Putting a list in order, item by item.
use vstd::prelude::*;

verus! {

/// Where an item belongs from `from` on: in front of the first item that it
/// comes before.
pub open spec fn place_of<T>(
    list: Seq<T>,
    item: T,
    before: spec_fn(T, T) -> bool,
    from: int,
) -> int
    decreases list.len() - from,
{
    if from < 0 || from >= list.len() {
        list.len() as int
    } else if before(item, list[from]) {
        from
    } else {
        place_of(list, item, before, from + 1)
    }
}

/// The items in order; those of which neither comes before the other stay in
/// the order in which they came.
pub open spec fn arranged<T>(list: Seq<T>, before: spec_fn(T, T) -> bool) -> Seq<T>
    decreases list.len(),
{
    if list.len() == 0 {
        Seq::empty()
    } else {
        let front = arranged(list.drop_last(), before);
        front.insert(place_of(front, list.last(), before, 0), list.last())
    }
}

/// No item comes before one that stands in front of it.
pub open spec fn in_order<T>(list: Seq<T>, before: spec_fn(T, T) -> bool) -> bool {
    forall|i: int, j: int| 0 <= i < j < list.len() ==> !before(#[trigger] list[j], #[trigger] list[i])
}

/// A relation that can put items in order: of two items at most one comes
/// before the other, and what does not come before is passed on.
pub open spec fn orders<T>(before: spec_fn(T, T) -> bool) -> bool {
    &&& forall|a: T, b: T| #[trigger] before(a, b) ==> !before(b, a)
    &&& forall|a: T, b: T, c: T|
        !(#[trigger] before(b, a)) && !(#[trigger] before(c, b)) ==> !before(c, a)
}

pub proof fn place_facts<T>(list: Seq<T>, item: T, before: spec_fn(T, T) -> bool, from: int)
    requires
        0 <= from <= list.len(),
    ensures
        from <= place_of(list, item, before, from) <= list.len(),
        forall|i: int|
            from <= i < place_of(list, item, before, from) ==> !before(item, #[trigger] list[i]),
        place_of(list, item, before, from) < list.len() ==> before(
            item,
            list[place_of(list, item, before, from)],
        ),
    decreases list.len() - from,
{
    if from < list.len() && !before(item, list[from]) {
        place_facts(list, item, before, from + 1);
    }
}

proof fn insertion_keeps_order<T>(front: Seq<T>, item: T, before: spec_fn(T, T) -> bool)
    requires
        orders(before),
        in_order(front, before),
    ensures
        in_order(front.insert(place_of(front, item, before, 0), item), before),
{
    let p = place_of(front, item, before, 0);
    place_facts(front, item, before, 0);
    let after = front.insert(p, item);
    assert forall|i: int, j: int| 0 <= i < j < after.len() implies !before(
        #[trigger] after[j],
        #[trigger] after[i],
    ) by {
        let a = if i < p {
            front[i]
        } else if i == p {
            item
        } else {
            front[i - 1]
        };
        let b = if j < p {
            front[j]
        } else if j == p {
            item
        } else {
            front[j - 1]
        };
        assert(after[i] == a);
        assert(after[j] == b);
        if i == p {
            assert(before(item, front[p]));
            assert(!before(front[p], item));
            if p < j - 1 {
                assert(!before(front[j - 1], front[p]));
            }
        } else if j == p {
            assert(!before(item, front[i]));
        }
    }
}

/// Arranging keeps every item, and puts the items in order.
pub proof fn arranging_orders<T>(list: Seq<T>, before: spec_fn(T, T) -> bool)
    requires
        orders(before),
    ensures
        arranged(list, before).to_multiset() == list.to_multiset(),
        arranged(list, before).len() == list.len(),
        in_order(arranged(list, before), before),
    decreases list.len(),
{
    if list.len() > 0 {
        let front = arranged(list.drop_last(), before);
        let p = place_of(front, list.last(), before, 0);
        arranging_orders(list.drop_last(), before);
        place_facts(front, list.last(), before, 0);
        insertion_keeps_order(front, list.last(), before);
        vstd::seq_lib::to_multiset_insert(front, p, list.last());
        vstd::seq_lib::to_multiset_build(list.drop_last(), list.last());
        assert(list =~= list.drop_last().push(list.last()));
    } else {
        assert(arranged(list, before) =~= list);
    }
}

} // verus!
