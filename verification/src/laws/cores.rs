//! Which cores a benchmark may run on, and in which order cases are taken.
use crate::bench::affinity;
use crate::bench::affinity::{
    candidate_pin_cores, choose_concurrent_pin_cores, choose_default_pin_core, core_ids_from_mask,
    counts, current_allowed_core_ids, fallback_allowed_core_ids, requested_pin_core,
    selected_pin_core,
};
use crate::bench::order;
use crate::bench::order::BenchmarkCaseOrder;
use crate::threading::DetectionResult;
use vstd::prelude::*;

verus! {

proof fn set_places_ascend(flags: Seq<bool>, count: int)
    requires
        0 <= count <= flags.len() <= usize::MAX,
    ensures
        forall|i: int|
            0 <= i < affinity::set_places(flags, count).len() ==> (#[trigger] affinity::set_places(
                flags,
                count,
            )[i]) < count,
        forall|i: int, j: int|
            0 <= i < j < affinity::set_places(flags, count).len() ==> (
            #[trigger] affinity::set_places(flags, count)[i]) < (#[trigger] affinity::set_places(
                flags,
                count,
            )[j]),
    decreases count,
{
    if count > 0 {
        set_places_ascend(flags, count - 1);
        let front = affinity::set_places(flags, count - 1);
        let whole = affinity::set_places(flags, count);
        assert(whole == front || whole == front.push((count - 1) as usize));
        assert forall|i: int| 0 <= i < whole.len() implies (#[trigger] whole[i]) < count && (i
            < front.len() ==> whole[i] == front[i]) by {
            if i < front.len() {
                assert(front[i] < count - 1);
            }
        }
        assert forall|i: int, j: int| 0 <= i < j < whole.len() implies (#[trigger] whole[i]) < (
        #[trigger] whole[j]) by {
            assert(front[i] < count - 1);
            if j < front.len() {
                assert(front[i] < front[j]);
            }
        }
    }
}

/// A mask names exactly the cores whose flag is set, from the lowest up.
pub proof fn masks_name_the_set_cores(mask: Vec<bool>, r: Vec<usize>)
    requires
        call_ensures(core_ids_from_mask, (&mask,), r),
    ensures
        forall|id: usize| #[trigger]
            r@.contains(id) <==> id < mask@.len() && mask@[id as int],
        forall|i: int, j: int| 0 <= i < j < r@.len() ==> r@[i] < r@[j],
{
    assert(mask@.len() == mask.len());
    set_places_ascend(mask@, mask@.len() as int);
    assert forall|id: usize| #[trigger]
        r@.contains(id) <==> id < mask@.len() && mask@[id as int] by {
        affinity::mask_names_set_cores(mask@, mask@.len() as int, id);
    }
}

/// The allowed cores are those of the mask. Without a mask, or with an empty one,
/// they are as many as can work at once, from the first.
pub proof fn allowed_cores_are_those_of_the_mask(
    mask: Option<Vec<bool>>,
    parallelism: usize,
    r: Vec<usize>,
)
    requires
        call_ensures(current_allowed_core_ids, (&mask, parallelism), r),
    ensures
        (mask matches Some(flags) && exists|i: int| 0 <= i < flags@.len() && #[trigger] flags@[i])
            ==> (mask matches Some(flags) && forall|id: usize| #[trigger]
            r@.contains(id) <==> id < flags@.len() && flags@[id as int]),
        (mask matches Some(flags) ==> forall|i: int|
            0 <= i < flags@.len() ==> !(#[trigger] flags@[i])) ==> r@.len() == parallelism
            && forall|i: int| 0 <= i < parallelism ==> r@[i] == i,
{
    if let Some(flags) = mask {
        assert(flags@.len() == flags.len());
        let named = affinity::set_places(flags@, flags@.len() as int);
        set_places_ascend(flags@, flags@.len() as int);
        assert forall|id: usize| #[trigger]
            named.contains(id) <==> id < flags@.len() && flags@[id as int] by {
            affinity::mask_names_set_cores(flags@, flags@.len() as int, id);
        }
        if exists|i: int| 0 <= i < flags@.len() && #[trigger] flags@[i] {
            let i = choose|i: int| 0 <= i < flags@.len() && #[trigger] flags@[i];
            assert(named.contains(i as usize));
        } else if named.len() > 0 {
            assert(named.contains(named[0]));
        }
    }
}

/// Without any mask the cores are numbered from the first.
pub proof fn cores_are_numbered_from_the_first(parallelism: usize, r: Vec<usize>)
    requires
        call_ensures(fallback_allowed_core_ids, (parallelism,), r),
    ensures
        r@.len() == parallelism,
        forall|i: int| 0 <= i < parallelism ==> r@[i] == i,
{
}

/// Whether a core is one of the performance cores that were found.
pub open spec fn is_fast(detected: Option<DetectionResult>, id: usize) -> bool {
    match detected {
        Some(DetectionResult::PerformanceCores(found)) => found.logical_processor_ids@.contains(id),
        _ => false,
    }
}

proof fn extending_keeps_the_front(
    list: Seq<usize>,
    more: Seq<usize>,
    allowed: Seq<usize>,
    count: int,
)
    ensures
        affinity::extended(list, more, allowed, count).len() >= list.len(),
        forall|i: int|
            0 <= i < list.len() ==> (#[trigger] affinity::extended(list, more, allowed, count)[i])
                == list[i],
        forall|i: int|
            list.len() <= i < affinity::extended(list, more, allowed, count).len() ==> ({
                let id = #[trigger] affinity::extended(list, more, allowed, count)[i];
                more.contains(id) && allowed.contains(id) && !list.contains(id)
            }),
        0 <= count <= more.len() ==> forall|j: int|
            0 <= j < count && allowed.contains(more[j]) ==> affinity::extended(
                list,
                more,
                allowed,
                count,
            ).contains(#[trigger] more[j]),
    decreases count,
{
    if 0 < count <= more.len() {
        extending_keeps_the_front(list, more, allowed, count - 1);
        let front = affinity::extended(list, more, allowed, count - 1);
        let whole = affinity::extended(list, more, allowed, count);
        let next = more[count - 1];
        assert(more.contains(next));
        if list.contains(next) {
            let k = choose|k: int| 0 <= k < list.len() && list[k] == next;
            assert(front[k] == next);
        }
        assert forall|j: int| 0 <= j < count && allowed.contains(more[j]) implies whole.contains(
            #[trigger] more[j],
        ) by {
            if j < count - 1 {
                let k = choose|k: int| 0 <= k < front.len() && front[k] == more[j];
                assert(whole[k] == more[j]);
            } else if front.contains(next) {
                let k = choose|k: int| 0 <= k < front.len() && front[k] == next;
                assert(whole[k] == next);
            } else {
                assert(whole.last() == next);
            }
        }
    }
}

/// The cores to pin to are the allowed ones, each once, the performance cores
/// ahead of the others.
pub proof fn performance_cores_come_first(
    detected: Option<DetectionResult>,
    allowed: Vec<usize>,
    r: Vec<usize>,
)
    requires
        call_ensures(candidate_pin_cores, (&detected, &allowed), r),
    ensures
        forall|id: usize| #[trigger] r@.contains(id) <==> allowed@.contains(id),
        forall|i: int, j: int| 0 <= i < j < r@.len() ==> r@[i] != r@[j],
        forall|i: int, j: int|
            #![trigger r@[i], r@[j]]
            0 <= i < j < r@.len() && is_fast(detected, r@[j]) ==> is_fast(detected, r@[i]),
{
    let found = affinity::fast_cores(detected);
    affinity::candidates_are_the_allowed(found, allowed@);
    let fast = match found {
        Some(ids) => affinity::extended(Seq::empty(), ids, allowed@, ids.len() as int),
        None => Seq::empty(),
    };
    extending_keeps_the_front(fast, allowed@, allowed@, allowed@.len() as int);
    if let Some(ids) = found {
        extending_keeps_the_front(Seq::empty(), ids, allowed@, ids.len() as int);
        assert forall|i: int, j: int|
            #![trigger r@[i], r@[j]]
            0 <= i < j < r@.len() && is_fast(detected, r@[j]) implies is_fast(detected, r@[i]) by {
            if i >= fast.len() {
                let id = r@[j];
                let k = choose|k: int| 0 <= k < ids.len() && ids[k] == id;
                assert(allowed@.contains(id));
                assert(allowed@.contains(ids[k]));
                assert(fast.contains(ids[k]));
            } else {
                assert(r@[i] == fast[i]);
            }
        }
    }
}

proof fn first_usable_is_first(list: Seq<usize>, usable: Seq<bool>, from: int)
    requires
        0 <= from,
        usable.len() == list.len(),
    ensures
        affinity::first_usable(list, usable, from) is None <==> forall|i: int|
            from <= i < list.len() ==> !(#[trigger] usable[i]),
        affinity::first_usable(list, usable, from) matches Some(id) ==> exists|i: int|
            from <= i < list.len() && #[trigger] usable[i] && list[i] == id && forall|k: int|
                from <= k < i ==> !usable[k],
    decreases list.len() - from,
{
    if from < list.len() && !usable[from] {
        first_usable_is_first(list, usable, from + 1);
        if let Some(id) = affinity::first_usable(list, usable, from) {
            let i = choose|i: int|
                from + 1 <= i < list.len() && #[trigger] usable[i] && list[i] == id && forall|k: int|
                    from + 1 <= k < i ==> !usable[k];
            assert(usable[i]);
        }
    }
}

/// The core to pin to is the first on which counting works, or the first of all
/// where it works on none.
pub proof fn the_first_working_core_is_taken(
    list: Vec<usize>,
    usable: Vec<bool>,
    r: Option<usize>,
)
    requires
        usable@.len() == list@.len(),
        call_ensures(choose_default_pin_core, (&list, &usable), r),
    ensures
        r is None <==> list@.len() == 0,
        r matches Some(id) ==> if exists|i: int| 0 <= i < list@.len() && #[trigger] usable@[i] {
            exists|i: int|
                0 <= i < list@.len() && #[trigger] usable@[i] && list@[i] == id && forall|k: int|
                    0 <= k < i ==> !usable@[k]
        } else {
            id == list@[0]
        },
{
    first_usable_is_first(list@, usable@, 0);
}

/// A core that was asked for is taken where it is allowed, and otherwise the
/// default is.
pub proof fn requests_are_met_where_allowed(
    requested: Option<usize>,
    allowed: Vec<usize>,
    default: Option<usize>,
    r: Option<usize>,
)
    requires
        call_ensures(selected_pin_core, (requested, &allowed, default), r),
    ensures
        requested is None ==> r == default,
        requested matches Some(id) ==> (allowed@.contains(id) ==> r == Some(id)) && (
        !allowed@.contains(id) ==> r == default),
{
}

/// Without a setting no core is asked for.
pub proof fn no_setting_asks_for_no_core(setting: Option<String>, r: Option<usize>)
    requires
        call_ensures(requested_pin_core, (&setting,), r),
    ensures
        setting is None ==> r is None,
{
}

/// Counting works where something was counted or counters ran.
pub proof fn counting_works_where_it_ran(count: u64, running: u64, r: bool)
    requires
        call_ensures(counts, (count, running), r),
    ensures
        !r <==> count == 0 && running == 0,
{
}

proof fn parts_hold_their_cores(list: Seq<usize>, usable: Seq<bool>, count: int)
    requires
        0 <= count <= list.len(),
        usable.len() == list.len(),
    ensures
        affinity::usable_cores(list, usable, count).len() + affinity::other_cores(
            list,
            usable,
            count,
        ).len() == count,
        (affinity::usable_cores(list, usable, count) + affinity::other_cores(
            list,
            usable,
            count,
        )).to_multiset() == list.take(count).to_multiset(),
        forall|k: int|
            0 <= k < affinity::usable_cores(list, usable, count).len() ==> has_core(
                list,
                usable,
                true,
                #[trigger] affinity::usable_cores(list, usable, count)[k],
            ),
        forall|k: int|
            0 <= k < affinity::other_cores(list, usable, count).len() ==> has_core(
                list,
                usable,
                false,
                #[trigger] affinity::other_cores(list, usable, count)[k],
            ),
        affinity::usable_cores(list, usable, count).len() == usable.take(count).filter(
            |works: bool| works,
        ).len(),
    decreases count,
{
    broadcast use vstd::seq_lib::group_to_multiset_ensures;

    if count > 0 {
        parts_hold_their_cores(list, usable, count - 1);
        let front = affinity::usable_cores(list, usable, count - 1);
        let back = affinity::other_cores(list, usable, count - 1);
        let last = list[count - 1];
        assert(list.take(count) =~= list.take(count - 1).push(last));
        assert(usable.take(count).drop_last() =~= usable.take(count - 1));
        reveal(Seq::filter);
        vstd::seq_lib::lemma_multiset_commutative(front, back);
        if usable[count - 1] {
            vstd::seq_lib::lemma_multiset_commutative(front.push(last), back);
            assert(has_core(list, usable, true, last));
            assert(front.push(last).to_multiset() =~= front.to_multiset().insert(last));
        } else {
            vstd::seq_lib::lemma_multiset_commutative(front, back.push(last));
            assert(has_core(list, usable, false, last));
        }
        assert((affinity::usable_cores(list, usable, count) + affinity::other_cores(
            list,
            usable,
            count,
        )).to_multiset() =~= list.take(count).to_multiset());
    } else {
        assert(list.take(0) =~= Seq::<usize>::empty());
        assert(usable.take(0) =~= Seq::<bool>::empty());
        assert((affinity::usable_cores(list, usable, count) + affinity::other_cores(
            list,
            usable,
            count,
        )) =~= Seq::<usize>::empty());
        reveal(Seq::filter);
    }
}

/// Whether a core stands in a list as one that works, or as one that does not.
pub open spec fn has_core(list: Seq<usize>, usable: Seq<bool>, works: bool, id: usize) -> bool {
    exists|i: int| 0 <= i < list.len() && #[trigger] list[i] == id && usable[i] == works
}

/// Concurrent workers get the working cores ahead of the others, all of them or
/// as many as are asked for.
pub proof fn working_cores_are_given_first(
    list: Vec<usize>,
    usable: Vec<bool>,
    count: usize,
    r: Vec<usize>,
)
    requires
        usable@.len() == list@.len(),
        call_ensures(choose_concurrent_pin_cores, (&list, &usable, count), r),
    ensures
        r@.len() == (if 0 < count < list@.len() {
            count as nat
        } else {
            list@.len()
        }),
        !(0 < count < list@.len()) ==> r@.to_multiset() == list@.to_multiset(),
        forall|k: int|
            #![trigger r@[k]]
            0 <= k < r@.len() ==> has_core(
                list@,
                usable@,
                k < usable@.filter(|works: bool| works).len(),
                r@[k],
            ),
{
    parts_hold_their_cores(list@, usable@, list@.len() as int);
    assert(list@.take(list@.len() as int) =~= list@);
    assert(usable@.take(list@.len() as int) =~= usable@);
    let front = affinity::usable_cores(list@, usable@, list@.len() as int);
    let back = affinity::other_cores(list@, usable@, list@.len() as int);
    assert forall|k: int|
        #![trigger r@[k]]
        0 <= k < r@.len() implies has_core(
        list@,
        usable@,
        k < usable@.filter(|works: bool| works).len(),
        r@[k],
    ) by {
        assert(r@[k] == (front + back)[k]);
        if k < front.len() {
            assert(r@[k] == front[k]);
        } else {
            assert(r@[k] == back[k - front.len()]);
        }
    }
}

/// Every case is taken once, in the order declared unless another is asked for,
/// and one seed always gives one order.
pub proof fn every_case_is_taken_once(
    how: BenchmarkCaseOrder,
    case_count: usize,
    r: Vec<usize>,
    again: Vec<usize>,
)
    requires
        call_ensures(BenchmarkCaseOrder::indices, (how, case_count), r),
        call_ensures(BenchmarkCaseOrder::indices, (how, case_count), again),
    ensures
        r@ == again@,
        r@.len() == case_count,
        forall|i: int| 0 <= i < case_count ==> (#[trigger] r@[i]) < case_count,
        forall|i: int, j: int| 0 <= i < j < case_count ==> r@[i] != r@[j],
        how is Declared ==> forall|i: int| 0 <= i < case_count ==> r@[i] == i,
{
    order::order_is_a_permutation(how, case_count as nat);
}

/// Cases are taken in the order declared unless another is asked for.
pub proof fn declared_order_is_the_usual(how: BenchmarkCaseOrder)
    requires
        call_ensures(<BenchmarkCaseOrder as Default>::default, (), how),
    ensures
        how is Declared,
{
}

} // verus!
