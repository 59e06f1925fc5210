//! Which processors benchmark threads are pinned to.
use crate::parse;
use crate::text;
use crate::threading::DetectionResult;
use vstd::prelude::*;

verus! {

/// The places in a list of flags that are set.
pub open spec fn set_places(flags: Seq<bool>, count: int) -> Seq<usize>
    decreases count,
{
    if count <= 0 || count > flags.len() {
        Seq::empty()
    } else if flags[count - 1] {
        set_places(flags, count - 1).push((count - 1) as usize)
    } else {
        set_places(flags, count - 1)
    }
}

/// The processors whose flag is set.
pub fn core_ids_from_mask(mask: &Vec<bool>) -> (r: Vec<usize>)
    ensures
        r@ == set_places(mask@, mask@.len() as int),
{
    let mut r: Vec<usize> = Vec::new();
    let mut i: usize = 0;
    while i < mask.len()
        invariant
            i <= mask@.len(),
            r@ == set_places(mask@, i as int),
        decreases mask@.len() - i,
    {
        if mask[i] {
            r.push(i);
        }
        i += 1;
    }
    r
}

/// A processor is named exactly where its flag is set.
pub proof fn mask_names_set_cores(flags: Seq<bool>, count: int, id: usize)
    requires
        0 <= count <= flags.len() <= usize::MAX,
    ensures
        set_places(flags, count).contains(id) == (id < count && flags[id as int]),
    decreases count,
{
    if count > 0 {
        mask_names_set_cores(flags, count - 1, id);
        let front = set_places(flags, count - 1);
        if flags[count - 1] {
            let all = front.push((count - 1) as usize);
            assert(all[front.len() as int] == (count - 1) as usize);
            if front.contains(id) {
                let k = front.index_of(id);
                assert(all[k] == id);
            }
        }
    }
}

/// The processors that may be used: those of the mask where it names any, else
/// as many as can run at a time.
pub open spec fn allowed(mask: Option<Seq<bool>>, parallelism: usize) -> Seq<usize> {
    let named = match mask {
        Some(flags) => set_places(flags, flags.len() as int),
        None => Seq::empty(),
    };
    if named.len() > 0 {
        named
    } else {
        Seq::new(parallelism as nat, |i: int| i as usize)
    }
}

/// The processors `0` up to a number.
pub fn fallback_allowed_core_ids(parallelism: usize) -> (r: Vec<usize>)
    ensures
        r@ == Seq::new(parallelism as nat, |i: int| i as usize),
{
    let mut r: Vec<usize> = Vec::new();
    let mut i: usize = 0;
    while i < parallelism
        invariant
            i <= parallelism,
            r@ == Seq::new(i as nat, |j: int| j as usize),
        decreases parallelism - i,
    {
        r.push(i);
        i += 1;
        assert(r@ =~= Seq::new(i as nat, |j: int| j as usize));
    }
    r
}

pub fn current_allowed_core_ids(mask: &Option<Vec<bool>>, parallelism: usize) -> (r: Vec<usize>)
    ensures
        r@ == allowed(
            match mask {
                Some(flags) => Some(flags@),
                None => None,
            },
            parallelism,
        ),
{
    match mask {
        Some(flags) => {
            let named = core_ids_from_mask(flags);
            if named.len() > 0 {
                return named;
            }
        },
        None => {},
    }
    fallback_allowed_core_ids(parallelism)
}

/// Whether a list holds a processor.
fn holds(list: &Vec<usize>, id: usize) -> (r: bool)
    ensures
        r == list@.contains(id),
{
    let mut i: usize = 0;
    while i < list.len()
        invariant
            i <= list@.len(),
            forall|j: int| 0 <= j < i ==> #[trigger] list@[j] != id,
        decreases list@.len() - i,
    {
        if list[i] == id {
            assert(list@[i as int] == id);
            return true;
        }
        i += 1;
    }
    false
}

/// A list with the first `count` of more processors behind it: those that are
/// allowed and not in it yet.
pub open spec fn extended(
    list: Seq<usize>,
    more: Seq<usize>,
    allowed_ids: Seq<usize>,
    count: int,
) -> Seq<usize>
    decreases count,
{
    if count <= 0 || count > more.len() {
        list
    } else {
        let front = extended(list, more, allowed_ids, count - 1);
        let next = more[count - 1];
        if allowed_ids.contains(next) && !front.contains(next) {
            front.push(next)
        } else {
            front
        }
    }
}

fn extend(list: Vec<usize>, more: &Vec<usize>, allowed_ids: &Vec<usize>) -> (r: Vec<usize>)
    ensures
        r@ == extended(list@, more@, allowed_ids@, more@.len() as int),
{
    let mut r = list;
    let mut i: usize = 0;
    while i < more.len()
        invariant
            i <= more@.len(),
            r@ == extended(list@, more@, allowed_ids@, i as int),
        decreases more@.len() - i,
    {
        let next: usize = more[i];
        if holds(allowed_ids, next) && !holds(&r, next) {
            r.push(next);
        }
        i += 1;
    }
    r
}

/// The processors to try, each once: the fast ones that are allowed first, then
/// the other allowed ones.
pub open spec fn candidates(detected: Option<Seq<usize>>, allowed_ids: Seq<usize>) -> Seq<usize> {
    let fast = match detected {
        Some(ids) => extended(Seq::empty(), ids, allowed_ids, ids.len() as int),
        None => Seq::empty(),
    };
    extended(fast, allowed_ids, allowed_ids, allowed_ids.len() as int)
}

/// The fast processors, where some were told apart.
pub open spec fn fast_cores(detected: Option<DetectionResult>) -> Option<Seq<usize>> {
    match detected {
        Some(DetectionResult::PerformanceCores(selection)) => Some(
            selection.logical_processor_ids@,
        ),
        _ => None,
    }
}

/// Lists the processors to try. What was detected is missing where detection failed.
pub fn candidate_pin_cores(detected: &Option<DetectionResult>, allowed_core_ids: &Vec<usize>) -> (r:
    Vec<usize>)
    ensures
        r@ == candidates(fast_cores(*detected), allowed_core_ids@),
{
    let fast = match detected {
        Some(DetectionResult::PerformanceCores(selection)) => extend(
            Vec::new(),
            &selection.logical_processor_ids,
            allowed_core_ids,
        ),
        _ => Vec::new(),
    };
    extend(fast, allowed_core_ids, allowed_core_ids)
}

proof fn extending_facts(list: Seq<usize>, more: Seq<usize>, allowed_ids: Seq<usize>, count: int)
    requires
        0 <= count <= more.len(),
        list.no_duplicates(),
    ensures
        extended(list, more, allowed_ids, count).no_duplicates(),
        forall|id: usize|
            #![trigger extended(list, more, allowed_ids, count).contains(id)]
            extended(list, more, allowed_ids, count).contains(id) <==> list.contains(id) || (
            allowed_ids.contains(id) && more.take(count).contains(id)),
    decreases count,
{
    if count > 0 {
        extending_facts(list, more, allowed_ids, count - 1);
        let front = extended(list, more, allowed_ids, count - 1);
        let next = more[count - 1];
        let r = extended(list, more, allowed_ids, count);
        let seen = more.take(count);
        assert forall|id: usize| #[trigger]
            r.contains(id) <==> list.contains(id) || (allowed_ids.contains(id) && seen.contains(
                id,
            )) by {
            assert(seen[count - 1] == next);
            if more.take(count - 1).contains(id) {
                let k = more.take(count - 1).index_of(id);
                assert(seen[k] == id);
            }
            if seen.contains(id) && id != next {
                let k = seen.index_of(id);
                assert(more.take(count - 1)[k] == id);
            }
            if front.contains(id) {
                let k = front.index_of(id);
                assert(r[k] == id);
            }
            if r.len() > front.len() {
                assert(r[front.len() as int] == next);
            }
            assert(front.contains(id) <==> list.contains(id) || (allowed_ids.contains(id)
                && more.take(count - 1).contains(id)));
        }
    }
}

/// The processors to try are exactly the allowed ones, each once.
pub proof fn candidates_are_the_allowed(detected: Option<Seq<usize>>, allowed_ids: Seq<usize>)
    ensures
        candidates(detected, allowed_ids).no_duplicates(),
        forall|id: usize|
            #![trigger candidates(detected, allowed_ids).contains(id)]
            candidates(detected, allowed_ids).contains(id) <==> allowed_ids.contains(id),
{
    let none = Seq::<usize>::empty();
    let fast = match detected {
        Some(ids) => extended(none, ids, allowed_ids, ids.len() as int),
        None => none,
    };
    match detected {
        Some(ids) => {
            extending_facts(none, ids, allowed_ids, ids.len() as int);
        },
        None => {},
    }
    extending_facts(fast, allowed_ids, allowed_ids, allowed_ids.len() as int);
    assert(allowed_ids.take(allowed_ids.len() as int) =~= allowed_ids);
    assert forall|id: usize| #[trigger]
        candidates(detected, allowed_ids).contains(id) <==> allowed_ids.contains(id) by {
        assert(extended(fast, allowed_ids, allowed_ids, allowed_ids.len() as int).contains(id)
            <==> fast.contains(id) || allowed_ids.contains(id));
    }
}

/// The first candidate whose counters work, from a place on.
pub open spec fn first_usable(list: Seq<usize>, usable: Seq<bool>, from: int) -> Option<usize>
    decreases list.len() - from,
{
    if from < 0 || from >= list.len() {
        None
    } else if usable[from] {
        Some(list[from])
    } else {
        first_usable(list, usable, from + 1)
    }
}

/// The candidate to pin to: the first whose counters work, else the first.
pub open spec fn default_core(list: Seq<usize>, usable: Seq<bool>) -> Option<usize> {
    match first_usable(list, usable, 0) {
        Some(id) => Some(id),
        None => if list.len() > 0 {
            Some(list[0])
        } else {
            None
        },
    }
}

/// Whether a counter that was tried counts: it saw something, or it ran.
pub fn counts(count: u64, running_ns: u64) -> (r: bool)
    ensures
        r == (count > 0 || running_ns > 0),
{
    count > 0 || running_ns > 0
}

/// Chooses the processor to pin a benchmark to. For each candidate a flag says
/// whether its counters work.
pub fn choose_default_pin_core(candidate_ids: &Vec<usize>, usable: &Vec<bool>) -> (r: Option<usize>)
    requires
        usable@.len() == candidate_ids@.len(),
    ensures
        r == default_core(candidate_ids@, usable@),
{
    let mut i: usize = 0;
    while i < candidate_ids.len()
        invariant
            i <= candidate_ids@.len(),
            usable@.len() == candidate_ids@.len(),
            first_usable(candidate_ids@, usable@, i as int) == first_usable(
                candidate_ids@,
                usable@,
                0,
            ),
        decreases candidate_ids@.len() - i,
    {
        if usable[i] {
            return Some(candidate_ids[i]);
        }
        i += 1;
    }
    if candidate_ids.len() > 0 {
        Some(candidate_ids[0])
    } else {
        None
    }
}

/// The requested processor where it is allowed, else the default one.
pub open spec fn pin_core(
    requested: Option<usize>,
    allowed_ids: Seq<usize>,
    default: Option<usize>,
) -> Option<usize> {
    match requested {
        Some(id) => if allowed_ids.contains(id) {
            Some(id)
        } else {
            default
        },
        None => default,
    }
}

pub fn selected_pin_core(
    requested: Option<usize>,
    allowed_core_ids: &Vec<usize>,
    default: Option<usize>,
) -> (r: Option<usize>)
    ensures
        r == pin_core(requested, allowed_core_ids@, default),
{
    match requested {
        Some(id) => {
            if holds(allowed_core_ids, id) {
                Some(id)
            } else {
                default
            }
        },
        None => default,
    }
}

/// The processor that a setting asks for; a setting that is no number asks for none.
pub fn requested_pin_core(setting: &Option<String>) -> (r: Option<usize>)
    ensures
        match setting {
            Some(value) => {
                &&& r is Some == parse::unsigned_within(value@, usize::MAX as nat) is Some
                &&& r matches Some(id) ==> id == parse::unsigned_within(
                    value@,
                    usize::MAX as nat,
                )->0
            },
            None => r is None,
        },
{
    match setting {
        Some(value) => parse::parse_usize(value.as_str()),
        None => None,
    }
}

/// The candidates whose counters work among the first `count`.
pub open spec fn usable_cores(list: Seq<usize>, usable: Seq<bool>, count: int) -> Seq<usize>
    decreases count,
{
    if count <= 0 || count > list.len() {
        Seq::empty()
    } else if usable[count - 1] {
        usable_cores(list, usable, count - 1).push(list[count - 1])
    } else {
        usable_cores(list, usable, count - 1)
    }
}

/// The candidates whose counters do not work among the first `count`.
pub open spec fn other_cores(list: Seq<usize>, usable: Seq<bool>, count: int) -> Seq<usize>
    decreases count,
{
    if count <= 0 || count > list.len() {
        Seq::empty()
    } else if usable[count - 1] {
        other_cores(list, usable, count - 1)
    } else {
        other_cores(list, usable, count - 1).push(list[count - 1])
    }
}

/// The candidates, those whose counters work first.
pub open spec fn preferred(list: Seq<usize>, usable: Seq<bool>) -> Seq<usize> {
    usable_cores(list, usable, list.len() as int) + other_cores(list, usable, list.len() as int)
}

/// The first of a list, as many as wanted; all of them where none is wanted.
pub open spec fn at_most(list: Seq<usize>, count: usize) -> Seq<usize> {
    if 0 < count < list.len() {
        list.take(count as int)
    } else {
        list
    }
}

/// Chooses processors for a number of workers: those whose counters work
/// first, as many as there are workers.
pub fn choose_concurrent_pin_cores(candidate_ids: &Vec<usize>, usable: &Vec<bool>, count: usize) -> (r:
    Vec<usize>)
    requires
        usable@.len() == candidate_ids@.len(),
    ensures
        r@ == at_most(preferred(candidate_ids@, usable@), count),
{
    let ghost list = candidate_ids@;
    let ghost flags = usable@;
    let ghost all = preferred(list, flags);
    let ghost working = usable_cores(list, flags, list.len() as int);
    let mut r: Vec<usize> = Vec::new();
    let mut i: usize = 0;
    while i < candidate_ids.len()
        invariant
            i <= candidate_ids@.len(),
            usable@.len() == candidate_ids@.len(),
            list == candidate_ids@,
            flags == usable@,
            all == preferred(list, flags),
            r@ == usable_cores(list, flags, i as int),
            r@.len() < count || count == 0,
        decreases candidate_ids@.len() - i,
    {
        if usable[i] {
            r.push(candidate_ids[i]);
            if r.len() == count {
                proof {
                    usable_is_front(list, flags, i + 1, list.len() as int);
                    assert(r@ =~= all.take(count as int));
                    if count >= all.len() {
                        assert(all.take(count as int) =~= all);
                    }
                }
                return r;
            }
        }
        i += 1;
    }
    let mut j: usize = 0;
    assert(r@ =~= working + other_cores(list, flags, 0));
    while j < candidate_ids.len()
        invariant
            j <= candidate_ids@.len(),
            usable@.len() == candidate_ids@.len(),
            list == candidate_ids@,
            flags == usable@,
            all == preferred(list, flags),
            working == usable_cores(list, flags, list.len() as int),
            r@ == working + other_cores(list, flags, j as int),
            r@.len() < count || count == 0,
        decreases candidate_ids@.len() - j,
    {
        if !usable[j] {
            r.push(candidate_ids[j]);
            assert(r@ =~= working + other_cores(list, flags, j + 1));
            if r.len() == count {
                proof {
                    other_is_front(list, flags, j + 1, list.len() as int);
                    assert(r@ =~= all.take(count as int));
                    if count >= all.len() {
                        assert(all.take(count as int) =~= all);
                    }
                }
                return r;
            }
        }
        j += 1;
    }
    r
}

proof fn usable_is_front(list: Seq<usize>, usable: Seq<bool>, i: int, n: int)
    requires
        0 <= i <= n <= list.len(),
    ensures
        usable_cores(list, usable, i).len() <= usable_cores(list, usable, n).len(),
        usable_cores(list, usable, n).take(usable_cores(list, usable, i).len() as int)
            == usable_cores(list, usable, i),
    decreases n,
{
    let front = usable_cores(list, usable, i);
    if i < n {
        usable_is_front(list, usable, i, n - 1);
        assert(usable_cores(list, usable, n).take(front.len() as int) =~= usable_cores(
            list,
            usable,
            n - 1,
        ).take(front.len() as int));
    } else {
        assert(front.take(front.len() as int) =~= front);
    }
}

proof fn other_is_front(list: Seq<usize>, usable: Seq<bool>, i: int, n: int)
    requires
        0 <= i <= n <= list.len(),
    ensures
        other_cores(list, usable, i).len() <= other_cores(list, usable, n).len(),
        other_cores(list, usable, n).take(other_cores(list, usable, i).len() as int)
            == other_cores(list, usable, i),
    decreases n,
{
    let front = other_cores(list, usable, i);
    if i < n {
        other_is_front(list, usable, i, n - 1);
        assert(other_cores(list, usable, n).take(front.len() as int) =~= other_cores(
            list,
            usable,
            n - 1,
        ).take(front.len() as int));
    } else {
        assert(front.take(front.len() as int) =~= front);
    }
}

/// What is said where a thread cannot be pinned.
pub fn pin_warning(context: &str, core_id: usize, error: &str) -> (r: String)
    ensures
        r@ == "Could not pin "@ + context@ + " to core "@ + text::decimal(core_id as nat) + ": "@
            + error@ + ". Continuing without pinning"@,
{
    let mut r = "Could not pin ".to_owned();
    r.append(context);
    r.append(" to core ");
    r.append(text::decimal_text(core_id as u64).as_str());
    r.append(": ");
    r.append(error);
    r.append(". Continuing without pinning");
    r
}

/// What is said where a worker cannot be pinned.
pub fn worker_pin_warning(thread_index: usize, core_id: usize, error: &str) -> (r: String)
    ensures
        r@ == "Could not pin concurrent benchmark worker "@ + text::decimal(thread_index as nat)
            + " to core "@ + text::decimal(core_id as nat) + ": "@ + error@
            + ". Continuing without worker pinning"@,
{
    let mut r = "Could not pin concurrent benchmark worker ".to_owned();
    r.append(text::decimal_text(thread_index as u64).as_str());
    r.append(" to core ");
    r.append(text::decimal_text(core_id as u64).as_str());
    r.append(": ");
    r.append(error);
    r.append(". Continuing without worker pinning");
    r
}

/// What is said where the cores of a thread cannot be told.
pub fn capture_warning(error: &str) -> (r: String)
    ensures
        r@ == "Could not capture existing benchmark thread affinity: "@ + error@
            + ". Continuing with best effort pinning"@,
{
    let mut r = "Could not capture existing benchmark thread affinity: ".to_owned();
    r.append(error);
    r.append(". Continuing with best effort pinning");
    r
}

/// What is said where there is no core to pin a thread to.
pub fn no_core_warning() -> (r: &'static str)
    ensures
        r@ == "No logical cores detected for pinning; benchmark will run without CPU pinning"@,
{
    "No logical cores detected for pinning; benchmark will run without CPU pinning"
}

/// What is said where a thread does not get its cores back.
pub fn restore_warning(error: &str) -> (r: String)
    ensures
        r@ == "Could not restore benchmark thread affinity after run: "@ + error@,
{
    let mut r = "Could not restore benchmark thread affinity after run: ".to_owned();
    r.append(error);
    r
}

/// A warning about pinning as it is shown.
pub fn affinity_warning(message: &str) -> (r: String)
    ensures
        r@ == "⚠️  "@ + message@,
{
    let mut r = "⚠️  ".to_owned();
    r.append(message);
    r
}

} // verus!
