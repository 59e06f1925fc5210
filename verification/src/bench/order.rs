//! The order in which a list of benchmark cases is run.
use vstd::prelude::*;

verus! {

/// The step of the random state from one draw to the next.
pub const STATE_STEP: u64 = 0x9e37_79b9_7f4a_7c15;

const FIRST_MULTIPLIER: u64 = 0xbf58_476d_1ce4_e5b9;

const SECOND_MULTIPLIER: u64 = 0x94d0_49bb_1331_11eb;

/// Deterministic ordering policy for a caller-owned list of benchmark cases.
#[derive(Clone, Copy, Debug, PartialEq, Eq, Structural)]
pub enum BenchmarkCaseOrder {
    Declared,
    Randomized { seed: u64 },
}

impl Default for BenchmarkCaseOrder {
    fn default() -> (r: BenchmarkCaseOrder)
        ensures
            r == BenchmarkCaseOrder::Declared,
    {
        BenchmarkCaseOrder::Declared
    }
}

/// The number drawn at a random state.
pub open spec fn drawn(state: u64) -> u64 {
    let first = (state ^ (state >> 30)).wrapping_mul(0xbf58_476d_1ce4_e5b9);
    let second = (first ^ (first >> 27)).wrapping_mul(0x94d0_49bb_1331_11eb);
    second ^ (second >> 31)
}

fn draw(state: u64) -> (r: u64)
    ensures
        r == drawn(state),
{
    let first: u64 = (state ^ (state >> 30)).wrapping_mul(FIRST_MULTIPLIER);
    let second: u64 = (first ^ (first >> 27)).wrapping_mul(SECOND_MULTIPLIER);
    second ^ (second >> 31)
}

/// The place, no later than `index`, that changes with `index` at a state.
pub open spec fn partner(state: u64, index: int) -> int {
    (drawn(state) as usize) as int % (index + 1)
}

/// Two entries exchanged.
pub open spec fn exchanged(s: Seq<usize>, a: int, b: int) -> Seq<usize> {
    s.update(a, s[b]).update(b, s[a])
}

/// The places from `index` down to 1, each exchanged with the partner drawn
/// after one more step of the state.
pub open spec fn shuffled(s: Seq<usize>, index: int, state: u64) -> Seq<usize>
    decreases index,
{
    if index < 1 {
        s
    } else {
        let next = state.wrapping_add(STATE_STEP);
        shuffled(exchanged(s, index, partner(next, index)), index - 1, next)
    }
}

/// The numbers below `count`, in order.
pub open spec fn declared(count: nat) -> Seq<usize> {
    Seq::new(count, |i: int| i as usize)
}

impl BenchmarkCaseOrder {
    /// The order of `count` cases under this policy.
    pub open spec fn order(self, count: nat) -> Seq<usize> {
        match self {
            BenchmarkCaseOrder::Declared => declared(count),
            BenchmarkCaseOrder::Randomized { seed } => shuffled(declared(count), count - 1, seed),
        }
    }

    /// The indices of the cases in the order in which they should be run. The
    /// same seed and count give the same order, so a run can be repeated.
    pub fn indices(self, case_count: usize) -> (r: Vec<usize>)
        ensures
            r@ == self.order(case_count as nat),
    {
        let mut indices: Vec<usize> = Vec::new();
        let mut i: usize = 0;
        while i < case_count
            invariant
                i <= case_count,
                indices@ == declared(i as nat),
            decreases case_count - i,
        {
            indices.push(i);
            i += 1;
            assert(indices@ =~= declared(i as nat));
        }
        match self {
            BenchmarkCaseOrder::Declared => {},
            BenchmarkCaseOrder::Randomized { seed } => {
                if case_count > 0 {
                    let mut state: u64 = seed;
                    let mut index: usize = case_count - 1;
                    while index >= 1
                        invariant
                            case_count > 0,
                            index < case_count,
                            indices@.len() == case_count,
                            shuffled(indices@, index as int, state) == shuffled(
                                declared(case_count as nat),
                                case_count - 1,
                                seed,
                            ),
                        decreases index,
                    {
                        state = state.wrapping_add(STATE_STEP);
                        let value: u64 = draw(state);
                        let other: usize = #[verifier::truncate] (value as usize) % (index + 1);
                        let held: usize = indices[index];
                        let taken: usize = indices[other];
                        indices.set(index, taken);
                        indices.set(other, held);
                        index -= 1;
                    }
                }
            },
        }
        indices
    }
}

/// Each number below the length stands exactly once.
pub open spec fn is_permutation(s: Seq<usize>) -> bool {
    &&& s.no_duplicates()
    &&& forall|i: int| 0 <= i < s.len() ==> #[trigger] s[i] < s.len()
}

proof fn shuffling_permutes(s: Seq<usize>, index: int, state: u64)
    requires
        is_permutation(s),
        index < s.len(),
    ensures
        shuffled(s, index, state).len() == s.len(),
        is_permutation(shuffled(s, index, state)),
    decreases index,
{
    if index >= 1 {
        let next = state.wrapping_add(STATE_STEP);
        let other = partner(next, index);
        assert(0 <= other <= index) by {
            assert(0 <= (drawn(next) as usize) as int % (index + 1) < index + 1) by (nonlinear_arith)
                requires
                    index + 1 > 0,
            ;
        }
        let t = exchanged(s, index, other);
        assert(is_permutation(t));
        shuffling_permutes(t, index - 1, next);
    }
}

/// Every order runs each case exactly once.
pub proof fn order_is_a_permutation(order: BenchmarkCaseOrder, count: nat)
    requires
        count <= usize::MAX,
    ensures
        order.order(count).len() == count,
        is_permutation(order.order(count)),
{
    assert(is_permutation(declared(count)));
    match order {
        BenchmarkCaseOrder::Declared => {},
        BenchmarkCaseOrder::Randomized { seed } => {
            shuffling_permutes(declared(count), count - 1, seed);
        },
    }
}

/// The declared order is the identity.
pub proof fn declared_order_is_identity(count: nat, i: int)
    requires
        0 <= i < count <= usize::MAX,
    ensures
        BenchmarkCaseOrder::Declared.order(count)[i] == i,
{
}

} // verus!
