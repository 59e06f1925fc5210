//! Binary64 numbers held by their bit pattern, and how they compare.
use vstd::prelude::*;

verus! {

/// The sign bit of a binary64 pattern.
pub const SIGN_BIT: u64 = 0x8000_0000_0000_0000;

/// The pattern of positive infinity; larger magnitudes are not numbers.
pub const INFINITY_BITS: u64 = 0x7ff0_0000_0000_0000;

/// An IEEE 754 binary64 number, as its bit pattern.
#[derive(Clone, Copy, Debug, PartialEq, Eq, Structural)]
pub struct DoubleBits {
    pub bits: u64,
}

impl DoubleBits {
    /// The pattern without its sign.
    pub open spec fn magnitude(self) -> int {
        if self.bits >= SIGN_BIT {
            self.bits - SIGN_BIT
        } else {
            self.bits as int
        }
    }

    pub open spec fn negative(self) -> bool {
        self.bits >= SIGN_BIT
    }

    pub open spec fn nan(self) -> bool {
        self.magnitude() > INFINITY_BITS
    }

    pub open spec fn finite(self) -> bool {
        self.magnitude() < INFINITY_BITS
    }

    pub open spec fn zero(self) -> bool {
        self.magnitude() == 0
    }

    /// An integer that orders the numbers as their values do; both zeros
    /// have the rank 0.
    pub open spec fn rank(self) -> int {
        if self.negative() {
            -self.magnitude()
        } else {
            self.magnitude()
        }
    }

    /// The IEEE order: false when either side is not a number.
    pub open spec fn below(self, other: DoubleBits) -> bool {
        !self.nan() && !other.nan() && self.rank() < other.rank()
    }

    pub open spec fn at_most(self, other: DoubleBits) -> bool {
        !self.nan() && !other.nan() && self.rank() <= other.rank()
    }

    pub open spec fn equals(self, other: DoubleBits) -> bool {
        !self.nan() && !other.nan() && self.rank() == other.rank()
    }

    pub open spec fn absolute(self) -> DoubleBits {
        DoubleBits { bits: self.magnitude() as u64 }
    }

    pub open spec fn negated(self) -> DoubleBits {
        if self.negative() {
            DoubleBits { bits: (self.bits - SIGN_BIT) as u64 }
        } else {
            DoubleBits { bits: (self.bits + SIGN_BIT) as u64 }
        }
    }

    /// An integer that puts every pattern in the IEEE total order: negative
    /// patterns that are not numbers first, then the numbers with -0 before 0,
    /// then positive patterns that are not numbers.
    pub open spec fn total_rank(self) -> int {
        if self.negative() {
            -self.magnitude() - 1
        } else {
            self.magnitude()
        }
    }

    pub fn from_bits(bits: u64) -> (r: DoubleBits)
        ensures
            r.bits == bits,
    {
        DoubleBits { bits }
    }

    pub fn to_bits(self) -> (r: u64)
        ensures
            r == self.bits,
    {
        self.bits
    }

    fn magnitude_bits(self) -> (r: u64)
        ensures
            r == self.magnitude(),
    {
        if self.bits >= SIGN_BIT {
            self.bits - SIGN_BIT
        } else {
            self.bits
        }
    }

    pub fn is_nan(self) -> (r: bool)
        ensures
            r == self.nan(),
    {
        self.magnitude_bits() > INFINITY_BITS
    }

    pub fn is_finite(self) -> (r: bool)
        ensures
            r == self.finite(),
    {
        self.magnitude_bits() < INFINITY_BITS
    }

    pub fn is_zero(self) -> (r: bool)
        ensures
            r == self.zero(),
    {
        self.magnitude_bits() == 0
    }

    /// `self < other` of binary64 numbers.
    pub fn lt(self, other: DoubleBits) -> (r: bool)
        ensures
            r == self.below(other),
    {
        if self.is_nan() || other.is_nan() {
            return false;
        }
        let a: u64 = self.magnitude_bits();
        let b: u64 = other.magnitude_bits();
        if self.bits >= SIGN_BIT {
            if other.bits >= SIGN_BIT {
                b < a
            } else {
                a > 0 || b > 0
            }
        } else if other.bits >= SIGN_BIT {
            false
        } else {
            a < b
        }
    }

    /// `self <= other` of binary64 numbers.
    pub fn le(self, other: DoubleBits) -> (r: bool)
        ensures
            r == self.at_most(other),
    {
        !self.is_nan() && !other.is_nan() && !other.lt(self)
    }

    /// `self > other` of binary64 numbers.
    pub fn gt(self, other: DoubleBits) -> (r: bool)
        ensures
            r == other.below(self),
    {
        other.lt(self)
    }

    /// `self >= other` of binary64 numbers.
    pub fn ge(self, other: DoubleBits) -> (r: bool)
        ensures
            r == other.at_most(self),
    {
        other.le(self)
    }

    /// The number without its sign.
    pub fn abs(self) -> (r: DoubleBits)
        ensures
            r == self.absolute(),
    {
        DoubleBits { bits: self.magnitude_bits() }
    }

    /// The number with the opposite sign.
    pub fn neg(self) -> (r: DoubleBits)
        ensures
            r == self.negated(),
    {
        if self.bits >= SIGN_BIT {
            DoubleBits { bits: self.bits - SIGN_BIT }
        } else {
            DoubleBits { bits: self.bits + SIGN_BIT }
        }
    }

    /// Whether `self` stands before `other` in the total order.
    pub fn total_before(self, other: DoubleBits) -> (r: bool)
        ensures
            r == (self.total_rank() < other.total_rank()),
    {
        if self.bits >= SIGN_BIT {
            if other.bits >= SIGN_BIT {
                other.bits < self.bits
            } else {
                true
            }
        } else if other.bits >= SIGN_BIT {
            false
        } else {
            self.bits < other.bits
        }
    }
}

/// The IEEE order is a strict order, and on numbers it is total up to the two zeros.
pub proof fn below_is_strict(a: DoubleBits, b: DoubleBits, c: DoubleBits)
    ensures
        !a.below(a),
        a.below(b) ==> !b.below(a),
        a.below(b) && b.below(c) ==> a.below(c),
        !a.nan() && !b.nan() ==> a.below(b) || b.below(a) || a.equals(b),
        a.nan() ==> !a.below(b) && !b.below(a) && !a.equals(b),
{
}

/// Negation turns the order round and is its own inverse.
pub proof fn negation_reverses(a: DoubleBits, b: DoubleBits)
    ensures
        a.below(b) == b.negated().below(a.negated()),
        a.negated().negated() == a,
        a.finite() == a.negated().finite(),
{
}

/// Two different patterns never share a place in the total order.
pub proof fn total_rank_is_injective(a: DoubleBits, b: DoubleBits)
    ensures
        a.total_rank() == b.total_rank() ==> a == b,
{
}

/// The total order of bit patterns.
pub open spec fn total_order() -> spec_fn(DoubleBits, DoubleBits) -> bool {
    |a: DoubleBits, b: DoubleBits| a.total_rank() <= b.total_rank()
}

/// The same numbers in the total order.
pub open spec fn ordered(s: Seq<DoubleBits>) -> Seq<DoubleBits> {
    s.sort_by(total_order())
}

proof fn total_order_is_total()
    ensures
        vstd::relations::total_ordering(total_order()),
{
}

/// Sorting loses and adds no number, and puts none before a smaller one.
pub proof fn ordered_is_sorted(s: Seq<DoubleBits>)
    ensures
        ordered(s).to_multiset() == s.to_multiset(),
        ordered(s).len() == s.len(),
        forall|i: int, j: int|
            0 <= i < j < s.len() ==> (#[trigger] ordered(s)[i]).total_rank() <= (
            #[trigger] ordered(s)[j]).total_rank(),
{
    broadcast use vstd::seq_lib::group_to_multiset_ensures;

    total_order_is_total();
    s.lemma_sort_by_ensures(total_order());
    assert(ordered(s).to_multiset().len() == s.to_multiset().len());
    assert forall|i: int, j: int| 0 <= i < j < s.len() implies (
    #[trigger] ordered(s)[i]).total_rank() <= (#[trigger] ordered(s)[j]).total_rank() by {
        assert(total_order()(ordered(s)[i], ordered(s)[j]));
    }
}

/// The numbers in the total order.
pub fn sort_numbers(values: &Vec<DoubleBits>) -> (r: Vec<DoubleBits>)
    ensures
        r@ == ordered(values@),
{
    broadcast use vstd::seq_lib::group_to_multiset_ensures;

    let mut r: Vec<DoubleBits> = Vec::new();
    let mut i: usize = 0;
    assert(values@.take(0) =~= Seq::empty());
    while i < values.len()
        invariant
            i <= values.len(),
            r@.to_multiset() == values@.take(i as int).to_multiset(),
            forall|a: int, b: int|
                0 <= a < b < r@.len() ==> (#[trigger] r@[a]).total_rank() <= (
                #[trigger] r@[b]).total_rank(),
        decreases values.len() - i,
    {
        let value = values[i];
        let mut at: usize = r.len();
        while at > 0 && value.total_before(r[at - 1])
            invariant
                at <= r.len(),
                forall|a: int, b: int|
                    0 <= a < b < r@.len() ==> (#[trigger] r@[a]).total_rank() <= (
                    #[trigger] r@[b]).total_rank(),
                forall|b: int| at <= b < r@.len() ==> value.total_rank() < (
                #[trigger] r@[b]).total_rank(),
            decreases at,
        {
            at -= 1;
        }
        proof {
            vstd::seq_lib::to_multiset_insert(r@, at as int, value);
            vstd::seq_lib::to_multiset_build(values@.take(i as int), value);
            assert(values@.take(i + 1) =~= values@.take(i as int).push(value));
        }
        r.insert(at, value);
        i += 1;
    }
    assert(values@.take(values@.len() as int) =~= values@);
    proof {
        total_order_is_total();
        values@.lemma_sort_by_ensures(total_order());
        assert(vstd::relations::sorted_by(r@, total_order()));
        vstd::seq_lib::lemma_sorted_unique(r@, ordered(values@), total_order());
    }
    r
}

/// How many numbers of a list lie below `lower` or above `upper`.
pub open spec fn outside(s: Seq<DoubleBits>, lower: DoubleBits, upper: DoubleBits) -> nat
    decreases s.len(),
{
    if s.len() == 0 {
        0
    } else {
        outside(s.drop_last(), lower, upper) + if s.last().below(lower) || upper.below(s.last()) {
            1nat
        } else {
            0
        }
    }
}

/// Outliers by fences: none among fewer than four numbers.
pub open spec fn outliers(s: Seq<DoubleBits>, lower: DoubleBits, upper: DoubleBits) -> nat {
    if s.len() < 4 {
        0
    } else {
        outside(s, lower, upper)
    }
}

proof fn outside_is_bounded(s: Seq<DoubleBits>, lower: DoubleBits, upper: DoubleBits)
    ensures
        outside(s, lower, upper) <= s.len(),
    decreases s.len(),
{
    if s.len() > 0 {
        outside_is_bounded(s.drop_last(), lower, upper);
    }
}

/// There are never more outliers than numbers.
pub proof fn outliers_are_bounded(s: Seq<DoubleBits>, lower: DoubleBits, upper: DoubleBits)
    ensures
        outliers(s, lower, upper) <= s.len(),
{
    outside_is_bounded(s, lower, upper);
}

/// The outliers of a list, given its Tukey fences.
pub fn tukey_outlier_count(values: &Vec<DoubleBits>, lower: DoubleBits, upper: DoubleBits) -> (r:
    usize)
    ensures
        r == outliers(values@, lower, upper),
{
    if values.len() < 4 {
        return 0;
    }
    let mut count: usize = 0;
    let mut i: usize = 0;
    while i < values.len()
        invariant
            i <= values.len(),
            count <= i,
            count == outside(values@.take(i as int), lower, upper),
        decreases values.len() - i,
    {
        assert(values@.take(i + 1).drop_last() =~= values@.take(i as int));
        if values[i].lt(lower) || values[i].gt(upper) {
            count += 1;
        }
        i += 1;
    }
    assert(values@.take(values@.len() as int) =~= values@);
    count
}

/// The numbers of a list that are finite, in order.
pub open spec fn finite_only(s: Seq<DoubleBits>) -> Seq<DoubleBits> {
    s.filter(|v: DoubleBits| v.finite())
}

pub fn keep_finite(values: &Vec<DoubleBits>) -> (r: Vec<DoubleBits>)
    ensures
        r@ == finite_only(values@),
{
    reveal(Seq::filter);
    let mut r: Vec<DoubleBits> = Vec::new();
    let mut i: usize = 0;
    while i < values.len()
        invariant
            i <= values.len(),
            r@ == finite_only(values@.take(i as int)),
        decreases values.len() - i,
    {
        reveal(Seq::filter);
        assert(values@.take(i + 1).drop_last() =~= values@.take(i as int));
        if values[i].is_finite() {
            r.push(values[i]);
        }
        i += 1;
    }
    assert(values@.take(values@.len() as int) =~= values@);
    r
}

/// A number if it is finite.
pub open spec fn finite_or_none(v: DoubleBits) -> Option<DoubleBits> {
    if v.finite() {
        Some(v)
    } else {
        None
    }
}

pub fn finite(v: DoubleBits) -> (r: Option<DoubleBits>)
    ensures
        r == finite_or_none(v),
{
    if v.is_finite() {
        Some(v)
    } else {
        None
    }
}

/// A number if it is finite and not negative.
pub open spec fn finite_nonnegative_or_none(v: DoubleBits) -> Option<DoubleBits> {
    if v.finite() && v.rank() >= 0 {
        Some(v)
    } else {
        None
    }
}

pub fn finite_nonnegative(v: DoubleBits) -> (r: Option<DoubleBits>)
    ensures
        r == finite_nonnegative_or_none(v),
{
    if v.is_finite() && v.ge(DoubleBits { bits: 0 }) {
        Some(v)
    } else {
        None
    }
}

/// Whether two lists hold the same numbers in the same order.
pub fn same_numbers(a: &Vec<DoubleBits>, b: &Vec<DoubleBits>) -> (r: bool)
    ensures
        r == (a@ == b@),
{
    if a.len() != b.len() {
        return false;
    }
    let mut i: usize = 0;
    while i < a.len()
        invariant
            i <= a.len(),
            a@.len() == b@.len(),
            forall|j: int| 0 <= j < i ==> #[trigger] a@[j] == b@[j],
        decreases a.len() - i,
    {
        if a[i] != b[i] {
            return false;
        }
        i += 1;
    }
    assert(a@ =~= b@);
    true
}

/// A copy of a list of numbers.
pub fn clone_numbers(values: &Vec<DoubleBits>) -> (r: Vec<DoubleBits>)
    ensures
        r@ == values@,
{
    let mut r: Vec<DoubleBits> = Vec::new();
    let mut i: usize = 0;
    while i < values.len()
        invariant
            i <= values.len(),
            r@ == values@.take(i as int),
        decreases values.len() - i,
    {
        r.push(values[i]);
        i += 1;
        assert(r@ =~= values@.take(i as int));
    }
    assert(values@.take(values@.len() as int) =~= values@);
    r
}

} // verus!
