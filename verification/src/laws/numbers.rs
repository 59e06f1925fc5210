//! Binary64 numbers: what their patterns say about their order.
use crate::double;
use crate::double::{
    finite, finite_nonnegative, keep_finite, sort_numbers, tukey_outlier_count, DoubleBits,
};
use vstd::prelude::*;

verus! {

/// Of two numbers that are not negative the one with the smaller pattern is
/// smaller; of two negative ones the one with the larger pattern; a negative
/// number is smaller than one that is not, but for the two zeros; and a pattern
/// above that of infinity is smaller than nothing.
pub proof fn patterns_give_the_order(a: DoubleBits, b: DoubleBits, less: bool)
    requires
        call_ensures(DoubleBits::lt, (a, b), less),
    ensures
        a.bits <= 0x7ff0_0000_0000_0000 && b.bits <= 0x7ff0_0000_0000_0000 ==> less == (a.bits
            < b.bits),
        0x8000_0000_0000_0000 <= a.bits <= 0xfff0_0000_0000_0000 && 0x8000_0000_0000_0000 <= b.bits
            <= 0xfff0_0000_0000_0000 ==> less == (b.bits < a.bits),
        0x8000_0000_0000_0000 <= a.bits <= 0xfff0_0000_0000_0000 && b.bits <= 0x7ff0_0000_0000_0000
            ==> less == (a.bits != 0x8000_0000_0000_0000 || b.bits != 0),
        a.bits <= 0x7ff0_0000_0000_0000 && b.bits >= 0x8000_0000_0000_0000 ==> !less,
        0x7ff0_0000_0000_0000 < a.bits < 0x8000_0000_0000_0000 ==> !less,
        0x7ff0_0000_0000_0000 < b.bits < 0x8000_0000_0000_0000 ==> !less,
        a.bits > 0xfff0_0000_0000_0000 ==> !less,
        b.bits > 0xfff0_0000_0000_0000 ==> !less,
        less == a.below(b),
{
}

/// The four comparisons are four sides of one order.
pub proof fn comparisons_belong_together(
    a: DoubleBits,
    b: DoubleBits,
    lt: bool,
    le: bool,
    gt: bool,
    ge: bool,
)
    requires
        call_ensures(DoubleBits::lt, (a, b), lt),
        call_ensures(DoubleBits::le, (a, b), le),
        call_ensures(DoubleBits::gt, (a, b), gt),
        call_ensures(DoubleBits::ge, (a, b), ge),
    ensures
        lt ==> le && !gt && !ge,
        gt ==> ge && !lt && !le,
        le == a.at_most(b),
        ge == b.at_most(a),
        a.nan() || b.nan() ==> !le && !ge,
        !a.nan() && !b.nan() ==> le == !gt && ge == !lt,
        a == b && !a.nan() ==> le && ge,
{
}

/// A number is finite where the eleven bits behind the sign are not all set, and
/// no number where they are and others are too.
pub proof fn patterns_give_the_kind(a: DoubleBits, is_finite: bool, is_nan: bool, is_zero: bool)
    requires
        call_ensures(DoubleBits::is_finite, (a,), is_finite),
        call_ensures(DoubleBits::is_nan, (a,), is_nan),
        call_ensures(DoubleBits::is_zero, (a,), is_zero),
    ensures
        is_finite == (a.bits < 0x7ff0_0000_0000_0000 || 0x8000_0000_0000_0000 <= a.bits
            < 0xfff0_0000_0000_0000),
        is_nan == (0x7ff0_0000_0000_0000 < a.bits < 0x8000_0000_0000_0000 || a.bits
            > 0xfff0_0000_0000_0000),
        is_zero == (a.bits == 0 || a.bits == 0x8000_0000_0000_0000),
        is_finite == a.finite(),
        is_nan == a.nan(),
{
}

/// The sign is the topmost bit: taking it off and turning it round leave the
/// rest of the pattern.
pub proof fn signs_are_one_bit(a: DoubleBits, absolute: DoubleBits, negated: DoubleBits)
    requires
        call_ensures(DoubleBits::abs, (a,), absolute),
        call_ensures(DoubleBits::neg, (a,), negated),
    ensures
        absolute.bits == a.bits || absolute.bits + 0x8000_0000_0000_0000 == a.bits,
        absolute.bits < 0x8000_0000_0000_0000,
        negated.bits == a.bits + 0x8000_0000_0000_0000 || negated.bits + 0x8000_0000_0000_0000
            == a.bits,
        negated == a.negated(),
{
}

/// Sorted numbers are the same numbers, the negative ones first, and no number
/// in front of a smaller one.
pub proof fn sorting_sorts(values: &Vec<DoubleBits>, sorted: Vec<DoubleBits>)
    requires
        call_ensures(sort_numbers, (values,), sorted),
    ensures
        sorted@.to_multiset() == values@.to_multiset(),
        sorted@.len() == values@.len(),
        forall|i: int, j: int|
            0 <= i < j < sorted@.len() ==> !(#[trigger] sorted@[j]).below(#[trigger] sorted@[i]),
        forall|i: int, j: int|
            0 <= i < j < sorted@.len() && (#[trigger] sorted@[j]).bits >= 0x8000_0000_0000_0000
                ==> (#[trigger] sorted@[i]).bits >= sorted@[j].bits,
        forall|i: int, j: int|
            0 <= i < j < sorted@.len() && (#[trigger] sorted@[i]).bits < 0x8000_0000_0000_0000
                ==> sorted@[i].bits <= (#[trigger] sorted@[j]).bits < 0x8000_0000_0000_0000,
{
    double::ordered_is_sorted(values@);
    assert forall|i: int, j: int| 0 <= i < j < sorted@.len() implies !(
    #[trigger] sorted@[j]).below(#[trigger] sorted@[i]) by {
        assert(sorted@[i].total_rank() <= sorted@[j].total_rank());
    }
    assert forall|i: int, j: int|
        0 <= i < j < sorted@.len() && (#[trigger] sorted@[j]).bits
            >= 0x8000_0000_0000_0000 implies (#[trigger] sorted@[i]).bits >= sorted@[j].bits by {
        assert(sorted@[i].total_rank() <= sorted@[j].total_rank());
    }
    assert forall|i: int, j: int|
        0 <= i < j < sorted@.len() && (#[trigger] sorted@[i]).bits
            < 0x8000_0000_0000_0000 implies sorted@[i].bits <= (#[trigger] sorted@[j]).bits
        < 0x8000_0000_0000_0000 by {
        assert(sorted@[i].total_rank() <= sorted@[j].total_rank());
    }
}

proof fn outside_is_filtered(s: Seq<DoubleBits>, lower: DoubleBits, upper: DoubleBits)
    ensures
        double::outside(s, lower, upper) == s.filter(
            |v: DoubleBits| v.below(lower) || upper.below(v),
        ).len(),
    decreases s.len(),
{
    reveal(Seq::filter);
    if s.len() > 0 {
        outside_is_filtered(s.drop_last(), lower, upper);
    }
}

/// Outliers lie below the lower fence or above the upper one; fewer than four
/// numbers have none.
pub proof fn outliers_lie_outside_the_fences(
    values: &Vec<DoubleBits>,
    lower: DoubleBits,
    upper: DoubleBits,
    count: usize,
)
    requires
        call_ensures(tukey_outlier_count, (values, lower, upper), count),
    ensures
        values@.len() < 4 ==> count == 0,
        values@.len() >= 4 ==> count == values@.filter(
            |v: DoubleBits| v.below(lower) || upper.below(v),
        ).len(),
{
    outside_is_filtered(values@, lower, upper);
}

/// Numbers are kept exactly where they are finite, in the order in which they
/// came.
pub proof fn finite_numbers_are_kept(values: &Vec<DoubleBits>, kept: Vec<DoubleBits>)
    requires
        call_ensures(keep_finite, (values,), kept),
    ensures
        kept@ == values@.filter(
            |v: DoubleBits|
                v.bits < 0x7ff0_0000_0000_0000 || 0x8000_0000_0000_0000 <= v.bits
                    < 0xfff0_0000_0000_0000,
        ),
{
    let f = |v: DoubleBits| v.finite();
    let g = |v: DoubleBits|
        v.bits < 0x7ff0_0000_0000_0000 || 0x8000_0000_0000_0000 <= v.bits < 0xfff0_0000_0000_0000;
    assert(f =~= g);
}

/// A number stands for itself where it is finite, and for nothing elsewhere;
/// where it may not be negative either, minus zero still may.
pub proof fn finite_numbers_stand_for_themselves(
    v: DoubleBits,
    any: Option<DoubleBits>,
    nonnegative: Option<DoubleBits>,
)
    requires
        call_ensures(finite, (v,), any),
        call_ensures(finite_nonnegative, (v,), nonnegative),
    ensures
        any is Some == v.finite(),
        any is Some ==> any->0 == v,
        nonnegative is Some == (v.bits < 0x7ff0_0000_0000_0000 || v.bits == 0x8000_0000_0000_0000),
        nonnegative is Some ==> nonnegative->0 == v,
{
}

} // verus!
