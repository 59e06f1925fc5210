//! Rates of work and lengths of time.
use crate::bench::throughput;
use crate::bench::throughput::{rate_scale, RateScale, Throughput};
use crate::double::DoubleBits;
use crate::numbers::{NumberStyle, NumberTexts};
use crate::time::Nanos;
use vstd::prelude::*;

verus! {

/// A rate is written in the largest of the thousands steps that it reaches. The
/// bounds are the patterns of a thousand, a million and a billion; a rate that
/// is not a number, not finite or not above zero has no scale.
pub proof fn rates_are_scaled_by_thousands(rate: DoubleBits, r: RateScale)
    requires
        call_ensures(rate_scale, (rate,), r),
    ensures
        rate.bits == 0 || rate.bits >= 0x7ff0_0000_0000_0000 <==> r is Unavailable,
        0 < rate.bits < 0x408f_4000_0000_0000 <==> r is One,
        0x408f_4000_0000_0000 <= rate.bits < 0x412e_8480_0000_0000 <==> r is Thousand,
        0x412e_8480_0000_0000 <= rate.bits < 0x41cd_cd65_0000_0000 <==> r is Million,
        0x41cd_cd65_0000_0000 <= rate.bits < 0x7ff0_0000_0000_0000 <==> r is Billion,
{
}

/// A scale divides by its power of a thousand.
pub proof fn scales_divide_by_their_power(scale: RateScale, r: u64)
    requires
        call_ensures(RateScale::divisor, (scale,), r),
    ensures
        scale is Unavailable || scale is One <==> r == 1,
        scale is Thousand <==> r == 1_000,
        scale is Million <==> r == 1_000_000,
        scale is Billion <==> r == 1_000_000_000,
{
}

/// A rate is written with the prefix of its scale, its unit, and per second.
pub proof fn rates_are_written_with_their_unit(
    per: Throughput,
    rate: DoubleBits,
    numbers: NumberTexts,
    r: String,
)
    requires
        call_ensures(Throughput::format_rate, (&per, rate, &numbers), r),
    ensures
        rate.bits == 0 || rate.bits >= 0x7ff0_0000_0000_0000 ==> r@ == "n/a"@,
        0 < rate.bits < 0x408f_4000_0000_0000 ==> r@ == numbers.spec_text(rate, NumberStyle::Rate)
            + " "@ + ""@ + per.unit_text() + "/s"@,
        0x408f_4000_0000_0000 <= rate.bits < 0x412e_8480_0000_0000 ==> r@ == numbers.spec_text(
            rate,
            NumberStyle::Rate,
        ) + " "@ + "k"@ + per.unit_text() + "/s"@,
        0x412e_8480_0000_0000 <= rate.bits < 0x41cd_cd65_0000_0000 ==> r@ == numbers.spec_text(
            rate,
            NumberStyle::Rate,
        ) + " "@ + "M"@ + per.unit_text() + "/s"@,
        0x41cd_cd65_0000_0000 <= rate.bits < 0x7ff0_0000_0000_0000 ==> r@ == numbers.spec_text(
            rate,
            NumberStyle::Rate,
        ) + " "@ + "G"@ + per.unit_text() + "/s"@,
{
}

/// A throughput gives back the amount and the unit that it was made with.
pub proof fn throughputs_keep_amount_and_unit(
    amount: u64,
    unit: String,
    per: Throughput,
    kept: u64,
    name: &str,
)
    requires
        call_ensures(Throughput::per_operation, (amount, unit), per) || call_ensures(
            Throughput::persisted,
            (amount, unit),
            per,
        ),
        call_ensures(Throughput::amount_per_operation, (&per,), kept),
        call_ensures(Throughput::unit, (&per,), name),
    ensures
        kept == amount,
        name@ == unit@,
{
}

/// Bytes are counted in bytes, operations one by one; operations are the default.
pub proof fn known_throughputs_have_their_units(
    amount: u64,
    bytes: Throughput,
    ops: Throughput,
    usual: Throughput,
    kept: u64,
    name: &str,
    one: u64,
    ops_name: &str,
    same: bool,
)
    requires
        call_ensures(Throughput::bytes, (amount,), bytes),
        call_ensures(Throughput::amount_per_operation, (&bytes,), kept),
        call_ensures(Throughput::unit, (&bytes,), name),
        call_ensures(Throughput::ops, (), ops),
        call_ensures(Throughput::amount_per_operation, (&ops,), one),
        call_ensures(Throughput::unit, (&ops,), ops_name),
        call_ensures(<Throughput as Default>::default, (), usual),
        call_ensures(Throughput::same, (&usual, &ops), same),
    ensures
        kept == amount,
        name@ == "bytes"@,
        one == 1,
        ops_name@ == "ops"@,
        same,
{
}

/// Two throughputs are the same exactly where their amounts and units are.
pub proof fn sameness_is_amount_and_unit(
    a: Throughput,
    b: Throughput,
    amount_a: u64,
    amount_b: u64,
    unit_a: &str,
    unit_b: &str,
    same: bool,
)
    requires
        call_ensures(Throughput::amount_per_operation, (&a,), amount_a),
        call_ensures(Throughput::amount_per_operation, (&b,), amount_b),
        call_ensures(Throughput::unit, (&a,), unit_a),
        call_ensures(Throughput::unit, (&b,), unit_b),
        call_ensures(Throughput::same, (&a, &b), same),
    ensures
        same <==> amount_a == amount_b && unit_a@ == unit_b@,
{
}

/// Seconds, milliseconds and nanoseconds of one length of time agree.
pub proof fn units_of_time_agree(
    secs: u64,
    by_secs: Nanos,
    millis: u64,
    by_millis: Nanos,
    nanos: u64,
    by_nanos: Nanos,
    whole: u128,
)
    requires
        call_ensures(Nanos::from_secs, (secs,), by_secs),
        call_ensures(Nanos::from_millis, (millis,), by_millis),
        call_ensures(Nanos::from_nanos, (nanos,), by_nanos),
        call_ensures(Nanos::as_millis, (by_millis,), whole),
    ensures
        by_secs.count == secs * 1_000_000_000,
        by_millis.count == millis * 1_000_000,
        by_nanos.count == nanos,
        whole == millis,
        millis == 1_000 * secs ==> by_millis == by_secs,
{
}

/// Milliseconds are counted whole: what is left over is less than one.
pub proof fn milliseconds_are_rounded_down(time: Nanos, r: u128)
    requires
        call_ensures(Nanos::as_millis, (time,), r),
    ensures
        r * 1_000_000 <= time.count < (r + 1) * 1_000_000,
{
}

/// The time left until a moment reaches from now to it, and is none once it has
/// passed.
pub proof fn time_left_reaches_the_moment(moment: Nanos, now: Nanos, left: Nanos)
    requires
        call_ensures(Nanos::saturating_since, (moment, now), left),
    ensures
        now.count <= moment.count ==> now.count + left.count == moment.count,
        now.count >= moment.count ==> left.count == 0,
{
}

} // verus!
