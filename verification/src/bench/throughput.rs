//! What a benchmark counts as its output, and how rates of it are written.
use crate::double::DoubleBits;
use crate::numbers::{NumberStyle, NumberTexts};
use crate::text;
use vstd::prelude::*;

verus! {

/// An amount of some unit that each operation brings about.
#[derive(Debug)]
pub struct Throughput {
    amount_per_operation: u64,
    unit: String,
}

/// How a rate is scaled before it is written.
#[derive(Clone, Copy, Debug, PartialEq, Eq, Structural)]
pub enum RateScale {
    /// The rate cannot be written.
    Unavailable,
    One,
    Thousand,
    Million,
    Billion,
}

/// The bit patterns of the rates at which the scale changes.
pub const THOUSAND_BITS: u64 = 0x408f_4000_0000_0000;

pub const MILLION_BITS: u64 = 0x412e_8480_0000_0000;

pub const BILLION_BITS: u64 = 0x41cd_cd65_0000_0000;

impl RateScale {
    /// The letter in front of the unit.
    pub open spec fn prefix(self) -> Seq<char> {
        match self {
            RateScale::Billion => "G"@,
            RateScale::Million => "M"@,
            RateScale::Thousand => "k"@,
            _ => ""@,
        }
    }

    /// The number by which the rate is divided.
    pub open spec fn divisor_value(self) -> u64 {
        match self {
            RateScale::Billion => 1_000_000_000,
            RateScale::Million => 1_000_000,
            RateScale::Thousand => 1_000,
            _ => 1,
        }
    }

    pub fn divisor(self) -> (r: u64)
        ensures
            r == self.divisor_value(),
    {
        match self {
            RateScale::Billion => 1_000_000_000,
            RateScale::Million => 1_000_000,
            RateScale::Thousand => 1_000,
            _ => 1,
        }
    }
}

/// The scale of a rate: none for a rate that is not a positive finite number.
pub open spec fn scale_of(rate: DoubleBits) -> RateScale {
    if !rate.finite() || rate.rank() <= 0 {
        RateScale::Unavailable
    } else if rate.bits >= BILLION_BITS {
        RateScale::Billion
    } else if rate.bits >= MILLION_BITS {
        RateScale::Million
    } else if rate.bits >= THOUSAND_BITS {
        RateScale::Thousand
    } else {
        RateScale::One
    }
}

pub fn rate_scale(rate: DoubleBits) -> (r: RateScale)
    ensures
        r == scale_of(rate),
{
    if !rate.is_finite() || rate.le(DoubleBits { bits: 0 }) {
        RateScale::Unavailable
    } else if rate.ge(DoubleBits { bits: BILLION_BITS }) {
        RateScale::Billion
    } else if rate.ge(DoubleBits { bits: MILLION_BITS }) {
        RateScale::Million
    } else if rate.ge(DoubleBits { bits: THOUSAND_BITS }) {
        RateScale::Thousand
    } else {
        RateScale::One
    }
}

/// A rate as text: the scaled number, the prefix and the unit, per second.
pub open spec fn rate_text(scale: RateScale, scaled: Seq<char>, unit: Seq<char>) -> Seq<char> {
    if scale == RateScale::Unavailable {
        "n/a"@
    } else {
        scaled + " "@ + scale.prefix() + unit + "/s"@
    }
}

impl Throughput {
    /// The amount that one operation brings about.
    pub closed spec fn amount(&self) -> u64 {
        self.amount_per_operation
    }

    /// The unit of the amount.
    pub closed spec fn unit_text(&self) -> Seq<char> {
        self.unit@
    }

    pub fn per_operation(amount_per_operation: u64, unit: String) -> (r: Throughput)
        requires
            amount_per_operation > 0,
            !text::blank(unit@),
        ensures
            r.amount() == amount_per_operation,
            r.unit_text() == unit@,
    {
        Throughput { amount_per_operation, unit }
    }

    pub fn bytes(bytes_per_operation: u64) -> (r: Throughput)
        requires
            bytes_per_operation > 0,
        ensures
            r.amount() == bytes_per_operation,
            r.unit_text() == "bytes"@,
    {
        proof {
            reveal_strlit("bytes");
            assert(!text::whitespace("bytes"@[0]));
        }
        Throughput::per_operation(bytes_per_operation, "bytes".to_owned())
    }

    pub fn ops() -> (r: Throughput)
        ensures
            r.amount() == 1,
            r.unit_text() == "ops"@,
    {
        proof {
            reveal_strlit("ops");
            assert(!text::whitespace("ops"@[0]));
        }
        Throughput::per_operation(1, "ops".to_owned())
    }

    pub fn amount_per_operation(&self) -> (r: u64)
        ensures
            r == self.amount(),
    {
        self.amount_per_operation
    }

    pub fn unit(&self) -> (r: &str)
        ensures
            r@ == self.unit_text(),
    {
        self.unit.as_str()
    }

    /// A copy.
    pub fn duplicate(&self) -> (r: Throughput)
        ensures
            r == *self,
    {
        Throughput { amount_per_operation: self.amount_per_operation, unit: self.unit.clone() }
    }

    /// Whether two throughputs are of the same amount of the same unit.
    pub fn same(&self, other: &Throughput) -> (r: bool)
        ensures
            r == (self.amount() == other.amount() && self.unit_text() == other.unit_text()),
    {
        self.amount_per_operation == other.amount_per_operation && text::same(
            self.unit.as_str(),
            other.unit.as_str(),
        )
    }

    /// A rate as text.
    pub open spec fn rate_form(&self, rate: DoubleBits, numbers: &NumberTexts) -> Seq<char> {
        rate_text(scale_of(rate), numbers.spec_text(rate, NumberStyle::Rate), self.unit_text())
    }

    pub fn format_rate(&self, throughput_per_sec: DoubleBits, numbers: &NumberTexts) -> (r: String)
        ensures
            r@ == self.rate_form(throughput_per_sec, numbers),
    {
        let prefix = match rate_scale(throughput_per_sec) {
            RateScale::Unavailable => {
                return "n/a".to_owned();
            },
            RateScale::Billion => "G",
            RateScale::Million => "M",
            RateScale::Thousand => "k",
            RateScale::One => "",
        };
        let mut r = numbers.text(throughput_per_sec, NumberStyle::Rate);
        r.append(" ");
        r.append(prefix);
        r.append(self.unit.as_str());
        r.append("/s");
        r
    }

    /// A throughput as a report holds it, whatever the amount and the unit.
    pub fn persisted(amount_per_operation: u64, unit: String) -> (r: Throughput)
        ensures
            r.amount() == amount_per_operation,
            r.unit_text() == unit@,
    {
        Throughput { amount_per_operation, unit }
    }
}

impl Default for Throughput {
    fn default() -> (r: Throughput)
        ensures
            r.amount() == 1,
            r.unit_text() == "ops"@,
    {
        Throughput::ops()
    }
}

/// A larger rate never gets a smaller scale.
pub proof fn scale_grows_with_the_rate(a: DoubleBits, b: DoubleBits)
    requires
        a.below(b),
        scale_of(a) != RateScale::Unavailable,
        b.finite(),
    ensures
        scale_of(b) != RateScale::Unavailable,
        scale_of(a).divisor_value() <= scale_of(b).divisor_value(),
{
}

} // verus!
