//! Lengths of time, in whole nanoseconds.
use vstd::prelude::*;

verus! {

pub const NANOS_PER_SECOND: u128 = 1_000_000_000;

pub const NANOS_PER_MILLISECOND: u128 = 1_000_000;

/// The longest length of time that can be held: `u64::MAX` seconds and
/// 999,999,999 nanoseconds.
pub const MAX_NANOS: u128 = 18_446_744_073_709_551_615_999_999_999;

/// A length of time.
#[derive(Clone, Copy, Debug, PartialEq, Eq, Structural)]
pub struct Nanos {
    pub count: u128,
}

impl Nanos {
    /// Whether the length is one that can be held.
    pub open spec fn representable(self) -> bool {
        self.count <= MAX_NANOS
    }

    pub fn zero() -> (r: Nanos)
        ensures
            r.count == 0,
    {
        Nanos { count: 0 }
    }

    pub fn from_nanos(count: u64) -> (r: Nanos)
        ensures
            r.count == count,
            r.representable(),
    {
        Nanos { count: count as u128 }
    }

    pub fn from_millis(millis: u64) -> (r: Nanos)
        ensures
            r.count == millis * NANOS_PER_MILLISECOND,
            r.representable(),
    {
        Nanos { count: millis as u128 * NANOS_PER_MILLISECOND }
    }

    pub fn from_secs(secs: u64) -> (r: Nanos)
        ensures
            r.count == secs * NANOS_PER_SECOND,
            r.representable(),
    {
        Nanos { count: secs as u128 * NANOS_PER_SECOND }
    }

    pub fn is_zero(self) -> (r: bool)
        ensures
            r == (self.count == 0),
    {
        self.count == 0
    }

    /// Whole milliseconds, rounded down.
    pub fn as_millis(self) -> (r: u128)
        ensures
            r == self.count / NANOS_PER_MILLISECOND,
    {
        self.count / NANOS_PER_MILLISECOND
    }

    /// Time left from `now` until `self`, none when `self` has passed.
    pub fn saturating_since(self, now: Nanos) -> (r: Nanos)
        ensures
            r.count == if self.count > now.count {
                self.count - now.count
            } else {
                0
            },
    {
        if self.count > now.count {
            Nanos { count: self.count - now.count }
        } else {
            Nanos { count: 0 }
        }
    }
}

} // verus!
