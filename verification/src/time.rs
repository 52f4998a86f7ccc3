//! Spans of time with nanosecond precision.

use vstd::prelude::*;

verus! {

/// Nanoseconds in one second.
pub const NANOS_PER_SEC: u128 = 1_000_000_000;

/// The length, in nanoseconds, of the longest span a [`Duration`] holds:
/// `u64::MAX` whole seconds and 999 999 999 nanoseconds.
pub open spec fn max_nanos() -> nat {
    18_446_744_073_709_551_615 * 1_000_000_000 + 999_999_999
}

/// The difference `a - b`, or zero where `b` is the longer span.
pub open spec fn saturating_diff(a: nat, b: nat) -> nat {
    if a >= b {
        (a - b) as nat
    } else {
        0
    }
}

/// Taking away what was added gives back the span one started from.
pub proof fn lemma_sub_undoes_add(a: nat, b: nat)
    ensures
        saturating_diff(a + b, b) == a,
        a >= b ==> saturating_diff(a, b) + b == a,
        a < b ==> saturating_diff(a, b) == 0,
        saturating_diff(a, b) <= a,
{
}

/// A span of time: whole seconds that fit in a `u64` plus a fraction of a
/// second in nanoseconds. Its view is its length in nanoseconds.
#[derive(Clone, Copy, Debug, PartialEq, Eq, PartialOrd, Ord, Hash)]
pub struct Duration {
    nanos: u128,
}

impl View for Duration {
    type V = nat;

    closed spec fn view(&self) -> nat {
        self.nanos as nat
    }
}

impl Duration {
    #[verifier::type_invariant]
    spec fn within_range(self) -> bool {
        self.nanos <= max_nanos()
    }

    /// The empty span.
    pub fn zero() -> (d: Duration)
        ensures
            d@ == 0,
    {
        Duration { nanos: 0 }
    }

    /// `secs` seconds plus `nanos` nanoseconds; nanoseconds beyond a
    /// second carry into the seconds.
    pub fn new(secs: u64, nanos: u32) -> (d: Duration)
        requires
            secs * 1_000_000_000 + nanos <= max_nanos(),
        ensures
            d@ == secs * 1_000_000_000 + nanos,
    {
        Duration { nanos: (secs as u128) * NANOS_PER_SEC + (nanos as u128) }
    }

    /// `secs` whole seconds.
    pub fn from_secs(secs: u64) -> (d: Duration)
        ensures
            d@ == secs * 1_000_000_000,
    {
        Duration { nanos: (secs as u128) * NANOS_PER_SEC }
    }

    /// `millis` milliseconds.
    pub fn from_millis(millis: u64) -> (d: Duration)
        ensures
            d@ == millis * 1_000_000,
    {
        Duration { nanos: (millis as u128) * 1_000_000 }
    }

    /// `micros` microseconds.
    pub fn from_micros(micros: u64) -> (d: Duration)
        ensures
            d@ == micros * 1_000,
    {
        Duration { nanos: (micros as u128) * 1_000 }
    }

    /// `nanos` nanoseconds.
    pub fn from_nanos(nanos: u64) -> (d: Duration)
        ensures
            d@ == nanos,
    {
        Duration { nanos: nanos as u128 }
    }

    /// The length of the span in nanoseconds.
    pub fn as_nanos(&self) -> (n: u128)
        ensures
            n == self@,
            self@ <= max_nanos(),
    {
        proof {
            use_type_invariant(self);
        }
        self.nanos
    }

    /// The number of whole seconds in the span.
    pub fn as_secs(&self) -> (s: u64)
        ensures
            s == self@ / 1_000_000_000,
    {
        proof {
            use_type_invariant(self);
            assert(self.nanos / 1_000_000_000 <= 18_446_744_073_709_551_615) by (nonlinear_arith)
                requires
                    self.nanos <= 18_446_744_073_709_551_615 * 1_000_000_000 + 999_999_999,
            ;
        }
        (self.nanos / NANOS_PER_SEC) as u64
    }

    /// The fractional part of the span, in nanoseconds.
    pub fn subsec_nanos(&self) -> (n: u32)
        ensures
            n == self@ % 1_000_000_000,
    {
        (self.nanos % NANOS_PER_SEC) as u32
    }

    /// Whether the span is empty.
    pub fn is_zero(&self) -> (b: bool)
        ensures
            b == (self@ == 0),
    {
        self.nanos == 0
    }

    /// Whether this span is at least as long as `other`.
    pub fn is_at_least(&self, other: &Duration) -> (b: bool)
        ensures
            b == (self@ >= other@),
    {
        self.nanos >= other.nanos
    }

    /// `self - rhs`, or the empty span where `rhs` is the longer one.
    pub fn saturating_sub(self, rhs: Duration) -> (d: Duration)
        ensures
            d@ == saturating_diff(self@, rhs@),
    {
        proof {
            use_type_invariant(self);
        }
        if self.nanos >= rhs.nanos {
            Duration { nanos: self.nanos - rhs.nanos }
        } else {
            Duration { nanos: 0 }
        }
    }

    /// `self + rhs`, or `None` where the sum exceeds the longest span.
    pub fn checked_add(self, rhs: Duration) -> (d: Option<Duration>)
        ensures
            d is Some <==> self@ + rhs@ <= max_nanos(),
            d matches Some(s) ==> s@ == self@ + rhs@,
    {
        proof {
            use_type_invariant(self);
            use_type_invariant(rhs);
        }
        let sum = self.nanos + rhs.nanos;
        if sum <= 18_446_744_073_709_551_615 * NANOS_PER_SEC + 999_999_999 {
            Some(Duration { nanos: sum })
        } else {
            None
        }
    }
}

} // verus!
