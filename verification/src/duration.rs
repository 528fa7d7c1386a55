//! Spans of time with nanosecond resolution and saturating arithmetic.

use vstd::prelude::*;

verus! {

/// The nanoseconds of the longest span: the largest `u64` of seconds, and all
/// but one nanosecond of another.
pub const MAX_NANOS: u128 = 18_446_744_073_709_551_615_999_999_999;

/// A span of time.
#[derive(Debug, Clone, Copy, PartialEq, Eq, PartialOrd, Ord)]
pub struct Duration {
    nanos: u128,
}

impl View for Duration {
    type V = nat;

    closed spec fn view(&self) -> nat {
        self.nanos as nat
    }
}

/// The smaller of two numbers.
pub open spec fn least(a: nat, b: nat) -> nat {
    if a <= b {
        a
    } else {
        b
    }
}

impl Duration {
    #[verifier::type_invariant]
    spec fn in_range(self) -> bool {
        self.nanos <= MAX_NANOS
    }

    /// No time at all.
    pub fn zero() -> (r: Duration)
        ensures
            r@ == 0,
    {
        Duration { nanos: 0 }
    }

    /// A number of seconds.
    pub fn from_secs(secs: u64) -> (r: Duration)
        ensures
            r@ == secs as nat * 1_000_000_000,
    {
        Duration { nanos: secs as u128 * 1_000_000_000 }
    }

    /// A number of milliseconds.
    pub fn from_millis(millis: u64) -> (r: Duration)
        ensures
            r@ == millis as nat * 1_000_000,
    {
        Duration { nanos: millis as u128 * 1_000_000 }
    }

    /// A number of nanoseconds.
    pub fn from_nanos(nanos: u64) -> (r: Duration)
        ensures
            r@ == nanos as nat,
    {
        Duration { nanos: nanos as u128 }
    }

    /// The span in nanoseconds.
    pub fn as_nanos(&self) -> (r: u128)
        ensures
            r == self@,
            r <= MAX_NANOS,
    {
        proof {
            use_type_invariant(self);
        }
        self.nanos
    }

    /// The span several times over, capped at the longest span.
    pub fn saturating_mul(self, factor: u32) -> (r: Duration)
        ensures
            r@ == least(self@ * factor as nat, MAX_NANOS as nat),
    {
        proof {
            use_type_invariant(&self);
            assert(self.nanos * factor <= MAX_NANOS * 0xFFFF_FFFF) by (nonlinear_arith)
                requires
                    self.nanos <= MAX_NANOS,
                    factor <= 0xFFFF_FFFFu32,
            ;
        }
        let n: u128 = self.nanos * (factor as u128);
        if n <= MAX_NANOS {
            Duration { nanos: n }
        } else {
            Duration { nanos: MAX_NANOS }
        }
    }

    /// Two spans in a row, capped at the longest span.
    pub fn saturating_add(self, other: Duration) -> (r: Duration)
        ensures
            r@ == least(self@ + other@, MAX_NANOS as nat),
    {
        proof {
            use_type_invariant(&self);
            use_type_invariant(&other);
        }
        let n: u128 = self.nanos + other.nanos;
        if n <= MAX_NANOS {
            Duration { nanos: n }
        } else {
            Duration { nanos: MAX_NANOS }
        }
    }
}

/// What saturates is the smaller of what was asked for and the most there is.
pub proof fn law_the_least_is_the_smaller_one(a: nat, b: nat)
    ensures
        least(a, b) <= a,
        least(a, b) <= b,
        least(a, b) == a || least(a, b) == b,
{
}

/// Seconds and their parts count in thousands, and nothing that is counted in
/// them exceeds the longest duration.
pub proof fn law_durations_count_in_thousands(n: u64, secs: Duration, millis: Duration, nanos: Duration)
    requires
        call_ensures(Duration::from_secs, (n,), secs),
        call_ensures(Duration::from_millis, (n,), millis),
        call_ensures(Duration::from_nanos, (n,), nanos),
    ensures
        nanos@ == n,
        millis@ == 1_000_000 * nanos@,
        secs@ == 1_000 * millis@,
        secs@ + 999_999_999 <= MAX_NANOS,
        n == u64::MAX ==> secs@ + 999_999_999 == MAX_NANOS,
{
}

} // verus!
