//! Spans of time, to the nanosecond.

use vstd::prelude::*;

verus! {

pub const NANOS_PER_SEC: u32 = 1_000_000_000;

pub const NANOS_PER_MILLI: u32 = 1_000_000;

/// The longest span: `u64::MAX` seconds and all but one of the nanoseconds of the next.
pub const MAX_NANOS: u128 = 18_446_744_073_709_551_615_999_999_999;

/// A span of time: whole seconds and the nanoseconds beyond them.
///
/// Its view is its length in nanoseconds.
#[derive(Clone, Copy, Debug, PartialEq, Eq)]
pub struct Duration {
    secs: u64,
    nanos: u32,
}

/// The smaller of two lengths.
pub open spec fn min_nat(a: nat, b: nat) -> nat {
    if a <= b {
        a
    } else {
        b
    }
}

/// The larger of two lengths.
pub open spec fn max_nat(a: nat, b: nat) -> nat {
    if a >= b {
        a
    } else {
        b
    }
}

impl View for Duration {
    type V = nat;

    closed spec fn view(&self) -> nat {
        (self.secs * NANOS_PER_SEC + self.nanos) as nat
    }
}

impl Duration {
    #[verifier::type_invariant]
    spec fn carries_normalised(self) -> bool {
        self.nanos < NANOS_PER_SEC
    }

    /// A span of whole seconds.
    pub fn from_secs(secs: u64) -> (r: Self)
        ensures
            r@ == secs * NANOS_PER_SEC,
    {
        Duration { secs, nanos: 0 }
    }

    /// A span of whole milliseconds.
    pub fn from_millis(millis: u64) -> (r: Self)
        ensures
            r@ == millis * NANOS_PER_MILLI,
    {
        let nanos: u32 = (millis % 1000) as u32 * NANOS_PER_MILLI;
        Duration { secs: millis / 1000, nanos }
    }

    /// The span of `nanos` nanoseconds, or the longest span where that is longer still.
    pub fn from_nanos_saturating(nanos: u128) -> (r: Self)
        ensures
            r@ == min_nat(nanos as nat, MAX_NANOS as nat),
    {
        if nanos > MAX_NANOS {
            Duration { secs: u64::MAX, nanos: 999_999_999 }
        } else {
            let secs: u128 = nanos / 1_000_000_000;
            let rest: u128 = nanos % 1_000_000_000;
            Duration { secs: secs as u64, nanos: rest as u32 }
        }
    }

    /// The length in nanoseconds.
    pub fn as_nanos(&self) -> (r: u128)
        ensures
            r == self@,
            r <= MAX_NANOS,
    {
        proof {
            use_type_invariant(self);
        }
        self.secs as u128 * 1_000_000_000 + self.nanos as u128
    }

    /// The whole seconds.
    pub fn as_secs(&self) -> (r: u64)
        ensures
            r == self@ / (NANOS_PER_SEC as nat),
    {
        proof {
            use_type_invariant(self);
        }
        self.secs
    }

    /// The nanoseconds beyond the whole seconds.
    pub fn subsec_nanos(&self) -> (r: u32)
        ensures
            r == self@ % (NANOS_PER_SEC as nat),
    {
        proof {
            use_type_invariant(self);
        }
        self.nanos
    }

    /// The span `factor` times as long, held at the longest span.
    pub fn saturating_mul(self, factor: u32) -> (r: Self)
        ensures
            r@ == min_nat(self@ * factor as nat, MAX_NANOS as nat),
    {
        let nanos: u128 = self.as_nanos();
        assert(nanos * factor <= MAX_NANOS * u32::MAX) by (nonlinear_arith)
            requires
                nanos <= MAX_NANOS,
                factor <= u32::MAX,
        ;
        Duration::from_nanos_saturating(nanos * factor as u128)
    }

    /// The two spans one after the other, held at the longest span.
    pub fn saturating_add(self, other: Duration) -> (r: Self)
        ensures
            r@ == min_nat(self@ + other@, MAX_NANOS as nat),
    {
        Duration::from_nanos_saturating(self.as_nanos() + other.as_nanos())
    }

    /// What is left of this span after `other`, or nothing.
    pub fn saturating_sub(self, other: Duration) -> (r: Self)
        ensures
            r@ == if self@ >= other@ {
                (self@ - other@) as nat
            } else {
                0
            },
    {
        let a: u128 = self.as_nanos();
        let b: u128 = other.as_nanos();
        Duration::from_nanos_saturating(if a >= b { a - b } else { 0 })
    }

    /// The longer of two spans.
    pub fn max(self, other: Duration) -> (r: Self)
        ensures
            r@ == max_nat(self@, other@),
    {
        if self.as_nanos() >= other.as_nanos() {
            self
        } else {
            other
        }
    }

    /// The shorter of two spans.
    pub fn min(self, other: Duration) -> (r: Self)
        ensures
            r@ == min_nat(self@, other@),
    {
        if self.as_nanos() <= other.as_nanos() {
            self
        } else {
            other
        }
    }
}

/// The smaller of two lengths is one of them, and no more than either; the larger is one of
/// them, and no less than either.
pub proof fn law_smaller_and_larger(a: nat, b: nat)
    ensures
        min_nat(a, b) == a || min_nat(a, b) == b,
        min_nat(a, b) <= a,
        min_nat(a, b) <= b,
        max_nat(a, b) == a || max_nat(a, b) == b,
        max_nat(a, b) >= a,
        max_nat(a, b) >= b,
{
}

/// The longest span is as many seconds as a `u64` counts, and a nanosecond less than one
/// second more.
pub proof fn law_longest_span()
    ensures
        MAX_NANOS == u64::MAX * 1_000_000_000 + 999_999_999,
        NANOS_PER_SEC == 1_000_000_000,
        NANOS_PER_MILLI * 1_000 == NANOS_PER_SEC,
{
}

} // verus!
