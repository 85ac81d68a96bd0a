//! Spans of time with nanosecond resolution, as the worker settings hold them.
use vstd::prelude::*;

verus! {

/// Nanoseconds in a second.
pub const NANOS_PER_SEC: u128 = 1_000_000_000;

/// Nanoseconds in a millisecond.
pub const NANOS_PER_MILLI: u128 = 1_000_000;

/// The longest span: `u64::MAX` seconds and 999,999,999 nanoseconds.
pub const MAX_NANOS: u128 = 18_446_744_073_709_551_615 * 1_000_000_000 + 999_999_999;

/// A span of time, as `std::time::Duration` measures it.
#[derive(Debug, Clone, Copy, PartialEq, Eq, PartialOrd, Ord, Hash, Structural)]
pub struct Duration {
    nanos: u128,
}

impl Duration {
    #[verifier::type_invariant]
    spec fn within_range(self) -> bool {
        self.nanos <= MAX_NANOS
    }

    /// The length of the span in nanoseconds.
    pub closed spec fn total_nanos(self) -> nat {
        self.nanos as nat
    }

    /// A span of `secs` seconds.
    pub fn from_secs(secs: u64) -> (d: Duration)
        ensures
            d.total_nanos() == secs * NANOS_PER_SEC,
    {
        Duration { nanos: secs as u128 * NANOS_PER_SEC }
    }

    /// A span of `millis` milliseconds.
    pub fn from_millis(millis: u64) -> (d: Duration)
        ensures
            d.total_nanos() == millis * NANOS_PER_MILLI,
    {
        Duration { nanos: millis as u128 * NANOS_PER_MILLI }
    }

    /// Whole seconds of the span.
    pub fn as_secs(&self) -> (s: u64)
        ensures
            s == self.total_nanos() / (NANOS_PER_SEC as nat),
    {
        proof {
            use_type_invariant(self);
        }
        (self.nanos / NANOS_PER_SEC) as u64
    }

    /// Whole milliseconds of the span.
    pub fn as_millis(&self) -> (m: u128)
        ensures
            m == self.total_nanos() / (NANOS_PER_MILLI as nat),
    {
        self.nanos / NANOS_PER_MILLI
    }

    /// The nanoseconds past the last whole second.
    pub fn subsec_nanos(&self) -> (n: u32)
        ensures
            n == self.total_nanos() % (NANOS_PER_SEC as nat),
    {
        (self.nanos % NANOS_PER_SEC) as u32
    }

    /// The span multiplied by `k`, or the longest span where the product
    /// does not fit.
    pub fn saturating_mul(&self, k: u32) -> (d: Duration)
        ensures
            d.total_nanos() == (if self.total_nanos() * k <= MAX_NANOS {
                self.total_nanos() * k
            } else {
                MAX_NANOS as int
            }),
    {
        proof {
            use_type_invariant(self);
            assert(self.nanos * k <= MAX_NANOS * 4294967295) by (nonlinear_arith)
                requires
                    self.nanos <= MAX_NANOS,
                    k <= 4294967295,
            ;
        }
        let product: u128 = self.nanos * (k as u128);
        if product <= MAX_NANOS {
            Duration { nanos: product }
        } else {
            Duration { nanos: MAX_NANOS }
        }
    }

    /// The shorter of two spans.
    pub fn shorter(&self, other: Duration) -> (d: Duration)
        ensures
            d.total_nanos() == (if self.total_nanos() <= other.total_nanos() {
                self.total_nanos()
            } else {
                other.total_nanos()
            }),
    {
        if self.nanos <= other.nanos {
            *self
        } else {
            other
        }
    }
}

} // verus!
