//! Time spans for retry, delay and latency policies.
//!
//! A [`Duration`] is a whole number of nanoseconds between zero and
//! [`MAX_NANOS`] (`u64::MAX` seconds plus 999 999 999 nanoseconds), the
//! same range and the same saturating arithmetic as the standard library's
//! duration type.
use vstd::prelude::*;

verus! {

/// Nanoseconds per second.
pub const NANOS_PER_SEC: u128 = 1_000_000_000;

/// Nanoseconds per millisecond.
pub const NANOS_PER_MILLI: u128 = 1_000_000;

/// The largest representable span, in nanoseconds.
pub const MAX_NANOS: u128 = 18_446_744_073_709_551_615_999_999_999;

/// A span of time with nanosecond resolution.
#[derive(Clone, Copy, Debug, PartialEq, Eq, Structural)]
pub struct Duration {
    nanos: u128,
}

impl Duration {
    #[verifier::type_invariant]
    spec fn bounded(self) -> bool {
        self.nanos <= MAX_NANOS
    }

    /// The span in nanoseconds.
    pub closed spec fn spec_nanos(self) -> nat {
        self.nanos as nat
    }

    /// Two durations are equal exactly when their spans are equal.
    pub proof fn lemma_eq(a: Duration, b: Duration)
        ensures
            (a == b) == (a.spec_nanos() == b.spec_nanos()),
    {
    }

    /// The empty span (function form of [`Duration::ZERO`]).
    pub fn zero() -> (r: Duration)
        ensures
            r.spec_nanos() == 0,
    {
        Duration { nanos: 0 }
    }

    /// `secs` whole seconds.
    pub fn from_secs(secs: u64) -> (r: Duration)
        ensures
            r.spec_nanos() == secs * NANOS_PER_SEC,
    {
        assert(secs * NANOS_PER_SEC <= MAX_NANOS) by (nonlinear_arith)
            requires
                secs <= u64::MAX,
        ;
        Duration { nanos: (secs as u128) * NANOS_PER_SEC }
    }

    /// `millis` milliseconds.
    pub fn from_millis(millis: u64) -> (r: Duration)
        ensures
            r.spec_nanos() == millis * NANOS_PER_MILLI,
    {
        assert(millis * NANOS_PER_MILLI <= MAX_NANOS) by (nonlinear_arith)
            requires
                millis <= u64::MAX,
        ;
        Duration { nanos: (millis as u128) * NANOS_PER_MILLI }
    }

    /// `nanos` nanoseconds.
    pub fn from_nanos(nanos: u64) -> (r: Duration)
        ensures
            r.spec_nanos() == nanos,
    {
        Duration { nanos: nanos as u128 }
    }

    /// The span in nanoseconds.
    pub fn as_nanos(&self) -> (r: u128)
        ensures
            r == self.spec_nanos(),
            r <= MAX_NANOS,
    {
        proof {
            use_type_invariant(self);
        }
        self.nanos
    }

    /// Whole milliseconds of the span (rounded down).
    pub fn as_millis(&self) -> (r: u128)
        ensures
            r == self.spec_nanos() / (NANOS_PER_MILLI as nat),
    {
        self.nanos / NANOS_PER_MILLI
    }

    /// Whole seconds of the span (rounded down).
    pub fn as_secs(&self) -> (r: u64)
        ensures
            r == self.spec_nanos() / (NANOS_PER_SEC as nat),
    {
        proof {
            use_type_invariant(self);
        }
        assert(self.nanos / NANOS_PER_SEC <= u64::MAX) by (nonlinear_arith)
            requires
                self.nanos <= MAX_NANOS,
        ;
        (self.nanos / NANOS_PER_SEC) as u64
    }

    /// Whether the span is empty.
    pub fn is_zero(&self) -> (r: bool)
        ensures
            r == (self.spec_nanos() == 0),
    {
        self.nanos == 0
    }

    /// `self <= other`.
    pub fn le(&self, other: &Duration) -> (r: bool)
        ensures
            r == (self.spec_nanos() <= other.spec_nanos()),
    {
        self.nanos <= other.nanos
    }

    /// `self < other`.
    pub fn lt(&self, other: &Duration) -> (r: bool)
        ensures
            r == (self.spec_nanos() < other.spec_nanos()),
    {
        self.nanos < other.nanos
    }

    /// The longer of the two spans.
    pub fn max(self, other: Duration) -> (r: Duration)
        ensures
            r.spec_nanos() == if self.spec_nanos() >= other.spec_nanos() {
                self.spec_nanos()
            } else {
                other.spec_nanos()
            },
    {
        if other.nanos > self.nanos {
            other
        } else {
            self
        }
    }

    /// The shorter of the two spans.
    pub fn min(self, other: Duration) -> (r: Duration)
        ensures
            r.spec_nanos() == if self.spec_nanos() <= other.spec_nanos() {
                self.spec_nanos()
            } else {
                other.spec_nanos()
            },
    {
        if other.nanos < self.nanos {
            other
        } else {
            self
        }
    }

    /// `self` restricted to `lo..=hi`.
    pub fn clamp(self, lo: Duration, hi: Duration) -> (r: Duration)
        requires
            lo.spec_nanos() <= hi.spec_nanos(),
        ensures
            r.spec_nanos() == if self.spec_nanos() < lo.spec_nanos() {
                lo.spec_nanos()
            } else if self.spec_nanos() > hi.spec_nanos() {
                hi.spec_nanos()
            } else {
                self.spec_nanos()
            },
    {
        if self.nanos < lo.nanos {
            lo
        } else if self.nanos > hi.nanos {
            hi
        } else {
            self
        }
    }

    /// `self + other`, or the largest span when that overflows.
    pub fn saturating_add(self, other: Duration) -> (r: Duration)
        ensures
            r.spec_nanos() == if self.spec_nanos() + other.spec_nanos() > MAX_NANOS {
                MAX_NANOS as nat
            } else {
                self.spec_nanos() + other.spec_nanos()
            },
    {
        proof {
            use_type_invariant(self);
            use_type_invariant(other);
        }
        let sum = self.nanos + other.nanos;
        if sum > MAX_NANOS {
            Duration { nanos: MAX_NANOS }
        } else {
            Duration { nanos: sum }
        }
    }

    /// `self - other`, or zero when `other` is longer.
    pub fn saturating_sub(self, other: Duration) -> (r: Duration)
        ensures
            r.spec_nanos() == if self.spec_nanos() >= other.spec_nanos() {
                (self.spec_nanos() - other.spec_nanos()) as nat
            } else {
                0
            },
    {
        proof {
            use_type_invariant(self);
        }
        if self.nanos >= other.nanos {
            Duration { nanos: self.nanos - other.nanos }
        } else {
            Duration { nanos: 0 }
        }
    }

    /// `self * factor`, or the largest span when that overflows.
    pub fn saturating_mul(self, factor: u32) -> (r: Duration)
        ensures
            r.spec_nanos() == if self.spec_nanos() * (factor as nat) > MAX_NANOS {
                MAX_NANOS as nat
            } else {
                self.spec_nanos() * (factor as nat)
            },
    {
        proof {
            use_type_invariant(self);
        }
        assert(self.nanos * factor <= u128::MAX) by (nonlinear_arith)
            requires
                self.nanos <= MAX_NANOS,
                factor <= u32::MAX,
        ;
        let product = self.nanos * (factor as u128);
        if product > MAX_NANOS {
            Duration { nanos: MAX_NANOS }
        } else {
            Duration { nanos: product }
        }
    }
}

} // verus!
