//! Spans of time and points on a monotonic clock, as plain nanosecond counts.

use vstd::prelude::*;

verus! {

/// Nanoseconds in one second.
pub const NANOS_PER_SEC: u128 = 1_000_000_000;

/// The longest span: `u64::MAX` seconds and 999 999 999 nanoseconds.
pub const MAX_NANOS: u128 = 18_446_744_073_709_551_615_999_999_999;

/// A span of time with nanosecond precision, up to `u64::MAX` whole seconds.
#[derive(Clone, Copy, Debug, PartialEq, Eq, Structural)]
pub struct Duration {
    nanos: u128,
}

impl View for Duration {
    type V = nat;

    /// The length of the span in nanoseconds.
    closed spec fn view(&self) -> nat {
        self.nanos as nat
    }
}

impl Duration {
    #[verifier::type_invariant]
    closed spec fn in_range(self) -> bool {
        self.nanos <= MAX_NANOS
    }

    /// A span of `secs` whole seconds and `subsec_nanos` nanoseconds.
    pub fn new(secs: u64, subsec_nanos: u32) -> (d: Self)
        requires
            subsec_nanos < NANOS_PER_SEC,
        ensures
            d@ == secs * NANOS_PER_SEC + subsec_nanos,
    {
        Duration { nanos: secs as u128 * NANOS_PER_SEC + subsec_nanos as u128 }
    }

    /// A span of `secs` whole seconds.
    pub fn from_secs(secs: u64) -> (d: Self)
        ensures
            d@ == secs * NANOS_PER_SEC,
    {
        Duration::new(secs, 0)
    }

    /// The whole seconds of the span.
    pub fn as_secs(self) -> (secs: u64)
        ensures
            secs == self@ / (NANOS_PER_SEC as nat),
            secs * 1_000_000_000 <= self@ < (secs + 1) * 1_000_000_000,
    {
        proof {
            use_type_invariant(&self);
        }
        (self.nanos / NANOS_PER_SEC) as u64
    }

    /// What is left of the span after its whole seconds, in nanoseconds.
    pub fn subsec_nanos(self) -> (nanos: u32)
        ensures
            nanos == self@ % (NANOS_PER_SEC as nat),
            nanos < 1_000_000_000,
            (self@ - nanos) % 1_000_000_000 == 0,
    {
        (self.nanos % NANOS_PER_SEC) as u32
    }

    /// The sum of two spans, if it is not longer than the longest span.
    pub fn checked_add(self, other: Duration) -> (sum: Option<Self>)
        ensures
            match sum {
                Some(d) => d@ == self@ + other@ && d@ <= MAX_NANOS,
                None => self@ + other@ > MAX_NANOS,
            },
    {
        proof {
            use_type_invariant(&self);
            use_type_invariant(&other);
        }
        let nanos: u128 = self.nanos + other.nanos;
        if nanos <= MAX_NANOS {
            Some(Duration { nanos })
        } else {
            None
        }
    }

    /// Whether this span is strictly shorter than `other`.
    pub fn is_shorter(self, other: Duration) -> (shorter: bool)
        ensures
            shorter == (self@ < other@),
    {
        self.nanos < other.nanos
    }

    /// The difference of two spans, or zero if `other` is the longer one.
    pub fn saturating_sub(self, other: Duration) -> (d: Self)
        ensures
            d@ == if self@ >= other@ { self@ - other@ } else { 0int },
    {
        proof {
            use_type_invariant(&self);
        }
        if self.nanos >= other.nanos {
            Duration { nanos: self.nanos - other.nanos }
        } else {
            Duration { nanos: 0 }
        }
    }
}

/// A point on a monotonic clock, counted from a fixed origin that no point precedes.
#[derive(Clone, Copy, Debug, PartialEq, Eq, Structural)]
pub struct Instant {
    since_origin: Duration,
}

impl View for Instant {
    type V = nat;

    /// The nanoseconds between the clock's origin and this point.
    closed spec fn view(&self) -> nat {
        self.since_origin@
    }
}

impl Instant {
    /// The point that lies `since_origin` after the clock's origin.
    pub fn at(since_origin: Duration) -> (i: Self)
        ensures
            i@ == since_origin@,
    {
        Instant { since_origin }
    }

    /// Whether this point comes strictly before `other`.
    pub fn is_before(self, other: Instant) -> (before: bool)
        ensures
            before == (self@ < other@),
    {
        self.since_origin.is_shorter(other.since_origin)
    }

    /// The time from `earlier` to this point, or zero if `earlier` is the later one.
    pub fn saturating_duration_since(self, earlier: Instant) -> (d: Duration)
        ensures
            d@ == if self@ >= earlier@ { self@ - earlier@ } else { 0int },
    {
        self.since_origin.saturating_sub(earlier.since_origin)
    }
}

} // verus!
