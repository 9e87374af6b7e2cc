//! Spans of time.

use vstd::prelude::*;

verus! {

/// A span of time: whole seconds, and nanoseconds beyond them.
#[derive(Clone, Copy, PartialEq, Eq, PartialOrd, Ord, Hash, Debug, Structural)]
pub struct Duration {
    secs: u64,
    nanos: u32,
}

/// A span is modelled by its length in nanoseconds.
impl View for Duration {
    type V = nat;

    closed spec fn view(&self) -> nat {
        self.secs as nat * 1_000_000_000 + self.nanos as nat
    }
}

impl Duration {
    /// The nanoseconds never make up a whole second.
    #[verifier::type_invariant]
    spec fn well_formed(self) -> bool {
        self.nanos < 1_000_000_000
    }

    /// Creates a span of `secs` seconds and `nanos` nanoseconds.
    pub fn new(secs: u64, nanos: u32) -> (span: Duration)
        requires
            nanos < 1_000_000_000,
        ensures
            span@ == secs as nat * 1_000_000_000 + nanos as nat,
    {
        Duration { secs, nanos }
    }

    /// Creates a span of `secs` seconds.
    pub fn from_secs(secs: u64) -> (span: Duration)
        ensures
            span@ == secs as nat * 1_000_000_000,
    {
        Duration { secs, nanos: 0 }
    }

    /// Creates a span of `millis` milliseconds.
    pub fn from_millis(millis: u64) -> (span: Duration)
        ensures
            span@ == millis as nat * 1_000_000,
    {
        Duration { secs: millis / 1000, nanos: (millis % 1000) as u32 * 1_000_000 }
    }

    /// Creates a span of `nanos` nanoseconds.
    pub fn from_nanos(nanos: u128) -> (span: Duration)
        requires
            nanos < 18_446_744_073_709_551_616 * 1_000_000_000,
        ensures
            span@ == nanos,
    {
        Duration { secs: (nanos / 1_000_000_000) as u64, nanos: (nanos % 1_000_000_000) as u32 }
    }

    /// The number of whole seconds in the span.
    pub fn as_secs(&self) -> (secs: u64)
        ensures
            secs == self@ / 1_000_000_000,
    {
        proof {
            use_type_invariant(self);
        }
        self.secs
    }

    /// The nanoseconds of the span beyond its whole seconds.
    pub fn subsec_nanos(&self) -> (nanos: u32)
        ensures
            nanos == self@ % 1_000_000_000,
    {
        proof {
            use_type_invariant(self);
        }
        self.nanos
    }

    /// The number of whole milliseconds in the span.
    pub fn as_millis(&self) -> (millis: u128)
        ensures
            millis == self@ / 1_000_000,
    {
        proof {
            use_type_invariant(self);
        }
        self.secs as u128 * 1000 + (self.nanos / 1_000_000) as u128
    }

    /// The number of nanoseconds in the span.
    pub fn as_nanos(&self) -> (nanos: u128)
        ensures
            nanos == self@,
            nanos < 18_446_744_073_709_551_616 * 1_000_000_000,
    {
        proof {
            use_type_invariant(self);
        }
        self.secs as u128 * 1_000_000_000 + self.nanos as u128
    }

    /// The part of the span that exceeds `other`.
    pub fn saturating_sub(self, other: Duration) -> (excess: Duration)
        ensures
            excess@ == if self@ >= other@ {
                (self@ - other@) as nat
            } else {
                0
            },
    {
        proof {
            use_type_invariant(&self);
            use_type_invariant(&other);
        }
        if self.secs > other.secs && self.nanos < other.nanos {
            Duration {
                secs: self.secs - other.secs - 1,
                nanos: self.nanos + 1_000_000_000 - other.nanos,
            }
        } else if self.secs >= other.secs && self.nanos >= other.nanos {
            Duration { secs: self.secs - other.secs, nanos: self.nanos - other.nanos }
        } else {
            Duration { secs: 0, nanos: 0 }
        }
    }

    /// Returns whether the span is at least as long as `other`.
    pub fn is_at_least(&self, other: &Duration) -> (yes: bool)
        ensures
            yes == (self@ >= other@),
    {
        proof {
            use_type_invariant(self);
            use_type_invariant(other);
        }
        self.secs > other.secs || (self.secs == other.secs && self.nanos >= other.nanos)
    }
}

} // verus!
