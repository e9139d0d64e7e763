//! A span of time, counted in nanoseconds.

use vstd::prelude::*;

verus! {

/// The nanoseconds in one second.
pub const NANOS_PER_SEC: u32 = 1_000_000_000;

/// The nanoseconds in one millisecond.
pub const NANOS_PER_MILLI: u32 = 1_000_000;

/// A span of time: whole seconds, and the nanoseconds beyond them.
///
/// Its view is the whole span in nanoseconds.
#[derive(Clone, Copy, Debug, PartialEq, Eq, PartialOrd, Ord, Hash)]
pub struct Duration {
    secs: u64,
    nanos: u32,
}

impl View for Duration {
    type V = nat;

    closed spec fn view(&self) -> nat {
        self.secs as nat * NANOS_PER_SEC as nat + self.nanos as nat
    }
}

/// The span of `secs` seconds, in nanoseconds.
pub open spec fn seconds(secs: int) -> nat {
    (secs * NANOS_PER_SEC) as nat
}

/// The span of `millis` milliseconds, in nanoseconds.
pub open spec fn milliseconds(millis: int) -> nat {
    (millis * NANOS_PER_MILLI) as nat
}

impl Duration {
    #[verifier::type_invariant]
    spec fn well_formed(self) -> bool {
        self.nanos < NANOS_PER_SEC
    }

    /// `secs` seconds and `nanos` nanoseconds, the latter less than a second.
    pub fn new(secs: u64, nanos: u32) -> (span: Self)
        requires
            nanos < NANOS_PER_SEC,
        ensures
            span@ == seconds(secs as int) + nanos,
    {
        Duration { secs, nanos }
    }

    /// A span of whole seconds.
    pub fn from_secs(secs: u64) -> (span: Self)
        ensures
            span@ == seconds(secs as int),
    {
        Duration { secs, nanos: 0 }
    }

    /// A span of whole milliseconds.
    pub fn from_millis(millis: u64) -> (span: Self)
        ensures
            span@ == milliseconds(millis as int),
    {
        Duration { secs: millis / 1000, nanos: (millis % 1000) as u32 * NANOS_PER_MILLI }
    }

    /// The whole seconds of this span.
    pub fn as_secs(&self) -> (secs: u64)
        ensures
            secs == self@ / NANOS_PER_SEC as nat,
    {
        proof {
            use_type_invariant(self);
        }
        self.secs
    }

    /// The nanoseconds of this span beyond its whole seconds.
    pub fn subsec_nanos(&self) -> (nanos: u32)
        ensures
            nanos == self@ % NANOS_PER_SEC as nat,
    {
        proof {
            use_type_invariant(self);
        }
        self.nanos
    }

    /// The whole milliseconds of this span.
    pub fn as_millis(&self) -> (millis: u128)
        ensures
            millis == self@ / NANOS_PER_MILLI as nat,
    {
        proof {
            use_type_invariant(self);
        }
        self.secs as u128 * 1000 + (self.nanos / NANOS_PER_MILLI) as u128
    }

    /// Whether this is no time at all.
    pub fn is_zero(&self) -> (zero: bool)
        ensures
            zero == (self@ == 0),
    {
        self.secs == 0 && self.nanos == 0
    }

    /// The shorter of two spans.
    pub fn min(self, other: Self) -> (shorter: Self)
        ensures
            shorter@ == if self@ <= other@ { self@ } else { other@ },
    {
        proof {
            use_type_invariant(&self);
            use_type_invariant(&other);
        }
        if self.secs < other.secs || (self.secs == other.secs && self.nanos <= other.nanos) {
            self
        } else {
            other
        }
    }
}

/// A second is a billion nanoseconds, a millisecond is a million of them, and a
/// thousand milliseconds are a second.
pub proof fn a_second_is_a_thousand_milliseconds(n: nat)
    ensures
        seconds(n as int) == n * 1_000_000_000,
        milliseconds(n as int) == n * 1_000_000,
        milliseconds(n as int * 1000) == seconds(n as int),
{
}

} // verus!
