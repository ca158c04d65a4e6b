//! A non-negative span of time with nanosecond resolution.
//!
//! A [`Duration`] is modelled by its length in nanoseconds, a natural number
//! that never exceeds [`max_nanos`]. Arithmetic that could leave that range
//! is offered in checked or saturating form only.

use vstd::prelude::*;

verus! {

/// Nanoseconds in one second.
pub const NANOS_PER_SEC: u32 = 1_000_000_000;

/// Nanoseconds in one millisecond.
pub const NANOS_PER_MILLI: u32 = 1_000_000;

/// Milliseconds in one second.
pub const MILLIS_PER_SEC: u64 = 1_000;

/// The length in nanoseconds of the longest [`Duration`]: `u64::MAX` whole
/// seconds and one nanosecond short of another.
pub open spec fn max_nanos() -> nat {
    18_446_744_073_709_551_615_999_999_999
}

/// A span of time: whole seconds plus a sub-second part in nanoseconds.
#[derive(Clone, Copy, Debug, PartialEq, Eq)]
pub struct Duration {
    secs: u64,
    nanos: u32,
}

impl View for Duration {
    type V = nat;

    /// The length of the span in nanoseconds.
    closed spec fn view(&self) -> nat {
        (self.secs as nat) * 1_000_000_000 + (self.nanos as nat)
    }
}

impl Duration {
    /// The sub-second part stays below one second. Every value that
    /// executable code holds satisfies this.
    #[verifier::type_invariant]
    pub closed spec fn is_valid(self) -> bool {
        self.nanos < NANOS_PER_SEC
    }

    /// A valid duration is no longer than [`max_nanos`].
    pub proof fn lemma_valid_in_range(self)
        requires
            self.is_valid(),
        ensures
            self@ <= max_nanos(),
    {
    }

    /// Two valid durations of the same length are the same value.
    pub proof fn lemma_valid_unique(self, other: Duration)
        requires
            self.is_valid(),
            other.is_valid(),
            self@ == other@,
        ensures
            self == other,
    {
    }

    /// The empty span.
    pub fn zero() -> (d: Duration)
        ensures
            d@ == 0,
            d.is_valid(),
    {
        Duration { secs: 0, nanos: 0 }
    }

    /// A span of `secs` whole seconds.
    pub fn from_secs(secs: u64) -> (d: Duration)
        ensures
            d@ == secs as nat * 1_000_000_000,
            d.is_valid(),
    {
        Duration { secs, nanos: 0 }
    }

    /// A span of `millis` milliseconds.
    pub fn from_millis(millis: u64) -> (d: Duration)
        ensures
            d@ == millis as nat * 1_000_000,
            d.is_valid(),
    {
        let secs = millis / MILLIS_PER_SEC;
        let sub_millis = (millis % MILLIS_PER_SEC) as u32;
        Duration { secs, nanos: sub_millis * NANOS_PER_MILLI }
    }

    /// The number of whole seconds in the span.
    pub fn as_secs(&self) -> (secs: u64)
        ensures
            secs == self@ / 1_000_000_000,
    {
        proof {
            use_type_invariant(self);
        }
        self.secs
    }

    /// The part of the span beyond its whole seconds, in nanoseconds.
    pub fn subsec_nanos(&self) -> (nanos: u32)
        ensures
            nanos == self@ % 1_000_000_000,
    {
        proof {
            use_type_invariant(self);
        }
        self.nanos
    }

    /// The part of the span beyond its whole seconds, in whole milliseconds.
    pub fn subsec_millis(&self) -> (millis: u32)
        ensures
            millis == (self@ % 1_000_000_000) / 1_000_000,
    {
        proof {
            use_type_invariant(self);
        }
        self.nanos / NANOS_PER_MILLI
    }

    /// The length of the span in nanoseconds.
    pub fn as_nanos(&self) -> (nanos: u128)
        ensures
            nanos == self@,
    {
        proof {
            use_type_invariant(self);
        }
        (self.secs as u128) * 1_000_000_000 + (self.nanos as u128)
    }

    /// Whether the span is empty.
    pub fn is_zero(&self) -> (zero: bool)
        ensures
            zero == (self@ == 0),
    {
        self.secs == 0 && self.nanos == 0
    }

    /// Whether this span is no longer than `other`.
    pub fn le(&self, other: &Duration) -> (shorter: bool)
        ensures
            shorter == (self@ <= other@),
    {
        proof {
            use_type_invariant(self);
            use_type_invariant(other);
        }
        self.secs < other.secs || (self.secs == other.secs && self.nanos <= other.nanos)
    }

    /// The sum of two spans, or `None` where it would exceed [`max_nanos`].
    pub fn checked_add(self, rhs: Duration) -> (sum: Option<Duration>)
        ensures
            match sum {
                Some(d) => d@ == self@ + rhs@ && d.is_valid(),
                None => self@ + rhs@ > max_nanos(),
            },
    {
        proof {
            use_type_invariant(self);
            use_type_invariant(rhs);
        }
        let nanos_sum: u32 = self.nanos + rhs.nanos;
        let carry: u64 = if nanos_sum >= NANOS_PER_SEC {
            1
        } else {
            0
        };
        let nanos: u32 = if nanos_sum >= NANOS_PER_SEC {
            nanos_sum - NANOS_PER_SEC
        } else {
            nanos_sum
        };
        match self.secs.checked_add(rhs.secs) {
            None => None,
            Some(whole) => match whole.checked_add(carry) {
                None => None,
                Some(secs) => Some(Duration { secs, nanos }),
            },
        }
    }

    /// The difference of two spans, or `None` where `rhs` is the longer one.
    pub fn checked_sub(self, rhs: Duration) -> (difference: Option<Duration>)
        ensures
            match difference {
                Some(d) => d@ == self@ - rhs@ && d.is_valid(),
                None => self@ < rhs@,
            },
    {
        proof {
            use_type_invariant(self);
            use_type_invariant(rhs);
        }
        if self.secs < rhs.secs {
            None
        } else if self.nanos >= rhs.nanos {
            Some(Duration { secs: self.secs - rhs.secs, nanos: self.nanos - rhs.nanos })
        } else if self.secs > rhs.secs {
            Some(
                Duration {
                    secs: self.secs - rhs.secs - 1,
                    nanos: self.nanos + NANOS_PER_SEC - rhs.nanos,
                },
            )
        } else {
            None
        }
    }

    /// The difference of two spans, or the empty span where `rhs` is the
    /// longer one.
    pub fn saturating_sub(self, rhs: Duration) -> (difference: Duration)
        ensures
            difference@ == if self@ >= rhs@ {
                (self@ - rhs@) as nat
            } else {
                0
            },
            difference.is_valid(),
    {
        match self.checked_sub(rhs) {
            Some(d) => d,
            None => Duration::zero(),
        }
    }
}

} // verus!
