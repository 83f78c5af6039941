//! Spans of time and readings of a monotonic clock, to the nanosecond.
use vstd::prelude::*;

verus! {

pub const NANOS_PER_SEC: u128 = 1_000_000_000;

pub const NANOS_PER_MILLI: u128 = 1_000_000;

/// The longest span: `u64::MAX` seconds and 999,999,999 nanoseconds.
pub const MAX_NANOS: u128 = 18_446_744_073_709_551_615_999_999_999;

/// A span of time. Its view is its length in nanoseconds.
#[derive(Debug, Clone, Copy, PartialEq, Eq, Structural)]
pub struct Duration {
    nanos: u128,
}

impl View for Duration {
    type V = nat;

    closed spec fn view(&self) -> nat {
        self.nanos as nat
    }
}

impl Duration {
    #[verifier::type_invariant]
    spec fn in_range(self) -> bool {
        self.nanos <= MAX_NANOS
    }

    /// The span of `nanos` nanoseconds.
    pub closed spec fn of(nanos: nat) -> Duration {
        Duration { nanos: nanos as u128 }
    }

    /// No time at all.
    pub fn zero() -> (span: Duration)
        ensures
            span@ == 0,
            span == Duration::of(0),
    {
        Duration { nanos: 0 }
    }

    pub(crate) fn from_nanos(nanos: u128) -> (span: Duration)
        requires
            nanos <= MAX_NANOS,
        ensures
            span@ == nanos,
            span == Duration::of(nanos as nat),
    {
        Duration { nanos }
    }

    pub fn from_millis(millis: u64) -> (span: Duration)
        ensures
            span@ == millis * NANOS_PER_MILLI,
            span == Duration::of((millis * NANOS_PER_MILLI) as nat),
    {
        Duration { nanos: millis as u128 * NANOS_PER_MILLI }
    }

    pub fn from_secs(secs: u64) -> (span: Duration)
        ensures
            span@ == secs * NANOS_PER_SEC,
            span == Duration::of((secs * NANOS_PER_SEC) as nat),
    {
        Duration { nanos: secs as u128 * NANOS_PER_SEC }
    }

    pub fn as_nanos(&self) -> (nanos: u128)
        ensures
            nanos == self@,
            nanos <= MAX_NANOS,
            *self == Duration::of(nanos as nat),
    {
        proof {
            use_type_invariant(self);
        }
        self.nanos
    }

    /// The whole seconds of the span.
    pub fn as_secs(&self) -> (secs: u64)
        ensures
            secs == self@ / NANOS_PER_SEC as nat,
    {
        proof {
            use_type_invariant(self);
        }
        (self.nanos / NANOS_PER_SEC) as u64
    }

    /// The nanoseconds of the span past its last whole second.
    pub fn subsec_nanos(&self) -> (nanos: u32)
        ensures
            nanos == self@ % NANOS_PER_SEC as nat,
    {
        (self.nanos % NANOS_PER_SEC) as u32
    }

    pub fn is_zero(&self) -> (zero: bool)
        ensures
            zero == (self@ == 0),
    {
        self.nanos == 0
    }

    /// A span is its length.
    pub proof fn lemma_of_view(self)
        ensures
            Duration::of(self@) == self,
    {
    }

    pub proof fn lemma_view_of(nanos: nat)
        requires
            nanos <= MAX_NANOS,
        ensures
            Duration::of(nanos)@ == nanos,
    {
    }
}

/// A reading of a monotonic clock. Its view is the nanoseconds since the
/// clock's origin. A clock that restarts gives readings below earlier ones.
#[derive(Debug, Clone, Copy, PartialEq, Eq, Structural)]
pub struct Instant {
    nanos: u128,
}

impl View for Instant {
    type V = nat;

    closed spec fn view(&self) -> nat {
        self.nanos as nat
    }
}

impl Instant {
    #[verifier::type_invariant]
    spec fn in_range(self) -> bool {
        self.nanos <= MAX_NANOS
    }

    /// The reading `span` after the clock's origin.
    pub fn after_origin(span: Duration) -> (at: Instant)
        ensures
            at@ == span@,
    {
        Instant { nanos: span.as_nanos() }
    }

    /// The span from the clock's origin to this reading.
    pub fn since_origin(&self) -> (span: Duration)
        ensures
            span@ == self@,
    {
        proof {
            use_type_invariant(self);
        }
        Duration::from_nanos(self.nanos)
    }

    pub fn as_nanos(&self) -> (nanos: u128)
        ensures
            nanos == self@,
            nanos <= MAX_NANOS,
    {
        proof {
            use_type_invariant(self);
        }
        self.nanos
    }

    /// The reading `span` later, if a clock can give it.
    pub fn checked_add(&self, span: Duration) -> (later: Option<Instant>)
        ensures
            match later {
                Some(later) => later@ == self@ + span@,
                None => self@ + span@ > MAX_NANOS,
            },
    {
        proof {
            use_type_invariant(self);
        }
        let nanos: u128 = self.nanos + span.as_nanos();
        if nanos <= MAX_NANOS {
            Some(Instant { nanos })
        } else {
            None
        }
    }

    /// The reading `span` earlier, if it is not before the origin.
    pub fn checked_sub(&self, span: Duration) -> (earlier: Option<Instant>)
        ensures
            match earlier {
                Some(earlier) => earlier@ == self@ - span@,
                None => self@ < span@,
            },
    {
        proof {
            use_type_invariant(self);
        }
        let back: u128 = span.as_nanos();
        if back <= self.nanos {
            Some(Instant { nanos: self.nanos - back })
        } else {
            None
        }
    }

    /// The span from an earlier reading to this one, if it is earlier.
    pub fn checked_duration_since(&self, earlier: Instant) -> (span: Option<Duration>)
        ensures
            match span {
                Some(span) => earlier@ + span@ == self@,
                None => self@ < earlier@,
            },
    {
        proof {
            use_type_invariant(self);
        }
        if earlier.nanos <= self.nanos {
            Some(Duration::from_nanos(self.nanos - earlier.nanos))
        } else {
            None
        }
    }
}

} // verus!
