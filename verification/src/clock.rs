//! Sources of clock readings.
use crate::time::{Duration, Instant, MAX_NANOS};
use vstd::prelude::*;

verus! {

/// A monotonic clock. It may restart, and then reads lower than before.
pub trait Clock {
    /// Whether `at` is a reading that this clock can give. An implementation
    /// that promises nothing of its readings leaves this as it is.
    open spec fn reads(&self, at: Instant) -> bool {
        true
    }

    fn now(&self) -> (at: Instant)
        ensures
            self.reads(at),
    ;
}

/// A reading of the host's monotonic clock. It is opaque: only its distance
/// from another one can be taken.
#[verifier::external_type_specification]
#[verifier::external_body]
pub struct ExHostInstant(std::time::Instant);

/// `std::time::Instant::now` reads the host's monotonic clock. Nothing is
/// promised of the reading.
#[verifier::external_body]
fn host_now() -> std::time::Instant {
    std::time::Instant::now()
}

/// The span that `std::time::Instant::checked_duration_since` gives from an
/// earlier reading of the host's clock to a later one.
pub uninterp spec fn host_span(
    later: std::time::Instant,
    earlier: std::time::Instant,
) -> Option<std::time::Duration>;

/// `Instant::checked_duration_since` gives the span since an earlier reading,
/// or `None` if that reading is later. The result is named, as a function of
/// the two readings; which readings lie in which order stays unsaid, since the
/// host's clock may misbehave and may have been restarted.
pub assume_specification[ std::time::Instant::checked_duration_since ](
    at: &std::time::Instant,
    earlier: std::time::Instant,
) -> (span: Option<std::time::Duration>)
    ensures
        span == host_span(*at, earlier),
;

/// The nanoseconds that `std::time::Duration::as_nanos` gives for a span.
pub uninterp spec fn span_nanos(span: std::time::Duration) -> u128;

/// `Duration::as_nanos` gives the length of a span in nanoseconds. The length
/// is named, as a function of the span, which is opaque. A span holds at most
/// `u64::MAX` seconds and 999,999,999 nanoseconds.
pub assume_specification[ std::time::Duration::as_nanos ](span: &std::time::Duration) -> (nanos:
    u128)
    ensures
        nanos == span_nanos(*span),
        nanos <= MAX_NANOS,
;

/// Where the readings of a system clock start: in the middle of the range, so
/// that a restarted host clock still has room below.
pub const READING_ORIGIN: u128 = 9_223_372_036_854_775_808_000_000_000;

/// The reading that lies `nanos` nanoseconds after the origin of a system clock
/// or, with `ahead` false, before it. It stays within the range of readings.
pub open spec fn distant_reading(ahead: bool, nanos: u128) -> int {
    if ahead {
        if READING_ORIGIN + nanos <= MAX_NANOS {
            READING_ORIGIN + nanos
        } else {
            MAX_NANOS as int
        }
    } else {
        if nanos <= READING_ORIGIN {
            READING_ORIGIN - nanos
        } else {
            0
        }
    }
}

/// What a system clock reads when the host's clock reads `host`: the origin,
/// moved by the span between `host` and the reading at the clock's creation,
/// forward if the host has moved on and back if it was restarted.
pub open spec fn reading_between(created: std::time::Instant, host: std::time::Instant) -> int {
    match host_span(host, created) {
        Some(span) => distant_reading(true, span_nanos(span)),
        None => match host_span(created, host) {
            Some(span) => distant_reading(false, span_nanos(span)),
            None => READING_ORIGIN as int,
        },
    }
}

/// Moves the origin of a system clock.
pub fn reading_at_distance(ahead: bool, nanos: u128) -> (at: Instant)
    ensures
        at@ == distant_reading(ahead, nanos),
{
    let at: u128 = if ahead {
        if nanos <= MAX_NANOS - READING_ORIGIN {
            READING_ORIGIN + nanos
        } else {
            MAX_NANOS
        }
    } else if nanos <= READING_ORIGIN {
        READING_ORIGIN - nanos
    } else {
        0
    };
    Instant::after_origin(Duration::from_nanos(at))
}

/// The host's monotonic clock. Its readings are distances from the host reading
/// at its creation, and go below the first one when the host clock restarts.
#[derive(Debug, Clone, Copy)]
pub struct SystemClock {
    created: std::time::Instant,
}

impl SystemClock {
    /// The host reading at the creation of the clock.
    pub closed spec fn created(&self) -> std::time::Instant {
        self.created
    }

    pub fn new() -> SystemClock {
        SystemClock { created: host_now() }
    }

    /// What this clock reads when the host's clock reads `host`.
    pub fn reading_of(&self, host: std::time::Instant) -> (at: Instant)
        ensures
            at@ == reading_between(self.created(), host),
    {
        match host.checked_duration_since(self.created) {
            Some(span) => reading_at_distance(true, span.as_nanos()),
            None => match self.created.checked_duration_since(host) {
                Some(span) => reading_at_distance(false, span.as_nanos()),
                None => reading_at_distance(true, 0),
            },
        }
    }
}

impl Default for SystemClock {
    fn default() -> SystemClock {
        SystemClock::new()
    }
}

impl Clock for SystemClock {
    /// The host decides when it is asked, so any of its readings may be the one
    /// that is converted.
    open spec fn reads(&self, at: Instant) -> bool {
        exists|host: std::time::Instant| at@ == #[trigger] reading_between(self.created(), host)
    }

    fn now(&self) -> (at: Instant) {
        self.reading_of(host_now())
    }
}

/// Readings of a system clock are as far apart as the spans that the host gives
/// between its own readings and the one at the clock's creation: later ones lie
/// after it, and those of a restarted host clock before it. Only beyond the range
/// of readings they are not.
pub proof fn law_readings_keep_distances(
    created: std::time::Instant,
    host: std::time::Instant,
    span: std::time::Duration,
    restarted: std::time::Instant,
    back: std::time::Duration,
    other: std::time::Instant,
    longer: std::time::Duration,
)
    requires
        host_span(host, created) == Some(span),
        READING_ORIGIN + span_nanos(span) <= MAX_NANOS,
        host_span(other, created) == Some(longer),
        READING_ORIGIN + span_nanos(longer) <= MAX_NANOS,
        host_span(restarted, created) is None,
        host_span(created, restarted) == Some(back),
        span_nanos(back) <= READING_ORIGIN,
    ensures
        reading_between(created, other) - reading_between(created, host) == span_nanos(longer)
            - span_nanos(span),
        reading_between(created, host) - reading_between(created, restarted) == span_nanos(span)
            + span_nanos(back),
{
}

} // verus!
