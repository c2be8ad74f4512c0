//! Spans of time and points on a monotonic clock, in whole nanoseconds.

use vstd::prelude::*;

verus! {

/// Nanoseconds in one second.
pub const NANOS_PER_SEC: u128 = 1_000_000_000;

/// The longest representable span: `u64::MAX` seconds and 999_999_999 nanoseconds.
pub const MAX_NANOS: u128 = 18_446_744_073_709_551_615_999_999_999;

/// A span of time. Its view is its length in nanoseconds.
#[derive(Clone, Copy, Debug, PartialEq, Eq)]
pub struct Duration {
    nanos: u128,
}

impl View for Duration {
    type V = nat;

    closed spec fn view(&self) -> nat {
        self.nanos as nat
    }
}

impl Duration {
    #[verifier::type_invariant]
    spec fn representable(self) -> bool {
        self.nanos <= MAX_NANOS
    }

    /// The span of `secs` seconds and `subsec_nanos` nanoseconds.
    pub fn new(secs: u64, subsec_nanos: u32) -> (d: Duration)
        requires
            subsec_nanos < NANOS_PER_SEC,
        ensures
            d@ == secs * NANOS_PER_SEC + subsec_nanos,
    {
        Duration { nanos: secs as u128 * NANOS_PER_SEC + subsec_nanos as u128 }
    }

    /// The span of `secs` seconds.
    pub fn from_secs(secs: u64) -> (d: Duration)
        ensures
            d@ == secs * NANOS_PER_SEC,
    {
        Duration::new(secs, 0)
    }

    /// The span of `millis` milliseconds.
    pub fn from_millis(millis: u64) -> (d: Duration)
        ensures
            d@ == millis * 1_000_000,
    {
        Duration { nanos: millis as u128 * 1_000_000 }
    }

    /// The length of the span in nanoseconds.
    pub fn as_nanos(&self) -> (nanos: u128)
        ensures
            nanos == self@,
            nanos <= MAX_NANOS,
    {
        proof {
            use_type_invariant(self);
        }
        self.nanos
    }

    /// The whole seconds of the span.
    pub fn as_secs(&self) -> (secs: u64)
        ensures
            secs == self@ / (NANOS_PER_SEC as nat),
    {
        proof {
            use_type_invariant(self);
        }
        (self.nanos / NANOS_PER_SEC) as u64
    }

    /// What the span is longer than its whole seconds, in nanoseconds.
    pub fn subsec_nanos(&self) -> (nanos: u32)
        ensures
            nanos == self@ % (NANOS_PER_SEC as nat),
    {
        (self.nanos % NANOS_PER_SEC) as u32
    }
}

/// A point on a monotonic clock. Its view is the number of nanoseconds since the clock's start.
#[derive(Clone, Copy, Debug, PartialEq, Eq)]
pub struct Instant {
    nanos: u128,
}

impl View for Instant {
    type V = nat;

    closed spec fn view(&self) -> nat {
        self.nanos as nat
    }
}

/// The time from `earlier` to `later` in nanoseconds, and zero where `earlier` is the later one.
pub open spec fn elapsed(later: Instant, earlier: Instant) -> nat {
    if later@ >= earlier@ {
        (later@ - earlier@) as nat
    } else {
        0
    }
}

impl Instant {
    #[verifier::type_invariant]
    spec fn representable(self) -> bool {
        self.nanos <= MAX_NANOS
    }

    /// The point that lies `since_start` after the clock's start.
    pub fn after_start(since_start: Duration) -> (at: Instant)
        ensures
            at@ == since_start@,
    {
        Instant { nanos: since_start.as_nanos() }
    }

    /// The time that passed from `earlier` to this point; zero where `earlier` lies later.
    pub fn duration_since(&self, earlier: Instant) -> (d: Duration)
        ensures
            d@ == elapsed(*self, earlier),
    {
        proof {
            use_type_invariant(self);
        }
        if self.nanos >= earlier.nanos {
            Duration { nanos: self.nanos - earlier.nanos }
        } else {
            Duration { nanos: 0 }
        }
    }
}

/// A span gives back the seconds and nanoseconds that it was made of.
pub proof fn law_span_gives_back_its_parts(
    secs: u64,
    subsec_nanos: u32,
    span: Duration,
    whole: u64,
    rest: u32,
    nanos: u128,
)
    requires
        subsec_nanos < 1_000_000_000,
        call_ensures(Duration::new, (secs, subsec_nanos), span),
        call_ensures(Duration::as_secs, (&span,), whole),
        call_ensures(Duration::subsec_nanos, (&span,), rest),
        call_ensures(Duration::as_nanos, (&span,), nanos),
    ensures
        whole == secs,
        rest == subsec_nanos,
        nanos == secs * 1_000_000_000 + subsec_nanos,
{
}

/// Spans of whole seconds and of whole milliseconds agree: a second is a thousand milliseconds.
pub proof fn law_second_is_a_thousand_milliseconds(
    secs: u64,
    millis: u64,
    of_secs: Duration,
    of_millis: Duration,
    secs_nanos: u128,
    millis_nanos: u128,
)
    requires
        call_ensures(Duration::from_secs, (secs,), of_secs),
        call_ensures(Duration::from_millis, (millis,), of_millis),
        call_ensures(Duration::as_nanos, (&of_secs,), secs_nanos),
        call_ensures(Duration::as_nanos, (&of_millis,), millis_nanos),
    ensures
        secs_nanos == secs * 1_000_000_000,
        millis_nanos == millis * 1_000_000,
        secs_nanos == millis_nanos <==> millis == secs * 1000,
{
}

/// The time between two points of one clock is the difference of their distances from its start, and
/// zero where the other point lies later.
pub proof fn law_time_between_points(
    first: Duration,
    second: Duration,
    earlier: Instant,
    later: Instant,
    between: Duration,
)
    requires
        call_ensures(Instant::after_start, (first,), earlier),
        call_ensures(Instant::after_start, (second,), later),
        call_ensures(Instant::duration_since, (&later, earlier), between),
    ensures
        second@ >= first@ ==> between@ + first@ == second@,
        second@ < first@ ==> between@ == 0,
        elapsed(later, earlier) == between@,
{
}

} // verus!
