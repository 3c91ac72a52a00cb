//! Points in time and spans between them, as `chrono` counts them.

use chrono::{DateTime, Timelike, Utc};
use vstd::prelude::*;

verus! {

/// Second of the first instant that a `DateTime<Utc>` can name, counted from the Unix epoch.
pub const MIN_SECS: i64 = -8_334_601_228_800;

/// Second of the last instant that a `DateTime<Utc>` can name, counted from the Unix epoch.
pub const MAX_SECS: i64 = 8_210_266_876_799;

/// Nanoseconds in a second.
pub const NANOS_PER_SEC: u32 = 1_000_000_000;

/// A UTC instant: a second since the Unix epoch and the nanoseconds into it. Nanoseconds from
/// `NANOS_PER_SEC` on lie within a leap second that follows the second.
#[derive(Clone, Copy, Debug, PartialEq, Eq, Hash, Structural)]
pub struct Timestamp {
    secs: i64,
    nanos: u32,
}

/// Whether a second and the nanoseconds into it name an instant.
pub open spec fn names_instant(secs: int, nanos: int) -> bool {
    MIN_SECS <= secs <= MAX_SECS && 0 <= nanos < 2 * NANOS_PER_SEC
}

impl Timestamp {
    #[verifier::type_invariant]
    spec fn wf(self) -> bool {
        names_instant(self.secs as int, self.nanos as int)
    }

    /// Seconds since the Unix epoch.
    pub closed spec fn spec_secs(self) -> int {
        self.secs as int
    }

    /// Nanoseconds into the second, a leap second included.
    pub closed spec fn spec_nanos(self) -> int {
        self.nanos as int
    }

    /// The instant `nanos` nanoseconds into second `secs`, where there is one.
    pub fn new(secs: i64, nanos: u32) -> (made: Option<Timestamp>)
        ensures
            made is Some <==> names_instant(secs as int, nanos as int),
            made matches Some(t) ==> t.spec_secs() == secs && t.spec_nanos() == nanos,
    {
        if MIN_SECS <= secs && secs <= MAX_SECS && nanos < 2 * NANOS_PER_SEC {
            Some(Timestamp { secs, nanos })
        } else {
            None
        }
    }

    /// Seconds since the Unix epoch.
    pub fn timestamp(&self) -> (secs: i64)
        ensures
            secs == self.spec_secs(),
            MIN_SECS <= secs <= MAX_SECS,
    {
        proof {
            use_type_invariant(self);
        }
        self.secs
    }

    /// Nanoseconds into the second.
    pub fn timestamp_subsec_nanos(&self) -> (nanos: u32)
        ensures
            nanos == self.spec_nanos(),
            nanos < 2 * NANOS_PER_SEC,
    {
        proof {
            use_type_invariant(self);
        }
        self.nanos
    }
}

/// A span of time, negative ones included: whole seconds and the nanoseconds beyond them.
#[derive(Clone, Copy, Debug, PartialEq, Eq, Hash, Structural)]
pub struct TimeDelta {
    secs: i64,
    nanos: u32,
}

impl TimeDelta {
    #[verifier::type_invariant]
    spec fn wf(self) -> bool {
        self.nanos < NANOS_PER_SEC
    }

    /// The span in nanoseconds.
    pub closed spec fn spec_nanos(self) -> int {
        self.secs * NANOS_PER_SEC + self.nanos
    }

    /// The span of `secs` seconds and `nanos` nanoseconds, where `nanos` is below a second.
    pub fn new(secs: i64, nanos: u32) -> (made: Option<TimeDelta>)
        ensures
            made is Some <==> nanos < NANOS_PER_SEC,
            made matches Some(d) ==> d.spec_nanos() == secs * NANOS_PER_SEC + nanos,
    {
        if nanos < NANOS_PER_SEC {
            Some(TimeDelta { secs, nanos })
        } else {
            None
        }
    }

    /// The span of `secs` seconds.
    pub fn seconds(secs: i64) -> (made: TimeDelta)
        ensures
            made.spec_nanos() == secs * NANOS_PER_SEC,
    {
        TimeDelta { secs, nanos: 0 }
    }
}

/// Second of the day of an instant.
pub open spec fn second_of_day(t: Timestamp) -> int {
    t.spec_secs() % 86_400
}

/// Leap seconds that lie between two instants: only one that an instant itself lies in is known
/// of, and it counts where the second of the day of that instant comes first.
pub open spec fn leap_seconds_between(later: Timestamp, earlier: Timestamp) -> int {
    if second_of_day(later) > second_of_day(earlier) && earlier.spec_nanos() >= NANOS_PER_SEC {
        1
    } else if second_of_day(later) < second_of_day(earlier) && later.spec_nanos()
        >= NANOS_PER_SEC {
        -1
    } else {
        0
    }
}

/// Nanoseconds from `earlier` to `later`, negative where `later` comes first.
pub open spec fn elapsed_nanos(later: Timestamp, earlier: Timestamp) -> int {
    (later.spec_secs() - earlier.spec_secs() + leap_seconds_between(later, earlier)) * NANOS_PER_SEC
        + later.spec_nanos() - earlier.spec_nanos()
}

/// `chrono::DateTime::<Utc>::signed_duration_since`, as the whole seconds
/// (`TimeDelta::num_seconds`) and the nanoseconds beyond them (`TimeDelta::subsec_nanos`) of the
/// span that it returns. Together they make up the nanoseconds from `earlier` to `later`, and
/// neither has a sign against the other.
#[verifier::external_body]
fn signed_duration_since(later: &Timestamp, earlier: &Timestamp) -> (span: (i64, i32))
    requires
        later.wf(),
        earlier.wf(),
    ensures
        span.0 * NANOS_PER_SEC + span.1 == elapsed_nanos(*later, *earlier),
        -NANOS_PER_SEC < span.1 < NANOS_PER_SEC,
        span.0 > 0 ==> span.1 >= 0,
        span.0 < 0 ==> span.1 <= 0,
{
    let to = DateTime::<Utc>::from_timestamp(later.secs, 0).unwrap().naive_utc();
    let to = to.with_nanosecond(later.nanos).unwrap().and_utc();
    let from = DateTime::<Utc>::from_timestamp(earlier.secs, 0).unwrap().naive_utc();
    let from = from.with_nanosecond(earlier.nanos).unwrap().and_utc();
    let span = to.signed_duration_since(from);
    (span.num_seconds(), span.subsec_nanos())
}

/// Whether at least `window` has passed from `earlier` to `later`.
pub fn elapsed_at_least(later: &Timestamp, earlier: &Timestamp, window: &TimeDelta) -> (passed: bool)
    ensures
        passed == (elapsed_nanos(*later, *earlier) >= window.spec_nanos()),
{
    proof {
        use_type_invariant(later);
        use_type_invariant(earlier);
        use_type_invariant(window);
    }
    let span = signed_duration_since(later, earlier);
    let nanos_per_sec: i128 = 1_000_000_000;
    let elapsed: i128 = span.0 as i128 * nanos_per_sec + span.1 as i128;
    elapsed >= window.secs as i128 * nanos_per_sec + window.nanos as i128
}

} // verus!
