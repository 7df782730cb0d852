//! Points in time, as the metrics carry them and as the clock gives them.
use vstd::prelude::*;

verus! {

/// The first second of the earliest day that a timestamp can name (1 January 262144 BCE).
pub const MIN_SECONDS: i64 = -8_334_601_228_800;

/// The last second of the latest day that a timestamp can name (31 December 262142).
pub const MAX_SECONDS: i64 = 8_210_266_876_799;

/// A point in time in UTC: seconds since the Unix epoch, and nanoseconds since that second
/// began. The nanoseconds go beyond one second during a leap second.
#[derive(Clone, Copy, Debug, PartialEq, Eq)]
pub struct Timestamp {
    seconds: i64,
    nanos: u32,
}

/// The pairs of seconds and nanoseconds that are a point in time.
pub open spec fn is_instant(seconds: int, nanos: int) -> bool {
    &&& MIN_SECONDS <= seconds <= MAX_SECONDS
    &&& 0 <= nanos < 2_000_000_000
}

/// The points in time that the clock can give: it knows no leap seconds.
pub open spec fn is_reading(seconds: int, nanos: int) -> bool {
    is_instant(seconds, nanos) && nanos < 1_000_000_000
}

/// Milliseconds since the Unix epoch, leap seconds not counted, rounded down.
pub open spec fn unix_millis(seconds: int, nanos: int) -> int {
    seconds * 1000 + nanos / 1_000_000
}

impl Timestamp {
    #[verifier::type_invariant]
    spec fn inv(self) -> bool {
        is_instant(self.seconds as int, self.nanos as int)
    }

    /// Seconds since the Unix epoch.
    pub closed spec fn spec_seconds(self) -> i64 {
        self.seconds
    }

    /// Nanoseconds since the second began.
    pub closed spec fn spec_nanos(self) -> u32 {
        self.nanos
    }

    /// The point in time `seconds` and `nanos` after the Unix epoch, if it is one.
    pub fn new(seconds: i64, nanos: u32) -> (timestamp: Option<Timestamp>)
        ensures
            timestamp is Some <==> is_instant(seconds as int, nanos as int),
            timestamp matches Some(t) ==> t.spec_seconds() == seconds && t.spec_nanos() == nanos,
    {
        if MIN_SECONDS <= seconds && seconds <= MAX_SECONDS && nanos < 2_000_000_000 {
            Some(Timestamp { seconds, nanos })
        } else {
            None
        }
    }

    /// Milliseconds since the Unix epoch.
    pub fn timestamp_millis(&self) -> (millis: i64)
        ensures
            millis == unix_millis(self.spec_seconds() as int, self.spec_nanos() as int),
    {
        proof {
            use_type_invariant(self);
        }
        self.seconds * 1000 + (self.nanos / 1_000_000) as i64
    }
}

/// The current time, from `chrono::Utc::now`, as its seconds and its nanoseconds.
///
/// What it returns depends on the system clock. Claimed is only that it is a point in time that
/// `chrono::DateTime<Utc>` can hold, and not within a leap second. That it is no earlier than the
/// Unix epoch is left unsaid: `Utc::now` panics on a system clock before the epoch, but in a
/// browser it takes whatever time the browser gives.
#[verifier::external_body]
fn utc_now() -> (now: (i64, u32))
    ensures
        is_reading(now.0 as int, now.1 as int),
{
    let now = chrono::Utc::now();
    (now.timestamp(), now.timestamp_subsec_nanos())
}

/// Milliseconds between the Unix epoch and the current time.
pub fn now_millis() -> (millis: i64)
    ensures
        exists|seconds: int, nanos: int|
            #[trigger] is_reading(seconds, nanos) && millis == unix_millis(seconds, nanos),
{
    let (seconds, nanos) = utc_now();
    let now = Timestamp { seconds, nanos };
    now.timestamp_millis()
}

}
