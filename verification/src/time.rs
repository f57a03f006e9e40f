//! Instants and spans of time as plain integers.

use vstd::prelude::*;

verus! {

/// Nanoseconds in one second.
pub const NANOS_PER_SEC: u64 = 1_000_000_000;

/// Seconds in one day.
pub const SECS_PER_DAY: u64 = 86_400;

/// Nanoseconds in one day.
pub const NANOS_PER_DAY: u64 = 86_400_000_000_000;

/// A point in time on the UTC scale: whole seconds since
/// 1970-01-01T00:00:00Z, leap seconds not counted, and the nanoseconds that
/// have passed since that second began. Within a leap second the
/// nanoseconds run on from a thousand million.
#[derive(Clone, Copy, Debug, PartialEq, Eq, Structural)]
pub struct Timestamp {
    pub secs: i64,
    pub nanos: u32,
}

/// The whole days from `earlier` to `later`, rounded towards minus infinity:
/// negative as soon as `later` lies before `earlier`, by however little.
pub open spec fn whole_days_between(later: Timestamp, earlier: Timestamp) -> int {
    (later.total_nanos() - earlier.total_nanos()) / (NANOS_PER_DAY as int)
}

impl Timestamp {
    /// The instant as one number: nanoseconds since the epoch.
    pub open spec fn total_nanos(self) -> int {
        self.secs * (NANOS_PER_SEC as int) + self.nanos
    }

    /// Midnight UTC at the start of the day that lies `days` days after
    /// 1970-01-01.
    pub open spec fn spec_midnight(days: i32) -> Timestamp {
        Timestamp { secs: (days * (SECS_PER_DAY as int)) as i64, nanos: 0 }
    }

    /// Midnight UTC at the start of the day that lies `days` days after
    /// 1970-01-01 (before it, for a negative `days`).
    pub fn midnight(days: i32) -> (t: Timestamp)
        ensures
            t == Self::spec_midnight(days),
            t.total_nanos() == days * (NANOS_PER_DAY as int),
    {
        let day: i64 = days as i64;
        Timestamp { secs: day * 86_400, nanos: 0 }
    }

    /// Whole days from `now` until `self`, rounded towards minus infinity.
    pub open spec fn spec_days_until(self, now: Timestamp) -> i64 {
        whole_days_between(self, now) as i64
    }

    /// Whole days from `now` until `self`, rounded towards minus infinity:
    /// zero or more exactly where `self` is not before `now`.
    pub fn days_until(self, now: Timestamp) -> (days: i64)
        ensures
            days == whole_days_between(self, now),
            days == self.spec_days_until(now),
            days >= 0 <==> self.total_nanos() >= now.total_nanos(),
    {
        let later: i128 = self.secs as i128 * 1_000_000_000 + self.nanos as i128;
        let earlier: i128 = now.secs as i128 * 1_000_000_000 + now.nanos as i128;
        if later >= earlier {
            let ahead: u128 = (later - earlier) as u128;
            let days: u128 = ahead / 86_400_000_000_000;
            days as i64
        } else {
            let behind: u128 = (earlier - later) as u128;
            let full: u128 = behind / 86_400_000_000_000;
            let rest: u128 = behind % 86_400_000_000_000;
            assert((later - earlier) / 86_400_000_000_000 == (if rest == 0 { -(full as int) } else { -(full as int) - 1 })) by (nonlinear_arith)
                requires
                    later - earlier == -(behind as int),
                    behind == full * 86_400_000_000_000 + rest,
                    0 <= rest < 86_400_000_000_000,
            ;
            if rest == 0 {
                -(full as i64)
            } else {
                -(full as i64) - 1
            }
        }
    }
}

/// A span of time, counted in nanoseconds.
#[derive(Clone, Copy, Debug, PartialEq, Eq, Structural)]
pub struct TimeSpan {
    pub nanos: u128,
}

impl TimeSpan {
    /// The span that lasts `secs` whole seconds.
    pub fn from_secs(secs: u64) -> (span: TimeSpan)
        ensures
            span.nanos == secs * (NANOS_PER_SEC as int),
    {
        TimeSpan { nanos: secs as u128 * 1_000_000_000 }
    }
}

/// A reading of a clock that never runs backwards: nanoseconds since an
/// origin that the caller fixes once, such as the start of the process.
#[derive(Clone, Copy, Debug, PartialEq, Eq, Structural)]
pub struct MonotonicInstant {
    pub nanos: u128,
}

impl MonotonicInstant {
    /// The time from `earlier` to `self`; zero where `earlier` is the later
    /// of the two.
    pub open spec fn spec_elapsed_since(self, earlier: MonotonicInstant) -> TimeSpan {
        if self.nanos >= earlier.nanos {
            TimeSpan { nanos: (self.nanos - earlier.nanos) as u128 }
        } else {
            TimeSpan { nanos: 0 }
        }
    }

    /// The time from `earlier` to `self`; zero where `earlier` is the later
    /// of the two.
    pub fn elapsed_since(self, earlier: MonotonicInstant) -> (span: TimeSpan)
        ensures
            span == self.spec_elapsed_since(earlier),
    {
        if self.nanos >= earlier.nanos {
            TimeSpan { nanos: self.nanos - earlier.nanos }
        } else {
            TimeSpan { nanos: 0 }
        }
    }
}

} // verus!
