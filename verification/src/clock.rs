//! Points in time, and the whole seconds between two of them.

use vstd::prelude::*;

verus! {

/// The first second of the year -262143, where the calendar begins.
pub const MIN_SECS: i64 = -8334601228800;

/// The last second of the year 262142, where the calendar ends.
pub const MAX_SECS: i64 = 8210266876799;

/// Whether `secs` and `nanos` denote a point in time: the second lies in the
/// calendar, and a fraction of a second or more stands only where a leap second
/// may be, at the end of a minute.
pub open spec fn is_timestamp(secs: i64, nanos: u32) -> bool {
    &&& MIN_SECS <= secs <= MAX_SECS
    &&& nanos < 2_000_000_000
    &&& nanos >= 1_000_000_000 ==> (secs as int) % 60 == 59
}

/// A point in time: seconds since the Unix epoch and the nanoseconds after them.
#[derive(Clone, Copy, Debug, PartialEq, Eq, Structural)]
pub struct Timestamp {
    secs: i64,
    nanos: u32,
}

impl Timestamp {
    /// Seconds since the Unix epoch.
    pub closed spec fn spec_secs(self) -> i64 {
        self.secs
    }

    /// Nanoseconds since the last whole second.
    pub closed spec fn spec_nanos(self) -> u32 {
        self.nanos
    }

    #[verifier::type_invariant]
    spec fn in_calendar(self) -> bool {
        is_timestamp(self.secs, self.nanos)
    }

    /// The point in time `nanos` nanoseconds after the second `secs` of the
    /// Unix epoch, if there is one.
    pub fn new(secs: i64, nanos: u32) -> (r: Option<Timestamp>)
        ensures
            r is Some <==> is_timestamp(secs, nanos),
            r matches Some(t) ==> t.spec_secs() == secs && t.spec_nanos() == nanos,
    {
        if secs < MIN_SECS || secs > MAX_SECS || nanos >= 2_000_000_000 {
            return None;
        }
        if nanos >= 1_000_000_000 {
            // Shifted by a whole number of minutes to lie above zero.
            let shifted: u64 = (secs + 8_400_000_000_000) as u64;
            if shifted % 60 != 59 {
                return None;
            }
        }
        Some(Timestamp { secs, nanos })
    }

    pub fn secs(&self) -> (r: i64)
        ensures
            r == self.spec_secs(),
    {
        self.secs
    }

    pub fn nanos(&self) -> (r: u32)
        ensures
            r == self.spec_nanos(),
    {
        self.nanos
    }

    /// The whole seconds from `then` to this point in time, rounded toward
    /// zero; negative where `then` is the later one.
    pub fn seconds_since(&self, then: &Timestamp) -> (r: i64)
        ensures
            r == elapsed(*self, *then),
    {
        proof {
            use_type_invariant(self);
            use_type_invariant(then);
        }
        seconds_between(self.secs, self.nanos, then.secs, then.nanos)
    }

    /// Whether the point in time lies within a leap second.
    pub open spec fn in_leap_second(self) -> bool {
        self.spec_nanos() >= 1_000_000_000
    }
}

/// The second of the day.
pub open spec fn second_of_day(secs: int) -> int {
    secs % 86_400
}

/// The leap second that lies between two points in time, counted with the sign
/// of the way from `then` to `now`. It is told from the times of the day: a leap
/// second in which one of the points lies is passed where the other one is later
/// in the day.
pub open spec fn leap_between(now_secs: int, now_nanos: int, then_secs: int, then_nanos: int) -> int {
    if second_of_day(now_secs) > second_of_day(then_secs) && then_nanos >= 1_000_000_000 {
        1
    } else if second_of_day(now_secs) < second_of_day(then_secs) && now_nanos >= 1_000_000_000 {
        -1
    } else {
        0
    }
}

/// The nanoseconds from one point in time to another.
pub open spec fn nanos_between(now_secs: int, now_nanos: int, then_secs: int, then_nanos: int) -> int {
    (now_secs - then_secs + leap_between(now_secs, now_nanos, then_secs, then_nanos))
        * 1_000_000_000 + now_nanos - then_nanos
}

/// `nanos` in whole seconds, rounded toward zero.
pub open spec fn whole_seconds(nanos: int) -> int {
    if nanos >= 0 {
        nanos / 1_000_000_000
    } else {
        -((-nanos) / 1_000_000_000)
    }
}

/// The whole seconds that `now` is later than `then`.
pub open spec fn elapsed(now: Timestamp, then: Timestamp) -> int {
    whole_seconds(
        nanos_between(
            now.spec_secs() as int,
            now.spec_nanos() as int,
            then.spec_secs() as int,
            then.spec_nanos() as int,
        ),
    )
}

/// Calls `chrono::TimeDelta::num_seconds` on the difference of two
/// `chrono::DateTime<Utc>`, made by `DateTime::from_timestamp` of the four
/// numbers. The two constructions succeed for the points in time that
/// `is_timestamp` admits, and the difference of two such points is always in
/// range. The difference is that of the seconds and of the nanoseconds, with one
/// second more, forward or backward, where `leap_between` counts a leap second;
/// its whole seconds are rounded toward zero.
#[verifier::external_body]
fn seconds_between(now_secs: i64, now_nanos: u32, then_secs: i64, then_nanos: u32) -> (r: i64)
    requires
        is_timestamp(now_secs, now_nanos),
        is_timestamp(then_secs, then_nanos),
    ensures
        r == whole_seconds(
            nanos_between(now_secs as int, now_nanos as int, then_secs as int, then_nanos as int),
        ),
{
    let now = chrono::DateTime::from_timestamp(now_secs, now_nanos).unwrap();
    let then = chrono::DateTime::from_timestamp(then_secs, then_nanos).unwrap();
    (now - then).num_seconds()
}

/// Leap seconds apart, the seconds that have passed since a point in time never
/// become fewer.
pub proof fn lemma_elapsed_grows(sooner: Timestamp, later: Timestamp, then: Timestamp)
    requires
        !sooner.in_leap_second(),
        !later.in_leap_second(),
        !then.in_leap_second(),
        sooner.spec_secs() < later.spec_secs() || (sooner.spec_secs() == later.spec_secs()
            && sooner.spec_nanos() <= later.spec_nanos()),
    ensures
        elapsed(sooner, then) <= elapsed(later, then),
{
}

} // verus!
