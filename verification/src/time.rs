//! Time stamps and clocks.

use vstd::prelude::*;

verus! {

/// A point in time, in nanoseconds since the Unix epoch.
#[derive(Debug, Clone, Copy, PartialEq, Eq, Structural)]
pub struct ZTime {
    pub unix_nanos: i64,
}

impl ZTime {
    /// The Unix epoch.
    pub fn zero() -> (r: Self)
        ensures
            r.unix_nanos == 0,
    {
        ZTime { unix_nanos: 0 }
    }

    pub fn from_unix_nanos(unix_nanos: i64) -> (r: Self)
        ensures
            r.unix_nanos == unix_nanos,
    {
        ZTime { unix_nanos }
    }

    pub fn as_unix_nanos(&self) -> (r: i64)
        ensures
            r == self.unix_nanos,
    {
        self.unix_nanos
    }
}

/// A span of time.
#[derive(Debug, Clone, Copy, PartialEq, Eq, Structural)]
pub struct Duration {
    pub secs: u64,
    pub nanos: u32,
}

impl Duration {
    /// Whether the nanoseconds are less than a second.
    pub open spec fn wf(self) -> bool {
        self.nanos < 1_000_000_000
    }

    pub fn from_secs(secs: u64) -> (r: Self)
        ensures
            r == (Duration { secs, nanos: 0 }),
    {
        Duration { secs, nanos: 0 }
    }

    pub fn from_millis(millis: u64) -> (r: Self)
        ensures
            r.wf(),
            r.secs * 1000 + r.nanos / 1_000_000 == millis,
            r.nanos % 1_000_000 == 0,
    {
        Duration { secs: millis / 1000, nanos: (millis % 1000) as u32 * 1_000_000 }
    }
}

/// A clock whose time is set by the application.
#[derive(Debug, Clone, Copy, PartialEq, Eq, Structural)]
pub struct ZClock {
    pub time: ZTime,
}

impl ZClock {
    pub fn simulated(start: ZTime) -> (r: Self)
        ensures
            r.time == start,
    {
        ZClock { time: start }
    }

    pub fn set_time(&mut self, time: ZTime)
        ensures
            final(self).time == time,
    {
        self.time = time;
    }

    pub fn now(&self) -> (r: ZTime)
        ensures
            r == self.time,
    {
        self.time
    }
}

/// A span of so many milliseconds is as long as one of a thousandth as many seconds,
/// and a clock tells the time that was set.
pub proof fn spans_and_clocks_tell_their_time(
    seconds: u64,
    millis: u64,
    a: Duration,
    b: Duration,
    clock: &mut ZClock,
    time: ZTime,
    told: ZTime,
    nanos: i64,
)
    requires
        millis == 1000 * seconds,
        call_ensures(Duration::from_secs, (seconds,), a),
        call_ensures(Duration::from_millis, (millis,), b),
        call_ensures(ZClock::set_time, (clock, time), ()),
        call_ensures(ZClock::now, (&*final(clock),), told),
        call_ensures(ZTime::as_unix_nanos, (&told,), nanos),
    ensures
        a == b,
        told == time,
        nanos == time.unix_nanos,
{
}

} // verus!
