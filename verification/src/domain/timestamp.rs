//! Points in time, as the wire carries them.

use crate::trusted::clock_millis;
use vstd::prelude::*;

verus! {

/// A moment in UTC: milliseconds since 1970-01-01 00:00:00, leap seconds not counted.
#[derive(Clone, Copy, Debug, PartialEq, Eq, Structural)]
pub struct Timestamp {
    pub millis: i64,
}

/// The second of the day, from 0 to 86399, in which a moment lies.
pub open spec fn second_of_day(millis: int) -> int {
    (millis / 1000) % 86400
}

impl Timestamp {
    /// The moment with the given number of milliseconds.
    pub fn from_millis(millis: i64) -> (t: Timestamp)
        ensures
            t.millis == millis,
    {
        Timestamp { millis }
    }

    /// The current moment, read from the system clock.
    pub fn now() -> (t: Timestamp)
        ensures
            t.millis >= 0,
    {
        Timestamp { millis: clock_millis() }
    }

    /// Hour, minute and second of the day of this moment, in UTC. Moments before
    /// 1970 count back from midnight as later ones count on.
    pub fn hms(&self) -> (parts: (u8, u8, u8))
        ensures
            parts.0 as int == second_of_day(self.millis as int) / 3600,
            parts.1 as int == (second_of_day(self.millis as int) % 3600) / 60,
            parts.2 as int == second_of_day(self.millis as int) % 60,
            parts.0 < 24,
            parts.1 < 60,
            parts.2 < 60,
    {
        let seconds: i64 = if self.millis >= 0 {
            self.millis / 1000
        } else {
            -((-(self.millis + 1)) / 1000) - 1
        };
        let of_day: i64 = if seconds >= 0 {
            seconds % 86400
        } else {
            86399 - ((-(seconds + 1)) % 86400)
        };
        let hour: i64 = of_day / 3600;
        let minute: i64 = (of_day % 3600) / 60;
        let second: i64 = of_day % 60;
        (hour as u8, minute as u8, second as u8)
    }
}

} // verus!
