//! The host's calendar-time record.

use vstd::prelude::*;

verus! {

/// A point in time as the host reports it, field for field.
#[derive(Clone, Copy, PartialEq, Eq, Structural, Debug)]
pub struct Time {
    pub year: u16,
    pub month: u8,
    pub day: u8,
    pub hour: u8,
    pub minute: u8,
    pub second: u8,
    pub pad1: u8,
    pub nanosecond: u32,
    pub time_zone: i16,
    pub daylight: u8,
    pub pad2: u8,
}

impl Time {
    /// Whether every field of this time is zero.
    pub open spec fn is_zero(self) -> bool {
        &&& self.year == 0
        &&& self.month == 0
        &&& self.day == 0
        &&& self.hour == 0
        &&& self.minute == 0
        &&& self.second == 0
        &&& self.pad1 == 0
        &&& self.nanosecond == 0
        &&& self.time_zone == 0
        &&& self.daylight == 0
        &&& self.pad2 == 0
    }

    /// The all-zero time, which the host reads as "leave unchanged".
    pub fn zeroed() -> (t: Time)
        ensures
            t.is_zero(),
    {
        Time {
            year: 0,
            month: 0,
            day: 0,
            hour: 0,
            minute: 0,
            second: 0,
            pad1: 0,
            nanosecond: 0,
            time_zone: 0,
            daylight: 0,
            pad2: 0,
        }
    }
}

impl Default for Time {
    /// The all-zero time.
    fn default() -> (t: Self)
        ensures
            t.is_zero(),
    {
        Time::zeroed()
    }
}

} // verus!
