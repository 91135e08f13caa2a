//! Calendar timestamps for decoded chat events. The host hands the decoder a
//! field-by-field system time (year, month, day, hour, minute, second,
//! millisecond, as the platform's time conversion produces it); this module
//! validates those fields against the civil calendar, so that an event never
//! carries an impossible date.

use vstd::prelude::*;

verus! {

/// A system time as the host's native conversion reports it: plain numeric
/// fields, not yet validated.
#[derive(Debug, Clone, Copy, PartialEq, Eq, Structural)]
pub struct SystemTimeParts {
    pub year: u16,
    pub month: u16,
    pub day: u16,
    pub hour: u16,
    pub minute: u16,
    pub second: u16,
    pub millisecond: u16,
}

/// A validated UTC timestamp.
#[derive(Debug, Clone, Copy, PartialEq, Eq, Structural)]
pub struct Timestamp {
    pub year: u16,
    pub month: u8,
    pub day: u8,
    pub hour: u8,
    pub minute: u8,
    pub second: u8,
    pub millisecond: u16,
}

pub open spec fn is_leap_year(year: int) -> bool {
    year % 4 == 0 && (year % 100 != 0 || year % 400 == 0)
}

pub open spec fn days_in_month(year: int, month: int) -> int {
    if month == 2 {
        if is_leap_year(year) {
            29
        } else {
            28
        }
    } else if month == 4 || month == 6 || month == 9 || month == 11 {
        30
    } else {
        31
    }
}

/// What makes a set of raw fields a real calendar instant.
pub open spec fn parts_valid(p: SystemTimeParts) -> bool {
    &&& 1 <= p.month <= 12
    &&& 1 <= p.day <= days_in_month(p.year as int, p.month as int)
    &&& p.hour < 24
    &&& p.minute < 60
    &&& p.second < 60
    &&& p.millisecond < 1000
}

impl Timestamp {
    pub open spec fn well_formed(self) -> bool {
        &&& 1 <= self.month <= 12
        &&& 1 <= self.day <= days_in_month(self.year as int, self.month as int)
        &&& self.hour < 24
        &&& self.minute < 60
        &&& self.second < 60
        &&& self.millisecond < 1000
    }

    pub open spec fn matches_parts(self, p: SystemTimeParts) -> bool {
        &&& self.year == p.year
        &&& self.month == p.month
        &&& self.day == p.day
        &&& self.hour == p.hour
        &&& self.minute == p.minute
        &&& self.second == p.second
        &&& self.millisecond == p.millisecond
    }

    /// Validates a raw system time: `Some` exactly when the fields name a real
    /// calendar instant, and then the timestamp carries them unchanged.
    pub fn from_parts(p: SystemTimeParts) -> (r: Option<Timestamp>)
        ensures
            r is Some <==> parts_valid(p),
            r matches Some(t) ==> t.matches_parts(p) && t.well_formed(),
    {
        if p.month < 1 || p.month > 12 {
            return None;
        }
        let dim: u16 = if p.month == 2 {
            if (p.year % 4 == 0) && (p.year % 100 != 0 || p.year % 400 == 0) {
                29
            } else {
                28
            }
        } else if p.month == 4 || p.month == 6 || p.month == 9 || p.month == 11 {
            30
        } else {
            31
        };
        assert(dim == days_in_month(p.year as int, p.month as int));
        if p.day < 1 || p.day > dim {
            return None;
        }
        if p.hour >= 24 || p.minute >= 60 || p.second >= 60 || p.millisecond >= 1000 {
            return None;
        }
        Some(
            Timestamp {
                year: p.year,
                month: p.month as u8,
                day: p.day as u8,
                hour: p.hour as u8,
                minute: p.minute as u8,
                second: p.second as u8,
                millisecond: p.millisecond,
            },
        )
    }
}

} // verus!
