//! Calendar time to the second, as the time rule compares it.

use vstd::prelude::*;
use chrono::{Datelike, NaiveDateTime, Timelike};
use crate::body::PolicyError;

verus! {

/// A calendar date and time of day without a time zone.
#[derive(Clone, Copy, Debug, PartialEq, Eq, Structural)]
pub struct CivilTime {
    pub year: i32,
    pub month: u32,
    pub day: u32,
    pub hour: u32,
    pub minute: u32,
    pub second: u32,
}

/// Whether `a` lies strictly before `b`: the fields compared from the year
/// down to the second.
pub open spec fn earlier(a: CivilTime, b: CivilTime) -> bool {
    a.year < b.year || (a.year == b.year && (a.month < b.month || (a.month == b.month && (a.day
        < b.day || (a.day == b.day && (a.hour < b.hour || (a.hour == b.hour && (a.minute < b.minute
        || (a.minute == b.minute && a.second < b.second)))))))))
}

impl CivilTime {
    /// Whether this time lies strictly before `other`.
    pub fn is_earlier(&self, other: &CivilTime) -> (r: bool)
        ensures
            r == earlier(*self, *other),
    {
        if self.year != other.year {
            self.year < other.year
        } else if self.month != other.month {
            self.month < other.month
        } else if self.day != other.day {
            self.day < other.day
        } else if self.hour != other.hour {
            self.hour < other.hour
        } else if self.minute != other.minute {
            self.minute < other.minute
        } else {
            self.second < other.second
        }
    }
}

/// What `chrono` reads out of `text` under the format `format`: the calendar
/// fields of the date and time, or nothing where the text does not fit.
pub uninterp spec fn chrono_parse(text: Seq<char>, format: Seq<char>) -> Option<CivilTime>;

/// The format of an event's time: year, month, day, `T`, hour and minute.
pub open spec fn event_time_format() -> Seq<char> {
    "%Y-%m-%dT%H:%M"@
}

/// Parses `text` under `format`.
///
/// Calls `chrono::NaiveDateTime::parse_from_str` and reads the year, month,
/// day, hour, minute and second of what it returns. Trusted: the result is a
/// function of the two strings alone, `None` where the call reports an error.
#[verifier::external_body]
fn parse_civil(text: &str, format: &str) -> (r: Option<CivilTime>)
    ensures
        r == chrono_parse(text@, format@),
{
    match NaiveDateTime::parse_from_str(text, format) {
        Ok(t) => Some(
            CivilTime {
                year: t.year(),
                month: t.month(),
                day: t.day(),
                hour: t.hour(),
                minute: t.minute(),
                second: t.second(),
            },
        ),
        Err(_) => None,
    }
}

/// The instant that an event's time spells, or a constraint error where the
/// text is no date and time of the expected format.
pub open spec fn event_instant(text: Seq<char>) -> Result<CivilTime, PolicyError> {
    match chrono_parse(text, event_time_format()) {
        Some(instant) => Ok(instant),
        None => Err(PolicyError::Constraint),
    }
}

/// Reads an event's time, written as in `2024-02-15T00:00`.
pub fn parse_event_time(text: &str) -> (r: Result<CivilTime, PolicyError>)
    ensures
        r == event_instant(text@),
{
    match parse_civil(text, "%Y-%m-%dT%H:%M") {
        Some(instant) => Ok(instant),
        None => Err(PolicyError::Constraint),
    }
}

} // verus!
