//! A point in time as the file-name templates read it: the seconds since
//! 1970-01-01T00:00:00Z together with the calendar fields of the same moment
//! in UTC.

use chrono::{Datelike, Timelike};
use vstd::prelude::*;

verus! {

/// A calendar date and a time of day, in UTC.
#[derive(Debug, Clone, Copy, PartialEq, Eq, Structural)]
pub struct CivilTime {
    pub year: i32,
    pub month: u32,
    pub day: u32,
    pub hour: u32,
    pub minute: u32,
    pub second: u32,
}

/// A point in time, UTC. The calendar fields are kept beside the count of
/// seconds so that writing a file name needs no calendar arithmetic; they
/// are those of the count of seconds in every instant that `from_timestamp`
/// or `from_civil` made.
#[derive(Debug, Clone, Copy, PartialEq, Eq, Structural)]
pub struct UtcInstant {
    /// whole seconds since 1970-01-01T00:00:00Z
    pub seconds: i64,
    /// nanoseconds since the last whole second
    pub nanoseconds: u32,
    /// the calendar fields of the same moment
    pub civil: CivilTime,
}

/// The calendar fields, in UTC, of the moment `seconds` after
/// 1970-01-01T00:00:00Z, as `chrono` computes them; `None` where `chrono`
/// cannot represent the moment.
pub uninterp spec fn civil_at(seconds: int) -> Option<CivilTime>;

/// The seconds from 1970-01-01T00:00:00Z to the given calendar date and time
/// of day in UTC, as `chrono` computes them; `None` where the fields name no
/// moment that `chrono` can represent.
pub uninterp spec fn seconds_at(
    year: int,
    month: int,
    day: int,
    hour: int,
    minute: int,
    second: int,
) -> Option<int>;

/// `chrono::DateTime::from_timestamp` with no nanoseconds, followed by the
/// readers `year`, `month`, `day`, `hour`, `minute` and `second` of the
/// moment it returns. The contract only gives the result its name.
#[verifier::external_body]
fn civil_from_seconds(seconds: i64) -> (r: Option<CivilTime>)
    ensures
        r == civil_at(seconds as int),
{
    match chrono::DateTime::from_timestamp(seconds, 0) {
        Some(t) => Some(
            CivilTime {
                year: t.year(),
                month: t.month(),
                day: t.day(),
                hour: t.hour(),
                minute: t.minute(),
                second: t.second(),
            },
        ),
        None => None,
    }
}

/// `chrono::NaiveDate::from_ymd_opt`, then `and_hms_opt` on the date, then the
/// `timestamp` of that date and time taken as UTC. The contract only gives the
/// result its name.
#[verifier::external_body]
fn seconds_from_civil(civil: &CivilTime) -> (r: Option<i64>)
    ensures
        match r {
            Some(s) => seconds_at(
                civil.year as int,
                civil.month as int,
                civil.day as int,
                civil.hour as int,
                civil.minute as int,
                civil.second as int,
            ) == Some(s as int),
            None => seconds_at(
                civil.year as int,
                civil.month as int,
                civil.day as int,
                civil.hour as int,
                civil.minute as int,
                civil.second as int,
            ) is None,
        },
{
    match chrono::NaiveDate::from_ymd_opt(civil.year, civil.month, civil.day) {
        Some(date) => match date.and_hms_opt(civil.hour, civil.minute, civil.second) {
            Some(at) => Some(at.and_utc().timestamp()),
            None => None,
        },
        None => None,
    }
}

impl UtcInstant {
    /// 1970-01-01T00:00:00Z.
    pub open spec fn spec_epoch() -> UtcInstant {
        UtcInstant {
            seconds: 0,
            nanoseconds: 0,
            civil: CivilTime { year: 1970, month: 1, day: 1, hour: 0, minute: 0, second: 0 },
        }
    }

    /// 1970-01-01T00:00:00Z.
    pub fn epoch() -> (r: UtcInstant)
        ensures
            r == Self::spec_epoch(),
    {
        UtcInstant {
            seconds: 0,
            nanoseconds: 0,
            civil: CivilTime { year: 1970, month: 1, day: 1, hour: 0, minute: 0, second: 0 },
        }
    }

    /// The instant with the given count of seconds and the calendar fields
    /// that belong to it, if there are any.
    pub open spec fn assembled(
        seconds: i64,
        nanoseconds: u32,
        civil: Option<CivilTime>,
    ) -> Option<UtcInstant> {
        match civil {
            Some(c) if nanoseconds < 1_000_000_000 => Some(
                UtcInstant { seconds, nanoseconds, civil: c },
            ),
            _ => None,
        }
    }

    /// Puts an instant together from a count of seconds and the calendar
    /// fields found for it. There is none where no calendar fields were
    /// found or `nanoseconds` reaches a full second.
    pub fn assemble(seconds: i64, nanoseconds: u32, civil: Option<CivilTime>) -> (r: Option<
        UtcInstant,
    >)
        ensures
            r == Self::assembled(seconds, nanoseconds, civil),
    {
        match civil {
            Some(c) => {
                if nanoseconds < 1_000_000_000 {
                    Some(UtcInstant { seconds, nanoseconds, civil: c })
                } else {
                    None
                }
            },
            None => None,
        }
    }

    /// The instant `seconds` and `nanoseconds` after 1970-01-01T00:00:00Z.
    pub fn from_timestamp(seconds: i64, nanoseconds: u32) -> (r: Option<UtcInstant>)
        ensures
            r == Self::assembled(seconds, nanoseconds, civil_at(seconds as int)),
    {
        let civil = civil_from_seconds(seconds);
        Self::assemble(seconds, nanoseconds, civil)
    }

    /// The instant at the given calendar date and time of day in UTC.
    pub fn from_civil(civil: CivilTime, nanoseconds: u32) -> (r: Option<UtcInstant>)
        ensures
            r == (match seconds_at(
                civil.year as int,
                civil.month as int,
                civil.day as int,
                civil.hour as int,
                civil.minute as int,
                civil.second as int,
            ) {
                Some(s) if i64::MIN <= s <= i64::MAX => Self::assembled(
                    s as i64,
                    nanoseconds,
                    Some(civil),
                ),
                _ => None,
            }),
    {
        match seconds_from_civil(&civil) {
            Some(s) => Self::assemble(s, nanoseconds, Some(civil)),
            None => None,
        }
    }

    /// Milliseconds since 1970-01-01T00:00:00Z.
    pub open spec fn millis(self) -> int {
        self.seconds * 1000 + self.nanoseconds / 1_000_000
    }

    /// Microseconds since 1970-01-01T00:00:00Z.
    pub open spec fn micros(self) -> int {
        self.seconds * 1_000_000 + self.nanoseconds / 1000
    }

    /// Nanoseconds since 1970-01-01T00:00:00Z where they fit 64 bits, else zero.
    pub open spec fn nanos_or_zero(self) -> int {
        let n = self.seconds * 1_000_000_000 + self.nanoseconds;
        if i64::MIN <= n <= i64::MAX {
            n
        } else {
            0
        }
    }

    /// Milliseconds since 1970-01-01T00:00:00Z.
    pub fn timestamp_millis(&self) -> (r: i128)
        ensures
            r == self.millis(),
    {
        (self.seconds as i128) * 1000 + (self.nanoseconds / 1_000_000) as i128
    }

    /// Microseconds since 1970-01-01T00:00:00Z.
    pub fn timestamp_micros(&self) -> (r: i128)
        ensures
            r == self.micros(),
    {
        (self.seconds as i128) * 1_000_000 + (self.nanoseconds / 1000) as i128
    }

    /// Nanoseconds since 1970-01-01T00:00:00Z where they fit 64 bits, else zero.
    pub fn timestamp_nanos_or_zero(&self) -> (r: i128)
        ensures
            r == self.nanos_or_zero(),
    {
        let n: i128 = (self.seconds as i128) * 1_000_000_000 + self.nanoseconds as i128;
        if n < i64::MIN as i128 || n > i64::MAX as i128 {
            0
        } else {
            n
        }
    }
}

impl Default for UtcInstant {
    fn default() -> (r: UtcInstant)
        ensures
            r == UtcInstant::spec_epoch(),
    {
        UtcInstant::epoch()
    }
}

} // verus!
