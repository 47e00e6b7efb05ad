//! Plain enums: time units, rough points in time, and a few HTTP statuses.

use core::cmp::Ordering;
use vstd::prelude::*;

verus! {

/// Three-way comparison of two integers.
pub fn compare(n: i32, m: i32) -> (o: Ordering)
    ensures
        o == (if n < m {
            Ordering::Less
        } else if n > m {
            Ordering::Greater
        } else {
            Ordering::Equal
        }),
{
    if n < m {
        Ordering::Less
    } else if n > m {
        Ordering::Greater
    } else {
        Ordering::Equal
    }
}

/// A unit of time, for rough durations.
#[derive(Copy, Clone, Debug, PartialEq, Eq, Structural)]
pub enum TimeUnit {
    Seconds,
    Minutes,
    Hours,
    Days,
    Months,
    Years,
}

/// The plural English name of a unit.
pub open spec fn plural_text(unit: TimeUnit) -> Seq<char> {
    match unit {
        TimeUnit::Seconds => "seconds"@,
        TimeUnit::Minutes => "minutes"@,
        TimeUnit::Hours => "hours"@,
        TimeUnit::Days => "days"@,
        TimeUnit::Months => "months"@,
        TimeUnit::Years => "years"@,
    }
}

/// The singular English name of a unit.
pub open spec fn singular_text(unit: TimeUnit) -> Seq<char> {
    match unit {
        TimeUnit::Seconds => "second"@,
        TimeUnit::Minutes => "minute"@,
        TimeUnit::Hours => "hour"@,
        TimeUnit::Days => "day"@,
        TimeUnit::Months => "month"@,
        TimeUnit::Years => "year"@,
    }
}

impl TimeUnit {
    /// The unit's plural English name.
    pub fn plural(self) -> (s: &'static str)
        ensures
            s@ == plural_text(self),
    {
        match self {
            TimeUnit::Seconds => "seconds",
            TimeUnit::Minutes => "minutes",
            TimeUnit::Hours => "hours",
            TimeUnit::Days => "days",
            TimeUnit::Months => "months",
            TimeUnit::Years => "years",
        }
    }

    /// The unit's singular English name: the plural without its trailing `s`.
    pub fn singular(self) -> (s: &'static str)
        ensures
            s@ == singular_text(self),
            s@ == plural_text(self).take(plural_text(self).len() - 1),
    {
        let s = match self {
            TimeUnit::Seconds => "second",
            TimeUnit::Minutes => "minute",
            TimeUnit::Hours => "hour",
            TimeUnit::Days => "day",
            TimeUnit::Months => "month",
            TimeUnit::Years => "year",
        };
        proof {
            reveal_strlit("seconds");
            reveal_strlit("second");
            reveal_strlit("minutes");
            reveal_strlit("minute");
            reveal_strlit("hours");
            reveal_strlit("hour");
            reveal_strlit("days");
            reveal_strlit("day");
            reveal_strlit("months");
            reveal_strlit("month");
            reveal_strlit("years");
            reveal_strlit("year");
            assert(s@ =~= plural_text(self).take(plural_text(self).len() - 1));
        }
        s
    }
}

/// A rough description of when something happened.
#[derive(Copy, Clone, Debug, PartialEq, Eq, Structural)]
pub enum RoughTime {
    InThePast(TimeUnit, u32),
    JustNow,
    InTheFuture(TimeUnit, u32),
}

/// The HTTP statuses this code cares about.
#[derive(Copy, Clone, Debug, PartialEq, Eq, Structural)]
pub enum HttpStatus {
    Okay,
    NotModified,
    NotFound,
}

/// Decode the numeric code of an HTTP status, for the statuses known here.
pub fn http_status_from_u32(n: u32) -> (r: Option<HttpStatus>)
    ensures
        r == (match n {
            200u32 => Some(HttpStatus::Okay),
            304u32 => Some(HttpStatus::NotModified),
            404u32 => Some(HttpStatus::NotFound),
            _ => None::<HttpStatus>,
        }),
{
    match n {
        200 => Some(HttpStatus::Okay),
        304 => Some(HttpStatus::NotModified),
        404 => Some(HttpStatus::NotFound),
        _ => None,
    }
}

} // verus!
