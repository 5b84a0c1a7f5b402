//! Instants in UTC, kept as seconds since the UNIX epoch and the nanoseconds within the second.
use std::cmp::Ordering;

use chrono::TimeZone;
use vstd::prelude::*;
use vstd::std_specs::cmp::{PartialEqSpecImpl, PartialOrdSpecImpl};
use vstd::std_specs::convert::TryFromSpecImpl;

use crate::text::decimal_text;

verus! {

/// The first second of the first year that a calendar date can name.
pub const FIRST_SECOND: i64 = -8334601228800;

/// The last second of the last year that a calendar date can name.
pub const LAST_SECOND: i64 = 8210266876799;

/// The first and the last year that a calendar date can name.
pub const FIRST_YEAR: i32 = -262143;

pub const LAST_YEAR: i32 = 262142;

/// The second, counted from the UNIX epoch, falls on a date that the calendar can name.
pub open spec fn in_calendar(unix_ts: int) -> bool {
    FIRST_SECOND <= unix_ts <= LAST_SECOND
}

/// The nanoseconds can stand within the second: fewer than a whole second's, or up to two seconds'
/// in the last second of a minute, where they name a leap second.
pub open spec fn in_second(unix_ts: int, nanos: int) -> bool {
    ||| 0 <= nanos < 1_000_000_000
    ||| 0 <= nanos < 2_000_000_000 && unix_ts % 60 == 59
}

/// The instant `seconds` later. An instant within a leap second leaves the leap second when it is
/// moved.
pub open spec fn moved(unix_ts: int, nanos: int, seconds: int) -> (int, int) {
    if nanos < 1_000_000_000 {
        (unix_ts + seconds, nanos)
    } else if seconds > 0 {
        (unix_ts + seconds, nanos - 1_000_000_000)
    } else if seconds < 0 {
        (unix_ts + 1 + seconds, nanos - 1_000_000_000)
    } else {
        (unix_ts, nanos)
    }
}

/// The year has a 29th of February.
pub open spec fn leap_year(year: int) -> bool {
    year % 4 == 0 && (year % 100 != 0 || year % 400 == 0)
}

pub open spec fn month_length(year: int, month: int) -> int {
    if month == 2 {
        if leap_year(year) {
            29
        } else {
            28
        }
    } else if month == 4 || month == 6 || month == 9 || month == 11 {
        30
    } else {
        31
    }
}

/// The days of `year` that lie before the first of `month`.
pub open spec fn days_before_month(year: int, month: int) -> int
    decreases month,
{
    if month <= 1 {
        0
    } else {
        days_before_month(year, month - 1) + month_length(year, month - 1)
    }
}

/// The days from the UNIX epoch to the date, in the proleptic Gregorian calendar.
pub open spec fn epoch_day(year: int, month: int, day: int) -> int {
    let past = year - 1;
    365 * past + past / 4 - past / 100 + past / 400 + days_before_month(year, month) + day - 719163
}

/// The six numbers name a second of a date within the calendar.
pub open spec fn civil(year: int, month: int, day: int, hour: int, minute: int, second: int) -> bool {
    &&& FIRST_YEAR <= year <= LAST_YEAR
    &&& 1 <= month <= 12
    &&& 1 <= day <= month_length(year, month)
    &&& 0 <= hour < 24
    &&& 0 <= minute < 60
    &&& 0 <= second < 60
}

/// `chrono::NaiveDateTime::from_timestamp_opt`: there is a date for the second if and only if it
/// falls within the years from -262143 to 262142.
#[verifier::external_body]
fn has_date(unix_ts: i64) -> (has: bool)
    ensures
        has == in_calendar(unix_ts as int),
{
    #[allow(deprecated)]
    chrono::NaiveDateTime::from_timestamp_opt(unix_ts, 0).is_some()
}

/// `chrono::DateTime::checked_add_signed` with a whole number of seconds, which
/// `chrono::Duration::try_seconds` makes: the seconds are added, the nanoseconds stay, but for an
/// instant within a leap second (see `moved`); there is no result where it would fall outside of
/// the calendar.
#[verifier::external_body]
fn add_seconds(unix_ts: i64, nanos: u32, seconds: i64) -> (later: Option<(i64, u32)>)
    requires
        in_calendar(unix_ts as int),
        in_second(unix_ts as int, nanos as int),
    ensures
        match later {
            Some((ts, n)) => {
                &&& in_calendar(ts as int)
                &&& (ts as int, n as int) == moved(unix_ts as int, nanos as int, seconds as int)
            },
            None => !in_calendar(moved(unix_ts as int, nanos as int, seconds as int).0),
        },
{
    let instant = chrono::DateTime::from_timestamp(unix_ts, nanos)?;
    let later = instant.checked_add_signed(chrono::Duration::try_seconds(seconds)?)?;
    Some((later.timestamp(), later.timestamp_subsec_nanos()))
}

/// `chrono::Utc.with_ymd_and_hms`: the second that the six numbers name, counted from the UNIX
/// epoch; none where they name no second of a date within the calendar.
#[verifier::external_body]
fn civil_second(year: i32, month: u32, day: u32, hour: u32, minute: u32, second: u32) -> (unix_ts:
    Option<i64>)
    ensures
        unix_ts is Some <==> civil(
            year as int,
            month as int,
            day as int,
            hour as int,
            minute as int,
            second as int,
        ),
        unix_ts matches Some(ts) ==> ts == epoch_day(year as int, month as int, day as int) * 86400
            + hour * 3600 + minute * 60 + second,
{
    let instant = chrono::Utc.with_ymd_and_hms(year, month, day, hour, minute, second);
    instant.single().map(|instant| instant.timestamp())
}

/// Why there is no timestamp.
#[derive(Debug, Clone, Copy, PartialEq, Eq, Structural)]
pub enum Error {
    /// The second falls outside of the calendar.
    CannotConvertToTimestamp(i64),
}

impl Error {
    /// What went wrong, for a reader.
    pub fn message(&self) -> (text: String)
        ensures
            self matches Error::CannotConvertToTimestamp(unix_ts) ==> text@
                == "Illegal UNIX timestamp: "@ + crate::text::decimal(unix_ts as int),
    {
        let Error::CannotConvertToTimestamp(unix_ts) = self;
        let mut text = "Illegal UNIX timestamp: ".to_owned();
        text.append(decimal_text(*unix_ts).as_str());
        text
    }
}

/// An instant in UTC. Two timestamps are the same when they fall in the same second.
#[derive(Debug, Clone, Copy)]
pub struct Timestamp {
    /// The second, counted from the UNIX epoch.
    pub unix_ts: i64,
    /// The nanoseconds since the second began.
    pub nanos: u32,
}

impl Timestamp {
    /// The calendar can name the instant.
    pub open spec fn wf(self) -> bool {
        in_calendar(self.unix_ts as int) && in_second(self.unix_ts as int, self.nanos as int)
    }

    /// The instant lies after `other`, by the nanosecond.
    pub open spec fn after(self, other: Timestamp) -> bool {
        self.unix_ts > other.unix_ts || self.unix_ts == other.unix_ts && self.nanos > other.nanos
    }

    /// The instant is `seconds` later than `self`.
    pub open spec fn is_moved(self, seconds: int, later: Timestamp) -> bool {
        (later.unix_ts as int, later.nanos as int) == moved(
            self.unix_ts as int,
            self.nanos as int,
            seconds,
        )
    }

    /// The calendar can name the instant `seconds` later.
    pub open spec fn can_move(self, seconds: int) -> bool {
        in_calendar(moved(self.unix_ts as int, self.nanos as int, seconds).0)
    }

    /// The instant that the two numbers name.
    pub fn from_utc(unix_ts: i64, nanos: u32) -> (timestamp: Self)
        requires
            in_calendar(unix_ts as int),
            in_second(unix_ts as int, nanos as int),
        ensures
            timestamp.unix_ts == unix_ts,
            timestamp.nanos == nanos,
            timestamp.wf(),
    {
        Timestamp { unix_ts, nanos }
    }

    /// Whether the instant lies after `other`, by the nanosecond.
    pub fn is_after(&self, other: &Timestamp) -> (after: bool)
        ensures
            after == self.after(*other),
    {
        self.unix_ts > other.unix_ts || self.unix_ts == other.unix_ts && self.nanos > other.nanos
    }

    /// The instant `seconds` later, where the calendar can name it.
    pub fn plus_seconds(&self, seconds: i64) -> (later: Option<Timestamp>)
        requires
            self.wf(),
        ensures
            later is Some <==> self.can_move(seconds as int),
            later matches Some(later) ==> self.is_moved(seconds as int, later) && later.wf(),
    {
        match add_seconds(self.unix_ts, self.nanos, seconds) {
            Some((unix_ts, nanos)) => Some(Timestamp { unix_ts, nanos }),
            None => None,
        }
    }

    /// How the second compares with that of `other`.
    pub fn cmp(&self, other: &Self) -> (order: Ordering)
        ensures
            order == (if self.unix_ts < other.unix_ts {
                Ordering::Less
            } else if self.unix_ts == other.unix_ts {
                Ordering::Equal
            } else {
                Ordering::Greater
            }),
    {
        if self.unix_ts < other.unix_ts {
            Ordering::Less
        } else if self.unix_ts == other.unix_ts {
            Ordering::Equal
        } else {
            Ordering::Greater
        }
    }
}

impl Default for Timestamp {
    /// Noon of the first day of 2020.
    fn default() -> (timestamp: Self)
        ensures
            timestamp.unix_ts == 1577880000,
            timestamp.nanos == 0,
            timestamp.wf(),
    {
        proof {
            assert(days_before_month(2020, 1) == 0);
            assert(epoch_day(2020, 1, 1) == 18262);
        }
        match civil_second(2020, 1, 1, 12, 0, 0) {
            Some(unix_ts) => Timestamp { unix_ts, nanos: 0 },
            None => Timestamp { unix_ts: 0, nanos: 0 },
        }
    }
}

impl PartialEq for Timestamp {
    fn eq(&self, other: &Self) -> (same: bool) {
        self.unix_ts == other.unix_ts
    }
}

impl PartialEqSpecImpl for Timestamp {
    open spec fn obeys_eq_spec() -> bool {
        true
    }

    open spec fn eq_spec(&self, other: &Self) -> bool {
        self.unix_ts == other.unix_ts
    }
}

impl Eq for Timestamp {

}

impl PartialOrd for Timestamp {
    fn partial_cmp(&self, other: &Self) -> (order: Option<Ordering>) {
        Some(self.cmp(other))
    }
}

impl PartialOrdSpecImpl for Timestamp {
    open spec fn obeys_partial_cmp_spec() -> bool {
        true
    }

    open spec fn partial_cmp_spec(&self, other: &Self) -> Option<Ordering> {
        if self.unix_ts < other.unix_ts {
            Some(Ordering::Less)
        } else if self.unix_ts == other.unix_ts {
            Some(Ordering::Equal)
        } else {
            Some(Ordering::Greater)
        }
    }
}

impl TryFrom<i64> for Timestamp {
    type Error = Error;

    /// The beginning of the second `unix_ts`, where it falls within the calendar.
    fn try_from(unix_ts: i64) -> (timestamp: Result<Self, Error>) {
        if has_date(unix_ts) {
            Ok(Timestamp { unix_ts, nanos: 0 })
        } else {
            Err(Error::CannotConvertToTimestamp(unix_ts))
        }
    }
}

impl TryFromSpecImpl<i64> for Timestamp {
    open spec fn obeys_try_from_spec() -> bool {
        true
    }

    open spec fn try_from_spec(unix_ts: i64) -> Result<Self, Error> {
        if in_calendar(unix_ts as int) {
            Ok(Timestamp { unix_ts, nanos: 0 })
        } else {
            Err(Error::CannotConvertToTimestamp(unix_ts))
        }
    }
}

/// A timestamp survives the change log: what is made of the second of an instant that began it is
/// that instant, and any other instant comes back as one that compares equal to it.
pub proof fn second_round_trip(timestamp: Timestamp)
    requires
        timestamp.wf(),
    ensures
        <Timestamp as vstd::std_specs::convert::TryFromSpec<i64>>::try_from_spec(
            timestamp.unix_ts,
        ) matches Ok(back) && back.unix_ts == timestamp.unix_ts && (timestamp.nanos == 0 ==> back
            == timestamp),
{
}

/// Of two instants one lies after the other, or they are the same to the nanosecond. A later second
/// lies after an earlier one; within a second the nanoseconds decide.
pub proof fn instants_are_ordered(a: Timestamp, b: Timestamp, c: Timestamp)
    ensures
        a.after(b) ==> !b.after(a),
        a.after(b) || b.after(a) || (a.unix_ts == b.unix_ts && a.nanos == b.nanos),
        a.after(b) && b.after(c) ==> a.after(c),
        a.unix_ts > b.unix_ts ==> a.after(b),
        a.unix_ts == b.unix_ts && a.nanos > b.nanos ==> a.after(b),
        !a.after(a),
{
}

/// Outside of leap seconds, moving an instant adds the seconds and keeps the nanoseconds. Moving it
/// twice is moving it once by both, and moving it back gives the instant again.
pub proof fn instants_are_moved_by_seconds(unix_ts: int, nanos: int, first: int, second: int)
    requires
        0 <= nanos < 1_000_000_000,
    ensures
        moved(unix_ts, nanos, first).0 - unix_ts == first,
        moved(unix_ts, nanos, first).1 == nanos,
        ({
            let (ts, n) = moved(unix_ts, nanos, first);
            &&& moved(ts, n, second) == moved(unix_ts, nanos, first + second)
            &&& moved(ts, n, -first) == (unix_ts, nanos)
        }),
{
}

/// Timestamps are the same, and ordered, by their seconds alone.
pub proof fn timestamps_go_by_the_second(a: Timestamp, b: Timestamp)
    ensures
        vstd::std_specs::cmp::PartialEqSpec::eq_spec(&a, &b) <==> a.unix_ts == b.unix_ts,
        vstd::std_specs::cmp::PartialOrdSpec::partial_cmp_spec(&a, &b) == Some(Ordering::Less)
            <==> a.unix_ts < b.unix_ts,
        vstd::std_specs::cmp::PartialOrdSpec::partial_cmp_spec(&a, &b) == Some(Ordering::Greater)
            <==> a.unix_ts > b.unix_ts,
{
}

/// A second outside of the calendar is refused, and the refusal names it; any other second is not.
pub proof fn refused_seconds_are_named(unix_ts: i64)
    ensures
        <Timestamp as vstd::std_specs::convert::TryFromSpec<i64>>::try_from_spec(unix_ts) is Err
            <==> unix_ts < -8334601228800 || unix_ts > 8210266876799,
        <Timestamp as vstd::std_specs::convert::TryFromSpec<i64>>::try_from_spec(
            unix_ts,
        ) matches Err(error) ==> error == Error::CannotConvertToTimestamp(unix_ts),
{
}

/// An instant within a leap second that is moved forwards is moved as if the leap second repeated
/// its second, and backwards as if it began the next one. One that is not moved stays in it.
pub proof fn leap_second_is_left(unix_ts: int, nanos: int, seconds: int)
    requires
        1_000_000_000 <= nanos < 2_000_000_000,
    ensures
        seconds > 0 ==> moved(unix_ts, nanos, seconds) == moved(
            unix_ts,
            nanos - 1_000_000_000,
            seconds,
        ),
        seconds < 0 ==> moved(unix_ts, nanos, seconds) == moved(
            unix_ts + 1,
            nanos - 1_000_000_000,
            seconds,
        ),
        moved(unix_ts, nanos, 0) == (unix_ts, nanos),
{
}

} // verus!
