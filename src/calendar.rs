//! Exchange-local calendar: local date and time of day, weekends, and the
//! composite keys under which holidays are recorded.
use vstd::prelude::*;
use chrono::{Datelike, Timelike};
use crate::exchange::Exchange;

verus! {

/// Seconds in a civil day.
pub const SECONDS_PER_DAY: u32 = 86400;

/// Civil date and time of day at some instant, in one time zone.
#[derive(Clone, Copy, Debug, PartialEq, Eq, Structural)]
pub struct LocalTime {
    pub year: i32,
    /// Month, 1 to 12.
    pub month: u32,
    /// Day of month, 1 to 31.
    pub day: u32,
    /// Day of week counted from Monday = 1 to Sunday = 7.
    pub weekday: u32,
    /// Seconds elapsed since local midnight, below 86400.
    pub seconds: u32,
}

/// Why a local time could not be given.
#[derive(Clone, Copy, Debug, PartialEq, Eq, Structural)]
pub enum CalendarError {
    /// The zone is unknown, or the instant lies outside the calendar's range.
    OutOfRange,
    /// The local year has no eight-digit `YYYYMMDD` form.
    YearOutOfRange,
}

/// Name for the local clock reading that chrono and chrono-tz give for a UTC
/// instant (in seconds) in the zone of that IANA name: year, month, day,
/// weekday from Monday = 1, seconds since midnight.
pub uninterp spec fn zone_clock(zone: Seq<char>, utc: int) -> Option<(int, int, int, int, int)>;

impl LocalTime {
    /// The fields as one tuple.
    pub open spec fn tuple(self) -> (int, int, int, int, int) {
        (self.year as int, self.month as int, self.day as int, self.weekday as int, self.seconds as int)
    }

    /// Field ranges that any clock reading obeys.
    pub open spec fn wf(self) -> bool {
        &&& 1 <= self.month <= 12
        &&& 1 <= self.day <= 31
        &&& 1 <= self.weekday <= 7
        &&& self.seconds < SECONDS_PER_DAY
    }

    /// A reading whose date has an eight-digit `YYYYMMDD` form.
    pub open spec fn keyed(self) -> bool {
        self.wf() && 1 <= self.year <= 9999
    }

    /// The date as the integer `YYYYMMDD`.
    pub open spec fn spec_date_key(self) -> int {
        self.year as int * 10000 + self.month as int * 100 + self.day as int
    }

    /// Saturday or Sunday.
    pub open spec fn spec_is_weekend(self) -> bool {
        self.weekday == 6 || self.weekday == 7
    }

    /// The local date as the integer `YYYYMMDD`.
    pub fn date_key(&self) -> (r: u64)
        requires
            self.keyed(),
        ensures
            r == self.spec_date_key(),
            10101 <= r <= 99991231,
    {
        let y = self.year as u64;
        let m = self.month as u64;
        let d = self.day as u64;
        assert(10000 <= y * 10000 <= 99990000) by (nonlinear_arith)
            requires 1 <= y <= 9999;
        assert(100 <= m * 100 <= 1200) by (nonlinear_arith)
            requires 1 <= m <= 12;
        y * 10000 + m * 100 + d
    }

    /// Whether the local date falls on a Saturday or Sunday.
    pub fn is_weekend(&self) -> (r: bool)
        ensures
            r == self.spec_is_weekend(),
    {
        self.weekday == 6 || self.weekday == 7
    }
}

/// Relies on chrono-tz's zone table (`Tz::from_str`, `offset_from_utc_datetime`)
/// and chrono's calendar (`DateTime::from_timestamp`, `Datelike`, `Timelike`):
/// the local clock reading at a UTC instant; month 1-12, day 1-31, weekday
/// 1-7 and seconds since midnight below 86400 as chrono documents them.
#[verifier::external_body]
fn clock_in_zone(zone: &str, utc_secs: i64) -> (r: Option<LocalTime>)
    ensures
        match r {
            Some(t) => zone_clock(zone@, utc_secs as int) == Some(t.tuple()) && t.wf(),
            None => zone_clock(zone@, utc_secs as int).is_none(),
        },
{
    let tz: chrono_tz::Tz = zone.parse().ok()?;
    let t = chrono::DateTime::from_timestamp(utc_secs, 0)?.with_timezone(&tz);
    Some(LocalTime {
        year: t.year(),
        month: t.month(),
        day: t.day(),
        weekday: t.weekday().number_from_monday(),
        seconds: t.num_seconds_from_midnight(),
    })
}

/// The local clock reading of `exchange` at UTC instant `utc_secs`, if its
/// date has a `YYYYMMDD` form.
pub open spec fn spec_local_time(exchange: Exchange, utc_secs: int) -> Result<LocalTime, CalendarError> {
    match zone_clock(exchange.spec_time_zone(), utc_secs) {
        None => Err(CalendarError::OutOfRange),
        Some(c) => if 1 <= c.0 <= 9999 {
            Ok(LocalTime { year: c.0 as i32, month: c.1 as u32, day: c.2 as u32, weekday: c.3 as u32, seconds: c.4 as u32 })
        } else {
            Err(CalendarError::YearOutOfRange)
        },
    }
}

/// The exchange-local date and time of day at UTC instant `utc_secs`.
pub fn local_time(exchange: Exchange, utc_secs: i64) -> (r: Result<LocalTime, CalendarError>)
    ensures
        r matches Ok(t) ==> t.keyed() && zone_clock(exchange.spec_time_zone(), utc_secs as int) == Some(t.tuple()),
        r matches Err(e) ==> (e == CalendarError::OutOfRange) == zone_clock(exchange.spec_time_zone(), utc_secs as int).is_none(),
        r is Ok <==> (zone_clock(exchange.spec_time_zone(), utc_secs as int) matches Some(c) && 1 <= c.0 <= 9999),
{
    match clock_in_zone(exchange.time_zone(), utc_secs) {
        None => Err(CalendarError::OutOfRange),
        Some(t) => {
            if 1 <= t.year && t.year <= 9999 {
                Ok(t)
            } else {
                Err(CalendarError::YearOutOfRange)
            }
        },
    }
}

/// Composite holiday key: the date `YYYYMMDD` followed by the exchange's two
/// discriminator digits.
pub open spec fn spec_holiday_key(date: int, exchange: Exchange) -> int {
    date * 100 + exchange.spec_int_code()
}

/// The key under which a holiday of `exchange` on `date` (`YYYYMMDD`) is recorded.
pub fn holiday_key(date: u64, exchange: Exchange) -> (r: u64)
    requires
        date <= 184467440737095515,
    ensures
        r == spec_holiday_key(date as int, exchange),
        r % 100 == exchange.spec_int_code(),
        r / 100 == date,
{
    date * 100 + exchange.int_code() as u64
}

/// A non-trading day: a weekend, or a date with a holiday record.
pub open spec fn spec_is_non_trading_day(local: LocalTime, holiday_recorded: bool) -> bool {
    local.spec_is_weekend() || holiday_recorded
}

/// Whether the local date is a non-trading day, given whether the store holds
/// a holiday record under its key.
pub fn is_non_trading_day(local: &LocalTime, holiday_recorded: bool) -> (r: bool)
    ensures
        r == spec_is_non_trading_day(*local, holiday_recorded),
{
    local.is_weekend() || holiday_recorded
}

} // verus!
