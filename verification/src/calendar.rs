//! Calendar dates and time zones; the zone rules come from the tz database.
use vstd::prelude::*;

use chrono::{Datelike, TimeZone};

use crate::text::{decimal, two_digit};
use crate::time::Timestamp;

verus! {

/// Earliest year of the calendar range.
pub const MIN_YEAR: i32 = -262143;

/// Latest year of the calendar range.
pub const MAX_YEAR: i32 = 262142;

/// A day of the proleptic Gregorian calendar.
#[derive(Debug, Clone, Copy, PartialEq, Eq, Structural)]
pub struct CivilDate {
    pub year: i32,
    pub month: u32,
    pub day: u32,
}

/// Leap years of the Gregorian calendar.
pub open spec fn is_leap_year(year: int) -> bool {
    (year % 4 == 0 && year % 100 != 0) || year % 400 == 0
}

/// Number of days of a month.
pub open spec fn days_in_month(year: int, month: int) -> int {
    if month == 2 {
        if is_leap_year(year) {
            29
        } else {
            28
        }
    } else if month == 4 || month == 6 || month == 9 || month == 11 {
        30
    } else {
        31
    }
}

impl CivilDate {
    /// Month and day name an existing day.
    pub open spec fn valid(self) -> bool {
        1 <= self.month <= 12 && 1 <= self.day <= days_in_month(self.year as int, self.month as int)
    }

    /// An existing day within the calendar range.
    pub open spec fn in_range(self) -> bool {
        self.valid() && MIN_YEAR <= self.year <= MAX_YEAR
    }

    /// Strict order of days.
    pub open spec fn earlier_than(self, other: CivilDate) -> bool {
        self.year < other.year || (self.year == other.year && (self.month < other.month || (
        self.month == other.month && self.day < other.day)))
    }

    /// `self` is a day before `other`.
    pub fn is_before(&self, other: &CivilDate) -> (r: bool)
        ensures
            r == self.earlier_than(*other),
    {
        self.year < other.year || (self.year == other.year && (self.month < other.month || (
        self.month == other.month && self.day < other.day)))
    }
}

/// The day after `date`, or `None` after the last day of the calendar range.
pub open spec fn following_day(date: CivilDate) -> Option<CivilDate> {
    if date.day < days_in_month(date.year as int, date.month as int) {
        Some(CivilDate { day: (date.day + 1) as u32, ..date })
    } else if date.month < 12 {
        Some(CivilDate { year: date.year, month: (date.month + 1) as u32, day: 1 })
    } else if date.year < MAX_YEAR {
        Some(CivilDate { year: (date.year + 1) as i32, month: 1, day: 1 })
    } else {
        None
    }
}

/// The name is a zone of the tz database.
pub uninterp spec fn known_zone(name: Seq<char>) -> bool;

/// The local calendar day, in the named zone, of an instant.
pub uninterp spec fn zone_civil_date(zone: Seq<char>, at: Timestamp) -> CivilDate;

/// The instant at which the local clock of the named zone shows the given day
/// and time, when exactly one instant does (none in a gap, two in an overlap).
pub uninterp spec fn zone_local_instant(
    zone: Seq<char>,
    date: CivilDate,
    hour: u32,
    minute: u32,
    second: u32,
) -> Option<Timestamp>;

/// The local date and time of an instant in the named zone, written `%Y-%m-%d %H:%M`.
pub uninterp spec fn zone_minute_text(zone: Seq<char>, at: Timestamp) -> Seq<char>;

/// The instant written by an RFC 3339 text.
pub uninterp spec fn rfc3339_instant(text: Seq<char>) -> Option<Timestamp>;

/// The day written by a `%Y-%m-%d` text.
pub uninterp spec fn ymd_date(text: Seq<char>) -> Option<CivilDate>;

/// Calls `chrono_tz::Tz::from_str`: whether the tz database has a zone of this name.
#[verifier::external_body]
fn zone_exists(name: &str) -> (r: bool)
    ensures
        r == known_zone(name@),
{
    name.parse::<chrono_tz::Tz>().is_ok()
}

/// Name of the zone in which working days are counted.
pub open spec fn app_zone_name() -> Seq<char> {
    "Europe/Berlin"@
}

/// Calls `chrono_tz::Tz::name` on Europe/Berlin: the name is `Europe/Berlin`,
/// one the tz database knows (its own list of names holds every zone's name).
#[verifier::external_body]
fn berlin_zone_name() -> (r: String)
    ensures
        r@ == app_zone_name(),
        known_zone(r@),
{
    chrono_tz::Europe::Berlin.name().to_string()
}

/// Calls `DateTime::with_timezone` and `date_naive`: the local day of `at` in
/// the zone; claimed: it is a function of zone and instant, and a valid
/// calendar day. `date_naive` panics when the local time leaves the calendar
/// range, which an instant a day inside both ends never does.
#[verifier::external_body]
fn zone_date(zone: &str, at: Timestamp) -> (r: CivilDate)
    requires
        known_zone(zone@),
        at.has_local_day(),
    ensures
        r == zone_civil_date(zone@, at),
        r.valid(),
{
    let tz: chrono_tz::Tz = zone.parse().unwrap();
    let utc = chrono::DateTime::from_timestamp(at.secs, at.nanos).unwrap();
    let local = utc.with_timezone(&tz).date_naive();
    CivilDate { year: local.year(), month: local.month(), day: local.day() }
}

/// Calls `NaiveDate::from_ymd_opt`, `and_hms_opt`, `TimeZone::from_local_datetime`
/// and `single`: the one instant at which the zone's clock shows the day and
/// time (none for a day or time that does not exist); claimed: a function of its
/// arguments, within the calendar range, with no sub-second part.
#[verifier::external_body]
fn zone_local(zone: &str, date: CivilDate, hour: u32, minute: u32, second: u32) -> (r: Option<
    Timestamp,
>)
    requires
        known_zone(zone@),
    ensures
        r == zone_local_instant(zone@, date, hour, minute, second),
        r matches Some(t) ==> t.wf() && t.nanos == 0,
{
    let tz: chrono_tz::Tz = zone.parse().unwrap();
    let day = chrono::NaiveDate::from_ymd_opt(date.year, date.month, date.day)?;
    let naive = day.and_hms_opt(hour, minute, second)?;
    let local = tz.from_local_datetime(&naive).single()?;
    Some(Timestamp { secs: local.timestamp(), nanos: local.timestamp_subsec_nanos() })
}

/// Calls `DateTime::format` with `%Y-%m-%d %H:%M` on the local time of `at`.
#[verifier::external_body]
fn zone_minute(zone: &str, at: Timestamp) -> (r: String)
    requires
        known_zone(zone@),
        at.wf(),
    ensures
        r@ == zone_minute_text(zone@, at),
{
    let tz: chrono_tz::Tz = zone.parse().unwrap();
    let utc = chrono::DateTime::from_timestamp(at.secs, at.nanos).unwrap();
    utc.with_timezone(&tz).format("%Y-%m-%d %H:%M").to_string()
}

/// Calls `NaiveDate::succ_opt`: the following day, none after the last day of
/// the range.
#[verifier::external_body]
fn successor_date(date: CivilDate) -> (r: Option<CivilDate>)
    requires
        date.in_range(),
    ensures
        r == following_day(date),
{
    let day = chrono::NaiveDate::from_ymd_opt(date.year, date.month, date.day).unwrap();
    match day.succ_opt() {
        Some(d) => Some(CivilDate { year: d.year(), month: d.month(), day: d.day() }),
        None => None,
    }
}

/// The chrono error of a text that is not a date or time.
#[verifier::external_type_specification]
#[verifier::external_body]
pub struct ExParseError(chrono::ParseError);

/// Calls `DateTime::parse_from_rfc3339` and converts to UTC; claimed: the
/// result is a function of the text, and lies at least a day inside both ends
/// of the calendar range (the text has a four-digit year and an offset below a
/// day, so the instant falls between the years -1 and 10000).
#[verifier::external_body]
fn rfc3339(text: &str) -> (r: Result<Timestamp, chrono::ParseError>)
    ensures
        match rfc3339_instant(text@) {
            Some(t) => r == Ok::<Timestamp, chrono::ParseError>(t),
            None => r is Err,
        },
        r matches Ok(t) ==> t.has_local_day(),
{
    match chrono::DateTime::parse_from_rfc3339(text) {
        Ok(dt) => Ok(Timestamp { secs: dt.timestamp(), nanos: dt.timestamp_subsec_nanos() }),
        Err(err) => Err(err),
    }
}

/// Calls `NaiveDate::parse_from_str` with `%Y-%m-%d`; claimed: the result is a
/// function of the text and a day within the calendar range.
#[verifier::external_body]
fn ymd(text: &str) -> (r: Result<CivilDate, chrono::ParseError>)
    ensures
        match ymd_date(text@) {
            Some(d) => r == Ok::<CivilDate, chrono::ParseError>(d),
            None => r is Err,
        },
        r matches Ok(d) ==> d.in_range(),
{
    match chrono::NaiveDate::parse_from_str(text, "%Y-%m-%d") {
        Ok(d) => Ok(CivilDate { year: d.year(), month: d.month(), day: d.day() }),
        Err(err) => Err(err),
    }
}

/// A zone of the tz database, identified by its name.
#[derive(Debug)]
pub struct Zone {
    name: String,
}

impl Clone for Zone {
    fn clone(&self) -> (r: Self)
        ensures
            r@ == self@,
    {
        proof {
            use_type_invariant(self);
        }
        Zone { name: self.name.clone() }
    }
}

impl View for Zone {
    type V = Seq<char>;

    closed spec fn view(&self) -> Seq<char> {
        self.name@
    }
}

impl Zone {
    #[verifier::type_invariant]
    closed spec fn known(self) -> bool {
        known_zone(self.name@)
    }

    /// The zone of this name, when the tz database has one.
    pub fn named(name: &str) -> (r: Option<Zone>)
        ensures
            r is Some <==> known_zone(name@),
            r matches Some(z) ==> z@ == name@,
    {
        if zone_exists(name) {
            Some(Zone { name: String::from_str(name) })
        } else {
            None
        }
    }

    /// The name of the zone.
    pub fn name(&self) -> (r: &str)
        ensures
            r@ == self@,
            known_zone(r@),
    {
        proof {
            use_type_invariant(self);
        }
        self.name.as_str()
    }
}

/// The zone in which working days are counted: Europe/Berlin.
pub fn app_tz() -> (r: Zone)
    ensures
        r@ == app_zone_name(),
{
    Zone { name: berlin_zone_name() }
}

/// The local day of an instant in a zone.
pub fn local_date(at: Timestamp, zone: &Zone) -> (r: CivilDate)
    requires
        at.has_local_day(),
    ensures
        r == zone_civil_date(zone@, at),
        r.valid(),
{
    zone_date(zone.name(), at)
}

/// The instant at which the zone's clock shows the given day and time, when it
/// shows it exactly once.
pub fn local_instant(date: CivilDate, hour: u32, minute: u32, second: u32, zone: &Zone) -> (r: Option<
    Timestamp,
>)
    ensures
        r == zone_local_instant(zone@, date, hour, minute, second),
        r matches Some(t) ==> t.wf() && t.nanos == 0,
{
    zone_local(zone.name(), date, hour, minute, second)
}

/// The local date and time of an instant, written `%Y-%m-%d %H:%M`.
pub fn local_minute_text(at: Timestamp, zone: &Zone) -> (r: String)
    requires
        at.wf(),
    ensures
        r@ == zone_minute_text(zone@, at),
{
    zone_minute(zone.name(), at)
}

/// The following day, none after the last day of the calendar range.
pub fn next_day(date: CivilDate) -> (r: Option<CivilDate>)
    requires
        date.in_range(),
    ensures
        r == following_day(date),
{
    successor_date(date)
}

/// Reads an RFC 3339 date and time as a UTC instant.
pub fn parse_rfc3339(value: &str) -> (r: Result<Timestamp, chrono::ParseError>)
    ensures
        match rfc3339_instant(value@) {
            Some(t) => r == Ok::<Timestamp, chrono::ParseError>(t),
            None => r is Err,
        },
        r matches Ok(t) ==> t.has_local_day(),
{
    rfc3339(value)
}

/// Reads a `%Y-%m-%d` date.
pub fn parse_date(value: &str) -> (r: Result<CivilDate, chrono::ParseError>)
    ensures
        match ymd_date(value@) {
            Some(d) => r == Ok::<CivilDate, chrono::ParseError>(d),
            None => r is Err,
        },
        r matches Ok(d) ==> d.in_range(),
{
    ymd(value)
}

/// An instant written as RFC 3339 in UTC (`+00:00`), as the time library writes it.
pub uninterp spec fn utc_rfc3339_text(at: Timestamp) -> Seq<char>;

/// Digits padded with leading zeros to at least four characters.
pub open spec fn four_wide(digits: Seq<char>) -> Seq<char> {
    if digits.len() < 4 {
        Seq::new((4 - digits.len()) as nat, |i: int| '0') + digits
    } else {
        digits
    }
}

/// A year as `%Y` writes it: four digits for the years 0 to 9999, otherwise a
/// sign before at least four digits.
pub open spec fn year_text(year: int) -> Seq<char> {
    if 0 <= year <= 9999 {
        four_wide(decimal(year as nat))
    } else if year < 0 {
        seq!['-'] + four_wide(decimal((-year) as nat))
    } else {
        seq!['+'] + four_wide(decimal(year as nat))
    }
}

/// A day written as `%Y-%m-%d`: the year, then month and day with two digits.
pub open spec fn ymd_text(date: CivilDate) -> Seq<char> {
    year_text(date.year as int) + seq!['-'] + two_digit(date.month as int) + seq!['-'] + two_digit(
        date.day as int,
    )
}

/// Calls `DateTime::<Utc>::to_rfc3339`.
#[verifier::external_body]
fn rfc3339_of(at: Timestamp) -> (r: String)
    requires
        at.wf(),
    ensures
        r@ == utc_rfc3339_text(at),
{
    chrono::DateTime::from_timestamp(at.secs, at.nanos).unwrap().to_rfc3339()
}

/// Calls `NaiveDate::format` with `%Y-%m-%d`: the year zero-padded to four
/// digits (with a sign outside 0..=9999), month and day zero-padded to two.
#[verifier::external_body]
fn ymd_of(date: CivilDate) -> (r: String)
    requires
        date.in_range(),
    ensures
        r@ == ymd_text(date),
{
    chrono::NaiveDate::from_ymd_opt(date.year, date.month, date.day).unwrap().format("%Y-%m-%d").to_string()
}

/// Writes an instant as RFC 3339 in UTC.
pub fn format_rfc3339(at: Timestamp) -> (r: String)
    requires
        at.wf(),
    ensures
        r@ == utc_rfc3339_text(at),
{
    rfc3339_of(at)
}

/// Writes a day as `%Y-%m-%d`.
pub fn format_date(date: CivilDate) -> (r: String)
    requires
        date.in_range(),
    ensures
        r@ == ymd_text(date),
{
    ymd_of(date)
}

} // verus!
