//! The working hours of a user: clock times parsed from and written as `HH:MM`.
use vstd::prelude::*;

use crate::text::{chars_of, digit_value, is_digit, push_two_digit, two_digit};

verus! {

/// Start and end of the working day, in minutes after midnight.
#[derive(Debug, Clone, Copy, PartialEq, Eq, Structural)]
pub struct WorkingHours {
    pub start_minutes: i64,
    pub end_minutes: i64,
}

/// Why working hours were refused.
#[derive(Debug, Clone, Copy, PartialEq, Eq, Structural)]
pub enum WorkingHoursError {
    InvalidFormat,
    InvalidRange,
}

impl WorkingHoursError {
    /// The message shown to the user.
    pub fn message(self) -> (r: &'static str)
        ensures
            self is InvalidFormat ==> r@ == "Arbeitszeit muss im Format HH:MM angegeben werden"@,
            self is InvalidRange ==> r@ == "Beginn muss vor dem Ende liegen"@,
    {
        match self {
            WorkingHoursError::InvalidFormat => "Arbeitszeit muss im Format HH:MM angegeben werden",
            WorkingHoursError::InvalidRange => "Beginn muss vor dem Ende liegen",
        }
    }
}

/// Default start of the working day: 07:30.
pub const DEFAULT_WORK_START_MINUTES: i64 = 450;

/// Default end of the working day: 16:15.
pub const DEFAULT_WORK_END_MINUTES: i64 = 975;

/// Last minute of a day: 23:59.
pub const LAST_CLOCK_MINUTE: i64 = 1439;

impl Default for WorkingHours {
    fn default() -> (r: Self)
        ensures
            r.start_minutes == DEFAULT_WORK_START_MINUTES,
            r.end_minutes == DEFAULT_WORK_END_MINUTES,
    {
        WorkingHours {
            start_minutes: DEFAULT_WORK_START_MINUTES,
            end_minutes: DEFAULT_WORK_END_MINUTES,
        }
    }
}

/// A minute of a day: 00:00 to 23:59.
pub open spec fn is_clock_minute(minutes: int) -> bool {
    0 <= minutes <= LAST_CLOCK_MINUTE
}

/// The minutes after midnight written by `s` as `HH:MM` (two digits each,
/// hours up to 23, minutes up to 59), or `None` when `s` is not such a time.
pub open spec fn hhmm_minutes(s: Seq<char>) -> Option<int> {
    if s.len() == 5 && is_digit(s[0]) && is_digit(s[1]) && s[2] == ':' && is_digit(s[3])
        && is_digit(s[4]) {
        let hours = digit_value(s[0]) * 10 + digit_value(s[1]);
        let minutes = digit_value(s[3]) * 10 + digit_value(s[4]);
        if hours <= 23 && minutes <= 59 {
            Some(hours * 60 + minutes)
        } else {
            None
        }
    } else {
        None
    }
}

/// The `HH:MM` text of a number of minutes (hours and minutes each padded to
/// two digits; division and remainder round toward zero).
pub open spec fn hhmm_text(minutes: int) -> Seq<char> {
    let hours = crate::time::div_toward_zero(minutes, 60);
    let mins = minutes - hours * 60;
    two_digit(hours) + seq![':'] + two_digit(mins)
}

/// The working hours from two minute counts: the range is checked first, then
/// that both are clock minutes.
pub open spec fn hours_from(start: int, end: int) -> Result<(int, int), WorkingHoursError> {
    if start >= end {
        Err(WorkingHoursError::InvalidRange)
    } else if !is_clock_minute(start) || !is_clock_minute(end) {
        Err(WorkingHoursError::InvalidFormat)
    } else {
        Ok((start, end))
    }
}

/// Working hours written as two `HH:MM` clock times.
pub open spec fn hours_parsed(start: Seq<char>, end: Seq<char>) -> Result<
    (int, int),
    WorkingHoursError,
> {
    match (hhmm_minutes(start), hhmm_minutes(end)) {
        (Some(s), Some(e)) => hours_from(s, e),
        _ => Err(WorkingHoursError::InvalidFormat),
    }
}

impl WorkingHours {
    /// Parses start and end as `HH:MM`; the start must come before the end.
    pub fn parse(start: &str, end: &str) -> (r: Result<Self, WorkingHoursError>)
        ensures
            match r {
                Ok(h) => hours_parsed(start@, end@) == Ok::<(int, int), WorkingHoursError>(
                    (h.start_minutes as int, h.end_minutes as int),
                ),
                Err(e) => hours_parsed(start@, end@) == Err::<(int, int), WorkingHoursError>(e),
            },
    {
        let start_minutes = parse_hhmm(start)?;
        let end_minutes = parse_hhmm(end)?;
        Self::from_minutes(start_minutes, end_minutes)
    }

    /// Working hours from minute counts: the start must come before the end and
    /// both must be clock minutes.
    pub fn from_minutes(start_minutes: i64, end_minutes: i64) -> (r: Result<
        Self,
        WorkingHoursError,
    >)
        ensures
            match r {
                Ok(h) => hours_from(start_minutes as int, end_minutes as int) == Ok::<
                    (int, int),
                    WorkingHoursError,
                >((h.start_minutes as int, h.end_minutes as int)),
                Err(e) => hours_from(start_minutes as int, end_minutes as int) == Err::<
                    (int, int),
                    WorkingHoursError,
                >(e),
            },
    {
        if start_minutes >= end_minutes {
            return Err(WorkingHoursError::InvalidRange);
        }
        if !is_valid_clock_minutes(start_minutes) || !is_valid_clock_minutes(end_minutes) {
            return Err(WorkingHoursError::InvalidFormat);
        }
        Ok(WorkingHours { start_minutes, end_minutes })
    }

    /// The start of the working day as `HH:MM`.
    pub fn work_start(self) -> (r: String)
        ensures
            r@ == hhmm_text(self.start_minutes as int),
    {
        format_hhmm(self.start_minutes)
    }

    /// The end of the working day as `HH:MM`.
    pub fn work_end(self) -> (r: String)
        ensures
            r@ == hhmm_text(self.end_minutes as int),
    {
        format_hhmm(self.end_minutes)
    }
}

fn digit_of(c: char) -> (r: Option<i64>)
    ensures
        r == (if is_digit(c) {
            Some(digit_value(c) as i64)
        } else {
            None
        }),
{
    if '0' <= c && c <= '9' {
        Some((c as u32 - 48) as i64)
    } else {
        None
    }
}

/// Reads a clock time written as `HH:MM` and returns minutes after midnight.
pub fn parse_hhmm(value: &str) -> (r: Result<i64, WorkingHoursError>)
    ensures
        match hhmm_minutes(value@) {
            Some(m) => r == Ok::<i64, WorkingHoursError>(m as i64),
            None => r == Err::<i64, WorkingHoursError>(WorkingHoursError::InvalidFormat),
        },
{
    let chars = chars_of(value);
    if chars.len() != 5 || chars[2] != ':' {
        return Err(WorkingHoursError::InvalidFormat);
    }
    let (h1, h2, m1, m2) = match (
        digit_of(chars[0]),
        digit_of(chars[1]),
        digit_of(chars[3]),
        digit_of(chars[4]),
    ) {
        (Some(a), Some(b), Some(c), Some(d)) => (a, b, c, d),
        _ => return Err(WorkingHoursError::InvalidFormat),
    };
    let hours = h1 * 10 + h2;
    let minutes = m1 * 10 + m2;
    if !(0 <= hours && hours <= 23) || !(0 <= minutes && minutes <= 59) {
        return Err(WorkingHoursError::InvalidFormat);
    }
    Ok(hours * 60 + minutes)
}

/// Writes minutes after midnight as `HH:MM`.
pub fn format_hhmm(minutes: i64) -> (r: String)
    ensures
        r@ == hhmm_text(minutes as int),
{
    let hours = minutes / 60;
    let mins = minutes % 60;
    proof {
        let m = minutes as int;
        let h = crate::time::div_toward_zero(m, 60);
        if m >= 0 {
            assert(hours == m / 60);
            assert(mins == m % 60);
            vstd::arithmetic::div_mod::lemma_fundamental_div_mod(m, 60);
        } else {
            vstd::arithmetic::div_mod::lemma_fundamental_div_mod(-m, 60);
            assert(hours == h);
            assert(mins == m - h * 60);
        }
    }
    let mut r = String::new();
    push_two_digit(&mut r, hours);
    r.push(':');
    push_two_digit(&mut r, mins);
    r
}

proof fn lemma_two_digit_small(n: int)
    requires
        0 <= n < 100,
    ensures
        two_digit(n) == seq![crate::text::digit_char(n / 10), crate::text::digit_char(n % 10)],
{
    reveal_with_fuel(crate::text::decimal, 2);
    if n >= 10 {
        assert(crate::text::decimal(n as nat) == crate::text::decimal((n / 10) as nat).push(
            crate::text::digit_char(n % 10),
        ));
    }
}

/// Writing a clock minute as `HH:MM` and reading it back gives the same minute.
pub proof fn law_hhmm_roundtrip_from_minutes(minutes: int)
    requires
        is_clock_minute(minutes),
    ensures
        hhmm_minutes(hhmm_text(minutes)) == Some(minutes),
{
    let h = minutes / 60;
    let m = minutes % 60;
    assert(crate::time::div_toward_zero(minutes, 60) == h);
    lemma_two_digit_small(h);
    lemma_two_digit_small(m);
    let t = hhmm_text(minutes);
    assert(t == seq![
        crate::text::digit_char(h / 10),
        crate::text::digit_char(h % 10),
        ':',
        crate::text::digit_char(m / 10),
        crate::text::digit_char(m % 10),
    ]);
}

/// Reading a valid `HH:MM` text and writing the minutes back gives the same text.
pub proof fn law_hhmm_roundtrip_from_text(s: Seq<char>)
    requires
        hhmm_minutes(s) is Some,
    ensures
        hhmm_text(hhmm_minutes(s)->0) == s,
{
    let hours = digit_value(s[0]) * 10 + digit_value(s[1]);
    let mins = digit_value(s[3]) * 10 + digit_value(s[4]);
    let total = hours * 60 + mins;
    assert(total / 60 == hours && total % 60 == mins);
    assert(crate::time::div_toward_zero(total, 60) == hours);
    lemma_two_digit_small(hours);
    lemma_two_digit_small(mins);
    assert(hours / 10 == digit_value(s[0]) && hours % 10 == digit_value(s[1]));
    assert(mins / 10 == digit_value(s[3]) && mins % 10 == digit_value(s[4]));
    assert(hhmm_text(total) =~= s);
}

/// Accepted working hours start before they end, within one day.
pub proof fn law_accepted_hours_are_a_day_span(start: Seq<char>, end: Seq<char>)
    requires
        hours_parsed(start, end) is Ok,
    ensures
        ({
            let (s, e) = hours_parsed(start, end)->Ok_0;
            is_clock_minute(s) && is_clock_minute(e) && s < e
        }),
{
}

fn is_valid_clock_minutes(minutes: i64) -> (r: bool)
    ensures
        r == is_clock_minute(minutes as int),
{
    0 <= minutes && minutes <= LAST_CLOCK_MINUTE
}

} // verus!
