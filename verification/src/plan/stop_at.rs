use vstd::prelude::*;

use crate::decimal::{parse_i32_chars, parse_i32_value, parse_unsigned, parse_unsigned_chars};
use crate::filter::records::{split_chars, split_on};
use crate::filter::rule::{find_char, first_index_of};
use crate::text::{chars_of, copy_chars};

verus! {

/// Why a `--stop-at` value was refused.
#[derive(Debug, Clone, Copy, PartialEq, Eq, Structural)]
pub enum StopAtError {
    TimeFormat,
    HourInvalid,
    MinuteInvalid,
    SecondInvalid,
    ClockRange,
    MonthRange,
    DayRange,
    FullFormat,
    DateFormat,
    YearInvalid,
    MonthInvalid,
    DayInvalid,
    TimestampRange,
    BeforeEpoch,
    NotFuture,
}

/// The message an error is reported with.
pub open spec fn stop_at_message(e: StopAtError) -> Seq<char> {
    match e {
        StopAtError::TimeFormat => "--stop-at time must use HH:MM or HH:MM:SS"@,
        StopAtError::HourInvalid => "--stop-at hour is not valid"@,
        StopAtError::MinuteInvalid => "--stop-at minute is not valid"@,
        StopAtError::SecondInvalid => "--stop-at second is not valid"@,
        StopAtError::ClockRange => "--stop-at time is outside the valid clock range"@,
        StopAtError::MonthRange => "--stop-at month is outside 1..12"@,
        StopAtError::DayRange => "--stop-at day is outside the valid range for the month"@,
        StopAtError::FullFormat => "--stop-at full form must use y-m-dTh:m"@,
        StopAtError::DateFormat => "--stop-at full date must use y-m-d"@,
        StopAtError::YearInvalid => "--stop-at year is not valid"@,
        StopAtError::MonthInvalid => "--stop-at month is not valid"@,
        StopAtError::DayInvalid => "--stop-at day is not valid"@,
        StopAtError::TimestampRange => "--stop-at timestamp exceeds the supported range"@,
        StopAtError::BeforeEpoch => "--stop-at dates before 1970 are not supported"@,
        StopAtError::NotFuture => "--stop-at must resolve to a future time"@,
    }
}

impl StopAtError {
    pub fn message(self) -> (r: &'static str)
        ensures
            r@ == stop_at_message(self),
    {
        match self {
            StopAtError::TimeFormat => "--stop-at time must use HH:MM or HH:MM:SS",
            StopAtError::HourInvalid => "--stop-at hour is not valid",
            StopAtError::MinuteInvalid => "--stop-at minute is not valid",
            StopAtError::SecondInvalid => "--stop-at second is not valid",
            StopAtError::ClockRange => "--stop-at time is outside the valid clock range",
            StopAtError::MonthRange => "--stop-at month is outside 1..12",
            StopAtError::DayRange => "--stop-at day is outside the valid range for the month",
            StopAtError::FullFormat => "--stop-at full form must use y-m-dTh:m",
            StopAtError::DateFormat => "--stop-at full date must use y-m-d",
            StopAtError::YearInvalid => "--stop-at year is not valid",
            StopAtError::MonthInvalid => "--stop-at month is not valid",
            StopAtError::DayInvalid => "--stop-at day is not valid",
            StopAtError::TimestampRange => "--stop-at timestamp exceeds the supported range",
            StopAtError::BeforeEpoch => "--stop-at dates before 1970 are not supported",
            StopAtError::NotFuture => "--stop-at must resolve to a future time",
        }
    }
}

/// The seconds after midnight that a clock time `HH:MM` or `HH:MM:SS` names.
pub open spec fn clock_seconds(value: Seq<char>) -> Result<nat, StopAtError> {
    let parts = split_on(value, ':');
    if parts.len() < 2 || parts.len() > 3 {
        Err(StopAtError::TimeFormat)
    } else {
        match parse_unsigned(parts[0], u64::MAX as nat) {
            None => Err(StopAtError::HourInvalid),
            Some(hour) => match parse_unsigned(parts[1], u64::MAX as nat) {
                None => Err(StopAtError::MinuteInvalid),
                Some(minute) => {
                    let second = if parts.len() == 3 {
                        parse_unsigned(parts[2], u64::MAX as nat)
                    } else {
                        Some(0nat)
                    };
                    match second {
                        None => Err(StopAtError::SecondInvalid),
                        Some(second) => if hour > 23 || minute > 59 || second > 59 {
                            Err(StopAtError::ClockRange)
                        } else {
                            Ok(hour * 3600 + minute * 60 + second)
                        },
                    }
                },
            },
        }
    }
}

pub fn parse_stop_at_clock_seconds(value: &str) -> (r: Result<u64, StopAtError>)
    ensures
        match clock_seconds(value@) {
            Ok(s) => r == Ok::<u64, StopAtError>(s as u64),
            Err(e) => r == Err::<u64, StopAtError>(e),
        },
{
    let chars = chars_of(value);
    let parts = split_chars(chars.as_slice(), ':');
    let ghost views = parts@.map_values(|v: Vec<char>| v@);
    assert(views == split_on(value@, ':'));
    if parts.len() < 2 || parts.len() > 3 {
        return Err(StopAtError::TimeFormat);
    }
    assert(views[0] == parts@[0]@ && views[1] == parts@[1]@);
    let hour = match parse_unsigned_chars(parts[0].as_slice(), u64::MAX) {
        Some(h) => h,
        None => {
            return Err(StopAtError::HourInvalid);
        },
    };
    let minute = match parse_unsigned_chars(parts[1].as_slice(), u64::MAX) {
        Some(m) => m,
        None => {
            return Err(StopAtError::MinuteInvalid);
        },
    };
    let second = if parts.len() == 3 {
        assert(views[2] == parts@[2]@);
        match parse_unsigned_chars(parts[2].as_slice(), u64::MAX) {
            Some(s) => s,
            None => {
                return Err(StopAtError::SecondInvalid);
            },
        }
    } else {
        0
    };
    if hour > 23 || minute > 59 || second > 59 {
        return Err(StopAtError::ClockRange);
    }
    Ok(hour * 3600 + minute * 60 + second)
}

/// Whether a year of the Gregorian calendar is a leap year.
pub open spec fn leap_year(year: int) -> bool {
    (year % 4 == 0 && year % 100 != 0) || year % 400 == 0
}

/// The number of days of a month, or 0 for a month number outside 1..12.
pub open spec fn month_days(year: int, month: int) -> int {
    if month == 1 || month == 3 || month == 5 || month == 7 || month == 8 || month == 10 || month
        == 12 {
        31
    } else if month == 4 || month == 6 || month == 9 || month == 11 {
        30
    } else if month == 2 {
        if leap_year(year) {
            29
        } else {
            28
        }
    } else {
        0
    }
}

pub fn is_leap_year(year: i32) -> (r: bool)
    ensures
        r == leap_year(year as int),
{
    (year % 4 == 0 && year % 100 != 0) || year % 400 == 0
}

pub fn days_in_month(year: i32, month: u32) -> (r: u32)
    ensures
        r == month_days(year as int, month as int),
{
    match month {
        1 | 3 | 5 | 7 | 8 | 10 | 12 => 31,
        4 | 6 | 9 | 11 => 30,
        2 => if is_leap_year(year) {
            29
        } else {
            28
        },
        _ => 0,
    }
}

/// The number of days from 1970-01-01 to a date of the proleptic Gregorian calendar, counted the
/// way civil calendars are converted to day numbers: years begin in March, so that the leap day
/// ends a year, and 400-year eras repeat.
pub open spec fn civil_day_number(year: int, month: int, day: int) -> int {
    let y = if month <= 2 {
        year - 1
    } else {
        year
    };
    let era = y / 400;
    let yoe = y - era * 400;
    let mp = if month > 2 {
        month - 3
    } else {
        month + 9
    };
    let doy = (153 * mp + 2) / 5 + day - 1;
    let doe = yoe * 365 + yoe / 4 - yoe / 100 + doy;
    era * 146097 + doe - 719468
}

/// Days from 1970-01-01 for a valid date, or why the month or day is out of range.
pub open spec fn civil_days(year: int, month: int, day: int) -> Result<int, StopAtError> {
    if !(1 <= month <= 12) {
        Err(StopAtError::MonthRange)
    } else if day == 0 || day > month_days(year, month) {
        Err(StopAtError::DayRange)
    } else {
        Ok(civil_day_number(year, month, day))
    }
}

pub fn days_from_civil(year: i32, month: u32, day: u32) -> (r: Result<i64, StopAtError>)
    ensures
        match civil_days(year as int, month as int, day as int) {
            Ok(days) => r == Ok::<i64, StopAtError>(days as i64),
            Err(e) => r == Err::<i64, StopAtError>(e),
        },
{
    if !(1 <= month && month <= 12) {
        return Err(StopAtError::MonthRange);
    }
    let max_day = days_in_month(year, month);
    if day == 0 || day > max_day {
        return Err(StopAtError::DayRange);
    }
    let m = month as i64;
    let d = day as i64;
    let y: i64 = if m <= 2 {
        year as i64 - 1
    } else {
        year as i64
    };
    let era: i64 = if y >= 0 {
        y / 400
    } else {
        -((399 - y) / 400)
    };
    assert(era == y / 400) by (nonlinear_arith)
        requires
            era == (if y >= 0 {
                y / 400
            } else {
                -((399 - y) / 400)
            }),
    ;
    let yoe = y - era * 400;
    assert(0 <= yoe < 400) by (nonlinear_arith)
        requires
            era == y / 400,
            yoe == y - era * 400,
    ;
    let mp = m + if m > 2 {
        -3
    } else {
        9
    };
    let doy = (153 * mp + 2) / 5 + d - 1;
    let doe = yoe * 365 + yoe / 4 - yoe / 100 + doy;
    Ok(era * 146_097 + doe - 719_468)
}

/// `s` with `/` turned into `-`, so that one split handles both date separators.
pub open spec fn dashed(s: Seq<char>) -> Seq<char> {
    s.map_values(|c: char| if c == '/' { '-' } else { c })
}

/// The seconds since the Unix epoch that a full `--stop-at` value `y-m-dTh:m[:s]` names (the date
/// may also be written with `/`).
pub open spec fn full_stop_at_seconds(value: Seq<char>) -> Result<int, StopAtError> {
    match first_index_of(value, 'T') {
        None => Err(StopAtError::FullFormat),
        Some(t) => {
            let date = value.take(t);
            let time = value.skip(t + 1);
            let parts = split_on(dashed(date), '-');
            if parts.len() != 3 {
                Err(StopAtError::DateFormat)
            } else {
                match parse_i32_value(parts[0]) {
                    None => Err(StopAtError::YearInvalid),
                    Some(year) => match parse_unsigned(parts[1], u32::MAX as nat) {
                        None => Err(StopAtError::MonthInvalid),
                        Some(month) => match parse_unsigned(parts[2], u32::MAX as nat) {
                            None => Err(StopAtError::DayInvalid),
                            Some(day) => match clock_seconds(time) {
                                Err(e) => Err(e),
                                Ok(seconds) => match civil_days(year, month as int, day as int) {
                                    Err(e) => Err(e),
                                    Ok(days) => {
                                        let epoch = days * 86400 + seconds;
                                        if days * 86400 < i64::MIN || days * 86400 > i64::MAX
                                            || epoch > i64::MAX {
                                            Err(StopAtError::TimestampRange)
                                        } else if epoch < 0 {
                                            Err(StopAtError::BeforeEpoch)
                                        } else {
                                            Ok(epoch)
                                        }
                                    },
                                },
                            },
                        },
                    },
                }
            }
        },
    }
}

/// The seconds since the Unix epoch that a full `--stop-at` value names.
pub fn parse_full_stop_at_seconds(value: &str) -> (r: Result<u64, StopAtError>)
    ensures
        match full_stop_at_seconds(value@) {
            Ok(s) => r == Ok::<u64, StopAtError>(s as u64),
            Err(e) => r == Err::<u64, StopAtError>(e),
        },
{
    let chars = chars_of(value);
    let t = match find_char(chars.as_slice(), 'T') {
        Some(t) => t,
        None => {
            return Err(StopAtError::FullFormat);
        },
    };
    let n = chars.len();
    assert(t < n);
    let date = copy_chars(chars.as_slice(), 0, t);
    let time = copy_chars(chars.as_slice(), t + 1, n);
    assert(date@ =~= value@.take(t as int));
    assert(time@ =~= value@.skip(t + 1));
    let mut dashed_date: Vec<char> = Vec::new();
    let mut i: usize = 0;
    while i < date.len()
        invariant
            i <= date@.len(),
            dashed_date@ == dashed(date@.take(i as int)),
        decreases date.len() - i,
    {
        dashed_date.push(if date[i] == '/' { '-' } else { date[i] });
        i = i + 1;
        assert(dashed_date@ =~= dashed(date@.take(i as int)));
    }
    assert(date@.take(date@.len() as int) =~= date@);
    let parts = split_chars(dashed_date.as_slice(), '-');
    let ghost views = parts@.map_values(|v: Vec<char>| v@);
    if parts.len() != 3 {
        return Err(StopAtError::DateFormat);
    }
    assert(views[0] == parts@[0]@ && views[1] == parts@[1]@ && views[2] == parts@[2]@);
    let year = match parse_i32_chars(parts[0].as_slice()) {
        Some(y) => y,
        None => {
            return Err(StopAtError::YearInvalid);
        },
    };
    let month = match parse_unsigned_chars(parts[1].as_slice(), u32::MAX as u64) {
        Some(m) => m as u32,
        None => {
            return Err(StopAtError::MonthInvalid);
        },
    };
    let day = match parse_unsigned_chars(parts[2].as_slice(), u32::MAX as u64) {
        Some(d) => d as u32,
        None => {
            return Err(StopAtError::DayInvalid);
        },
    };
    let time_text = crate::text::string_from_chars(time.as_slice());
    let seconds = match parse_stop_at_clock_seconds(time_text.as_str()) {
        Ok(s) => s,
        Err(e) => {
            return Err(e);
        },
    };
    let days = match days_from_civil(year, month, day) {
        Ok(days) => days,
        Err(e) => {
            return Err(e);
        },
    };
    let epoch = match days.checked_mul(86_400) {
        Some(base) => base.checked_add(seconds as i64),
        None => None,
    };
    let epoch = match epoch {
        Some(e) => e,
        None => {
            return Err(StopAtError::TimestampRange);
        },
    };
    if epoch < 0 {
        return Err(StopAtError::BeforeEpoch);
    }
    Ok(epoch as u64)
}

/// The next time, strictly after `now`, at which the UTC clock shows `target` seconds after
/// midnight.
pub open spec fn next_clock_time(now: int, target: int) -> int {
    let day_start = now - now % 86400;
    if day_start + target <= now {
        day_start + target + 86400
    } else {
        day_start + target
    }
}

/// The seconds since the Unix epoch of the next time the UTC clock shows a `HH:MM[:SS]` value,
/// after `now` (seconds since the epoch).
pub fn parse_clock_stop_at_seconds(value: &str, now: u64) -> (r: Result<u64, StopAtError>)
    requires
        now <= u64::MAX - 2 * 86400,
    ensures
        match clock_seconds(value@) {
            Ok(s) => r == Ok::<u64, StopAtError>(next_clock_time(now as int, s as int) as u64),
            Err(e) => r == Err::<u64, StopAtError>(e),
        },
{
    let target = match parse_stop_at_clock_seconds(value) {
        Ok(t) => t,
        Err(e) => {
            return Err(e);
        },
    };
    let day_start = now - (now % 86_400);
    let mut candidate = day_start + target;
    if candidate <= now {
        candidate = candidate + 86_400;
    }
    Ok(candidate)
}

/// 1970-01-01 is day 0.
pub proof fn lemma_epoch_is_day_zero()
    ensures
        civil_day_number(1970, 1, 1) == 0,
{
    assert(1969int / 400 == 4);
    assert((153int * 10 + 2) / 5 == 306);
    assert(369int / 4 == 92);
    assert(369int / 100 == 3);
}

/// Within a month, the next day has the next day number.
pub proof fn lemma_next_day_within_month(year: int, month: int, day: int)
    requires
        1 <= month <= 12,
        1 <= day,
    ensures
        civil_day_number(year, month, day + 1) == civil_day_number(year, month, day) + 1,
{
}

/// A resolved clock time is in the future, less than a day ahead, and shows the requested time.
pub proof fn lemma_next_clock_time(now: int, target: int)
    requires
        now >= 0,
        0 <= target < 86400,
    ensures
        now < next_clock_time(now, target) <= now + 86400,
        next_clock_time(now, target) % 86400 == target,
{
    let day_start = now - now % 86400;
    assert(day_start % 86400 == 0) by (nonlinear_arith)
        requires
            day_start == now - now % 86400,
            now >= 0,
    ;
    assert((day_start + target) % 86400 == target) by (nonlinear_arith)
        requires
            day_start % 86400 == 0,
            0 <= target < 86400,
            day_start >= 0,
    ;
    assert((day_start + target + 86400) % 86400 == target) by (nonlinear_arith)
        requires
            (day_start + target) % 86400 == target,
            day_start + target >= 0,
    ;
}

/// The day number of the first day of March of `y`, counted from the era origin.
spec fn march_first(y: int) -> int {
    let era = y / 400;
    let yoe = y - era * 400;
    era * 146097 + yoe * 365 + yoe / 4 - yoe / 100
}

proof fn lemma_div_step(a: int, k: int)
    requires
        a >= 1,
        k > 0,
    ensures
        a / k - (a - 1) / k == (if a % k == 0 {
            1int
        } else {
            0int
        }),
{
    vstd::arithmetic::div_mod::lemma_fundamental_div_mod(a, k);
    let q = a / k;
    let r = a % k;
    assert(0 <= r < k);
    if r == 0 {
        assert(a - 1 == (q - 1) * k + (k - 1)) by (nonlinear_arith)
            requires
                a == k * q + r,
                r == 0,
        ;
        vstd::arithmetic::div_mod::lemma_fundamental_div_mod_converse(a - 1, k, q - 1, k - 1);
    } else {
        assert(a - 1 == q * k + (r - 1)) by (nonlinear_arith)
            requires
                a == k * q + r,
        ;
        vstd::arithmetic::div_mod::lemma_fundamental_div_mod_converse(a - 1, k, q, r - 1);
    }
}

proof fn lemma_march_first_step(year: int)
    ensures
        march_first(year) - march_first(year - 1) == 365 + (if leap_year(year) {
            1int
        } else {
            0int
        }),
{
    vstd::arithmetic::div_mod::lemma_fundamental_div_mod(year, 400);
    let q = year / 400;
    let r = year % 400;
    vstd::arithmetic::div_mod::lemma_mod_mod(year, 4, 100);
    vstd::arithmetic::div_mod::lemma_mod_mod(year, 100, 4);
    assert(year - q * 400 == r);
    if r == 0 {
        vstd::arithmetic::div_mod::lemma_fundamental_div_mod_converse(year - 1, 400, q - 1, 399);
        assert((year - 1) - (q - 1) * 400 == 399);
        assert(march_first(year) == q * 146097);
        assert(march_first(year - 1) == (q - 1) * 146097 + 399 * 365 + 99 - 3);
    } else {
        vstd::arithmetic::div_mod::lemma_fundamental_div_mod_converse(year - 1, 400, q, r - 1);
        assert((year - 1) - q * 400 == r - 1);
        lemma_div_step(r, 4);
        lemma_div_step(r, 100);
        assert(march_first(year) == q * 146097 + r * 365 + r / 4 - r / 100);
        assert(march_first(year - 1) == q * 146097 + (r - 1) * 365 + (r - 1) / 4 - (r - 1) / 100);
        assert(r % 100 == 0 ==> r % 4 == 0) by {
            if r % 100 == 0 {
                vstd::arithmetic::div_mod::lemma_fundamental_div_mod(r, 100);
                vstd::arithmetic::div_mod::lemma_fundamental_div_mod_converse(r, 4, 25 * (r / 100), 0);
            }
        }
    }
}

/// The date after `(year, month, day)`.
pub open spec fn next_date(year: int, month: int, day: int) -> (int, int, int) {
    if day < month_days(year, month) {
        (year, month, day + 1)
    } else if month < 12 {
        (year, month + 1, 1)
    } else {
        (year + 1, 1, 1)
    }
}

/// Consecutive dates have consecutive day numbers: the day number of a date counts the days from
/// 1970-01-01 one by one, across month, year and leap-day boundaries.
pub proof fn lemma_next_date_next_day_number(year: int, month: int, day: int)
    requires
        1 <= month <= 12,
        1 <= day <= month_days(year, month),
    ensures
        ({
            let (y, m, d) = next_date(year, month, day);
            civil_day_number(y, m, d) == civil_day_number(year, month, day) + 1
        }),
{
    if day < month_days(year, month) {
    } else if month == 2 {
        lemma_march_first_step(year);
        assert((153int * 11 + 2) / 5 == 337);
        assert((153int * 0 + 2) / 5 == 0);
    } else {
        assert((153int * 0 + 2) / 5 == 0);
        assert((153int * 1 + 2) / 5 == 31);
        assert((153int * 2 + 2) / 5 == 61);
        assert((153int * 3 + 2) / 5 == 92);
        assert((153int * 4 + 2) / 5 == 122);
        assert((153int * 5 + 2) / 5 == 153);
        assert((153int * 6 + 2) / 5 == 184);
        assert((153int * 7 + 2) / 5 == 214);
        assert((153int * 8 + 2) / 5 == 245);
        assert((153int * 9 + 2) / 5 == 275);
        assert((153int * 10 + 2) / 5 == 306);
        assert((153int * 11 + 2) / 5 == 337);
    }
}

/// The seconds since the Unix epoch that a `--stop-at` value names, relative to `now`: a full
/// date when it holds a `T`, the next matching clock time otherwise; it must not lie in the past.
pub open spec fn stop_at_seconds(value: Seq<char>, now: int) -> Result<int, StopAtError> {
    let target = if value.contains('T') {
        full_stop_at_seconds(value)
    } else {
        match clock_seconds(value) {
            Ok(s) => Ok(next_clock_time(now, s as int)),
            Err(e) => Err(e),
        }
    };
    match target {
        Err(e) => Err(e),
        Ok(t) => if t < now {
            Err(StopAtError::NotFuture)
        } else {
            Ok(t)
        },
    }
}

proof fn lemma_first_index_contains(s: Seq<char>, c: char)
    ensures
        first_index_of(s, c) is Some <==> s.contains(c),
    decreases s.len(),
{
    if s.len() > 0 {
        lemma_first_index_contains(s.drop_first(), c);
        if s.drop_first().contains(c) {
            let j = choose|j: int| 0 <= j < s.drop_first().len() && s.drop_first()[j] == c;
            assert(s[j + 1] == c);
        }
        if s.contains(c) && s[0] != c {
            let j = choose|j: int| 0 <= j < s.len() && s[j] == c;
            assert(s.drop_first()[j - 1] == c);
        }
    }
}

/// The seconds since the Unix epoch that a `--stop-at` value names, given the current time.
pub fn stop_at_target_seconds(value: &str, now: u64) -> (r: Result<u64, StopAtError>)
    requires
        now <= u64::MAX - 2 * 86400,
    ensures
        match stop_at_seconds(value@, now as int) {
            Ok(s) => r == Ok::<u64, StopAtError>(s as u64),
            Err(e) => r == Err::<u64, StopAtError>(e),
        },
{
    let chars = chars_of(value);
    proof {
        lemma_first_index_contains(value@, 'T');
    }
    let target = if find_char(chars.as_slice(), 'T').is_some() {
        parse_full_stop_at_seconds(value)
    } else {
        parse_clock_stop_at_seconds(value, now)
    };
    match target {
        Ok(t) => if t < now {
            Err(StopAtError::NotFuture)
        } else {
            Ok(t)
        },
        Err(e) => Err(e),
    }
}

} // verus!
