//! What the answers of an operator mean when a schedule is set up.
//!
//! The caller asks the questions and reads the answers; the functions here
//! judge each answer and say what is to be asked next. The initial time is
//! asked for in three steps (month and day, hour, minute), the interval in
//! three as well (days, hours, minutes). An answer that is refused leaves the
//! step as it is, so the same question is asked again.

use crate::book::ranges::{pattern_match, regex_is_match};
use crate::book::schedule::{taipei_instant, representable, ScheduleInterval, TaipeiTime};
use crate::text::{parse_integer, parse_number, parsed, parsed_integer, same_text, to_chars};
use vstd::prelude::*;

verus! {

/// Month and day as four digits: `01` to `12`, then `01` to `31`.
pub const MONTH_DAY_PATTERN: &'static str = "^(0[1-9]|1[0-2])(0[1-9]|[12]\\d|3[01])$";

/// An hour as two digits: `00` to `23`.
pub const HOUR_PATTERN: &'static str = "^(0\\d|1\\d|2[0-3])$";

/// The first and the last year of the calendar of `chrono`.
pub const MIN_YEAR: i32 = -262143;

pub const MAX_YEAR: i32 = 262142;

/// Whether `year` is a leap year of the Gregorian calendar.
pub open spec fn is_leap_year(year: int) -> bool {
    year % 4 == 0 && (year % 100 != 0 || year % 400 == 0)
}

/// The number of days of a month.
pub open spec fn days_in_month(year: int, month: int) -> int {
    if month == 2 {
        if is_leap_year(year) {
            29
        } else {
            28
        }
    } else if month == 4 || month == 6 || month == 9 || month == 11 {
        30
    } else {
        31
    }
}

/// Whether the calendar of `chrono` has this day: a day of the proleptic
/// Gregorian calendar, in a year that `chrono` represents.
pub open spec fn date_exists(year: i32, month: u32, day: u32) -> bool {
    &&& MIN_YEAR <= year <= MAX_YEAR
    &&& 1 <= month <= 12
    &&& 1 <= day <= days_in_month(year as int, month as int)
}

/// Calls `chrono::NaiveDate::from_ymd_opt` and says whether it gave a date.
/// That function gives none where the calendar day does not exist, where
/// month or day is out of range, or where the year is out of range.
#[verifier::external_body]
pub(crate) fn is_date(year: i32, month: u32, day: u32) -> (r: bool)
    ensures
        r == date_exists(year, month, day),
{
    chrono::NaiveDate::from_ymd_opt(year, month, day).is_some()
}

/// The date and the hour that the clocks of Taipei show when the questions
/// begin.
#[derive(Debug, Clone, Copy, PartialEq, Eq)]
pub struct Today {
    pub year: i32,
    pub month: u32,
    pub day: u32,
    pub hour: u32,
}

/// Why an answer is refused.
#[derive(Debug, Clone, Copy, PartialEq, Eq)]
pub enum Rejection {
    /// Month and day are not written as four digits.
    MonthDayFormat,
    /// The month has no such day.
    NoSuchDate,
    /// The day lies before today.
    DateInPast,
    /// The hour is not written as two digits from `00` to `23`.
    HourFormat,
    /// The day is today and the hour has passed.
    HourInPast,
    /// The minute is neither `00` nor `30`.
    MinuteFormat,
    /// The clocks of Taipei do not show this time exactly once.
    NoSuchTime,
    /// The time is not later than now.
    NotInFuture,
    /// The days are no whole number from 0 on.
    DaysFormat,
    /// The hours are no whole number from 0 to 23.
    HoursFormat,
    /// The minutes are neither 0 nor 30.
    MinutesFormat,
}

/// What is asked next for the initial time.
#[derive(Debug, Clone, Copy, PartialEq, Eq)]
pub enum TimePrompt {
    MonthDay,
    Hour { month: u32, day: u32 },
    Minute { month: u32, day: u32, hour: u32 },
}

/// What an answer to a question for the initial time leads to.
#[derive(Debug, Clone, Copy, PartialEq, Eq)]
pub enum TimeAnswer {
    /// The answer is refused; the same question is asked again.
    Retry(Rejection),
    /// The answer is taken; this is asked next.
    Proceed(TimePrompt),
    /// The last answer is taken; this is the initial time.
    Done(TaipeiTime),
}

/// Month and day that four characters write, two each.
pub open spec fn month_day_of(input: Seq<char>) -> Option<(u32, u32)> {
    if input.len() == 4 {
        match (parsed(input.take(2)), parsed(input.skip(2))) {
            (Some(m), Some(d)) => if m <= u32::MAX && d <= u32::MAX {
                Some((m as u32, d as u32))
            } else {
                None
            },
            _ => None,
        }
    } else {
        None
    }
}

/// What an answer for month and day leads to.
pub open spec fn month_day_answer(input: Seq<char>, today: Today) -> Result<(u32, u32), Rejection> {
    if pattern_match(MONTH_DAY_PATTERN@, input) != Some(true) {
        Err(Rejection::MonthDayFormat)
    } else {
        match month_day_of(input) {
            None => Err(Rejection::NoSuchDate),
            Some((month, day)) => if !date_exists(today.year, month, day) {
                Err(Rejection::NoSuchDate)
            } else if month < today.month || (month == today.month && day < today.day) {
                Err(Rejection::DateInPast)
            } else {
                Ok((month, day))
            },
        }
    }
}

/// Judges an answer for month and day: four digits that name a day of this
/// year that is not before today.
pub fn check_month_day(input: &str, today: Today) -> (r: Result<(u32, u32), Rejection>)
    ensures
        r == month_day_answer(input@, today),
{
    match regex_is_match(MONTH_DAY_PATTERN, input) {
        Some(true) => {},
        _ => {
            return Err(Rejection::MonthDayFormat);
        },
    }
    let v = to_chars(input);
    if v.len() != 4 {
        return Err(Rejection::NoSuchDate);
    }
    proof {
        assert(v@.take(2) =~= v@.subrange(0, 2));
        assert(v@.skip(2) =~= v@.subrange(2, 4));
    }
    let (month, day) = match (parse_number(&v, 0, 2), parse_number(&v, 2, 4)) {
        (Some(m), Some(d)) => {
            if m > u32::MAX as usize || d > u32::MAX as usize {
                return Err(Rejection::NoSuchDate);
            }
            (m as u32, d as u32)
        },
        _ => {
            return Err(Rejection::NoSuchDate);
        },
    };
    if !is_date(today.year, month, day) {
        Err(Rejection::NoSuchDate)
    } else if month < today.month || (month == today.month && day < today.day) {
        Err(Rejection::DateInPast)
    } else {
        Ok((month, day))
    }
}

/// The hour that an answer writes.
pub open spec fn hour_of(input: Seq<char>) -> Option<u32> {
    match parsed(input) {
        Some(h) => if h <= u32::MAX {
            Some(h as u32)
        } else {
            None
        },
        None => None,
    }
}

/// What an answer for the hour leads to.
pub open spec fn hour_answer(input: Seq<char>, month: u32, day: u32, today: Today) -> Result<u32, Rejection> {
    if pattern_match(HOUR_PATTERN@, input) != Some(true) {
        Err(Rejection::HourFormat)
    } else {
        match hour_of(input) {
            None => Err(Rejection::HourFormat),
            Some(hour) => if month == today.month && day == today.day && hour < today.hour {
                Err(Rejection::HourInPast)
            } else {
                Ok(hour)
            },
        }
    }
}

/// Judges an answer for the hour: two digits from `00` to `23`, and on the
/// day of today not an hour that has passed.
pub fn check_hour(input: &str, month: u32, day: u32, today: Today) -> (r: Result<u32, Rejection>)
    ensures
        r == hour_answer(input@, month, day, today),
{
    match regex_is_match(HOUR_PATTERN, input) {
        Some(true) => {},
        _ => {
            return Err(Rejection::HourFormat);
        },
    }
    let v = to_chars(input);
    assert(v@.subrange(0, v.len() as int) =~= v@);
    let hour = match parse_number(&v, 0, v.len()) {
        Some(h) => {
            if h > u32::MAX as usize {
                return Err(Rejection::HourFormat);
            }
            h as u32
        },
        None => {
            return Err(Rejection::HourFormat);
        },
    };
    if month == today.month && day == today.day && hour < today.hour {
        Err(Rejection::HourInPast)
    } else {
        Ok(hour)
    }
}

/// The minute that an answer writes: `00` or `30`.
pub open spec fn minute_of(input: Seq<char>) -> Option<u32> {
    if input == seq!['0', '0'] {
        Some(0u32)
    } else if input == seq!['3', '0'] {
        Some(30u32)
    } else {
        None
    }
}

/// What an answer for the minute leads to.
pub open spec fn minute_answer(
    input: Seq<char>,
    month: u32,
    day: u32,
    hour: u32,
    today: Today,
    now: int,
) -> Result<int, Rejection> {
    match minute_of(input) {
        None => Err(Rejection::MinuteFormat),
        Some(minute) => match taipei_instant(today.year, month, day, hour, minute) {
            None => Err(Rejection::NoSuchTime),
            Some(t) => if !representable(t as int) {
                Err(Rejection::NoSuchTime)
            } else if t <= now {
                Err(Rejection::NotInFuture)
            } else {
                Ok(t as int)
            },
        },
    }
}

/// Judges an answer for the minute: `00` or `30`, such that the whole time
/// exists in Taipei and lies after `now`.
pub fn check_minute(input: &str, month: u32, day: u32, hour: u32, today: Today, now: TaipeiTime) -> (r:
    Result<TaipeiTime, Rejection>)
    ensures
        match (r, minute_answer(input@, month, day, hour, today, now@)) {
            (Ok(time), Ok(t)) => time@ == t,
            (Err(e), Err(f)) => e == f,
            _ => false,
        },
{
    proof {
        reveal_strlit("00");
        reveal_strlit("30");
        assert("00"@ =~= seq!['0', '0']);
        assert("30"@ =~= seq!['3', '0']);
    }
    let minute: u32 = if same_text(input, "00") {
        0
    } else if same_text(input, "30") {
        30
    } else {
        return Err(Rejection::MinuteFormat);
    };
    match TaipeiTime::from_local(today.year, month, day, hour, minute) {
        None => Err(Rejection::NoSuchTime),
        Some(time) => if time.timestamp() <= now.timestamp() {
            Err(Rejection::NotInFuture)
        } else {
            Ok(time)
        },
    }
}

/// Judges the answer to the question `prompt` for the initial time. `today`
/// is what the clocks showed when the questions began, `now` what they show
/// at this answer.
pub fn answer_initial_datetime(prompt: TimePrompt, input: &str, today: Today, now: TaipeiTime) -> (r:
    TimeAnswer)
    ensures
        match prompt {
            TimePrompt::MonthDay => match month_day_answer(input@, today) {
                Ok((month, day)) => r == TimeAnswer::Proceed(TimePrompt::Hour { month, day }),
                Err(e) => r == TimeAnswer::Retry(e),
            },
            TimePrompt::Hour { month, day } => match hour_answer(input@, month, day, today) {
                Ok(hour) => r == TimeAnswer::Proceed(TimePrompt::Minute { month, day, hour }),
                Err(e) => r == TimeAnswer::Retry(e),
            },
            TimePrompt::Minute { month, day, hour } => match minute_answer(
                input@,
                month,
                day,
                hour,
                today,
                now@,
            ) {
                Ok(t) => r matches TimeAnswer::Done(time) && time@ == t,
                Err(e) => r == TimeAnswer::Retry(e),
            },
        },
{
    match prompt {
        TimePrompt::MonthDay => match check_month_day(input, today) {
            Ok((month, day)) => TimeAnswer::Proceed(TimePrompt::Hour { month, day }),
            Err(e) => TimeAnswer::Retry(e),
        },
        TimePrompt::Hour { month, day } => match check_hour(input, month, day, today) {
            Ok(hour) => TimeAnswer::Proceed(TimePrompt::Minute { month, day, hour }),
            Err(e) => TimeAnswer::Retry(e),
        },
        TimePrompt::Minute { month, day, hour } => match check_minute(input, month, day, hour, today, now) {
            Ok(time) => TimeAnswer::Done(time),
            Err(e) => TimeAnswer::Retry(e),
        },
    }
}

/// What is asked next for the interval.
#[derive(Debug, Clone, Copy, PartialEq, Eq)]
pub enum IntervalPrompt {
    Days,
    Hours { days: i64 },
    Minutes { days: i64, hours: i64 },
}

/// What an answer to a question for the interval leads to.
#[derive(Debug, Clone, Copy, PartialEq, Eq)]
pub enum IntervalAnswer {
    /// The answer is refused; the same question is asked again.
    Retry(Rejection),
    /// The answer is taken; this is asked next.
    Proceed(IntervalPrompt),
    /// The last answer is taken; this is the interval.
    Done(ScheduleInterval),
}

/// What the answer to the question `prompt` for the interval leads to: the
/// days are any whole number from 0 on, the hours one from 0 to 23, the
/// minutes 0 or 30.
pub open spec fn interval_answer(prompt: IntervalPrompt, input: Seq<char>) -> IntervalAnswer {
    match prompt {
        IntervalPrompt::Days => match parsed_integer(input) {
            Some(days) => if days >= 0 {
                IntervalAnswer::Proceed(IntervalPrompt::Hours { days })
            } else {
                IntervalAnswer::Retry(Rejection::DaysFormat)
            },
            None => IntervalAnswer::Retry(Rejection::DaysFormat),
        },
        IntervalPrompt::Hours { days } => match parsed_integer(input) {
            Some(hours) => if 0 <= hours <= 23 {
                IntervalAnswer::Proceed(IntervalPrompt::Minutes { days, hours })
            } else {
                IntervalAnswer::Retry(Rejection::HoursFormat)
            },
            None => IntervalAnswer::Retry(Rejection::HoursFormat),
        },
        IntervalPrompt::Minutes { days, hours } => match parsed_integer(input) {
            Some(minutes) => if minutes == 0 || minutes == 30 {
                IntervalAnswer::Done(ScheduleInterval { days, hours, minutes })
            } else {
                IntervalAnswer::Retry(Rejection::MinutesFormat)
            },
            None => IntervalAnswer::Retry(Rejection::MinutesFormat),
        },
    }
}

/// Judges the answer to the question `prompt` for the interval.
pub fn answer_interval(prompt: IntervalPrompt, input: &str) -> (r: IntervalAnswer)
    ensures
        r == interval_answer(prompt, input@),
{
    let number = parse_integer(input);
    match prompt {
        IntervalPrompt::Days => match number {
            Some(days) => if days >= 0 {
                IntervalAnswer::Proceed(IntervalPrompt::Hours { days })
            } else {
                IntervalAnswer::Retry(Rejection::DaysFormat)
            },
            None => IntervalAnswer::Retry(Rejection::DaysFormat),
        },
        IntervalPrompt::Hours { days } => match number {
            Some(hours) => if 0 <= hours && hours <= 23 {
                IntervalAnswer::Proceed(IntervalPrompt::Minutes { days, hours })
            } else {
                IntervalAnswer::Retry(Rejection::HoursFormat)
            },
            None => IntervalAnswer::Retry(Rejection::HoursFormat),
        },
        IntervalPrompt::Minutes { days, hours } => match number {
            Some(minutes) => if minutes == 0 || minutes == 30 {
                IntervalAnswer::Done(ScheduleInterval { days, hours, minutes })
            } else {
                IntervalAnswer::Retry(Rejection::MinutesFormat)
            },
            None => IntervalAnswer::Retry(Rejection::MinutesFormat),
        },
    }
}

/// The kinds of schedule that an operator can choose.
#[derive(Debug, Clone, Copy, PartialEq, Eq)]
pub enum ModeChoice {
    Immediate,
    Uniform,
    FixedInterval,
}

/// Which kind of schedule the operator chose: none without chapters or
/// without the wish for one; at a fixed interval only where there is more
/// than one chapter and the operator asked for it; else one time for all.
pub fn choose_mode(chapter_count: usize, scheduled: bool, at_interval: bool) -> (choice: ModeChoice)
    ensures
        choice == (if chapter_count == 0 || !scheduled {
            ModeChoice::Immediate
        } else if chapter_count > 1 && at_interval {
            ModeChoice::FixedInterval
        } else {
            ModeChoice::Uniform
        }),
{
    if chapter_count == 0 || !scheduled {
        ModeChoice::Immediate
    } else if chapter_count > 1 && at_interval {
        ModeChoice::FixedInterval
    } else {
        ModeChoice::Uniform
    }
}

/// Whether the operator is asked at all whether the chapters are to be
/// published at a fixed interval: only where there is more than one.
pub fn offers_interval(chapter_count: usize) -> (r: bool)
    ensures
        r == (chapter_count > 1),
{
    chapter_count > 1
}

} // verus!
