use auto_esj::book::prompt::{
    answer_initial_datetime, answer_interval, check_hour, check_minute, check_month_day, choose_mode,
    offers_interval, IntervalAnswer, IntervalPrompt, ModeChoice, Rejection, TimeAnswer, TimePrompt, Today,
};
use auto_esj::book::schedule::{ScheduleInterval, TaipeiTime};

fn today() -> Today {
    Today { year: 2024, month: 3, day: 15, hour: 14 }
}

fn now() -> TaipeiTime {
    TaipeiTime::from_local(2024, 3, 15, 14, 10).unwrap()
}

#[test]
fn month_and_day() {
    assert_eq!(check_month_day("0315", today()), Ok((3, 15)));
    assert_eq!(check_month_day("1231", today()), Ok((12, 31)));
    assert_eq!(check_month_day("0314", today()), Err(Rejection::DateInPast));
    assert_eq!(check_month_day("0229", today()), Err(Rejection::DateInPast));
    assert_eq!(check_month_day("0431", today()), Err(Rejection::NoSuchDate));
    assert_eq!(check_month_day("1301", today()), Err(Rejection::MonthDayFormat));
    assert_eq!(check_month_day("0100", today()), Err(Rejection::MonthDayFormat));
    assert_eq!(check_month_day("315", today()), Err(Rejection::MonthDayFormat));
    assert_eq!(check_month_day("03-15", today()), Err(Rejection::MonthDayFormat));
    assert_eq!(check_month_day("", today()), Err(Rejection::MonthDayFormat));
}

#[test]
fn leap_days() {
    let january = |year| Today { year, month: 1, day: 1, hour: 0 };
    assert_eq!(check_month_day("0229", january(2024)), Ok((2, 29)));
    assert_eq!(check_month_day("0229", january(2023)), Err(Rejection::NoSuchDate));
    assert_eq!(check_month_day("0229", january(2000)), Ok((2, 29)));
    assert_eq!(check_month_day("0229", january(1900)), Err(Rejection::NoSuchDate));
    assert_eq!(check_month_day("0228", january(1900)), Ok((2, 28)));
    assert_eq!(check_month_day("0630", january(2023)), Ok((6, 30)));
    assert_eq!(check_month_day("0631", january(2023)), Err(Rejection::NoSuchDate));
    assert_eq!(check_month_day("0101", january(262142)), Ok((1, 1)));
    assert_eq!(check_month_day("0101", january(262143)), Err(Rejection::NoSuchDate));
    assert_eq!(check_month_day("0101", january(-262143)), Ok((1, 1)));
    assert_eq!(check_month_day("0101", january(-262144)), Err(Rejection::NoSuchDate));
}

#[test]
fn digits_of_other_scripts_name_no_date() {
    assert_eq!(check_month_day("03١٥", today()), Err(Rejection::MonthDayFormat));
    assert_eq!(check_month_day("121٥", today()), Err(Rejection::NoSuchDate));
    assert_eq!(check_hour("1٥", 3, 16, today()), Err(Rejection::HourFormat));
}

#[test]
fn hour() {
    assert_eq!(check_hour("14", 3, 15, today()), Ok(14));
    assert_eq!(check_hour("13", 3, 15, today()), Err(Rejection::HourInPast));
    assert_eq!(check_hour("00", 3, 16, today()), Ok(0));
    assert_eq!(check_hour("23", 3, 15, today()), Ok(23));
    assert_eq!(check_hour("24", 3, 16, today()), Err(Rejection::HourFormat));
    assert_eq!(check_hour("7", 3, 16, today()), Err(Rejection::HourFormat));
    assert_eq!(check_hour("", 3, 16, today()), Err(Rejection::HourFormat));
}

#[test]
fn minute() {
    let later = TaipeiTime::from_local(2024, 3, 15, 14, 30).unwrap();
    assert_eq!(check_minute("30", 3, 15, 14, today(), now()), Ok(later));
    assert_eq!(check_minute("00", 3, 15, 14, today(), now()), Err(Rejection::NotInFuture));
    assert_eq!(check_minute("30", 3, 15, 14, today(), later), Err(Rejection::NotInFuture));
    assert_eq!(check_minute("15", 3, 15, 14, today(), now()), Err(Rejection::MinuteFormat));
    assert_eq!(check_minute("0", 3, 15, 14, today(), now()), Err(Rejection::MinuteFormat));
    assert_eq!(check_minute("00", 2, 30, 14, today(), now()), Err(Rejection::NoSuchTime));
    assert_eq!(check_minute("00", 3, 16, 24, today(), now()), Err(Rejection::NoSuchTime));
}

#[test]
fn three_questions_for_the_initial_time() {
    let mut prompt = TimePrompt::MonthDay;
    let mut asked = Vec::new();
    let mut result = None;
    for input in ["3/15", "0315", "9", "13", "15", "45", "00", "30"] {
        asked.push(prompt);
        match answer_initial_datetime(prompt, input, today(), now()) {
            TimeAnswer::Retry(_) => {}
            TimeAnswer::Proceed(next) => prompt = next,
            TimeAnswer::Done(time) => result = Some(time),
        }
    }
    let hour = TimePrompt::Hour { month: 3, day: 15 };
    let minute = TimePrompt::Minute { month: 3, day: 15, hour: 15 };
    assert_eq!(
        asked,
        vec![TimePrompt::MonthDay, TimePrompt::MonthDay, hour, hour, hour, minute, minute, minute]
    );
    assert_eq!(result, Some(TaipeiTime::from_local(2024, 3, 15, 15, 30).unwrap()));
    assert_eq!(
        answer_initial_datetime(TimePrompt::MonthDay, "0101", today(), now()),
        TimeAnswer::Retry(Rejection::DateInPast)
    );
}

#[test]
fn three_questions_for_the_interval() {
    assert_eq!(answer_interval(IntervalPrompt::Days, "2"), IntervalAnswer::Proceed(IntervalPrompt::Hours { days: 2 }));
    assert_eq!(answer_interval(IntervalPrompt::Days, "0"), IntervalAnswer::Proceed(IntervalPrompt::Hours { days: 0 }));
    assert_eq!(answer_interval(IntervalPrompt::Days, "-0"), IntervalAnswer::Proceed(IntervalPrompt::Hours { days: 0 }));
    assert_eq!(answer_interval(IntervalPrompt::Days, "-1"), IntervalAnswer::Retry(Rejection::DaysFormat));
    assert_eq!(answer_interval(IntervalPrompt::Days, "two"), IntervalAnswer::Retry(Rejection::DaysFormat));
    assert_eq!(
        answer_interval(IntervalPrompt::Days, "9223372036854775808"),
        IntervalAnswer::Retry(Rejection::DaysFormat)
    );
    let hours = IntervalPrompt::Hours { days: 2 };
    assert_eq!(answer_interval(hours, "23"), IntervalAnswer::Proceed(IntervalPrompt::Minutes { days: 2, hours: 23 }));
    assert_eq!(answer_interval(hours, "24"), IntervalAnswer::Retry(Rejection::HoursFormat));
    assert_eq!(answer_interval(hours, "-1"), IntervalAnswer::Retry(Rejection::HoursFormat));
    assert_eq!(answer_interval(hours, ""), IntervalAnswer::Retry(Rejection::HoursFormat));
    let minutes = IntervalPrompt::Minutes { days: 2, hours: 23 };
    assert_eq!(
        answer_interval(minutes, "30"),
        IntervalAnswer::Done(ScheduleInterval { days: 2, hours: 23, minutes: 30 })
    );
    assert_eq!(
        answer_interval(minutes, "+0"),
        IntervalAnswer::Done(ScheduleInterval { days: 2, hours: 23, minutes: 0 })
    );
    assert_eq!(answer_interval(minutes, "15"), IntervalAnswer::Retry(Rejection::MinutesFormat));
    assert_eq!(answer_interval(minutes, "x"), IntervalAnswer::Retry(Rejection::MinutesFormat));
}

#[test]
fn kind_of_schedule() {
    assert_eq!(choose_mode(0, true, true), ModeChoice::Immediate);
    assert_eq!(choose_mode(3, false, true), ModeChoice::Immediate);
    assert_eq!(choose_mode(1, true, true), ModeChoice::Uniform);
    assert_eq!(choose_mode(2, true, false), ModeChoice::Uniform);
    assert_eq!(choose_mode(2, true, true), ModeChoice::FixedInterval);
    assert!(!offers_interval(0));
    assert!(!offers_interval(1));
    assert!(offers_interval(2));
}

fn days_of(year: i32, month: u32) -> u32 {
    let leap = year % 4 == 0 && (year % 100 != 0 || year % 400 == 0);
    match month {
        2 if leap => 29,
        2 => 28,
        4 | 6 | 9 | 11 => 30,
        _ => 31,
    }
}

#[test]
fn every_day_of_sample_years() {
    for year in [-262143, -401, -400, -100, -4, -1, 0, 1, 1900, 2000, 2023, 2024, 2100, 2400, 262142] {
        let january = Today { year, month: 1, day: 1, hour: 0 };
        for month in 1..=12u32 {
            for day in 1..=31u32 {
                let input = format!("{:02}{:02}", month, day);
                let expected = if day <= days_of(year, month) { Ok((month, day)) } else { Err(Rejection::NoSuchDate) };
                assert_eq!(check_month_day(&input, january), expected, "{} in {}", input, year);
            }
        }
    }
}
