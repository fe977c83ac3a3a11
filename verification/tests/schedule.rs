use auto_esj::book::schedule::{
    calculate_chapter_schedules, determine_schedules, ScheduleInfo, ScheduleInterval, ScheduleMode,
    TaipeiTime, MAX_SPAN_SECONDS, MAX_TIMESTAMP, MIN_TIMESTAMP,
};
use auto_esj::error::Error;

fn info(date: &str, hour: &str, minute: &str) -> ScheduleInfo {
    ScheduleInfo { date: date.to_string(), hour: hour.to_string(), minute: minute.to_string() }
}

fn interval(days: i64, hours: i64, minutes: i64) -> ScheduleInterval {
    ScheduleInterval { days, hours, minutes }
}

fn new_year() -> TaipeiTime {
    TaipeiTime::from_local(2024, 1, 1, 0, 0).unwrap()
}

#[test]
fn one_day_apart() {
    let schedules = calculate_chapter_schedules(new_year(), interval(1, 0, 0), 3).unwrap();
    assert_eq!(
        schedules,
        vec![info("2024-01-01", "00", "00"), info("2024-01-02", "00", "00"), info("2024-01-03", "00", "00")]
    );
}

#[test]
fn zero_interval_repeats_the_initial_time() {
    let initial = TaipeiTime::from_local(2025, 6, 30, 23, 30).unwrap();
    let slots = determine_schedules(4, ScheduleMode::FixedInterval(initial, interval(0, 0, 0))).unwrap();
    assert_eq!(slots, vec![Some(info("2025-06-30", "23", "30")); 4]);
    assert_eq!(slots, determine_schedules(4, ScheduleMode::Uniform(initial)).unwrap());
}

#[test]
fn mixed_interval_crosses_days_and_months() {
    let initial = TaipeiTime::from_local(2024, 2, 28, 22, 0).unwrap();
    let schedules = calculate_chapter_schedules(initial, interval(0, 13, 30), 4).unwrap();
    assert_eq!(
        schedules,
        vec![
            info("2024-02-28", "22", "00"),
            info("2024-02-29", "11", "30"),
            info("2024-03-01", "01", "00"),
            info("2024-03-01", "14", "30"),
        ]
    );
}

#[test]
fn local_time_is_eight_hours_ahead_of_utc() {
    assert_eq!(new_year().timestamp(), 1704038400);
    let epoch = TaipeiTime::from_timestamp(0).unwrap();
    assert_eq!(ScheduleInfo::at(epoch), info("1970-01-01", "08", "00"));
}

#[test]
fn dates_that_do_not_exist_give_no_time() {
    assert_eq!(TaipeiTime::from_local(2023, 2, 29, 0, 0), None);
    assert_eq!(TaipeiTime::from_local(2024, 13, 1, 0, 0), None);
    assert_eq!(TaipeiTime::from_local(2024, 1, 1, 24, 0), None);
    assert_eq!(TaipeiTime::from_local(2024, 1, 1, 0, 60), None);
    assert!(TaipeiTime::from_local(2024, 2, 29, 23, 59).is_some());
}

#[test]
fn limits_of_what_can_be_represented() {
    assert!(TaipeiTime::from_timestamp(MAX_TIMESTAMP).is_some());
    assert_eq!(TaipeiTime::from_timestamp(MAX_TIMESTAMP + 1), None);
    assert!(TaipeiTime::from_timestamp(MIN_TIMESTAMP).is_some());
    assert_eq!(TaipeiTime::from_timestamp(MIN_TIMESTAMP - 1), None);
    assert_eq!(TaipeiTime::from_timestamp(i64::MAX), None);
    assert_eq!(TaipeiTime::from_timestamp(i64::MIN), None);
}

#[test]
fn times_at_the_limits_can_be_written_out() {
    let last = ScheduleInfo::at(TaipeiTime::from_timestamp(MAX_TIMESTAMP).unwrap());
    assert_eq!(last.minute, "59");
    let first = ScheduleInfo::at(TaipeiTime::from_timestamp(MIN_TIMESTAMP).unwrap());
    assert_eq!(first.minute.len(), 2);
    assert_eq!(first.hour.len(), 2);
}

#[test]
fn overflow_names_the_first_chapter_that_does_not_fit() {
    let late = TaipeiTime::from_timestamp(MAX_TIMESTAMP - 119).unwrap();
    assert_eq!(
        calculate_chapter_schedules(late, interval(0, 0, 1), 5),
        Err(Error::ScheduleOverflow { position: 3 })
    );
    assert!(calculate_chapter_schedules(late, interval(0, 0, 1), 2).is_ok());
    let last = TaipeiTime::from_timestamp(MAX_TIMESTAMP).unwrap();
    assert_eq!(
        calculate_chapter_schedules(last, interval(0, 0, 1), 2),
        Err(Error::ScheduleOverflow { position: 2 })
    );
    assert!(calculate_chapter_schedules(last, interval(0, 0, 1), 1).is_ok());
}

#[test]
fn overflow_with_a_huge_step() {
    let step_minutes = MAX_SPAN_SECONDS / 60;
    assert_eq!(
        calculate_chapter_schedules(new_year(), interval(0, 0, step_minutes), 3),
        Err(Error::ScheduleOverflow { position: 2 })
    );
    assert_eq!(
        determine_schedules(usize::MAX, ScheduleMode::FixedInterval(new_year(), interval(300_000 * 366, 0, 0))),
        Err(Error::ScheduleOverflow { position: 2 })
    );
}

#[test]
fn interval_as_one_duration() {
    assert_eq!(interval(1, 2, 30).to_duration(), Ok(95_400));
    assert_eq!(interval(0, 0, 0).to_duration(), Ok(0));
    assert_eq!(interval(0, 0, 1).to_duration(), Ok(60));
    assert_eq!(interval(2, -24, 0).to_duration(), Ok(86_400));
}

#[test]
fn negative_interval_is_refused() {
    assert_eq!(interval(0, 0, -1).to_duration(), Err(Error::NegativeInterval));
    assert_eq!(interval(1, -25, 0).to_duration(), Err(Error::NegativeInterval));
    assert_eq!(
        calculate_chapter_schedules(new_year(), interval(-1, 0, 0), 0),
        Err(Error::NegativeInterval)
    );
}

#[test]
fn interval_beyond_the_longest_duration_is_refused() {
    let most = MAX_SPAN_SECONDS / 60;
    assert_eq!(interval(0, 0, most).to_duration(), Ok(most * 60));
    assert_eq!(interval(0, 0, most + 1).to_duration(), Err(Error::IntervalOverflow));
    assert_eq!(interval(i64::MAX, i64::MAX, i64::MAX).to_duration(), Err(Error::IntervalOverflow));
    assert_eq!(interval(i64::MAX, 0, 0).to_duration(), Err(Error::IntervalOverflow));
}

#[test]
fn no_chapters_no_slots() {
    assert_eq!(determine_schedules(0, ScheduleMode::Immediate), Ok(vec![]));
    assert_eq!(determine_schedules(0, ScheduleMode::Uniform(new_year())), Ok(vec![]));
    assert_eq!(
        determine_schedules(0, ScheduleMode::FixedInterval(new_year(), interval(-5, 0, 0))),
        Ok(vec![])
    );
}

#[test]
fn immediate_publication_leaves_every_slot_empty() {
    assert_eq!(determine_schedules(3, ScheduleMode::Immediate), Ok(vec![None, None, None]));
}

#[test]
fn uniform_publication_fills_every_slot_alike() {
    let time = TaipeiTime::from_local(2030, 12, 31, 8, 30).unwrap();
    assert_eq!(
        determine_schedules(2, ScheduleMode::Uniform(time)),
        Ok(vec![Some(info("2030-12-31", "08", "30")), Some(info("2030-12-31", "08", "30"))])
    );
}

#[test]
fn fixed_interval_fills_one_slot_per_chapter() {
    let slots = determine_schedules(3, ScheduleMode::FixedInterval(new_year(), interval(0, 12, 0))).unwrap();
    assert_eq!(
        slots,
        vec![
            Some(info("2024-01-01", "00", "00")),
            Some(info("2024-01-01", "12", "00")),
            Some(info("2024-01-02", "00", "00")),
        ]
    );
}

#[test]
fn a_failed_schedule_has_no_slots_at_all() {
    let late = TaipeiTime::from_timestamp(MAX_TIMESTAMP - 60).unwrap();
    assert_eq!(
        determine_schedules(3, ScheduleMode::FixedInterval(late, interval(0, 0, 1))),
        Err(Error::ScheduleOverflow { position: 3 })
    );
}

#[test]
fn duplicate_is_equal() {
    let a = info("2024-01-01", "00", "30");
    assert_eq!(a.duplicate(), a);
}
