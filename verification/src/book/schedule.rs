//! Publication schedules: one optional publication time per chapter, all in
//! the civil time of Taipei.
//!
//! A point in time is held as whole seconds since 1970-01-01 00:00:00 UTC.
//! The `chrono` and `chrono-tz` crates decide what can be represented, turn
//! civil dates into such points and write them out as text.

use crate::error::Error;
use chrono::TimeZone;
use vstd::prelude::*;

verus! {

/// The earliest point in time that `chrono` represents:
/// -262143-01-01 00:00:00 UTC.
pub const MIN_TIMESTAMP: i64 = -8334601228800;

/// The latest whole second that `chrono` represents:
/// +262142-12-31 23:59:59 UTC.
pub const MAX_TIMESTAMP: i64 = 8210266876799;

/// The longest duration, in whole seconds, that `chrono` represents: the
/// largest `i64` number of milliseconds.
pub const MAX_SPAN_SECONDS: i64 = 9223372036854775;

/// The three formats in which a publication time is written out.
pub const DATE_FORMAT: &'static str = "%Y-%m-%d";

pub const HOUR_FORMAT: &'static str = "%H";

pub const MINUTE_FORMAT: &'static str = "%M";

/// Whether `t` seconds since the epoch is a point in time that can be
/// represented.
pub open spec fn representable(t: int) -> bool {
    MIN_TIMESTAMP <= t <= MAX_TIMESTAMP
}

/// Whether `format` is one of the three formats of a schedule.
pub open spec fn is_schedule_format(format: Seq<char>) -> bool {
    format == DATE_FORMAT@ || format == HOUR_FORMAT@ || format == MINUTE_FORMAT@
}

/// The text that `chrono` writes for the point in time `secs`, seen in the
/// time zone Asia/Taipei, under the `strftime` format `format`.
pub uninterp spec fn taipei_text(secs: i64, format: Seq<char>) -> Seq<char>;

/// The point in time at which the clocks of Asia/Taipei show the given civil
/// date and time, in seconds since the epoch; `None` where the date or the
/// time does not exist, or where the zone's clocks showed it twice or never.
pub uninterp spec fn taipei_instant(year: i32, month: u32, day: u32, hour: u32, minute: u32) -> Option<i64>;

/// Calls `chrono::TimeDelta::try_minutes` and reads the duration back in
/// seconds with `TimeDelta::num_seconds`. That constructor multiplies by 60
/// with an overflow check and accepts the result from `-MAX_SPAN_SECONDS` to
/// `MAX_SPAN_SECONDS` seconds.
#[verifier::external_body]
pub(crate) fn span_of_minutes(minutes: i64) -> (r: Option<i64>)
    ensures
        r == (if -MAX_SPAN_SECONDS <= minutes * 60 <= MAX_SPAN_SECONDS {
            Some((minutes * 60) as i64)
        } else {
            None
        }),
{
    chrono::TimeDelta::try_minutes(minutes).map(|d| d.num_seconds())
}

/// Calls `chrono::DateTime::checked_add_signed` on the point in time `secs`
/// in Asia/Taipei and a duration of `delta` seconds. The sum is returned when
/// it lies between the first and the last second that `chrono` represents,
/// and `None` otherwise.
#[verifier::external_body]
pub(crate) fn shifted(secs: i64, delta: i64) -> (r: Option<i64>)
    requires
        representable(secs as int),
        -MAX_SPAN_SECONDS <= delta <= MAX_SPAN_SECONDS,
    ensures
        r == (if representable(secs + delta) {
            Some((secs + delta) as i64)
        } else {
            None
        }),
{
    let start = chrono_tz::Asia::Taipei.timestamp_opt(secs, 0).single()?;
    let span = chrono::TimeDelta::try_seconds(delta)?;
    start.checked_add_signed(span).map(|t| t.timestamp())
}

/// Calls `chrono::DateTime::format` on the point in time `secs` in
/// Asia/Taipei and writes the result into a string. Only the three schedule
/// formats are admitted, which `chrono` writes without failing.
#[verifier::external_body]
pub(crate) fn render(secs: i64, format: &str) -> (r: String)
    requires
        representable(secs as int),
        is_schedule_format(format@),
    ensures
        r@ == taipei_text(secs, format@),
{
    match chrono_tz::Asia::Taipei.timestamp_opt(secs, 0).single() {
        Some(t) => t.format(format).to_string(),
        None => String::new(),
    }
}

/// Builds the civil date and time with `chrono::NaiveDate::from_ymd_opt` and
/// `NaiveDate::and_hms_opt`, and asks
/// `chrono_tz::Asia::Taipei.from_local_datetime` for the one point in time at
/// which the zone's clocks showed it.
#[verifier::external_body]
pub(crate) fn local_instant(year: i32, month: u32, day: u32, hour: u32, minute: u32) -> (r: Option<i64>)
    ensures
        r == taipei_instant(year, month, day, hour, minute),
{
    let date = chrono::NaiveDate::from_ymd_opt(year, month, day)?;
    let local = date.and_hms_opt(hour, minute, 0)?;
    chrono_tz::Asia::Taipei.from_local_datetime(&local).single().map(|t| t.timestamp())
}

/// A point in time, anchored to the time zone Asia/Taipei.
#[derive(Debug, Clone, Copy, PartialEq, Eq)]
pub struct TaipeiTime {
    secs: i64,
}

impl View for TaipeiTime {
    type V = int;

    closed spec fn view(&self) -> int {
        self.secs as int
    }
}

impl TaipeiTime {
    #[verifier::type_invariant]
    spec fn in_range(self) -> bool {
        representable(self.secs as int)
    }

    /// The point in time `secs` seconds after the epoch, if it can be
    /// represented.
    pub fn from_timestamp(secs: i64) -> (r: Option<TaipeiTime>)
        ensures
            r is Some <==> representable(secs as int),
            r is Some ==> r->Some_0@ == secs,
    {
        if MIN_TIMESTAMP <= secs && secs <= MAX_TIMESTAMP {
            Some(TaipeiTime { secs })
        } else {
            None
        }
    }

    /// The point in time at which the clocks of Taipei show the given date
    /// and time, if there is exactly one and it can be represented.
    pub fn from_local(year: i32, month: u32, day: u32, hour: u32, minute: u32) -> (r: Option<TaipeiTime>)
        ensures
            match taipei_instant(year, month, day, hour, minute) {
                Some(secs) => if representable(secs as int) {
                    r is Some && r->Some_0@ == secs
                } else {
                    r is None
                },
                None => r is None,
            },
    {
        match local_instant(year, month, day, hour, minute) {
            Some(secs) => TaipeiTime::from_timestamp(secs),
            None => None,
        }
    }

    /// Seconds since the epoch.
    pub fn timestamp(&self) -> (secs: i64)
        ensures
            secs == self@,
            representable(secs as int),
    {
        proof {
            use_type_invariant(self);
        }
        self.secs
    }
}

/// A publication time as text.
pub struct ScheduleText {
    pub date: Seq<char>,
    pub hour: Seq<char>,
    pub minute: Seq<char>,
}

/// A publication time: the date as `YYYY-MM-DD`, the hour and the minute as
/// two digits each, in the civil time of Taipei.
#[derive(Debug, Clone, PartialEq, Eq)]
pub struct ScheduleInfo {
    pub date: String,
    pub hour: String,
    pub minute: String,
}

impl View for ScheduleInfo {
    type V = ScheduleText;

    open spec fn view(&self) -> ScheduleText {
        ScheduleText { date: self.date@, hour: self.hour@, minute: self.minute@ }
    }
}

/// The publication time that stands for the point in time `t`.
pub open spec fn schedule_at(t: int) -> ScheduleText {
    ScheduleText {
        date: taipei_text(t as i64, DATE_FORMAT@),
        hour: taipei_text(t as i64, HOUR_FORMAT@),
        minute: taipei_text(t as i64, MINUTE_FORMAT@),
    }
}

impl ScheduleInfo {
    /// The publication time that stands for `time`.
    pub fn at(time: TaipeiTime) -> (info: ScheduleInfo)
        ensures
            info@ == schedule_at(time@),
    {
        let secs = time.timestamp();
        ScheduleInfo {
            date: render(secs, DATE_FORMAT),
            hour: render(secs, HOUR_FORMAT),
            minute: render(secs, MINUTE_FORMAT),
        }
    }

    /// A copy of this publication time.
    pub fn duplicate(&self) -> (info: ScheduleInfo)
        ensures
            info@ == self@,
    {
        ScheduleInfo {
            date: self.date.clone(),
            hour: self.hour.clone(),
            minute: self.minute.clone(),
        }
    }
}

/// The time between the publication of two consecutive chapters.
#[derive(Debug, Clone, Copy, PartialEq, Eq)]
pub struct ScheduleInterval {
    pub days: i64,
    pub hours: i64,
    pub minutes: i64,
}

/// The length of an interval in minutes.
pub open spec fn total_minutes(interval: ScheduleInterval) -> int {
    interval.days * 1440 + interval.hours * 60 + interval.minutes
}

/// The length of an interval in seconds: refused where the total is negative,
/// and where it is longer than a duration can hold.
pub open spec fn duration_of(interval: ScheduleInterval) -> Result<int, Error> {
    let total = total_minutes(interval);
    if total < 0 {
        Err(Error::NegativeInterval)
    } else if total * 60 > MAX_SPAN_SECONDS {
        Err(Error::IntervalOverflow)
    } else {
        Ok(total * 60)
    }
}

impl ScheduleInterval {
    /// The interval as one duration, in seconds.
    pub fn to_duration(self) -> (r: Result<i64, Error>)
        ensures
            match (r, duration_of(self)) {
                (Ok(secs), Ok(d)) => secs == d,
                (Err(e), Err(f)) => e == f,
                _ => false,
            },
    {
        let total: i128 = self.days as i128 * 1440 + self.hours as i128 * 60 + self.minutes as i128;
        if total < 0 {
            return Err(Error::NegativeInterval);
        }
        if total > i64::MAX as i128 {
            return Err(Error::IntervalOverflow);
        }
        match span_of_minutes(total as i64) {
            Some(secs) => Ok(secs),
            None => Err(Error::IntervalOverflow),
        }
    }
}

/// The first position from `from` on, and before `count`, whose time
/// `t0 + i * step` cannot be represented.
pub open spec fn overflow_position(t0: int, step: int, from: nat, count: nat) -> Option<nat>
    decreases count - from,
{
    if from >= count {
        None
    } else if !representable(t0 + from * step) {
        Some(from)
    } else {
        overflow_position(t0, step, from + 1, count)
    }
}

/// The schedule at a fixed interval: the chapter at 0-based position `i` is
/// published at `t0 + i * step`, where `step` is the length of the interval.
/// It is all or nothing: if the time of one chapter cannot be represented,
/// the first such chapter is reported, by its 1-based position.
pub open spec fn interval_schedule(t0: int, interval: ScheduleInterval, count: nat) -> Result<
    Seq<ScheduleText>,
    Error,
> {
    match duration_of(interval) {
        Err(e) => Err(e),
        Ok(step) => match overflow_position(t0, step, 0, count) {
            Some(i) => Err(Error::ScheduleOverflow { position: (i + 1) as usize }),
            None => Ok(Seq::new(count, |i: int| schedule_at(t0 + i * step))),
        },
    }
}

/// The publication times of a list as text.
pub open spec fn schedule_texts(infos: Seq<ScheduleInfo>) -> Seq<ScheduleText> {
    infos.map_values(|s: ScheduleInfo| s@)
}

/// The text of a list that grew by one is the text of the list, grown by the
/// text of the one.
pub proof fn lemma_schedule_texts_push(infos: Seq<ScheduleInfo>, info: ScheduleInfo)
    ensures
        schedule_texts(infos.push(info)) == schedule_texts(infos).push(info@),
{
    assert(schedule_texts(infos.push(info)) =~= schedule_texts(infos).push(info@));
}

/// Computes the publication time of each of `count` chapters, the first at
/// `initial` and each next one `interval` later.
pub fn calculate_chapter_schedules(initial: TaipeiTime, interval: ScheduleInterval, count: usize) -> (r:
    Result<Vec<ScheduleInfo>, Error>)
    ensures
        match (r, interval_schedule(initial@, interval, count as nat)) {
            (Ok(v), Ok(s)) => schedule_texts(v@) == s,
            (Err(e), Err(f)) => e == f,
            _ => false,
        },
{
    let step = match interval.to_duration() {
        Ok(step) => step,
        Err(e) => {
            return Err(e);
        },
    };
    let t0 = initial.timestamp();
    let mut schedules: Vec<ScheduleInfo> = Vec::new();
    let mut i: usize = 0;
    while i < count
        invariant
            i <= count,
            0 <= step <= MAX_SPAN_SECONDS,
            representable(t0 as int),
            t0 == initial@,
            duration_of(interval) == Ok::<int, Error>(step as int),
            overflow_position(t0 as int, step as int, 0, count as nat) == overflow_position(
                t0 as int,
                step as int,
                i as nat,
                count as nat,
            ),
            schedule_texts(schedules@) == Seq::new(
                i as nat,
                |k: int| schedule_at(t0 + k * step),
            ),
        decreases count - i,
    {
        assert(0 <= i * step <= 0xFFFF_FFFF_FFFF_FFFF * 9223372036854775) by (nonlinear_arith)
            requires
                0 <= i <= 0xFFFF_FFFF_FFFF_FFFF,
                0 <= step <= 9223372036854775,
        ;
        let offset: i128 = i as i128 * step as i128;
        let time = if offset > MAX_SPAN_SECONDS as i128 {
            None
        } else {
            shifted(t0, offset as i64)
        };
        match time {
            None => {
                return Err(Error::ScheduleOverflow { position: i + 1 });
            },
            Some(t) => {
                let when = match TaipeiTime::from_timestamp(t) {
                    Some(w) => w,
                    None => {
                        return Err(Error::ScheduleOverflow { position: i + 1 });
                    },
                };
                let info = ScheduleInfo::at(when);
                proof {
                    lemma_schedule_texts_push(schedules@, info);
                }
                schedules.push(info);
                assert(schedule_texts(schedules@) =~= Seq::new(
                    (i + 1) as nat,
                    |k: int| schedule_at(t0 + k * step),
                ));
            },
        }
        i += 1;
    }
    Ok(schedules)
}

/// How the chapters are to be published.
#[derive(Debug, Clone, Copy, PartialEq, Eq)]
pub enum ScheduleMode {
    /// Every chapter at once.
    Immediate,
    /// Every chapter at the same time.
    Uniform(TaipeiTime),
    /// The first chapter at the given time, each next one an interval later.
    FixedInterval(TaipeiTime, ScheduleInterval),
}

/// The schedule of `count` chapters under `mode`: one slot per chapter, in
/// the order of the chapters.
pub open spec fn planned(count: nat, mode: ScheduleMode) -> Result<Seq<Option<ScheduleText>>, Error> {
    if count == 0 {
        Ok(Seq::empty())
    } else {
        match mode {
            ScheduleMode::Immediate => Ok(Seq::new(count, |i: int| None::<ScheduleText>)),
            ScheduleMode::Uniform(t) => Ok(Seq::new(count, |i: int| Some(schedule_at(t@)))),
            ScheduleMode::FixedInterval(t0, interval) => match interval_schedule(t0@, interval, count) {
                Ok(s) => Ok(Seq::new(count, |i: int| Some(s[i]))),
                Err(e) => Err(e),
            },
        }
    }
}

/// The slots of a schedule as text.
pub open spec fn slot_texts(slots: Seq<Option<ScheduleInfo>>) -> Seq<Option<ScheduleText>> {
    slots.map_values(
        |s: Option<ScheduleInfo>|
            match s {
                Some(info) => Some(info@),
                None => None,
            },
    )
}

/// The text of a list of slots that grew by one is the text of the list, grown
/// by the text of the one.
pub proof fn lemma_slot_texts_push(slots: Seq<Option<ScheduleInfo>>, slot: Option<ScheduleInfo>)
    ensures
        slot_texts(slots.push(slot)) == slot_texts(slots).push(
            match slot {
                Some(info) => Some(info@),
                None => None,
            },
        ),
{
    assert(slot_texts(slots.push(slot)) =~= slot_texts(slots).push(
        match slot {
            Some(info) => Some(info@),
            None => None,
        },
    ));
}

/// Adding nothing to a time that can be represented never leaves what can be
/// represented.
pub proof fn lemma_no_overflow_without_step(t0: int, from: nat, count: nat)
    requires
        representable(t0),
    ensures
        overflow_position(t0, 0, from, count) == None::<nat>,
    decreases count - from,
{
    if from < count {
        assert(t0 + from * 0 == t0);
        lemma_no_overflow_without_step(t0, from + 1, count);
    }
}

/// Under a fixed interval of no length, every chapter is published at the
/// initial time: the schedule of `count > 0` chapters holds `count` equal
/// slots, each the initial time written out.
pub proof fn lemma_zero_interval_is_uniform(count: nat, initial: TaipeiTime)
    requires
        count > 0,
        representable(initial@),
    ensures
        planned(
            count,
            ScheduleMode::FixedInterval(initial, ScheduleInterval { days: 0, hours: 0, minutes: 0 }),
        ) == Ok::<Seq<Option<ScheduleText>>, Error>(Seq::new(count, |i: int| Some(schedule_at(initial@)))),
        planned(
            count,
            ScheduleMode::FixedInterval(initial, ScheduleInterval { days: 0, hours: 0, minutes: 0 }),
        ) == planned(count, ScheduleMode::Uniform(initial)),
{
    let zero = ScheduleInterval { days: 0, hours: 0, minutes: 0 };
    lemma_no_overflow_without_step(initial@, 0, count);
    let s = interval_schedule(initial@, zero, count)->Ok_0;
    assert(s =~= Seq::new(count, |i: int| schedule_at(initial@))) by {
        assert forall|i: int| 0 <= i < count implies s[i] == schedule_at(initial@) by {
            assert(initial@ + i * 0 == initial@);
        }
    }
    assert(Seq::new(count, |i: int| Some(s[i])) =~= Seq::new(count, |i: int| Some(schedule_at(initial@))));
}

/// Fills `count` slots with copies of one publication time.
fn uniform_slots(count: usize, time: TaipeiTime) -> (slots: Vec<Option<ScheduleInfo>>)
    ensures
        slot_texts(slots@) == Seq::new(count as nat, |i: int| Some(schedule_at(time@))),
{
    let info = ScheduleInfo::at(time);
    let mut slots: Vec<Option<ScheduleInfo>> = Vec::new();
    let mut i: usize = 0;
    while i < count
        invariant
            i <= count,
            info@ == schedule_at(time@),
            slot_texts(slots@) == Seq::new(i as nat, |k: int| Some(schedule_at(time@))),
        decreases count - i,
    {
        let copy = info.duplicate();
        proof {
            lemma_slot_texts_push(slots@, Some(copy));
        }
        slots.push(Some(copy));
        i += 1;
        assert(slot_texts(slots@) =~= Seq::new(i as nat, |k: int| Some(schedule_at(time@))));
    }
    slots
}

/// Computes the schedule of `chapter_count` chapters under `mode`.
///
/// The result has one slot per chapter. Without chapters it is empty,
/// whatever the mode. A fixed interval of no length gives every chapter the
/// initial time.
pub fn determine_schedules(chapter_count: usize, mode: ScheduleMode) -> (r: Result<
    Vec<Option<ScheduleInfo>>,
    Error,
>)
    ensures
        match (r, planned(chapter_count as nat, mode)) {
            (Ok(v), Ok(s)) => slot_texts(v@) == s,
            (Err(e), Err(f)) => e == f,
            _ => false,
        },
{
    let mut slots: Vec<Option<ScheduleInfo>> = Vec::new();
    if chapter_count == 0 {
        assert(slot_texts(slots@) =~= Seq::empty());
        return Ok(slots);
    }
    match mode {
        ScheduleMode::Immediate => {
            let mut i: usize = 0;
            while i < chapter_count
                invariant
                    i <= chapter_count,
                    slot_texts(slots@) == Seq::new(i as nat, |k: int| None::<ScheduleText>),
                decreases chapter_count - i,
            {
                proof {
                    lemma_slot_texts_push(slots@, None);
                }
                slots.push(None);
                i += 1;
                assert(slot_texts(slots@) =~= Seq::new(i as nat, |k: int| None::<ScheduleText>));
            }
            Ok(slots)
        },
        ScheduleMode::Uniform(time) => Ok(uniform_slots(chapter_count, time)),
        ScheduleMode::FixedInterval(initial, interval) => {
            if interval.days == 0 && interval.hours == 0 && interval.minutes == 0 {
                proof {
                    use_type_invariant(&initial);
                    lemma_zero_interval_is_uniform(chapter_count as nat, initial);
                }
                Ok(uniform_slots(chapter_count, initial))
            } else {
                match calculate_chapter_schedules(initial, interval, chapter_count) {
                    Err(e) => Err(e),
                    Ok(schedules) => {
                        let ghost s = schedule_texts(schedules@);
                        let mut i: usize = 0;
                        let mut rest = schedules;
                        let mut filled: Vec<Option<ScheduleInfo>> = Vec::new();
                        assert(s.len() == rest@.len());
                        while i < chapter_count
                            invariant
                                i <= chapter_count,
                                rest.len() == chapter_count,
                                schedule_texts(rest@) == s,
                                slot_texts(filled@) == Seq::new(i as nat, |k: int| Some(s[k])),
                            decreases chapter_count - i,
                        {
                            let copy = rest[i].duplicate();
                            proof {
                                lemma_slot_texts_push(filled@, Some(copy));
                                assert(s[i as int] == rest@[i as int]@);
                            }
                            filled.push(Some(copy));
                            i += 1;
                            assert(slot_texts(filled@) =~= Seq::new(i as nat, |k: int| Some(s[k])));
                        }
                        Ok(filled)
                    },
                }
            }
        },
    }
}

} // verus!
