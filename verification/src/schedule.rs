use vstd::prelude::*;

verus! {

/// Seconds in one civil day.
pub const DAY_SECONDS: u32 = 86400;

/// A wall-clock time of day at second precision.
#[derive(Debug, Clone, Copy, PartialEq, Eq, Structural)]
pub struct TimeOfDay {
    pub hour: u32,
    pub minute: u32,
    pub second: u32,
}

/// A calendar date in the proleptic Gregorian calendar, year 1 onwards.
#[derive(Debug, Clone, Copy, PartialEq, Eq, Structural)]
pub struct Date {
    pub year: u32,
    pub month: u32,
    pub day: u32,
}

/// A date paired with a time of day.
#[derive(Debug, Clone, Copy, PartialEq, Eq, Structural)]
pub struct DateTime {
    pub date: Date,
    pub time: TimeOfDay,
}

pub open spec fn spec_is_leap(y: int) -> bool {
    y % 4 == 0 && (y % 100 != 0 || y % 400 == 0)
}

pub open spec fn spec_days_in_month(y: int, m: int) -> int {
    if m == 2 {
        if spec_is_leap(y) {
            29
        } else {
            28
        }
    } else if m == 4 || m == 6 || m == 9 || m == 11 {
        30
    } else {
        31
    }
}

/// Days in all years strictly before year `y`, counted from year 1.
pub open spec fn days_before_year(y: int) -> int
    decreases y,
{
    if y <= 1 {
        0
    } else {
        days_before_year(y - 1) + if spec_is_leap(y - 1) {
            366int
        } else {
            365int
        }
    }
}

/// Days in the months of year `y` strictly before month `m`.
pub open spec fn days_before_month(y: int, m: int) -> int
    decreases m,
{
    if m <= 1 {
        0
    } else {
        days_before_month(y, m - 1) + spec_days_in_month(y, m - 1)
    }
}

/// Position of a date in the linear order of all days, day 0 being
/// January 1 of year 1.
pub open spec fn day_index(d: Date) -> int {
    days_before_year(d.year as int) + days_before_month(d.year as int, d.month as int)
        + d.day as int - 1
}

pub open spec fn time_secs(t: TimeOfDay) -> int {
    t.hour as int * 3600 + t.minute as int * 60 + t.second as int
}

/// Seconds since midnight of day 0.
pub open spec fn datetime_secs(dt: DateTime) -> int {
    day_index(dt.date) * DAY_SECONDS as int + time_secs(dt.time)
}

impl TimeOfDay {
    pub open spec fn wf(&self) -> bool {
        self.hour < 24 && self.minute < 60 && self.second < 60
    }

    /// Mirrors the hour/minute/second constructor of a calendar library:
    /// accepts exactly the in-range triples.
    pub fn from_hms(hour: u32, minute: u32, second: u32) -> (r: Option<TimeOfDay>)
        ensures
            match r {
                Some(t) => t == (TimeOfDay { hour, minute, second }) && t.wf(),
                None => !(hour < 24 && minute < 60 && second < 60),
            },
    {
        if hour < 24 && minute < 60 && second < 60 {
            Some(TimeOfDay { hour, minute, second })
        } else {
            None
        }
    }

    pub fn seconds_of_day(&self) -> (r: u32)
        requires
            self.wf(),
        ensures
            r == time_secs(*self),
            r < DAY_SECONDS,
    {
        self.hour * 3600 + self.minute * 60 + self.second
    }
}

fn days_in_month(year: u32, month: u32) -> (r: u32)
    requires
        1 <= month <= 12,
    ensures
        r == spec_days_in_month(year as int, month as int),
{
    if month == 2 {
        let leap = year % 4 == 0 && (year % 100 != 0 || year % 400 == 0);
        if leap {
            29
        } else {
            28
        }
    } else if month == 4 || month == 6 || month == 9 || month == 11 {
        30
    } else {
        31
    }
}

impl Date {
    pub open spec fn wf(&self) -> bool {
        &&& 1 <= self.year
        &&& 1 <= self.month <= 12
        &&& 1 <= self.day <= spec_days_in_month(self.year as int, self.month as int)
    }

    /// Accepts exactly the dates that exist in the calendar.
    pub fn from_ymd(year: u32, month: u32, day: u32) -> (r: Option<Date>)
        ensures
            match r {
                Some(d) => d == (Date { year, month, day }) && d.wf(),
                None => !(Date { year, month, day }).wf(),
            },
    {
        if 1 <= year && 1 <= month && month <= 12 && 1 <= day
            && day <= days_in_month(year, month) {
            Some(Date { year, month, day })
        } else {
            None
        }
    }
}

impl DateTime {
    pub open spec fn wf(&self) -> bool {
        self.date.wf() && self.time.wf()
    }

    pub fn new(date: Date, time: TimeOfDay) -> (r: DateTime)
        ensures
            r == (DateTime { date, time }),
    {
        DateTime { date, time }
    }
}

/// The date one day later, with month and year rollover.
pub open spec fn spec_next_date(d: Date) -> Date {
    if d.day < spec_days_in_month(d.year as int, d.month as int) {
        Date { year: d.year, month: d.month, day: (d.day + 1) as u32 }
    } else if d.month < 12 {
        Date { year: d.year, month: (d.month + 1) as u32, day: 1 }
    } else {
        Date { year: (d.year + 1) as u32, month: 1, day: 1 }
    }
}

/// A year holds 365 or 366 days, as the sum of its months.
proof fn lemma_year_days(y: int)
    ensures
        days_before_month(y, 13) == if spec_is_leap(y) {
            366int
        } else {
            365int
        },
{
    reveal_with_fuel(days_before_month, 13);
}

/// Taking the successor date moves exactly one step along the linear
/// order of days and stays within the calendar.
pub proof fn lemma_next_date(d: Date)
    requires
        d.wf(),
        d.year < u32::MAX,
    ensures
        spec_next_date(d).wf(),
        day_index(spec_next_date(d)) == day_index(d) + 1,
{
    let y = d.year as int;
    let m = d.month as int;
    if d.day < spec_days_in_month(y, m) {
    } else if d.month < 12 {
        assert(days_before_month(y, m + 1) == days_before_month(y, m) + spec_days_in_month(y, m));
    } else {
        lemma_year_days(y);
        assert(days_before_year(y + 1) == days_before_year(y) + if spec_is_leap(y) {
            366int
        } else {
            365int
        });
    }
}

pub fn next_date(d: &Date) -> (r: Date)
    requires
        d.wf(),
        d.year < u32::MAX,
    ensures
        r == spec_next_date(*d),
        r.wf(),
        day_index(r) == day_index(*d) + 1,
{
    proof {
        lemma_next_date(*d);
    }
    if d.day < days_in_month(d.year, d.month) {
        Date { year: d.year, month: d.month, day: d.day + 1 }
    } else if d.month < 12 {
        Date { year: d.year, month: d.month + 1, day: 1 }
    } else {
        Date { year: d.year + 1, month: 1, day: 1 }
    }
}

/// The next instant whose time of day is `event_time`: later today if
/// that time has not passed yet (a current time exactly at the event
/// time fires today), else the same time tomorrow.
pub open spec fn spec_next_event(current: DateTime, event_time: TimeOfDay) -> DateTime {
    if time_secs(current.time) > time_secs(event_time) {
        DateTime { date: spec_next_date(current.date), time: event_time }
    } else {
        DateTime { date: current.date, time: event_time }
    }
}

/// The chosen instant is never in the past and less than a full day away.
pub proof fn lemma_next_event_window(current: DateTime, event_time: TimeOfDay)
    requires
        current.wf(),
        current.date.year < u32::MAX,
        event_time.wf(),
    ensures
        spec_next_event(current, event_time).wf(),
        spec_next_event(current, event_time).time == event_time,
        0 <= datetime_secs(spec_next_event(current, event_time)) - datetime_secs(current)
            < DAY_SECONDS as int,
{
    if time_secs(current.time) > time_secs(event_time) {
        lemma_next_date(current.date);
    }
}

/// The chosen instant is the earliest one at the event's time of day
/// that has not already passed: any instant with that time of day at
/// or after the current one is at or after it.
pub proof fn lemma_next_event_earliest(current: DateTime, event_time: TimeOfDay, other: DateTime)
    requires
        current.wf(),
        current.date.year < u32::MAX,
        event_time.wf(),
        other.wf(),
        other.time == event_time,
        datetime_secs(other) >= datetime_secs(current),
    ensures
        datetime_secs(other) >= datetime_secs(spec_next_event(current, event_time)),
{
    lemma_next_event_window(current, event_time);
    let next = spec_next_event(current, event_time);
    let d0 = day_index(next.date);
    let dx = day_index(other.date);
    assert(datetime_secs(next) == d0 * DAY_SECONDS as int + time_secs(event_time));
    assert(datetime_secs(other) == dx * DAY_SECONDS as int + time_secs(event_time));
    if dx < d0 {
        assert(dx * DAY_SECONDS as int <= (d0 - 1) * DAY_SECONDS as int) by (nonlinear_arith)
            requires
                dx <= d0 - 1,
        ;
        assert(datetime_secs(other) <= datetime_secs(next) - DAY_SECONDS as int);
        assert(datetime_secs(next) - datetime_secs(current) < DAY_SECONDS as int);
        assert(false);
    }
    assert(dx * DAY_SECONDS as int >= d0 * DAY_SECONDS as int) by (nonlinear_arith)
        requires
            dx >= d0,
    ;
}

pub fn next_event_date_time(current_time: DateTime, event_time: TimeOfDay) -> (r: DateTime)
    requires
        current_time.wf(),
        current_time.date.year < u32::MAX,
        event_time.wf(),
    ensures
        r == spec_next_event(current_time, event_time),
        r.wf(),
{
    proof {
        lemma_next_event_window(current_time, event_time);
    }
    let now_secs = current_time.time.seconds_of_day();
    let event_secs = event_time.seconds_of_day();
    if now_secs > event_secs {
        DateTime { date: next_date(&current_time.date), time: event_time }
    } else {
        DateTime { date: current_time.date, time: event_time }
    }
}

/// Milliseconds from `current_date_time` to `event_date_time`, for an
/// event on the same day or the next one.
pub fn remain(current_date_time: DateTime, event_date_time: DateTime) -> (r: i64)
    requires
        current_date_time.wf(),
        event_date_time.wf(),
        event_date_time.date == current_date_time.date || day_index(event_date_time.date)
            == day_index(current_date_time.date) + 1,
    ensures
        r == (datetime_secs(event_date_time) - datetime_secs(current_date_time)) * 1000,
{
    let now_secs = current_date_time.time.seconds_of_day() as i64;
    let event_secs = event_date_time.time.seconds_of_day() as i64;
    if current_date_time.date == event_date_time.date {
        (event_secs - now_secs) * 1000
    } else {
        (DAY_SECONDS as i64 - now_secs + event_secs) * 1000
    }
}

/// What the scheduler loop does next: sleep until the coming event, or
/// report a non-positive wait (clock anomaly) and recompute.
#[derive(Debug, Clone, Copy, PartialEq, Eq, Structural)]
pub enum SchedulerStep {
    /// Suspend for this many milliseconds, then emit one trigger.
    Wait(u64),
    /// The computed wait was not positive: log it and try again.
    Anomaly,
}

/// One decision of the perpetual scheduler given the current instant.
pub fn plan_wait(current_time: DateTime, event_time: TimeOfDay) -> (r: SchedulerStep)
    requires
        current_time.wf(),
        current_time.date.year < u32::MAX,
        event_time.wf(),
    ensures
        ({
            let wait_ms = (datetime_secs(spec_next_event(current_time, event_time))
                - datetime_secs(current_time)) * 1000;
            r == if wait_ms <= 0 {
                SchedulerStep::Anomaly
            } else {
                SchedulerStep::Wait(wait_ms as u64)
            }
        }),
{
    proof {
        lemma_next_event_window(current_time, event_time);
    }
    let next = next_event_date_time(current_time, event_time);
    let ms = remain(current_time, next);
    if ms <= 0 {
        SchedulerStep::Anomaly
    } else {
        SchedulerStep::Wait(ms as u64)
    }
}

/// The same instant `delta` seconds later (at most one day ahead), for
/// reading a clock under a fixed zone offset.
pub fn advance_seconds(dt: DateTime, delta: u32) -> (r: DateTime)
    requires
        dt.wf(),
        dt.date.year < u32::MAX,
        delta < DAY_SECONDS,
    ensures
        r.wf(),
        datetime_secs(r) == datetime_secs(dt) + delta,
{
    let s = dt.time.seconds_of_day() + delta;
    let (date, s) = if s < DAY_SECONDS {
        (dt.date, s)
    } else {
        (next_date(&dt.date), s - DAY_SECONDS)
    };
    let time = TimeOfDay { hour: s / 3600, minute: (s % 3600) / 60, second: (s % 3600) % 60 };
    proof {
        lemma_time_decompose(s as int);
    }
    DateTime { date, time }
}

/// Splitting seconds of a day into hours, minutes and seconds is exact.
proof fn lemma_time_decompose(s: int)
    requires
        0 <= s < DAY_SECONDS,
    ensures
        (s / 3600) * 3600 + ((s % 3600) / 60) * 60 + (s % 3600) % 60 == s,
        s / 3600 < 24,
        (s % 3600) / 60 < 60,
        (s % 3600) % 60 < 60,
{
    assert((s / 3600) * 3600 + ((s % 3600) / 60) * 60 + (s % 3600) % 60 == s) by (nonlinear_arith)
        requires 0 <= s < 86400;
    assert(s / 3600 < 24);
    assert((s % 3600) / 60 < 60);
}

} // verus!
