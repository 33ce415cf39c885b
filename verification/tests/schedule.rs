use daily_mission::Date;
use daily_mission::DateTime;
use daily_mission::SchedulerStep;
use daily_mission::TimeOfDay;

fn at(year: u32, month: u32, day: u32, hour: u32, minute: u32, second: u32) -> DateTime {
    let date = Date::from_ymd(year, month, day).expect("valid date");
    let time = TimeOfDay::from_hms(hour, minute, second).expect("valid time");
    DateTime::new(date, time)
}

#[test]
fn test_next_event_after_event_time_rolls_to_tomorrow() {
    let current = at(2024, 12, 25, 18, 30, 0);
    let event = TimeOfDay::from_hms(18, 0, 0).unwrap();
    assert_eq!(
        daily_mission::next_event_date_time(current, event),
        at(2024, 12, 25 + 1, 18, 0, 0)
    );
}

#[test]
fn test_next_event_before_event_time_fires_today() {
    let current = at(2024, 12, 25, 13, 0, 0);
    let event = TimeOfDay::from_hms(18, 0, 0).unwrap();
    assert_eq!(
        daily_mission::next_event_date_time(current, event),
        at(2024, 12, 25, 18, 0, 0)
    );
}

#[test]
fn test_next_event_exactly_at_event_time_fires_today() {
    let current = at(2024, 12, 25, 18, 0, 0);
    let event = TimeOfDay::from_hms(18, 0, 0).unwrap();
    assert_eq!(
        daily_mission::next_event_date_time(current, event),
        at(2024, 12, 25, 18, 0, 0)
    );
}

#[test]
fn test_next_event_year_rollover() {
    let current = at(2024, 12, 31, 23, 0, 0);
    let event = TimeOfDay::from_hms(22, 0, 0).unwrap();
    assert_eq!(
        daily_mission::next_event_date_time(current, event),
        at(2025, 1, 1, 22, 0, 0)
    );
}

#[test]
fn test_next_event_month_rollover() {
    let current = at(2024, 11, 30, 21, 0, 0);
    let event = TimeOfDay::from_hms(20, 0, 0).unwrap();
    assert_eq!(
        daily_mission::next_event_date_time(current, event),
        at(2024, 12, 1, 20, 0, 0)
    );
}

#[test]
fn test_next_date_leap_year() {
    let d = Date::from_ymd(2024, 2, 28).unwrap();
    assert_eq!(daily_mission::next_date(&d), Date::from_ymd(2024, 2, 29).unwrap());
    let d = Date::from_ymd(2023, 2, 28).unwrap();
    assert_eq!(daily_mission::next_date(&d), Date::from_ymd(2023, 3, 1).unwrap());
    let d = Date::from_ymd(2100, 2, 28).unwrap();
    assert_eq!(daily_mission::next_date(&d), Date::from_ymd(2100, 3, 1).unwrap());
    let d = Date::from_ymd(2000, 2, 28).unwrap();
    assert_eq!(daily_mission::next_date(&d), Date::from_ymd(2000, 2, 29).unwrap());
}

#[test]
fn test_from_ymd_rejects_invalid() {
    assert_eq!(Date::from_ymd(2023, 2, 29), None);
    assert_eq!(Date::from_ymd(2024, 13, 1), None);
    assert_eq!(Date::from_ymd(2024, 4, 31), None);
    assert_eq!(Date::from_ymd(0, 1, 1), None);
    assert_eq!(TimeOfDay::from_hms(24, 0, 0), None);
    assert_eq!(TimeOfDay::from_hms(20, 60, 0), None);
}

#[test]
fn test_remain_same_day_and_next_day() {
    let current = at(2024, 12, 25, 13, 0, 0);
    let event = at(2024, 12, 25, 18, 0, 0);
    assert_eq!(daily_mission::remain(current, event), 5 * 3600 * 1000);

    let current = at(2024, 12, 25, 18, 30, 0);
    let event = at(2024, 12, 26, 18, 0, 0);
    assert_eq!(daily_mission::remain(current, event), 84_600_000);
}

#[test]
fn test_plan_wait_sleeps_until_event() {
    let current = at(2024, 12, 25, 18, 30, 0);
    let event = TimeOfDay::from_hms(18, 0, 0).unwrap();
    assert_eq!(
        daily_mission::plan_wait(current, event),
        SchedulerStep::Wait(84_600_000)
    );
}

#[test]
fn test_plan_wait_zero_remaining_is_anomaly() {
    let current = at(2024, 12, 25, 18, 0, 0);
    let event = TimeOfDay::from_hms(18, 0, 0).unwrap();
    assert_eq!(daily_mission::plan_wait(current, event), SchedulerStep::Anomaly);
}

#[test]
fn test_advance_seconds_crosses_midnight() {
    let current = at(2024, 12, 31, 20, 0, 0);
    let shifted = daily_mission::advance_seconds(current, 9 * 3600);
    assert_eq!(shifted, at(2025, 1, 1, 5, 0, 0));

    let current = at(2024, 6, 1, 10, 15, 30);
    let shifted = daily_mission::advance_seconds(current, 9 * 3600);
    assert_eq!(shifted, at(2024, 6, 1, 19, 15, 30));
}
