use bak9::config::{default_schedules, BackupConfigSchedule, DayOfWeek};
use bak9::host::{datetime_now, datetime_of};
use bak9::schedule::{
    datetimestamp, from_datetimestamp, is_due, later, month_length, next_occurrence, occurrence,
    DateTime,
};

fn moment(year: u16, month: u8, day: u8, hour: u8, minute: u8, second: u8, ms: u16) -> DateTime {
    DateTime::new(year, month, day, hour, minute, second, ms).unwrap()
}

fn schedule(name: &str) -> BackupConfigSchedule {
    BackupConfigSchedule {
        name: name.to_string(),
        minute: None,
        minutes: None,
        hour: None,
        hours: None,
        day_of_week: None,
        days_of_week: None,
        day_of_month: None,
        days_of_month: None,
        month: None,
        months: None,
    }
}

#[test]
fn stamps_have_a_fixed_width() {
    assert_eq!(datetimestamp(moment(2024, 3, 9, 7, 5, 1, 42)), "2024-03-09-07-05-01-042");
    assert_eq!(datetimestamp(moment(0, 1, 1, 0, 0, 0, 0)), "0000-01-01-00-00-00-000");
    assert_eq!(datetimestamp(moment(9999, 12, 31, 23, 59, 59, 999)), "9999-12-31-23-59-59-999");
}

#[test]
fn stamps_are_read_back() {
    for dt in [
        moment(2024, 2, 29, 12, 0, 0, 0),
        moment(1999, 12, 31, 23, 59, 59, 999),
        moment(2025, 1, 1, 0, 0, 0, 1),
    ] {
        assert_eq!(from_datetimestamp(&datetimestamp(dt)), Some(dt));
    }
}

#[test]
fn what_is_no_stamp_is_not_read() {
    assert_eq!(from_datetimestamp(""), None);
    assert_eq!(from_datetimestamp("2024-03-09-07-05-01"), None);
    assert_eq!(from_datetimestamp("2024-03-09-07-05-01-0420"), None);
    assert_eq!(from_datetimestamp("2024-03-09 07-05-01-042"), None);
    assert_eq!(from_datetimestamp("2024-03-0x-07-05-01-042"), None);
    assert_eq!(from_datetimestamp("2023-02-29-07-05-01-042"), None);
    assert_eq!(from_datetimestamp("2024-13-01-07-05-01-042"), None);
    assert_eq!(from_datetimestamp("2024-00-10-07-05-01-042"), None);
    assert_eq!(from_datetimestamp("2024-04-31-07-05-01-042"), None);
    assert_eq!(from_datetimestamp("2024-04-30-24-05-01-042"), None);
    assert_eq!(from_datetimestamp("2024-04-30-23-60-01-042"), None);
    assert_eq!(from_datetimestamp("2024-04-30-23-59-60-042"), None);
}

#[test]
fn moments_of_the_calendar() {
    assert!(DateTime::new(2024, 2, 29, 0, 0, 0, 0).is_some());
    assert!(DateTime::new(2023, 2, 29, 0, 0, 0, 0).is_none());
    assert!(DateTime::new(1900, 2, 29, 0, 0, 0, 0).is_none());
    assert!(DateTime::new(2000, 2, 29, 0, 0, 0, 0).is_some());
    assert!(DateTime::new(10000, 1, 1, 0, 0, 0, 0).is_none());
    assert!(DateTime::new(2024, 1, 1, 0, 0, 0, 1000).is_none());
    assert_eq!(month_length(2024, 2), 29);
    assert_eq!(month_length(2023, 2), 28);
    assert_eq!(month_length(2023, 4), 30);
    assert_eq!(month_length(2023, 12), 31);
    assert_eq!(month_length(2023, 13), 0);
}

#[test]
fn the_order_of_stamps_is_the_order_of_moments() {
    let moments = [
        moment(1999, 12, 31, 23, 59, 59, 999),
        moment(2000, 1, 1, 0, 0, 0, 0),
        moment(2000, 1, 1, 0, 0, 0, 1),
        moment(2000, 1, 1, 0, 0, 1, 0),
        moment(2000, 1, 1, 0, 1, 0, 0),
        moment(2000, 1, 1, 1, 0, 0, 0),
        moment(2000, 1, 2, 0, 0, 0, 0),
        moment(2000, 2, 1, 0, 0, 0, 0),
        moment(2001, 1, 1, 0, 0, 0, 0),
    ];
    for i in 0..moments.len() {
        for j in 0..moments.len() {
            assert_eq!(moments[i].before(&moments[j]), i < j);
            assert_eq!(moments[i].at_or_before(&moments[j]), i <= j);
            assert_eq!(datetimestamp(moments[i]) < datetimestamp(moments[j]), i < j);
        }
    }
}

#[test]
fn the_daily_schedule_comes_round_at_midnight() {
    let defaults = default_schedules();
    let daily = &defaults[0];
    assert_eq!(daily.name, "daily");
    let after = moment(2024, 1, 1, 10, 0, 0, 0);
    assert_eq!(next_occurrence(daily, &after), Some(moment(2024, 1, 2, 0, 0, 0, 0)));
    let at = moment(2024, 1, 2, 0, 0, 0, 0);
    assert_eq!(next_occurrence(daily, &at), Some(moment(2024, 1, 3, 0, 0, 0, 0)));
}

#[test]
fn test_scheduling_logic() {
    let mut nightly = schedule("nightly");
    nightly.minute = Some(30);
    nightly.hour = Some(2);
    let last = moment(2024, 5, 17, 14, 3, 9, 250);
    assert_eq!(next_occurrence(&nightly, &last), Some(moment(2024, 5, 18, 2, 30, 0, 0)));
}

#[test]
fn the_monthly_quarterly_and_annual_schedules() {
    let defaults = default_schedules();
    let after = moment(2024, 2, 10, 10, 0, 0, 0);
    assert_eq!(defaults[2].name, "monthly");
    assert_eq!(next_occurrence(&defaults[2], &after), Some(moment(2024, 3, 1, 0, 0, 0, 0)));
    assert_eq!(defaults[3].name, "quarterly");
    assert_eq!(next_occurrence(&defaults[3], &after), Some(moment(2024, 4, 1, 0, 0, 0, 0)));
    assert_eq!(defaults[4].name, "annual");
    assert_eq!(next_occurrence(&defaults[4], &after), Some(moment(2025, 1, 1, 0, 0, 0, 0)));
}

#[test]
fn a_schedule_on_days_of_the_week() {
    let mut fridays = schedule("fridays");
    fridays.minute = Some(0);
    fridays.hour = Some(0);
    fridays.day_of_week = Some(DayOfWeek::Friday);
    assert_eq!(fridays.to_cron_expression(), "0 0 0 * * 5 *");
    assert_eq!(fridays.to_evaluator_expression(), "0 0 0 * * 6 *");
    // the 15th of May 2024 is a Wednesday
    let after = moment(2024, 5, 15, 0, 0, 0, 0);
    assert_eq!(next_occurrence(&fridays, &after), Some(moment(2024, 5, 17, 0, 0, 0, 0)));
    fridays.day_of_week = None;
    fridays.days_of_week = Some(vec![DayOfWeek::Saturday, DayOfWeek::Sunday]);
    assert_eq!(fridays.to_cron_expression(), "0 0 0 * * 0,6 *");
    assert_eq!(fridays.to_evaluator_expression(), "0 0 0 * * 1,7 *");
    assert_eq!(next_occurrence(&fridays, &after), Some(moment(2024, 5, 18, 0, 0, 0, 0)));
    let weekly = &default_schedules()[1];
    assert_eq!(next_occurrence(weekly, &after), Some(moment(2024, 5, 19, 0, 0, 0, 0)));
}

#[test]
fn no_occurrence_after_what_is_no_moment() {
    let defaults = default_schedules();
    let broken = DateTime { year: 2024, month: 2, day: 31, hour: 0, minute: 0, second: 0, millisecond: 0 };
    assert_eq!(next_occurrence(&defaults[0], &broken), None);
}

#[test]
fn occurrences_are_moments_at_the_start_of_a_second() {
    assert_eq!(occurrence(None), None);
    assert_eq!(occurrence(Some((2024, 1, 2, 0, 0, 0))), Some(moment(2024, 1, 2, 0, 0, 0, 0)));
    assert_eq!(occurrence(Some((2024, 2, 30, 0, 0, 0))), None);
    assert_eq!(occurrence(Some((-1, 1, 1, 0, 0, 0))), None);
    assert_eq!(occurrence(Some((10000, 1, 1, 0, 0, 0))), None);
    assert_eq!(occurrence(Some((2024, 1, 1, 24, 0, 0))), None);
}

#[test]
fn due_is_not_after_now() {
    let now = moment(2024, 1, 2, 0, 0, 0, 0);
    assert!(is_due(Some(moment(2024, 1, 2, 0, 0, 0, 0)), &now));
    assert!(is_due(Some(moment(2024, 1, 1, 23, 59, 59, 999)), &now));
    assert!(!is_due(Some(moment(2024, 1, 2, 0, 0, 0, 1)), &now));
    assert!(!is_due(None, &now));
}

#[test]
fn the_present_moment_is_a_moment() {
    let now = datetime_now().unwrap();
    assert!(now.is_valid());
    assert_eq!(datetime_of(2024, 6, 30, 23, 59, 59, 1500), Some(moment(2024, 6, 30, 23, 59, 59, 999)));
    assert_eq!(datetime_of(2024, 6, 31, 0, 0, 0, 0), None);
    assert_eq!(datetime_of(-5, 6, 30, 0, 0, 0, 0), None);
}

#[test]
fn an_occurrence_is_never_the_moment_itself() {
    let at = moment(2024, 5, 13, 0, 0, 0, 0);
    assert_eq!(later(Some(at), &at), None);
    assert_eq!(later(Some(moment(2024, 5, 12, 23, 59, 59, 999)), &at), None);
    assert_eq!(later(Some(moment(2024, 5, 13, 0, 0, 1, 0)), &at), Some(moment(2024, 5, 13, 0, 0, 1, 0)));
    assert_eq!(later(None, &at), None);
    let daily = default_schedules().into_iter().find(|s| s.name == "daily").unwrap();
    assert_eq!(next_occurrence(&daily, &at), Some(moment(2024, 5, 14, 0, 0, 0, 0)));
    let almost = moment(2024, 5, 13, 23, 59, 59, 999);
    assert_eq!(next_occurrence(&daily, &almost), Some(moment(2024, 5, 14, 0, 0, 0, 0)));
}
