use ser_lib::error::ValidationError;
use ser_lib::schedule::CalendarSchedule;

fn schedule(
    month: Option<u8>,
    day: Option<u8>,
    weekday: Option<u8>,
    hour: Option<u8>,
    minute: Option<u8>,
) -> CalendarSchedule {
    CalendarSchedule::new(month, day, weekday, hour, minute).unwrap()
}

#[test]
fn calendar_string_with_every_field() {
    let s = schedule(Some(6), Some(15), Some(3), Some(9), Some(30));
    assert_eq!(s.to_systemd_calendar_string(), "Wed *-06-15 09:30:00");
}

#[test]
fn calendar_string_with_hour_only() {
    let s = schedule(None, None, None, Some(3), None);
    assert_eq!(s.to_systemd_calendar_string(), "*-*-* 03:00:00");
}

#[test]
fn calendar_string_without_fields() {
    let s = schedule(None, None, None, None, None);
    assert_eq!(s.to_systemd_calendar_string(), "*-*-* *:00:00");
}

#[test]
fn calendar_string_names_each_weekday() {
    let names = ["Sun", "Mon", "Tue", "Wed", "Thu", "Fri", "Sat"];
    for (day, name) in names.iter().enumerate() {
        let s = schedule(None, None, Some(day as u8), None, None);
        assert_eq!(s.to_systemd_calendar_string(), format!("{} *-*-* *:00:00", name));
    }
}

#[test]
fn calendar_string_pads_and_keeps_two_digits() {
    let s = schedule(Some(12), Some(1), None, Some(23), Some(5));
    assert_eq!(s.to_systemd_calendar_string(), "*-12-01 23:05:00");
}

#[test]
fn launchd_entries_of_empty_schedule() {
    let s = schedule(None, None, None, None, None);
    assert!(s.to_launchd_entries().is_empty());
}

#[test]
fn launchd_entries_of_hour_only() {
    let s = schedule(None, None, None, Some(14), None);
    assert_eq!(s.to_launchd_entries(), vec![("Hour", 14u8)]);
}

#[test]
fn launchd_entries_keep_their_order() {
    let s = schedule(Some(6), Some(15), Some(3), Some(9), Some(30));
    assert_eq!(
        s.to_launchd_entries(),
        vec![("Month", 6u8), ("Day", 15), ("Weekday", 3), ("Hour", 9), ("Minute", 30)]
    );
}

#[test]
fn launchd_entries_skip_unset_fields() {
    let s = schedule(None, Some(1), None, None, Some(0));
    assert_eq!(s.to_launchd_entries(), vec![("Day", 1u8), ("Minute", 0)]);
}

#[test]
fn display_of_empty_schedule() {
    let s = schedule(None, None, None, None, None);
    assert_eq!(s.display(), "scheduled");
}

#[test]
fn display_joins_its_parts() {
    let s = schedule(Some(6), Some(15), Some(3), Some(9), Some(30));
    assert_eq!(s.display(), "Wed day 15 09:30");
}

#[test]
fn display_of_hour_only_has_minute_zero() {
    let s = schedule(None, None, None, Some(7), None);
    assert_eq!(s.display(), "07:00");
}

#[test]
fn display_of_day_only() {
    let s = schedule(None, Some(3), None, None, None);
    assert_eq!(s.display(), "day 3");
}

#[test]
fn display_without_weekday_day_and_hour() {
    let s = schedule(Some(2), None, None, None, Some(10));
    assert_eq!(s.display(), "scheduled");
}

#[test]
fn new_keeps_the_fields() {
    let s = schedule(Some(1), Some(31), Some(0), Some(0), Some(59));
    assert_eq!(s.month(), Some(1));
    assert_eq!(s.day(), Some(31));
    assert_eq!(s.weekday(), Some(0));
    assert_eq!(s.hour(), Some(0));
    assert_eq!(s.minute(), Some(59));
}

#[test]
fn new_accepts_day_that_month_lacks() {
    assert!(CalendarSchedule::new(Some(2), Some(31), None, None, None).is_ok());
}

#[test]
fn new_refuses_month_out_of_range() {
    assert_eq!(
        CalendarSchedule::new(Some(0), None, None, None, None).unwrap_err(),
        ValidationError::MonthOutOfRange
    );
    assert_eq!(
        CalendarSchedule::new(Some(13), None, None, None, None).unwrap_err(),
        ValidationError::MonthOutOfRange
    );
}

#[test]
fn new_refuses_day_out_of_range() {
    assert_eq!(
        CalendarSchedule::new(None, Some(0), None, None, None).unwrap_err(),
        ValidationError::DayOutOfRange
    );
    assert_eq!(
        CalendarSchedule::new(None, Some(32), None, None, None).unwrap_err(),
        ValidationError::DayOutOfRange
    );
}

#[test]
fn new_refuses_weekday_out_of_range() {
    assert_eq!(
        CalendarSchedule::new(None, None, Some(7), None, None).unwrap_err(),
        ValidationError::WeekdayOutOfRange
    );
}

#[test]
fn new_refuses_hour_out_of_range() {
    assert_eq!(
        CalendarSchedule::new(None, None, None, Some(24), None).unwrap_err(),
        ValidationError::HourOutOfRange
    );
}

#[test]
fn new_refuses_minute_out_of_range() {
    assert_eq!(
        CalendarSchedule::new(None, None, None, None, Some(60)).unwrap_err(),
        ValidationError::MinuteOutOfRange
    );
}

#[test]
fn new_reports_the_first_field_out_of_range() {
    assert_eq!(
        CalendarSchedule::new(Some(1), Some(40), Some(9), Some(30), Some(70)).unwrap_err(),
        ValidationError::DayOutOfRange
    );
}
