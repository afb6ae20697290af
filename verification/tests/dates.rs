use schedule_bot::date::Date;
use schedule_bot::date_parse::{parse_date, parse_date_on};

fn date(year: i32, month: u32, day: u32) -> Date {
    Date::from_ymd_opt(year, month, day).unwrap()
}

#[test]
fn from_ymd_opt_checks_the_calendar() {
    assert!(Date::from_ymd_opt(2024, 2, 29).is_some());
    assert!(Date::from_ymd_opt(2023, 2, 29).is_none());
    assert!(Date::from_ymd_opt(2000, 2, 29).is_some());
    assert!(Date::from_ymd_opt(1900, 2, 29).is_none());
    assert!(Date::from_ymd_opt(2015, 0, 14).is_none());
    assert!(Date::from_ymd_opt(2015, 4, 31).is_none());
    assert!(Date::from_ymd_opt(-4, 2, 29).is_some());
    assert!(Date::from_ymd_opt(400000, 1, 1).is_none());
    assert!(Date::from_ymd_opt(262142, 12, 31).is_some());
    assert!(Date::from_ymd_opt(262143, 1, 1).is_none());
    assert!(Date::from_ymd_opt(-262143, 1, 1).is_some());
    assert!(Date::from_ymd_opt(-262144, 12, 31).is_none());
}

#[test]
fn add_days_crosses_months_and_years() {
    assert_eq!(date(2024, 12, 31).add_days(1), Some(date(2025, 1, 1)));
    assert_eq!(date(2024, 3, 1).add_days(-1), Some(date(2024, 2, 29)));
    assert_eq!(date(2015, 9, 5).add_days(40), Some(date(2015, 10, 15)));
    assert_eq!(date(2015, 9, 5).add_days(-40), Some(date(2015, 7, 27)));
    assert_eq!(date(2026, 11, 19).add_days(0), Some(date(2026, 11, 19)));
    assert_eq!(date(262142, 12, 31).add_days(1), None);
    assert_eq!(date(-262143, 1, 1).add_days(-1), None);
}

#[test]
fn add_days_round_trip() {
    let d = date(2026, 11, 19);
    let r = d.add_days(1000).unwrap();
    assert_eq!(r.add_days(-1000), Some(d));
}

#[test]
fn weekday_counts_from_monday() {
    assert_eq!(date(2026, 11, 19).weekday(), 3);
    assert_eq!(date(2015, 9, 8).weekday(), 1);
    assert_eq!(date(-308, 3, 14).weekday(), 4);
    assert_eq!(date(1, 1, 1).weekday(), 0);
    assert_eq!(date(2026, 11, 22).weekday(), 6);
    assert_eq!(date(2026, 11, 26).weekday(), (date(2026, 11, 19).weekday() + 7) % 7);
}

#[test]
fn week_start_is_the_monday() {
    assert_eq!(date(2026, 11, 19).week_start(), Some(date(2026, 11, 16)));
    assert_eq!(date(2026, 11, 16).week_start(), Some(date(2026, 11, 16)));
    assert_eq!(date(2026, 11, 22).week_start(), Some(date(2026, 11, 16)));
    assert_eq!(date(2025, 1, 1).week_start(), Some(date(2024, 12, 30)));
    assert_eq!(date(1, 1, 1).week_start(), Some(date(1, 1, 1)));
}

#[test]
fn parse_relative_words() {
    let today = date(2026, 11, 19);
    assert_eq!(parse_date_on("сегодня", today), Ok(today));
    assert_eq!(parse_date_on("today", today), Ok(today));
    assert_eq!(parse_date_on("now", today), Ok(today));
    assert_eq!(parse_date_on("завтра", today), Ok(date(2026, 11, 20)));
    assert_eq!(parse_date_on("tomorrow", today), Ok(date(2026, 11, 20)));
    assert_eq!(parse_date_on("вчера", today), Ok(date(2026, 11, 18)));
    assert_eq!(parse_date_on("yesterday", today), Ok(date(2026, 11, 18)));
    assert_eq!(parse_date_on("послезавтра", today), Ok(date(2026, 11, 21)));
    assert_eq!(parse_date_on("after tomorrow", today), Ok(date(2026, 11, 21)));
    assert_eq!(parse_date_on("позовчера", today), Ok(date(2026, 11, 17)));
    assert_eq!(parse_date_on("before yesterday", today), Ok(date(2026, 11, 17)));
}

#[test]
fn parse_ignores_letter_case() {
    let today = date(2026, 11, 19);
    assert_eq!(parse_date_on("ЗАВТРА", today), Ok(date(2026, 11, 20)));
    assert_eq!(parse_date_on("Friday", today), Ok(date(2026, 11, 20)));
    assert_eq!(parse_date_on("ПоНеДеЛьНиК", today), Ok(date(2026, 11, 16)));
}

#[test]
fn parse_day_names_in_the_current_week() {
    let today = date(2026, 11, 19);
    assert_eq!(parse_date_on("понедельник", today), Ok(date(2026, 11, 16)));
    assert_eq!(parse_date_on("monday", today), Ok(date(2026, 11, 16)));
    assert_eq!(parse_date_on("вторник", today), Ok(date(2026, 11, 17)));
    assert_eq!(parse_date_on("среда", today), Ok(date(2026, 11, 18)));
    assert_eq!(parse_date_on("thursday", today), Ok(date(2026, 11, 19)));
    assert_eq!(parse_date_on("пятница", today), Ok(date(2026, 11, 20)));
    assert_eq!(parse_date_on("суббота", today), Ok(date(2026, 11, 21)));
    assert_eq!(parse_date_on("воскресенье", today), Ok(date(2026, 11, 22)));
    assert_eq!(parse_date_on("sunday", date(2026, 11, 16)), Ok(date(2026, 11, 22)));
    assert_eq!(parse_date_on("monday", date(2026, 11, 22)), Ok(date(2026, 11, 16)));
}

#[test]
fn parse_written_dates() {
    let today = date(2026, 11, 19);
    assert_eq!(parse_date_on("25.12.2024", today), Ok(date(2024, 12, 25)));
    assert_eq!(parse_date_on("01/02/2023", today), Ok(date(2023, 2, 1)));
    assert_eq!(parse_date_on("01-02-2023", today), Ok(date(2023, 2, 1)));
    assert_eq!(parse_date_on("1/2/24", today), Ok(date(24, 2, 1)));
    assert_eq!(parse_date_on("25.12.24", today), Ok(date(24, 12, 25)));
}

#[test]
fn parse_rejects_what_is_no_date() {
    let today = date(2026, 11, 19);
    assert_eq!(parse_date_on("", today), Err(()));
    assert_eq!(parse_date_on("abc", today), Err(()));
    assert_eq!(parse_date_on("31.02.2024", today), Err(()));
    assert_eq!(parse_date_on("25.12", today), Err(()));
    assert_eq!(parse_date_on("25/12", today), Err(()));
    assert_eq!(parse_date_on("Friday 13", today), Err(()));
}

#[test]
fn parse_on_the_clock() {
    assert_eq!(parse_date("25.12.2024"), Ok(date(2024, 12, 25)));
    assert_eq!(parse_date(""), Err(()));
    let today = parse_date("today").unwrap();
    assert_eq!(parse_date("tomorrow"), today.add_days(1).ok_or(()));
}
