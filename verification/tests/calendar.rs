use schedule_bot::date::Date;
use schedule_bot::month::{get_calendar, month_calendar};

fn date(year: i32, month: u32, day: u32) -> Date {
    Date::from_ymd_opt(year, month, day).unwrap()
}

#[test]
fn test_get_calendar() {
    assert_eq!(get_calendar(Some(date(2024, 10, 15))).0.len(), 5);

    let calendar = get_calendar(None);

    for week in calendar.0 {
        let mut line = String::new();
        for day in week {
            match day {
                Some(date) => line.push_str(&format!("{:2} ", date.day)),
                None => line.push_str("   "),
            }
        }
        println!("{}", line);
    }
}

#[test]
fn current_month_calendar() {
    let (weeks, title) = get_calendar(None);
    assert!(weeks.len() >= 4 && weeks.len() <= 6);
    assert!(weeks.iter().all(|w| w.len() == 7));
    let days: Vec<Date> = weeks.iter().flatten().filter_map(|d| *d).collect();
    assert!(days.len() >= 28 && days.len() <= 31);
    assert_eq!(days[0].day, 1);
    assert!(title.ends_with(&days[0].year.to_string()));
}

#[test]
fn november_2026_spans_six_weeks() {
    let (weeks, title) = month_calendar(date(2026, 11, 19));
    assert_eq!(title, "November 2026");
    assert_eq!(weeks.len(), 6);
    assert_eq!(weeks[0], vec![None, None, None, None, None, None, Some(date(2026, 11, 1))]);
    assert_eq!(weeks[1][0], Some(date(2026, 11, 2)));
    assert_eq!(weeks[5][0], Some(date(2026, 11, 30)));
    assert_eq!(weeks[5][1..], [None, None, None, None, None, None]);
}

#[test]
fn february_2021_spans_four_weeks() {
    let (weeks, title) = month_calendar(date(2021, 2, 10));
    assert_eq!(title, "February 2021");
    assert_eq!(weeks.len(), 4);
    assert_eq!(weeks[0][0], Some(date(2021, 2, 1)));
    assert_eq!(weeks[3][6], Some(date(2021, 2, 28)));
}

#[test]
fn leap_february_and_december() {
    let (weeks, _) = month_calendar(date(2024, 2, 1));
    let days: Vec<Date> = weeks.iter().flatten().filter_map(|d| *d).collect();
    assert_eq!(days.len(), 29);
    let (weeks, title) = month_calendar(date(2024, 12, 31));
    assert_eq!(title, "December 2024");
    let days: Vec<Date> = weeks.iter().flatten().filter_map(|d| *d).collect();
    assert_eq!(days.len(), 31);
    assert_eq!(days[30], date(2024, 12, 31));
    let (weeks, title) = month_calendar(date(987, 5, 3));
    assert_eq!(title, "May 0987");
    assert_eq!(weeks.iter().flatten().filter(|d| d.is_some()).count(), 31);
}

#[test]
fn last_month_chrono_holds_has_no_weeks() {
    let (weeks, _) = get_calendar(Some(date(262142, 12, 5)));
    assert!(weeks.is_empty());
    let (weeks, _) = get_calendar(Some(date(262142, 11, 5)));
    assert_eq!(weeks.iter().flatten().filter(|d| d.is_some()).count(), 30);
}

#[test]
fn titles_of_years_chrono_signs() {
    let (_, title) = month_calendar(date(10000, 1, 7));
    assert_eq!(title, "January +10000");
    let (_, title) = month_calendar(date(-5, 1, 7));
    assert_eq!(title, "January -0005");
    let (_, title) = month_calendar(date(-12345, 1, 7));
    assert_eq!(title, "January -12345");
    let (_, title) = month_calendar(date(0, 3, 1));
    assert_eq!(title, "March 0000");
}

#[test]
fn calendar_depends_on_the_month_only() {
    let first = get_calendar(Some(date(2026, 11, 1)));
    let last = get_calendar(Some(date(2026, 11, 30)));
    assert_eq!(first, last);
    let first = get_calendar(Some(date(-12345, 2, 1)));
    let last = get_calendar(Some(date(-12345, 2, 28)));
    assert_eq!(first, last);
}
