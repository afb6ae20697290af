use schedule_bot::bot::{callback_handler, get, get_on, receive_group_on, schedule_reply, tomorrow_on, MessageMetadata, Reply};
use schedule_bot::date::Date;
use schedule_bot::grid::{Cell, Grid};
use schedule_bot::groups::GroupTable;

fn date(year: i32, month: u32, day: u32) -> Date {
    Date::from_ymd_opt(year, month, day).unwrap()
}

fn groups() -> GroupTable {
    let mut rows = vec![vec![Cell::Empty; 5]; 5];
    rows[4][3] = Cell::String("ИСП-21".to_string());
    GroupTable::from_header(&Grid::new((0, 0), rows).unwrap())
}

/// The text of a reply without a keyboard, and whether it is HTML.
fn sent(r: Option<Reply>) -> Option<(String, bool)> {
    r.map(|r| {
        assert!(r.keyboard.is_none());
        (r.text, r.html)
    })
}

#[test]
fn reply_texts() {
    assert_eq!(schedule_reply(Ok("уроки".to_string())), "уроки");
    assert_eq!(
        schedule_reply(Err("Группа не найдена".to_string())),
        "Error occured while fetching scheduleГруппа не найдена"
    );
}

#[test]
fn calendar_for_an_unknown_group() {
    let r = receive_group_on("ИСП-99", &groups(), date(2026, 11, 19));
    assert_eq!(r.text, "Группа не найдена");
    assert!(!r.html);
    assert!(r.keyboard.is_none());
}

#[test]
fn calendar_keyboard() {
    let r = receive_group_on("Исп-21", &groups(), date(2026, 11, 19));
    assert_eq!(r.text, "Выберите дату используя календарь ниже. Месяц: November 2026");
    assert!(!r.html);
    let kb = r.keyboard.unwrap();
    assert_eq!(kb.len(), 6);
    assert!(kb.iter().all(|w| w.len() == 7));
    assert_eq!(kb[0][0].text, " ");
    assert!(kb[0][0].data.is_none());
    assert_eq!(kb[0][6].text, "01");
    let first = kb[0][6].data.as_ref().unwrap();
    assert_eq!(first.date, date(2026, 11, 1));
    assert_eq!(first.group, "Исп-21");
    assert_eq!(kb[5][0].text, "30");
    assert_eq!(kb[2][3].text, "12");
    assert_eq!(kb[2][3].data.as_ref().unwrap().date, date(2026, 11, 12));
}

#[test]
fn get_with_a_bad_date() {
    let book = None;
    assert_eq!(
        sent(get("ИСП-21".to_string(), "когда-нибудь", &groups(), &book)),
        Some(("Неверный формат даты".to_string(), false))
    );
    assert_eq!(
        sent(get("ИСП-21".to_string(), "", &groups(), &book)),
        Some(("Неверный формат даты".to_string(), false))
    );
}

#[test]
fn get_on_a_sunday() {
    let book = None;
    assert_eq!(
        sent(get("ИСП-21".to_string(), "22.11.2026", &groups(), &book)),
        Some(("Выходной".to_string(), true))
    );
}

#[test]
fn get_without_a_workbook() {
    let book = None;
    assert_eq!(
        sent(get("ИСП-21".to_string(), "19.11.2026", &groups(), &book)),
        Some(("Error occured while fetching schedule500 Internal Server Error".to_string(), true))
    );
}

#[test]
fn get_on_a_given_day() {
    let book = None;
    let saturday = date(2026, 11, 21);
    assert_eq!(
        sent(get_on("ИСП-21".to_string(), "ЗАВТРА", &groups(), &book, saturday)),
        Some(("Выходной".to_string(), true))
    );
    assert_eq!(
        sent(get_on("ИСП-21".to_string(), "friday", &groups(), &book, saturday)),
        Some(("Error occured while fetching schedule500 Internal Server Error".to_string(), true))
    );
    assert_eq!(
        sent(get_on("ИСП-21".to_string(), "Воскресенье", &groups(), &book, date(2026, 11, 16))),
        Some(("Выходной".to_string(), true))
    );
    assert_eq!(
        sent(get_on("ИСП-21".to_string(), "31.02.2026", &groups(), &book, saturday)),
        Some(("Неверный формат даты".to_string(), false))
    );
}

#[test]
fn tomorrow_word_answers_as_tomorrow() {
    let book = None;
    for today in [date(2026, 11, 21), date(2026, 11, 18), date(2024, 2, 28)] {
        for group in ["ИСП-21", "ИСП-99"] {
            for word in ["завтра", "Tomorrow"] {
                let asked = sent(get_on(group.to_string(), word, &groups(), &book, today));
                let next = tomorrow_on(group.to_string(), &groups(), &book, today);
                assert_eq!(asked, next.map(|t| (t, true)));
            }
        }
    }
}

#[test]
fn tomorrow_replies() {
    let book = None;
    assert_eq!(tomorrow_on("ИСП-21".to_string(), &groups(), &book, date(2026, 11, 21)), Some("Выходной".to_string()));
    assert_eq!(
        tomorrow_on("ИСП-99".to_string(), &groups(), &book, date(2026, 11, 18)),
        Some("Error occured while fetching scheduleГруппа не найдена".to_string())
    );
    assert_eq!(tomorrow_on("ИСП-21".to_string(), &groups(), &book, date(262142, 12, 31)), None);
}

#[test]
fn callback_replies() {
    let book = None;
    let sunday = MessageMetadata { date: date(2026, 11, 22), group: "ИСП-21".to_string() };
    assert_eq!(callback_handler(sunday, &groups(), &book), Some("Выходной".to_string()));
    let weekday = MessageMetadata { date: date(2026, 11, 19), group: "ИСП-21".to_string() };
    assert_eq!(callback_handler(weekday, &groups(), &book), None);
}

#[test]
fn calendar_buttons_answer_their_day() {
    let r = receive_group_on("Исп-21", &groups(), date(2026, 11, 19));
    let book = None;
    for week in r.keyboard.unwrap() {
        for button in week {
            if let Some(m) = button.data {
                assert_eq!(m.group, "Исп-21");
                assert_eq!(button.text, format!("{:02}", m.date.day));
                let day = m.date;
                let expected = tomorrow_on("Исп-21".to_string(), &groups(), &book, day.add_days(-1).unwrap())
                    .filter(|t| !t.starts_with("Error occured"));
                assert_eq!(callback_handler(m, &groups(), &book), expected);
            }
        }
    }
}
