//! Reading a date the way a user writes it: a word such as "завтра" or
//! "friday", or a day-month-year date.

use crate::date::{
    law_weekday_after_days, local_today, max_day_number, min_day_number, parse_from_str,
    parsed_date, Date,
};
use crate::text::{is_either, lowercase, same_text, to_lowercase};
use vstd::prelude::*;

verus! {

/// Days from today to the date a word such as "завтра" or "yesterday"
/// names, `None` for any other text.
pub open spec fn relative_offset(t: Seq<char>) -> Option<int> {
    if t == "сегодня"@ || t == "today"@ || t == "now"@ {
        Some(0)
    } else if t == "завтра"@ || t == "tomorrow"@ {
        Some(1)
    } else if t == "вчера"@ || t == "yesterday"@ {
        Some(-1)
    } else if t == "послезавтра"@ || t == "after tomorrow"@ {
        Some(2)
    } else if t == "позовчера"@ || t == "before yesterday"@ {
        Some(-2)
    } else {
        None
    }
}

/// The weekday (Monday 0 to Sunday 6) a day name names, `None` for any
/// other text.
pub open spec fn day_name_index(t: Seq<char>) -> Option<int> {
    if t == "понедельник"@ || t == "monday"@ {
        Some(0)
    } else if t == "вторник"@ || t == "tuesday"@ {
        Some(1)
    } else if t == "среда"@ || t == "wednesday"@ {
        Some(2)
    } else if t == "четверг"@ || t == "thursday"@ {
        Some(3)
    } else if t == "пятница"@ || t == "friday"@ {
        Some(4)
    } else if t == "суббота"@ || t == "saturday"@ {
        Some(5)
    } else if t == "воскресенье"@ || t == "sunday"@ {
        Some(6)
    } else {
        None
    }
}

/// Days from today to the date a keyword names, given today's weekday
/// (Monday 0); a day name names that day of the current Monday-to-Sunday
/// week. `None` where the text is no keyword.
pub open spec fn keyword_offset(t: Seq<char>, weekday: int) -> Option<int> {
    match relative_offset(t) {
        Some(k) => Some(k),
        None => match day_name_index(t) {
            Some(k) => Some(k - weekday),
            None => None,
        },
    }
}

/// The number of date formats tried, in order.
pub open spec fn format_count() -> int {
    10
}

/// The `i`-th date format tried (chrono's strftime syntax).
pub open spec fn date_format(i: int) -> Seq<char> {
    if i == 0 {
        "%d.%m.%Y"@
    } else if i == 1 {
        "%d.%m"@
    } else if i == 2 {
        "%d.%m.%y"@
    } else if i == 3 {
        "%d/%m/%Y"@
    } else if i == 4 {
        "%d/%m"@
    } else if i == 5 {
        "%d/%m/%y"@
    } else if i == 6 {
        "%d-%m-%Y"@
    } else if i == 7 {
        "%d-%m"@
    } else if i == 8 {
        "%d-%m-%y"@
    } else {
        "%A"@
    }
}

/// The date read from `t` by the first of the formats from the `i`-th on
/// that reads one.
pub open spec fn first_parsed(t: Seq<char>, i: int) -> Option<Date>
    decreases format_count() - i,
{
    if i < 0 || i >= format_count() {
        None
    } else {
        match parsed_date(t, date_format(i)) {
            Some(d) => Some(d),
            None => first_parsed(t, i + 1),
        }
    }
}

/// Where the lower-cased text `t` is a keyword, the date it names on the
/// day `today` is one chrono can hold.
pub open spec fn keyword_range_ok(t: Seq<char>, today: Date) -> bool {
    t.len() > 0 && keyword_offset(t, today.weekday_index()) is Some ==> min_day_number()
        <= today.day_number() + keyword_offset(t, today.weekday_index())->0 <= max_day_number()
}

/// `res` is what reading the lower-cased text `t` gives on the day `today`.
pub open spec fn date_read_as(t: Seq<char>, today: Date, res: Result<Date, ()>) -> bool {
    if t.len() == 0 {
        res is Err
    } else {
        match keyword_offset(t, today.weekday_index()) {
            Some(k) => res matches Ok(d) && d.wf() && d.day_number() == today.day_number() + k,
            None => res == match first_parsed(t, 0) {
                Some(d) => Ok::<Date, ()>(d),
                None => Err(()),
            },
        }
    }
}

/// The `i`-th date format.
fn format_at(i: usize) -> (res: &'static str)
    requires
        i < format_count(),
    ensures
        res@ == date_format(i as int),
{
    if i == 0 {
        "%d.%m.%Y"
    } else if i == 1 {
        "%d.%m"
    } else if i == 2 {
        "%d.%m.%y"
    } else if i == 3 {
        "%d/%m/%Y"
    } else if i == 4 {
        "%d/%m"
    } else if i == 5 {
        "%d/%m/%y"
    } else if i == 6 {
        "%d-%m-%Y"
    } else if i == 7 {
        "%d-%m"
    } else if i == 8 {
        "%d-%m-%y"
    } else {
        "%A"
    }
}

/// Days from today named by the keyword `t`, or `None` where `t` is none.
fn keyword_days(t: &str, weekday: u32) -> (res: Option<i32>)
    requires
        weekday < 7,
    ensures
        res matches Some(k) ==> keyword_offset(t@, weekday as int) == Some(k as int),
        res is None ==> keyword_offset(t@, weekday as int) is None,
{
    let w = weekday as i32;
    if is_either(t, "сегодня", "today") || same_text(t, "now") {
        Some(0)
    } else if is_either(t, "завтра", "tomorrow") {
        Some(1)
    } else if is_either(t, "вчера", "yesterday") {
        Some(-1)
    } else if is_either(t, "послезавтра", "after tomorrow") {
        Some(2)
    } else if is_either(t, "позовчера", "before yesterday") {
        Some(-2)
    } else if is_either(t, "понедельник", "monday") {
        Some(0 - w)
    } else if is_either(t, "вторник", "tuesday") {
        Some(1 - w)
    } else if is_either(t, "среда", "wednesday") {
        Some(2 - w)
    } else if is_either(t, "четверг", "thursday") {
        Some(3 - w)
    } else if is_either(t, "пятница", "friday") {
        Some(4 - w)
    } else if is_either(t, "суббота", "saturday") {
        Some(5 - w)
    } else if is_either(t, "воскресенье", "sunday") {
        Some(6 - w)
    } else {
        None
    }
}

/// Reads the date written in `date` (in any letter case) as seen on the day
/// `today`: `Err` for an empty text; for a keyword, the date it names
/// relative to `today`; otherwise the date read by the first of the formats
/// `%d.%m.%Y`, `%d.%m`, `%d.%m.%y`, `%d/%m/%Y`, `%d/%m`, `%d/%m/%y`,
/// `%d-%m-%Y`, `%d-%m`, `%d-%m-%y`, `%A` that reads one, or `Err` where none
/// does.
pub fn parse_date_on(date: &str, today: Date) -> (res: Result<Date, ()>)
    requires
        today.wf(),
        keyword_range_ok(lowercase(date@), today),
    ensures
        date_read_as(lowercase(date@), today, res),
        res matches Ok(d) ==> d.wf(),
{
    let t = to_lowercase(date);
    if t.as_str().is_empty() {
        return Err(());
    }
    let w = today.weekday();
    match keyword_days(t.as_str(), w) {
        Some(k) => {
            match today.add_days(k) {
                Some(d) => Ok(d),
                None => Err(()),
            }
        },
        None => {
            let mut i: usize = 0;
            while i < 10
                invariant
                    0 <= i <= 10,
                    t@ == lowercase(date@),
                    t@.len() != 0,
                    keyword_offset(t@, today.weekday_index()) is None,
                    first_parsed(t@, 0) == first_parsed(t@, i as int),
                decreases 10 - i,
            {
                match parse_from_str(t.as_str(), format_at(i)) {
                    Some(d) => {
                        assert(first_parsed(t@, i as int) == Some(d));
                        return Ok(d);
                    },
                    None => {},
                }
                i = i + 1;
            }
            Err(())
        },
    }
}

/// Whether the keyword `date` (in any letter case) names a date chrono can
/// hold on the day `today` (true for a text that is no keyword).
pub fn keyword_in_range(date: &str, today: Date) -> (res: bool)
    requires
        today.wf(),
    ensures
        res == keyword_range_ok(lowercase(date@), today),
{
    let t = to_lowercase(date);
    if t.as_str().is_empty() {
        return true;
    }
    match keyword_days(t.as_str(), today.weekday()) {
        Some(k) => today.add_days(k).is_some(),
        None => true,
    }
}

/// Reads the date written in `date` as `parse_date_on` does, on the day the
/// local clock shows. Where a keyword would name a date out of chrono's
/// range from that day the answer is `Err`.
pub fn parse_date(date: &str) -> (res: Result<Date, ()>)
    ensures
        exists|today: Date|
            #![trigger today.wf()]
            today.wf() && if keyword_range_ok(lowercase(date@), today) {
                date_read_as(lowercase(date@), today, res)
            } else {
                res is Err
            },
        res matches Ok(d) ==> d.wf(),
{
    let today = local_today();
    if !keyword_in_range(date, today) {
        return Err(());
    }
    parse_date_on(date, today)
}

} // verus!

verus! {

/// No day name is a word of the days around today.
proof fn lemma_day_name_not_relative(t: Seq<char>)
    requires
        day_name_index(t) is Some,
    ensures
        relative_offset(t) is None,
{
    reveal_strlit("сегодня");
    reveal_strlit("today");
    reveal_strlit("now");
    reveal_strlit("завтра");
    reveal_strlit("tomorrow");
    reveal_strlit("вчера");
    reveal_strlit("yesterday");
    reveal_strlit("послезавтра");
    reveal_strlit("after tomorrow");
    reveal_strlit("позовчера");
    reveal_strlit("before yesterday");
    reveal_strlit("понедельник");
    reveal_strlit("monday");
    reveal_strlit("вторник");
    reveal_strlit("tuesday");
    reveal_strlit("среда");
    reveal_strlit("wednesday");
    reveal_strlit("четверг");
    reveal_strlit("thursday");
    reveal_strlit("пятница");
    reveal_strlit("friday");
    reveal_strlit("суббота");
    reveal_strlit("saturday");
    reveal_strlit("воскресенье");
    reveal_strlit("sunday");
    assert(t.len() >= 5);
    let c0 = t[0];
    let c1 = t[1];
    let c2 = t[2];
}

/// Law: a day name ("friday", "пятница", ...) names that day of the week,
/// Monday to Sunday, that today falls in.
pub proof fn law_day_name_in_week(t: Seq<char>, today: Date, r: Date, k: int)
    requires
        today.wf(),
        day_name_index(t) == Some(k),
        date_read_as(t, today, Ok(r)),
    ensures
        r.wf(),
        r.weekday_index() == k,
        r.day_number() - r.weekday_index() == today.day_number() - today.weekday_index(),
{
    lemma_day_name_not_relative(t);
    law_weekday_after_days(today, r, k - today.weekday_index());
}

/// Law: the words for the days around today name today shifted by their
/// number of days ("завтра" the next day, "позовчера" two days back, ...).
pub proof fn law_relative_word(t: Seq<char>, today: Date, r: Date, k: int)
    requires
        today.wf(),
        relative_offset(t) == Some(k),
        date_read_as(t, today, Ok(r)),
    ensures
        r.wf(),
        r.day_number() == today.day_number() + k,
{
}

/// Law: reading a date does not depend on letter case: texts with the same
/// lower case read alike.
pub proof fn law_case_insensitive(a: Seq<char>, b: Seq<char>, today: Date, res: Result<Date, ()>)
    requires
        lowercase(a) == lowercase(b),
        date_read_as(lowercase(a), today, res),
    ensures
        date_read_as(lowercase(b), today, res),
{
}

/// Law: each day name, in Russian or in English ("понедельник" or
/// "monday" to "воскресенье" or "sunday"), reads as the day of that weekday
/// in the Monday-to-Sunday week today falls in.
pub proof fn law_day_name_words(t: Seq<char>, today: Date, res: Result<Date, ()>)
    requires
        today.wf(),
        date_read_as(t, today, res),
        t == "понедельник"@ || t == "monday"@ || t == "вторник"@ || t == "tuesday"@ || t == "среда"@ || t == "wednesday"@ || t == "четверг"@ || t == "thursday"@ || t == "пятница"@ || t == "friday"@ || t == "суббота"@ || t == "saturday"@ || t == "воскресенье"@ || t == "sunday"@,
    ensures
        res matches Ok(d) && d.wf() && d.day_number() - d.weekday_index() == today.day_number()
            - today.weekday_index(),
        t == "понедельник"@ || t == "monday"@ ==> (res matches Ok(d) && d.weekday_index() == 0),
        t == "вторник"@ || t == "tuesday"@ ==> (res matches Ok(d) && d.weekday_index() == 1),
        t == "среда"@ || t == "wednesday"@ ==> (res matches Ok(d) && d.weekday_index() == 2),
        t == "четверг"@ || t == "thursday"@ ==> (res matches Ok(d) && d.weekday_index() == 3),
        t == "пятница"@ || t == "friday"@ ==> (res matches Ok(d) && d.weekday_index() == 4),
        t == "суббота"@ || t == "saturday"@ ==> (res matches Ok(d) && d.weekday_index() == 5),
        t == "воскресенье"@ || t == "sunday"@ ==> (res matches Ok(d) && d.weekday_index() == 6),
{
    reveal_strlit("сегодня");
    reveal_strlit("today");
    reveal_strlit("now");
    reveal_strlit("завтра");
    reveal_strlit("tomorrow");
    reveal_strlit("вчера");
    reveal_strlit("yesterday");
    reveal_strlit("послезавтра");
    reveal_strlit("after tomorrow");
    reveal_strlit("позовчера");
    reveal_strlit("before yesterday");
    reveal_strlit("понедельник");
    reveal_strlit("monday");
    reveal_strlit("вторник");
    reveal_strlit("tuesday");
    reveal_strlit("среда");
    reveal_strlit("wednesday");
    reveal_strlit("четверг");
    reveal_strlit("thursday");
    reveal_strlit("пятница");
    reveal_strlit("friday");
    reveal_strlit("суббота");
    reveal_strlit("saturday");
    reveal_strlit("воскресенье");
    reveal_strlit("sunday");
    assert(t.len() >= 5);
    let c0 = t[0];
    let c1 = t[1];
    let c2 = t[2];
    let k = day_name_index(t)->0;
    assert(day_name_index(t) is Some);
    lemma_day_name_not_relative(t);
    law_day_name_in_week(t, today, res->Ok_0, k);
}

/// Law: the words for the days around today read as today ("сегодня",
/// "today", "now"), the next day ("завтра", "tomorrow"), the day before
/// ("вчера", "yesterday"), two days on ("послезавтра", "after tomorrow") and
/// two days back ("позовчера", "before yesterday").
pub proof fn law_relative_words(t: Seq<char>, today: Date, res: Result<Date, ()>)
    requires
        today.wf(),
        date_read_as(t, today, res),
        t == "сегодня"@ || t == "today"@ || t == "now"@ || t == "завтра"@ || t == "tomorrow"@ || t == "вчера"@ || t == "yesterday"@ || t == "послезавтра"@ || t == "after tomorrow"@ || t == "позовчера"@ || t == "before yesterday"@,
    ensures
        res matches Ok(d) && d.wf(),
        t == "сегодня"@ || t == "today"@ || t == "now"@ ==> (res matches Ok(d) && d.day_number() == today.day_number() ),
        t == "завтра"@ || t == "tomorrow"@ ==> (res matches Ok(d) && d.day_number() == today.day_number()  + 1),
        t == "вчера"@ || t == "yesterday"@ ==> (res matches Ok(d) && d.day_number() == today.day_number()  - 1),
        t == "послезавтра"@ || t == "after tomorrow"@ ==> (res matches Ok(d) && d.day_number() == today.day_number()  + 2),
        t == "позовчера"@ || t == "before yesterday"@ ==> (res matches Ok(d) && d.day_number() == today.day_number()  - 2),
{
    reveal_strlit("сегодня");
    reveal_strlit("today");
    reveal_strlit("now");
    reveal_strlit("завтра");
    reveal_strlit("tomorrow");
    reveal_strlit("вчера");
    reveal_strlit("yesterday");
    reveal_strlit("послезавтра");
    reveal_strlit("after tomorrow");
    reveal_strlit("позовчера");
    reveal_strlit("before yesterday");
    reveal_strlit("понедельник");
    reveal_strlit("monday");
    reveal_strlit("вторник");
    reveal_strlit("tuesday");
    reveal_strlit("среда");
    reveal_strlit("wednesday");
    reveal_strlit("четверг");
    reveal_strlit("thursday");
    reveal_strlit("пятница");
    reveal_strlit("friday");
    reveal_strlit("суббота");
    reveal_strlit("saturday");
    reveal_strlit("воскресенье");
    reveal_strlit("sunday");
    assert(t.len() >= 3);
    let c0 = t[0];
    let c1 = t[1];
    let c2 = t[2];
    assert(relative_offset(t) is Some);
}

/// Law: a text that is no keyword reads as the date of the first of the
/// formats `%d.%m.%Y`, `%d.%m`, `%d.%m.%y`, `%d/%m/%Y`, `%d/%m`, `%d/%m/%y`,
/// `%d-%m-%Y`, `%d-%m`, `%d-%m-%y`, `%A`, tried in that order, that reads
/// one, and as no date where none does.
pub proof fn law_date_formats(t: Seq<char>, today: Date, res: Result<Date, ()>)
    requires
        t.len() > 0,
        keyword_offset(t, today.weekday_index()) is None,
        date_read_as(t, today, res),
    ensures
        res == match parsed_date(t, "%d.%m.%Y"@) {
            Some(d) => Ok::<Date, ()>(d),
            None => match parsed_date(t, "%d.%m"@) {
                Some(d) => Ok::<Date, ()>(d),
                None => match parsed_date(t, "%d.%m.%y"@) {
                    Some(d) => Ok::<Date, ()>(d),
                    None => match parsed_date(t, "%d/%m/%Y"@) {
                        Some(d) => Ok::<Date, ()>(d),
                        None => match parsed_date(t, "%d/%m"@) {
                            Some(d) => Ok::<Date, ()>(d),
                            None => match parsed_date(t, "%d/%m/%y"@) {
                                Some(d) => Ok::<Date, ()>(d),
                                None => match parsed_date(t, "%d-%m-%Y"@) {
                                    Some(d) => Ok::<Date, ()>(d),
                                    None => match parsed_date(t, "%d-%m"@) {
                                        Some(d) => Ok::<Date, ()>(d),
                                        None => match parsed_date(t, "%d-%m-%y"@) {
                                            Some(d) => Ok::<Date, ()>(d),
                                            None => match parsed_date(t, "%A"@) {
                                                Some(d) => Ok::<Date, ()>(d),
                                                None => Err(()),
                                            },
                                        },
                                    },
                                },
                            },
                        },
                    },
                },
            },
        },
{
    reveal_with_fuel(first_parsed, 11);
}

/// Law: an empty text reads as no date.
pub proof fn law_empty_text(t: Seq<char>, today: Date, res: Result<Date, ()>)
    requires
        t.len() == 0,
        date_read_as(t, today, res),
    ensures
        res is Err,
{
}

} // verus!
