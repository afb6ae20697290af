//! What the bot answers: the texts it sends and the day-picking keyboard.

use crate::date::{date_with_number, format_date, lemma_date_with_number, local_today, max_day_number, month_title_text, two_digits, Date};
use crate::date_parse::{date_read_as, relative_offset, keyword_in_range, keyword_range_ok, parse_date_on};
use crate::groups::GroupTable;
use crate::month::{get_calendar, has_next_month, is_month_grid};

use crate::schedule::{result_texts, schedule_answer, schedule_defined, try_fetch_schedule};
use crate::text::{lowercase, to_lowercase};
use crate::workbook::Workbook;
use vstd::prelude::*;

verus! {

/// The day and group a calendar button stands for.
pub struct MessageMetadata {
    pub date: Date,
    pub group: String,
}

/// A button of the day-picking keyboard: its label, and the day and group
/// it asks for (`None` for the blank slots before and after the month).
pub struct DayButton {
    pub text: String,
    pub data: Option<MessageMetadata>,
}

/// A message to send: its text, where there is one a keyboard, and whether
/// the text is sent as HTML.
pub struct Reply {
    pub text: String,
    pub keyboard: Option<Vec<Vec<DayButton>>>,
    pub html: bool,
}

/// The text sent for an answer: the lessons, or the error after
/// `Error occured while fetching schedule`.
pub open spec fn reply_text(r: Result<Seq<char>, Seq<char>>) -> Seq<char> {
    match r {
        Ok(s) => s,
        Err(e) => "Error occured while fetching schedule"@ + e,
    }
}

/// `b` is the button of the calendar slot `slot` for `group`: the
/// zero-padded day asking for that day, or a blank.
pub open spec fn is_button_for(slot: Option<Date>, group: Seq<char>, b: DayButton) -> bool {
    match slot {
        Some(d) => {
            &&& b.text@ == two_digits(d.day as int)
            &&& b.data matches Some(m) && m.date == d && m.group@ == group
        },
        None => b.text@ == " "@ && b.data is None,
    }
}

/// `buttons` has one button for each slot of `weeks`, in the same places.
pub open spec fn is_keyboard(weeks: Seq<Vec<Option<Date>>>, group: Seq<char>, buttons: Seq<Vec<DayButton>>) -> bool {
    &&& buttons.len() == weeks.len()
    &&& forall|i: int| 0 <= i < weeks.len() ==> (#[trigger] buttons[i])@.len() == weeks[i]@.len()
    &&& forall|i: int, j: int|
        #![trigger buttons[i]@[j]]
        0 <= i < weeks.len() && 0 <= j < weeks[i]@.len() ==> is_button_for(weeks[i]@[j], group, buttons[i]@[j])
}

/// The text sent with the calendar before the month's title.
pub open spec fn calendar_prompt() -> Seq<char> {
    "Выберите дату используя календарь ниже. Месяц: "@
}

/// The text sent for an answer.
pub fn schedule_reply(r: Result<String, String>) -> (res: String)
    ensures
        res@ == reply_text(result_texts(r)),
{
    match r {
        Ok(s) => s,
        Err(e) => {
            let mut t = "Error occured while fetching schedule".to_owned();
            t.append(e.as_str());
            t
        },
    }
}

/// The keyboard of a calendar for `group`.
fn keyboard(weeks: &Vec<Vec<Option<Date>>>, group: &str) -> (res: Vec<Vec<DayButton>>)
    requires
        forall|i: int, j: int|
            #![trigger weeks@[i]@[j]]
            0 <= i < weeks@.len() && 0 <= j < weeks@[i]@.len() ==> (weeks@[i]@[j] matches Some(d) ==> d.wf()),
    ensures
        is_keyboard(weeks@, group@, res@),
{
    let mut rows: Vec<Vec<DayButton>> = Vec::new();
    let mut i: usize = 0;
    while i < weeks.len()
        invariant
            0 <= i <= weeks@.len(),
            rows@.len() == i,
            forall|a: int, b: int|
                #![trigger weeks@[a]@[b]]
                0 <= a < weeks@.len() && 0 <= b < weeks@[a]@.len() ==> (weeks@[a]@[b] matches Some(d) ==> d.wf()),
            forall|a: int| 0 <= a < i ==> (#[trigger] rows@[a])@.len() == weeks@[a]@.len(),
            forall|a: int, b: int|
                #![trigger rows@[a]@[b]]
                0 <= a < i && 0 <= b < weeks@[a]@.len() ==> is_button_for(weeks@[a]@[b], group@, rows@[a]@[b]),
        decreases weeks@.len() - i,
    {
        let week = &weeks[i];
        let mut row: Vec<DayButton> = Vec::new();
        let mut j: usize = 0;
        while j < week.len()
            invariant
                0 <= i < weeks@.len(),
                week == weeks@[i as int],
                0 <= j <= week@.len(),
                row@.len() == j,
                forall|b: int| 0 <= b < week@.len() ==> (#[trigger] week@[b] matches Some(d) ==> d.wf()),
                forall|b: int| 0 <= b < j ==> is_button_for(week@[b], group@, #[trigger] row@[b]),
            decreases week@.len() - j,
        {
            assert(weeks@[i as int]@[j as int] == week@[j as int]);
            let button = match &week[j] {
                Some(d) => DayButton {
                    text: format_date(*d, "%d"),
                    data: Some(MessageMetadata { date: *d, group: group.to_owned() }),
                },
                None => DayButton { text: " ".to_owned(), data: None },
            };
            row.push(button);
            j = j + 1;
        }
        rows.push(row);
        i = i + 1;
    }
    rows
}

} // verus!

verus! {

/// The texts of an optional text.
pub open spec fn option_text(r: Option<String>) -> Option<Seq<char>> {
    match r {
        Some(s) => Some(s@),
        None => None,
    }
}

/// `res` is what is sent for the lessons of `group` on `date`: the answer's
/// text, or nothing where the answer needs a Monday out of chrono's range.
pub open spec fn is_schedule_reply(
    date: Date,
    group: Seq<char>,
    groups: Map<Seq<char>, (usize, usize)>,
    book: Option<Workbook>,
    res: Option<Seq<char>>,
) -> bool {
    if schedule_defined(date, group, groups, book) {
        res == Some(reply_text(schedule_answer(date, group, groups, book)))
    } else {
        res is None
    }
}

/// `res` is the reply to the group `group` asking for a calendar on the day
/// `today`.
pub open spec fn is_group_reply(group: Seq<char>, groups: Map<Seq<char>, (usize, usize)>, today: Date, res: Reply) -> bool {
    &&& !res.html
    &&& if !groups.contains_key(lowercase(group)) {
        res.text@ == "Группа не найдена"@ && res.keyboard is None
    } else {
        &&& res.text@ == calendar_prompt() + month_title_text(today)
        &&& res.keyboard matches Some(b) && if has_next_month(today) {
            exists|weeks: Seq<Vec<Option<Date>>>|
                is_month_grid(today, weeks) && #[trigger] is_keyboard(weeks, group, b@)
        } else {
            b@.len() == 0
        }
    }
}

/// The reply to a request for the calendar of `group` on the day `today`:
/// for a group not in the table `Группа не найдена`; otherwise the month's
/// calendar with a button per day asking for that day's lessons.
pub fn receive_group_on(group: &str, groups: &GroupTable, today: Date) -> (res: Reply)
    requires
        today.wf(),
    ensures
        is_group_reply(group@, groups@, today, res),
{
    let key = to_lowercase(group);
    if !groups.contains(key.as_str()) {
        return Reply { text: "Группа не найдена".to_owned(), keyboard: None, html: false };
    }
    let (weeks, name) = get_calendar(Some(today));
    proof {
        if has_next_month(today) {
            crate::month::lemma_grid_dates(today, weeks@);
        }
    }
    let buttons = keyboard(&weeks, group);
    let mut text = "Выберите дату используя календарь ниже. Месяц: ".to_owned();
    text.append(name.as_str());
    let ghost w = weeks@;
    proof {
        if has_next_month(today) {
            assert(is_month_grid(today, w) && is_keyboard(w, group@, buttons@));
        } else {
            assert(buttons@.len() == 0);
        }
        assert(text@ == calendar_prompt() + month_title_text(today));
        assert(groups@.contains_key(lowercase(group@)));
    }
    let ghost bv = buttons@;
    let res = Reply { text, keyboard: Some(buttons), html: false };
    proof {
        assert(res.keyboard matches Some(b) && b@ == bv);
        if has_next_month(today) {
            assert(exists|weeks: Seq<Vec<Option<Date>>>|
                is_month_grid(today, weeks) && #[trigger] is_keyboard(weeks, group@, bv));
        }
    }
    res
}

/// `receive_group_on` on the day the local clock shows.
pub fn receive_group(group: &str, groups: &GroupTable) -> (res: Reply)
    ensures
        exists|today: Date| today.wf() && #[trigger] is_group_reply(group@, groups@, today, res),
{
    let today = local_today();
    let r = receive_group_on(group, groups, today);
    assert(is_group_reply(group@, groups@, today, r));
    r
}

/// The text sent for the lessons of `group` on the day after `today`, or
/// `None` where that day, or the Monday of its week, is out of chrono's
/// range.
pub fn tomorrow_on(group: String, groups: &GroupTable, book: &Option<Workbook>, today: Date) -> (res: Option<String>)
    requires
        today.wf(),
    ensures
        if today.day_number() + 1 <= max_day_number() {
            is_schedule_reply(date_with_number(today.day_number() + 1), group@, groups@, *book, option_text(res))
        } else {
            res is None
        },
{
    let next = match today.add_days(1) {
        Some(t) => t,
        None => {
            return None;
        },
    };
    match try_fetch_schedule(next, group, groups, book) {
        Some(r) => Some(schedule_reply(r)),
        None => None,
    }
}

/// `tomorrow_on` on the day the local clock shows.
pub fn tomorrow(group: String, groups: &GroupTable, book: &Option<Workbook>) -> (res: Option<String>)
    ensures
        exists|today: Date|
            #![trigger today.wf()]
            today.wf() && if today.day_number() + 1 <= max_day_number() {
                is_schedule_reply(
                    date_with_number(today.day_number() + 1),
                    group@,
                    groups@,
                    *book,
                    option_text(res),
                )
            } else {
                res is None
            },
{
    let today = local_today();
    tomorrow_on(group, groups, book, today)
}

/// The text of an optional reply.
pub open spec fn reply_text_of(res: Option<Reply>) -> Option<Seq<char>> {
    match res {
        Some(r) => Some(r.text@),
        None => None,
    }
}

/// `res` is what is sent for a request of the lessons of `group` on a
/// written date read as `parsed`: `Неверный формат даты`, as plain text,
/// where it is no date; otherwise the answer `is_schedule_reply` states, as
/// HTML. No keyboard either way.
pub open spec fn is_get_reply(
    parsed: Result<Date, ()>,
    group: Seq<char>,
    groups: Map<Seq<char>, (usize, usize)>,
    book: Option<Workbook>,
    res: Option<Reply>,
) -> bool {
    &&& res matches Some(r) ==> r.keyboard is None
    &&& match parsed {
        Err(_) => res matches Some(r) && r.text@ == "Неверный формат даты"@ && !r.html,
        Ok(d) => is_schedule_reply(d, group, groups, book, reply_text_of(res)) && (res matches Some(r)
            ==> r.html),
    }
}

/// The reply to a request for the lessons of `group` on the date written
/// `date`, read on the day `today` as `parse_date_on` reads it; `None` where
/// the answer needs a Monday out of chrono's range.
pub fn get_on(group: String, date: &str, groups: &GroupTable, book: &Option<Workbook>, today: Date) -> (res: Option<Reply>)
    requires
        today.wf(),
        keyword_range_ok(lowercase(date@), today),
    ensures
        exists|parsed: Result<Date, ()>|
            #![trigger date_read_as(lowercase(date@), today, parsed)]
            {
                &&& date_read_as(lowercase(date@), today, parsed)
                &&& parsed matches Ok(d) ==> d.wf()
                &&& is_get_reply(parsed, group@, groups@, *book, res)
            },
{
    let parsed = parse_date_on(date, today);
    let res = match parsed {
        Err(_) => Some(Reply { text: "Неверный формат даты".to_owned(), keyboard: None, html: false }),
        Ok(d) => {
            match try_fetch_schedule(d, group, groups, book) {
                Some(r) => Some(Reply { text: schedule_reply(r), keyboard: None, html: true }),
                None => None,
            }
        },
    };
    assert(date_read_as(lowercase(date@), today, parsed));
    res
}

/// `get_on` on the day the local clock shows. Where a keyword names a date
/// out of chrono's range from that day, the text is read as no date.
pub fn get(group: String, date: &str, groups: &GroupTable, book: &Option<Workbook>) -> (res: Option<Reply>)
    ensures
        exists|today: Date, parsed: Result<Date, ()>|
            #![trigger today.wf(), is_get_reply(parsed, group@, groups@, *book, res)]
            {
                &&& today.wf()
                &&& parsed matches Ok(d) ==> d.wf()
                &&& if keyword_range_ok(lowercase(date@), today) {
                    date_read_as(lowercase(date@), today, parsed)
                } else {
                    parsed is Err
                }
                &&& is_get_reply(parsed, group@, groups@, *book, res)
            },
{
    let today = local_today();
    if !keyword_in_range(date, today) {
        let res = Some(Reply { text: "Неверный формат даты".to_owned(), keyboard: None, html: false });
        assert(is_get_reply(Err(()), group@, groups@, *book, res));
        return res;
    }
    let res = get_on(group, date, groups, book, today);
    let ghost parsed = choose|parsed: Result<Date, ()>|
        {
            &&& date_read_as(lowercase(date@), today, parsed)
            &&& parsed matches Ok(d) ==> d.wf()
            &&& is_get_reply(parsed, group@, groups@, *book, res)
        };
    assert(today.wf() && is_get_reply(parsed, group@, groups@, *book, res));
    res
}

/// What pressing the calendar button of `group` for `date` is answered
/// with: the day's lessons, `None` where the answer is an error or needs a
/// Monday out of chrono's range.
pub open spec fn callback_answer(
    date: Date,
    group: Seq<char>,
    groups: Map<Seq<char>, (usize, usize)>,
    book: Option<Workbook>,
) -> Option<Seq<char>> {
    if schedule_defined(date, group, groups, book) {
        match schedule_answer(date, group, groups, book) {
            Ok(s) => Some(s),
            Err(_) => None,
        }
    } else {
        None
    }
}

/// The text sent for a calendar button pressed: the lessons of its group on
/// its day, as `callback_answer` states.
pub fn callback_handler(data: MessageMetadata, groups: &GroupTable, book: &Option<Workbook>) -> (res: Option<String>)
    requires
        data.date.wf(),
    ensures
        option_text(res) == callback_answer(data.date, data.group@, groups@, *book),
{
    match try_fetch_schedule(data.date, data.group, groups, book) {
        Some(Ok(s)) => Some(s),
        _ => None,
    }
}

} // verus!

verus! {

/// Law: on a given day, asking for the lessons of "завтра" or "tomorrow"
/// (in any letter case) answers what `tomorrow_on` answers that day: the
/// same text, sent as HTML.
pub proof fn law_tomorrow_word(
    date: Seq<char>,
    today: Date,
    parsed: Result<Date, ()>,
    group: Seq<char>,
    groups: Map<Seq<char>, (usize, usize)>,
    book: Option<Workbook>,
    asked: Option<Reply>,
    next: Option<Seq<char>>,
)
    requires
        today.wf(),
        lowercase(date) == "завтра"@ || lowercase(date) == "tomorrow"@,
        today.day_number() + 1 <= max_day_number(),
        date_read_as(lowercase(date), today, parsed),
        is_get_reply(parsed, group, groups, book, asked),
        is_schedule_reply(date_with_number(today.day_number() + 1), group, groups, book, next),
    ensures
        parsed == Ok::<Date, ()>(date_with_number(today.day_number() + 1)),
        reply_text_of(asked) == next,
        asked matches Some(r) ==> r.html,
{
    reveal_strlit("сегодня");
    reveal_strlit("today");
    reveal_strlit("now");
    reveal_strlit("завтра");
    reveal_strlit("tomorrow");
    let t = lowercase(date);
    assert(t.len() > 0);
    assert(relative_offset(t) == Some(1int));
    let d = parsed->Ok_0;
    lemma_date_with_number(d, today.day_number() + 1);
}

/// Law: each day button of the calendar sent to `group` on `today` is
/// labelled with its day of today's month and carries that day and the
/// group as given, so pressing it is answered with the lessons of `group`
/// on that day; each other button is a blank carrying nothing.
pub proof fn law_button_callback(
    group: Seq<char>,
    groups: Map<Seq<char>, (usize, usize)>,
    book: Option<Workbook>,
    today: Date,
    reply: Reply,
    i: int,
    j: int,
)
    requires
        today.wf(),
        is_group_reply(group, groups, today, reply),
        reply.keyboard matches Some(b) && 0 <= i < b@.len() && 0 <= j < b@[i]@.len(),
    ensures
        reply.keyboard matches Some(b) && match b@[i]@[j].data {
            Some(m) => {
                &&& m.group@ == group
                &&& m.date.wf()
                &&& m.date.year == today.year && m.date.month == today.month
                &&& b@[i]@[j].text@ == two_digits(m.date.day as int)
                &&& callback_answer(m.date, m.group@, groups, book) == if schedule_defined(
                    m.date,
                    group,
                    groups,
                    book,
                ) {
                    match schedule_answer(m.date, group, groups, book) {
                        Ok(s) => Some(s),
                        Err(_) => None,
                    }
                } else {
                    None
                }
            },
            None => b@[i]@[j].text@ == " "@,
        },
{
    let b = reply.keyboard->Some_0;
    assert(has_next_month(today));
    let weeks = choose|weeks: Seq<Vec<Option<Date>>>|
        is_month_grid(today, weeks) && #[trigger] is_keyboard(weeks, group, b@);
    crate::month::lemma_grid_dates(today, weeks);
    assert(b@[i]@.len() == weeks[i]@.len());
    assert(is_button_for(weeks[i]@[j], group, b@[i]@[j]));
    assert(weeks[i]@[j] == crate::month::calendar_slot(
        today.year as int,
        today.month as int,
        crate::month::first_of_month(today).weekday_index(),
        7 * i + j,
    ));
}

} // verus!
