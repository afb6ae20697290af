//! The day's lessons of a group, read from the week's sheet of the
//! timetable workbook.

use crate::date::{date_with_number, day_month_text, format_date, law_weekday_after_days, lemma_date_with_number, min_day_number, two_digits, Date};
use crate::grid::{cell_at, Cell, Grid};
use crate::groups::{GroupTable, LAST_HEADER_COLUMN};
use crate::text::{contains_text, i64_to_text, int_text, lowercase, split_once_slash, str_contains, to_lowercase};
use crate::workbook::Workbook;
use vstd::prelude::*;

verus! {

/// The number of lessons a day has in the timetable.
pub const LESSONS_PER_DAY: u32 = 5;

/// The row (counted from the top-left cell of the sheet) of the first lesson
/// of weekday `weekday` (Monday 0 to Saturday 5).
pub open spec fn day_row(weekday: int) -> int {
    7 + 6 * weekday
}

/// The position of the first text in `names` (from the `i`-th on) that
/// contains `text`.
pub open spec fn first_containing(names: Seq<Seq<char>>, text: Seq<char>, i: int) -> Option<int>
    decreases names.len() - i,
{
    if i < 0 || i >= names.len() {
        None
    } else if contains_text(names[i], text) {
        Some(i)
    } else {
        first_containing(names, text, i + 1)
    }
}

/// The first text found is one of the texts, and contains the text sought.
pub proof fn lemma_first_containing(names: Seq<Seq<char>>, text: Seq<char>, i: int)
    ensures
        first_containing(names, text, i) matches Some(k) ==> i <= k < names.len() && contains_text(
            names[k],
            text,
        ),
    decreases names.len() - i,
{
    if 0 <= i < names.len() && !contains_text(names[i], text) {
        lemma_first_containing(names, text, i + 1);
    }
}

/// The sheet of the week whose name holds "не" is that of the odd
/// ("нечётная") week.
pub open spec fn is_odd_week(sheet_name: Seq<char>) -> bool {
    contains_text(sheet_name, "не"@)
}

/// The position of the first `/` in `s` (its length where there is none).
pub open spec fn slash_index(s: Seq<char>) -> int
    decreases s.len(),
{
    if s.len() == 0 {
        0
    } else if s[0] == '/' {
        0
    } else {
        1 + slash_index(s.drop_first())
    }
}

/// The cell that holds the lesson of row `row` in the group's column `col`:
/// in an even week the cell to its right, when that one is not empty.
pub open spec fn lesson_cell(rows: Seq<Seq<Cell>>, sheet_name: Seq<char>, row: int, col: int) -> Option<Cell> {
    let cell = cell_at(rows, row, col);
    if !is_odd_week(sheet_name) {
        match cell_at(rows, row, col + 1) {
            Some(next) => if !next.is_empty_cell() {
                Some(next)
            } else {
                cell
            },
            None => cell,
        }
    } else {
        cell
    }
}

/// The time of the lessons of row `row`: the text in column 2, or nothing.
pub open spec fn time_text(rows: Seq<Seq<Cell>>, row: int) -> Seq<char> {
    match cell_at(rows, row, 2) {
        Some(Cell::String(t)) => t@,
        _ => Seq::empty(),
    }
}

/// The classroom of the lesson of row `row`, from the cell two columns to
/// the right of the group's: of a text `odd/even`, the part of the week
/// (nothing for a text without `/`); a number as written; otherwise
/// `Nodata`.
pub open spec fn room_text(rows: Seq<Seq<Cell>>, sheet_name: Seq<char>, row: int, col: int) -> Seq<char> {
    match cell_at(rows, row, col + 2) {
        Some(Cell::String(c)) => if c@.contains('/') {
            if is_odd_week(sheet_name) {
                c@.take(slash_index(c@))
            } else {
                c@.skip(slash_index(c@) + 1)
            }
        } else {
            Seq::empty()
        },
        Some(Cell::Int(v)) => int_text(v as int),
        Some(Cell::Float(t)) => t@,
        _ => "Nodata"@,
    }
}

/// The line of lesson `l` (counted from 0) of weekday `weekday` for the
/// group in column `col`, or `None` where the lesson cell holds no text.
pub open spec fn lesson_line(
    rows: Seq<Seq<Cell>>,
    sheet_name: Seq<char>,
    weekday: int,
    col: int,
    l: int,
) -> Option<Seq<char>> {
    let row = day_row(weekday) + l;
    match lesson_cell(rows, sheet_name, row, col) {
        Some(Cell::String(lesson)) => Some(
            int_text(l + 1) + ": Время: <b>"@ + time_text(rows, row) + "</b>, Аудитория: <b>"@
                + room_text(rows, sheet_name, row, col) + "</b> <blockquote>"@ + lesson@
                + "</blockquote> \n"@,
        ),
        _ => None,
    }
}

/// The lines of the first `n` lessons of the day, one after the other.
pub open spec fn day_lines(
    rows: Seq<Seq<Cell>>,
    sheet_name: Seq<char>,
    weekday: int,
    col: int,
    n: int,
) -> Seq<char>
    decreases n,
{
    if n <= 0 {
        Seq::empty()
    } else {
        day_lines(rows, sheet_name, weekday, col, n - 1) + match lesson_line(
            rows,
            sheet_name,
            weekday,
            col,
            n - 1,
        ) {
            Some(t) => t,
            None => Seq::empty(),
        }
    }
}

/// A `/` at position `a.len()` with none before it is the first one.
proof fn lemma_slash_index(s: Seq<char>, a: Seq<char>, b: Seq<char>)
    requires
        s == a + seq!['/'] + b,
        !a.contains('/'),
    ensures
        slash_index(s) == a.len(),
        s.take(slash_index(s)) == a,
        s.skip(slash_index(s) + 1) == b,
    decreases a.len(),
{
    if a.len() == 0 {
        assert(s[0] == '/');
        assert(s.skip(1) == b);
    } else {
        assert(s[0] == a[0]);
        if a[0] == '/' {
            assert(a.contains('/'));
        }
        let s2 = s.drop_first();
        let a2 = a.drop_first();
        assert(s2 == a2 + seq!['/'] + b);
        assert(!a2.contains('/')) by {
            if a2.contains('/') {
                let k = choose|k: int| 0 <= k < a2.len() && a2[k] == '/';
                assert(a[k + 1] == '/');
            }
        }
        lemma_slash_index(s2, a2, b);
        assert(s.take(slash_index(s)) == seq![s[0]] + s2.take(slash_index(s2)));
        assert(s.skip(slash_index(s) + 1) == s2.skip(slash_index(s2) + 1));
    }
}

/// Appends `b` to `a`.
fn push_text(a: &mut String, b: &str)
    ensures
        final(a)@ == old(a)@ + b@,
{
    a.append(b);
}

/// The classroom text of the lesson of row `row` (see `room_text`).
fn room_of(sheet: &Grid, odd: bool, row: usize, col: usize) -> (res: String)
    requires
        sheet.wf(),
        col <= LAST_HEADER_COLUMN,
    ensures
        forall|name: Seq<char>|
            is_odd_week(name) == odd ==> res@ == room_text(sheet.view_rows(), name, row as int, col as int),
{
    match sheet.get(row, col + 2) {
        Some(Cell::String(c)) => {
            match split_once_slash(c.as_str()) {
                Some((a, b)) => {
                    proof {
                        lemma_slash_index(c@, a@, b@);
                    }
                    if odd {
                        a
                    } else {
                        b
                    }
                },
                None => String::new(),
            }
        },
        Some(Cell::Int(v)) => i64_to_text(*v),
        Some(Cell::Float(t)) => t.as_str().to_owned(),
        _ => "Nodata".to_owned(),
    }
}

/// The lesson lines of weekday `weekday` (Monday 0 to Saturday 5) for the
/// group whose column is `col`, from the sheet `sheet` named `sheet_name`:
/// for each of the day's lessons whose cell holds a text, the line
/// `N: Время: <b>time</b>, Аудитория: <b>room</b> <blockquote>lesson</blockquote> `.
pub fn render_day(sheet: &Grid, sheet_name: &str, weekday: u32, col: usize) -> (res: String)
    requires
        sheet.wf(),
        weekday < 6,
        col <= LAST_HEADER_COLUMN,
    ensures
        res@ == day_lines(sheet.view_rows(), sheet_name@, weekday as int, col as int, 5),
{
    let odd = str_contains(sheet_name, "не");
    let ghost rows = sheet.view_rows();
    let mut response = String::new();
    let mut lesson_index: u32 = 0;
    while lesson_index < LESSONS_PER_DAY
        invariant
            lesson_index <= LESSONS_PER_DAY,
            sheet.wf(),
            rows == sheet.view_rows(),
            weekday < 6,
            col <= LAST_HEADER_COLUMN,
            odd == is_odd_week(sheet_name@),
            response@ == day_lines(rows, sheet_name@, weekday as int, col as int, lesson_index as int),
        decreases LESSONS_PER_DAY - lesson_index,
    {
        let row = (7 + 6 * weekday + lesson_index) as usize;
        let mut cell = sheet.get(row, col);
        if !odd {
            match sheet.get(row, col + 1) {
                Some(next) => {
                    match next {
                        Cell::Empty => {},
                        _ => {
                            cell = Some(next);
                        },
                    }
                },
                None => {},
            }
        }
        assert(cell == match lesson_cell(rows, sheet_name@, row as int, col as int) {
            Some(c) => Some(&c),
            None => None,
        });
        match cell {
            Some(Cell::String(lesson)) => {
                let time = match sheet.get(row, 2) {
                    Some(Cell::String(t)) => t.as_str().to_owned(),
                    _ => String::new(),
                };
                let room = room_of(sheet, odd, row, col);
                let number = i64_to_text((lesson_index + 1) as i64);
                let ghost before = response@;
                push_text(&mut response, number.as_str());
                push_text(&mut response, ": Время: <b>");
                push_text(&mut response, time.as_str());
                push_text(&mut response, "</b>, Аудитория: <b>");
                push_text(&mut response, room.as_str());
                push_text(&mut response, "</b> <blockquote>");
                push_text(&mut response, lesson.as_str());
                push_text(&mut response, "</blockquote> \n");
                assert(lesson_line(rows, sheet_name@, weekday as int, col as int, lesson_index as int)
                    == Some(response@.skip(before.len() as int)));
                assert(response@ == before + response@.skip(before.len() as int));
            },
            _ => {
                assert(lesson_line(rows, sheet_name@, weekday as int, col as int, lesson_index as int)
                    is None);
            },
        }
        lesson_index = lesson_index + 1;
    }
    response
}

} // verus!

verus! {

/// The texts of a list of strings.
pub open spec fn texts(v: Seq<String>) -> Seq<Seq<char>> {
    v.map_values(|s: String| s@)
}

/// The position of the first of `names` that contains `text`.
pub fn find_sheet(names: &Vec<String>, text: &str) -> (res: Option<usize>)
    ensures
        match res {
            Some(i) => first_containing(texts(names@), text@, 0) == Some(i as int),
            None => first_containing(texts(names@), text@, 0) is None,
        },
        res matches Some(i) ==> i < names@.len(),
{
    proof {
        lemma_first_containing(texts(names@), text@, 0);
    }
    let n = names.len();
    let mut i: usize = 0;
    while i < n
        invariant
            0 <= i <= n,
            n == names@.len(),
            first_containing(texts(names@), text@, 0) == first_containing(
                texts(names@),
                text@,
                i as int,
            ),
        decreases n - i,
    {
        if str_contains(names[i].as_str(), text) {
            return Some(i);
        }
        i = i + 1;
    }
    None
}

/// The text of the week's sheet name: the Monday of the week as `dd.mm`.
pub open spec fn week_text(date: Date) -> Seq<char> {
    day_month_text(date_with_number(date.day_number() - date.weekday_index()))
}

/// What asking for the lessons of `group` on `date` answers, given the
/// groups of the week and the workbook (if one was read): `Выходной` on a
/// Sunday; for a group not in the table `Группа не найдена`; without a
/// workbook, or where no sheet name holds the week's Monday as `dd.mm`, or
/// that sheet cannot be read, `500 Internal Server Error`; otherwise the
/// day's lesson lines from the first sheet whose name holds the Monday.
pub open spec fn schedule_answer(
    date: Date,
    group: Seq<char>,
    groups: Map<Seq<char>, (usize, usize)>,
    book: Option<Workbook>,
) -> Result<Seq<char>, Seq<char>> {
    let weekday = date.weekday_index();
    let key = lowercase(group);
    if weekday == 6 {
        Ok("Выходной"@)
    } else if !groups.contains_key(key) {
        Err("Группа не найдена"@)
    } else {
        match book {
            None => Err("500 Internal Server Error"@),
            Some(w) => match first_containing(w.names(), week_text(date), 0) {
                None => Err("500 Internal Server Error"@),
                Some(i) => match w.sheet(i) {
                    None => Err("500 Internal Server Error"@),
                    Some(sheet) => Ok(
                        day_lines(sheet.1, w.names()[i], weekday, groups[key].1 as int, LESSONS_PER_DAY as int),
                    ),
                },
            },
        }
    }
}

/// The week's Monday is a date chrono can hold wherever the answer needs it.
pub open spec fn schedule_defined(
    date: Date,
    group: Seq<char>,
    groups: Map<Seq<char>, (usize, usize)>,
    book: Option<Workbook>,
) -> bool {
    date.weekday_index() != 6 && groups.contains_key(lowercase(group)) && book is Some
        ==> min_day_number() <= date.day_number() - date.weekday_index()
}

/// The texts of a result.
pub open spec fn result_texts(r: Result<String, String>) -> Result<Seq<char>, Seq<char>> {
    match r {
        Ok(s) => Ok(s@),
        Err(e) => Err(e@),
    }
}

/// The lessons of `group` (in any letter case) on `date`, as
/// `schedule_answer` states.
pub fn fetch_schedule(date: Date, group: String, groups: &GroupTable, book: &Option<Workbook>) -> (res: Result<String, String>)
    requires
        date.wf(),
        schedule_defined(date, group@, groups@, *book),
    ensures
        result_texts(res) == schedule_answer(date, group@, groups@, *book),
{
    let weekday = date.weekday();
    if weekday == 6 {
        return Ok("Выходной".to_owned());
    }
    let key = to_lowercase(group.as_str());
    let column = match groups.get(key.as_str()) {
        Some(entry) => entry.1,
        None => {
            return Err("Группа не найдена".to_owned());
        },
    };
    let workbook = match book {
        Some(w) => w,
        None => {
            return Err("500 Internal Server Error".to_owned());
        },
    };
    let monday = match date.week_start() {
        Some(m) => m,
        None => {
            assert(false);
            return Err("500 Internal Server Error".to_owned());
        },
    };
    let week = format_date(monday, "%d.%m");
    let names = workbook.sheet_names();
    assert(texts(names@) == workbook.names());
    let index = match find_sheet(names, week.as_str()) {
        Some(i) => i,
        None => {
            return Err("500 Internal Server Error".to_owned());
        },
    };
    let sheet_name = &names[index];
    let sheet = match workbook.worksheet(index) {
        Some(g) => g,
        None => {
            return Err("500 Internal Server Error".to_owned());
        },
    };
    Ok(render_day(sheet, sheet_name.as_str(), weekday, column))
}

/// The lessons of `group` on `date` as `fetch_schedule` answers, or `None`
/// where the answer needs the week's Monday and that lies before the
/// earliest date chrono can hold.
pub fn try_fetch_schedule(date: Date, group: String, groups: &GroupTable, book: &Option<Workbook>) -> (res: Option<Result<String, String>>)
    requires
        date.wf(),
    ensures
        res is Some <==> schedule_defined(date, group@, groups@, *book),
        res matches Some(r) ==> result_texts(r) == schedule_answer(date, group@, groups@, *book),
{
    let weekday = date.weekday();
    if weekday != 6 && book.is_some() {
        let key = to_lowercase(group.as_str());
        if groups.contains(key.as_str()) && date.week_start().is_none() {
            return None;
        }
    }
    Some(fetch_schedule(date, group, groups, book))
}

} // verus!

verus! {

/// Law: on a Sunday the answer is `Выходной`, whatever the group and the
/// workbook.
pub proof fn law_sunday_is_day_off(
    date: Date,
    group: Seq<char>,
    groups: Map<Seq<char>, (usize, usize)>,
    book: Option<Workbook>,
)
    requires
        date.wf(),
        date.weekday_index() == 6,
    ensures
        schedule_answer(date, group, groups, book) == Ok::<Seq<char>, Seq<char>>("Выходной"@),
{
}

/// Law: on a weekday, a group the table does not hold is answered
/// `Группа не найдена`, whatever the workbook.
pub proof fn law_unknown_group(
    date: Date,
    group: Seq<char>,
    groups: Map<Seq<char>, (usize, usize)>,
    book: Option<Workbook>,
)
    requires
        date.wf(),
        date.weekday_index() != 6,
        !groups.contains_key(lowercase(group)),
    ensures
        schedule_answer(date, group, groups, book) == Err::<Seq<char>, Seq<char>>(
            "Группа не найдена"@,
        ),
{
}

/// Law: group names are matched without regard to letter case: names with
/// the same lower case get the same answer.
pub proof fn law_group_case_insensitive(
    date: Date,
    a: Seq<char>,
    b: Seq<char>,
    groups: Map<Seq<char>, (usize, usize)>,
    book: Option<Workbook>,
)
    requires
        lowercase(a) == lowercase(b),
    ensures
        schedule_answer(date, a, groups, book) == schedule_answer(date, b, groups, book),
{
}

/// Law: the lines of a day come in lesson order, one for each lesson whose
/// cell holds a text, each beginning with the lesson's number.
pub proof fn law_day_lines(
    rows: Seq<Seq<Cell>>,
    sheet_name: Seq<char>,
    weekday: int,
    col: int,
    n: int,
)
    requires
        0 <= n,
    ensures
        n > 0 ==> day_lines(rows, sheet_name, weekday, col, n) == day_lines(
            rows,
            sheet_name,
            weekday,
            col,
            n - 1,
        ) + match lesson_line(rows, sheet_name, weekday, col, n - 1) {
            Some(t) => t,
            None => Seq::<char>::empty(),
        },
        forall|l: int|
            0 <= l < n ==> (#[trigger] lesson_line(rows, sheet_name, weekday, col, l) matches Some(
                t,
            ) ==> t.take(int_text(l + 1).len() as int) == int_text(l + 1)),
{
    assert forall|l: int| 0 <= l < n implies (#[trigger] lesson_line(
        rows,
        sheet_name,
        weekday,
        col,
        l,
    ) matches Some(t) ==> t.take(int_text(l + 1).len() as int) == int_text(l + 1)) by {
        match lesson_line(rows, sheet_name, weekday, col, l) {
            Some(t) => {
                let p = int_text(l + 1);
                assert(t == p + (t.skip(p.len() as int)));
                assert(t.take(p.len() as int) == p);
            },
            None => {},
        }
    }
}

/// Law: which cell holds a row's lesson for the group in column `col`. In
/// a sheet whose name holds "не" (the odd week) it is the group's own cell.
/// In any other sheet (the even week) a cell to its right that is there and
/// not empty takes its place, whatever the group's own cell holds; where
/// the cell to the right is empty or missing it is the group's own cell.
pub proof fn law_lesson_cell(rows: Seq<Seq<Cell>>, sheet_name: Seq<char>, row: int, col: int)
    ensures
        contains_text(sheet_name, "не"@) ==> lesson_cell(rows, sheet_name, row, col) == cell_at(
            rows,
            row,
            col,
        ),
        !contains_text(sheet_name, "не"@) ==> (cell_at(rows, row, col + 1) matches Some(c) ==> (c
            != Cell::Empty ==> lesson_cell(rows, sheet_name, row, col) == Some(c))),
        !contains_text(sheet_name, "не"@) ==> (cell_at(rows, row, col + 1) is None || cell_at(
            rows,
            row,
            col + 1,
        ) == Some(Cell::Empty) ==> lesson_cell(rows, sheet_name, row, col) == cell_at(
            rows,
            row,
            col,
        )),
{
}

/// Law: the line of lesson `l` of weekday `weekday` reads the sheet row
/// `7 + 6 * weekday + l`. Where the lesson cell of that row holds a text,
/// the line starts with the lesson's number and `: Время: <b>`, then the
/// text of column 2 (nothing where it holds no text), and ends with the
/// lesson's text in a blockquote and a line break; where it holds no text
/// there is no line.
pub proof fn law_lesson_line(rows: Seq<Seq<Cell>>, sheet_name: Seq<char>, weekday: int, col: int, l: int)
    ensures
        lesson_cell(rows, sheet_name, 7 + 6 * weekday + l, col) matches Some(Cell::String(s)) ==> {
            let t = lesson_line(rows, sheet_name, weekday, col, l)->0;
            let head = int_text(l + 1) + ": Время: <b>"@ + match cell_at(rows, 7 + 6 * weekday + l, 2) {
                Some(Cell::String(x)) => x@,
                _ => Seq::empty(),
            };
            let tail = "<blockquote>"@ + s@ + "</blockquote> \n"@;
            &&& lesson_line(rows, sheet_name, weekday, col, l) is Some
            &&& head.len() + tail.len() <= t.len()
            &&& t.take(head.len() as int) == head
            &&& t.skip(t.len() - tail.len()) == tail
        },
        !(lesson_cell(rows, sheet_name, 7 + 6 * weekday + l, col) matches Some(Cell::String(_)))
            ==> lesson_line(rows, sheet_name, weekday, col, l) is None,
{
    let row = 7 + 6 * weekday + l;
    match lesson_cell(rows, sheet_name, row, col) {
        Some(Cell::String(s)) => {
            let t = lesson_line(rows, sheet_name, weekday, col, l)->0;
            let head = int_text(l + 1) + ": Время: <b>"@ + time_text(rows, row);
            let mid = "</b>, Аудитория: <b>"@ + room_text(rows, sheet_name, row, col) + "</b> "@;
            let tail = "<blockquote>"@ + s@ + "</blockquote> \n"@;
            reveal_strlit("</b> <blockquote>");
            reveal_strlit("</b> ");
            reveal_strlit("<blockquote>");
            assert("</b> <blockquote>"@ == "</b> "@ + "<blockquote>"@);
            assert(t == head + mid + tail);
            assert(t.take(head.len() as int) == head);
            assert(t.skip(t.len() - tail.len()) == tail);
        },
        _ => {},
    }
}

/// Law: a classroom text `a/b` (with no `/` in `a`) two columns to the
/// right of the group's gives `a` in a sheet whose name holds "не" (the odd
/// week) and `b` in any other.
pub proof fn law_room_halves(
    rows: Seq<Seq<Cell>>,
    sheet_name: Seq<char>,
    row: int,
    col: int,
    c: String,
    a: Seq<char>,
    b: Seq<char>,
)
    requires
        cell_at(rows, row, col + 2) == Some(Cell::String(c)),
        c@ == a + seq!['/'] + b,
        !a.contains('/'),
    ensures
        room_text(rows, sheet_name, row, col) == if contains_text(sheet_name, "не"@) {
            a
        } else {
            b
        },
{
    lemma_slash_index(c@, a, b);
    assert(c@[a.len() as int] == '/');
}

/// Law: the classroom of a lesson, from the cell two columns to the right
/// of the group's: a text without `/` gives nothing, a whole number its
/// decimal digits, a float the text written of it, and a cell that is
/// missing, empty or of another kind gives `Nodata`.
pub proof fn law_room_text(rows: Seq<Seq<Cell>>, sheet_name: Seq<char>, row: int, col: int)
    ensures
        cell_at(rows, row, col + 2) matches Some(Cell::String(c)) ==> (!c@.contains('/') ==> room_text(
            rows,
            sheet_name,
            row,
            col,
        ) == Seq::<char>::empty()),
        cell_at(rows, row, col + 2) matches Some(Cell::Int(v)) ==> room_text(rows, sheet_name, row, col)
            == int_text(v as int),
        cell_at(rows, row, col + 2) matches Some(Cell::Float(f)) ==> room_text(rows, sheet_name, row, col)
            == f@,
        cell_at(rows, row, col + 2) is None || cell_at(rows, row, col + 2) == Some(Cell::Empty)
            || cell_at(rows, row, col + 2) == Some(Cell::Other) ==> room_text(
            rows,
            sheet_name,
            row,
            col,
        ) == "Nodata"@,
{
}

/// Law: the week's sheet is the first sheet whose name holds the text
/// sought: the one found holds it and no earlier one does; none is found
/// only where no name holds it.
pub proof fn law_first_sheet(names: Seq<Seq<char>>, text: Seq<char>)
    ensures
        first_containing(names, text, 0) matches Some(i) ==> {
            &&& 0 <= i < names.len()
            &&& contains_text(names[i], text)
            &&& forall|j: int| 0 <= j < i ==> !contains_text(#[trigger] names[j], text)
        },
        first_containing(names, text, 0) is None ==> forall|j: int|
            0 <= j < names.len() ==> !contains_text(#[trigger] names[j], text),
{
    lemma_first_sheet_from(names, text, 0);
}

/// `first_containing` from position `k` on skips exactly the names that do
/// not hold the text.
proof fn lemma_first_sheet_from(names: Seq<Seq<char>>, text: Seq<char>, k: int)
    requires
        0 <= k,
    ensures
        first_containing(names, text, k) matches Some(i) ==> {
            &&& k <= i < names.len()
            &&& contains_text(names[i], text)
            &&& forall|j: int| k <= j < i ==> !contains_text(#[trigger] names[j], text)
        },
        first_containing(names, text, k) is None ==> forall|j: int|
            k <= j < names.len() ==> !contains_text(#[trigger] names[j], text),
    decreases names.len() - k,
{
    if k < names.len() {
        lemma_first_sheet_from(names, text, k + 1);
    }
}

/// Law: the week's sheet is looked up by its Monday: the text sought for a
/// date is the day and month, two digits each with a dot between, of the
/// Monday of the date's Monday-to-Sunday week.
pub proof fn law_week_text(date: Date, monday: Date)
    requires
        date.wf(),
        monday.wf(),
        monday.weekday_index() == 0,
        monday.day_number() <= date.day_number() < monday.day_number() + 7,
    ensures
        week_text(date) == two_digits(monday.day as int) + "."@ + two_digits(monday.month as int),
{
    law_weekday_after_days(monday, date, date.day_number() - monday.day_number());
    lemma_date_with_number(monday, date.day_number() - date.weekday_index());
}

/// Law: on a weekday other than Sunday, for a group the table holds, the
/// answer comes from the first sheet whose name holds the Monday of the
/// date's week as `dd.mm`: its five lesson rows of the date's weekday, in
/// the group's column; `500 Internal Server Error` without a workbook, where
/// no sheet name holds that Monday, or where that sheet could not be read.
pub proof fn law_answer_sheet(
    date: Date,
    monday: Date,
    group: Seq<char>,
    groups: Map<Seq<char>, (usize, usize)>,
    book: Option<Workbook>,
)
    requires
        date.wf(),
        monday.wf(),
        monday.weekday_index() == 0,
        monday.day_number() <= date.day_number() < monday.day_number() + 7,
        date.weekday_index() != 6,
        groups.contains_key(lowercase(group)),
    ensures
        schedule_answer(date, group, groups, book) == match book {
            None => Err::<Seq<char>, Seq<char>>("500 Internal Server Error"@),
            Some(w) => match first_containing(
                w.names(),
                two_digits(monday.day as int) + "."@ + two_digits(monday.month as int),
                0,
            ) {
                None => Err("500 Internal Server Error"@),
                Some(i) => match w.sheet(i) {
                    None => Err("500 Internal Server Error"@),
                    Some(sheet) => Ok(
                        day_lines(sheet.1, w.names()[i], date.weekday_index(), groups[lowercase(group)].1 as int, 5),
                    ),
                },
            },
        },
{
    law_week_text(date, monday);
}

} // verus!
