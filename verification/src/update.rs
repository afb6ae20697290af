//! The groups of the current week's sheet of a freshly downloaded
//! timetable.

use crate::date::{format_date, law_weekday_after_days, local_today, min_day_number, two_digits, Date};
use crate::groups::{header_groups, GroupTable, LAST_HEADER_COLUMN};
use crate::schedule::{find_sheet, first_containing, law_week_text, week_text};
use crate::workbook::Workbook;
use vstd::prelude::*;

verus! {

/// The groups of the week of `today` in the workbook `w`: those of the
/// header row of the first sheet whose name holds the week's Monday as
/// `dd.mm`; `None` where the Monday lies out of chrono's range, no sheet
/// name holds it, or that sheet cannot be read.
pub open spec fn week_groups_of(w: Workbook, today: Date) -> Option<Map<Seq<char>, (usize, usize)>> {
    if today.day_number() - today.weekday_index() < min_day_number() {
        None
    } else {
        match first_containing(w.names(), week_text(today), 0) {
            None => None,
            Some(i) => match w.sheet(i) {
                None => None,
                Some(sheet) => Some(header_groups(sheet.0, sheet.1, LAST_HEADER_COLUMN + 1)),
            },
        }
    }
}

/// The groups of the week of `today` in the workbook, as `week_groups_of`
/// states.
pub fn week_groups(book: &Workbook, today: Date) -> (res: Option<GroupTable>)
    requires
        today.wf(),
    ensures
        match res {
            Some(t) => week_groups_of(*book, today) == Some(t@),
            None => week_groups_of(*book, today) is None,
        },
{
    let monday = match today.week_start() {
        Some(m) => m,
        None => {
            return None;
        },
    };
    let week = format_date(monday, "%d.%m");
    let names = book.sheet_names();
    let index = match find_sheet(names, week.as_str()) {
        Some(i) => i,
        None => {
            return None;
        },
    };
    let sheet = match book.worksheet(index) {
        Some(g) => g,
        None => {
            return None;
        },
    };
    Some(GroupTable::from_header(sheet))
}

/// The groups of the week the local clock shows in a newly read workbook,
/// as `week_groups` reads them.
pub fn refresh(book: &Workbook) -> (res: Option<GroupTable>)
    ensures
        exists|today: Date|
            #![trigger today.wf()]
            today.wf() && match res {
                Some(t) => week_groups_of(*book, today) == Some(t@),
                None => week_groups_of(*book, today) is None,
            },
{
    let today = local_today();
    week_groups(book, today)
}

/// Law: the groups of a week come from the header row of the first sheet
/// whose name holds the week's Monday as `dd.mm`, the same sheet the
/// lessons of every day of that week are read from; `None` where no sheet
/// name holds it or that sheet could not be read.
pub proof fn law_week_groups(w: Workbook, today: Date, monday: Date)
    requires
        today.wf(),
        monday.wf(),
        monday.weekday_index() == 0,
        monday.day_number() <= today.day_number() < monday.day_number() + 7,
    ensures
        week_groups_of(w, today) == match first_containing(
            w.names(),
            two_digits(monday.day as int) + "."@ + two_digits(monday.month as int),
            0,
        ) {
            None => None,
            Some(i) => match w.sheet(i) {
                None => None,
                Some(sheet) => Some(header_groups(sheet.0, sheet.1, 291)),
            },
        },
{
    law_week_text(today, monday);
    law_weekday_after_days(monday, today, today.day_number() - monday.day_number());
}

} // verus!
