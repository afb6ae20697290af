//! The month calendar the bot offers for picking a day: weeks of seven
//! slots, Monday first, holding the days of the month.

use crate::date::{days_in_month, format_date, lemma_date_with_number, lemma_days_before_next_year, lemma_month_end, local_today, month_title_text, Date, MAX_YEAR};
use vstd::prelude::*;

verus! {

/// Slot `k` (counted from 0 over all weeks) of the calendar of month `m` of
/// year `y` whose first day falls on weekday `first` (Monday 0): the date of
/// that day, or `None` before the first and after the last day.
pub open spec fn calendar_slot(y: int, m: int, first: int, k: int) -> Option<Date> {
    if first <= k < first + days_in_month(y, m) {
        Some(Date { year: y as i32, month: m as u32, day: (k - first + 1) as u32 })
    } else {
        None
    }
}

/// The first day of the month of `d`.
pub open spec fn first_of_month(d: Date) -> Date {
    Date { year: d.year, month: d.month, day: 1 }
}

/// The calendar has a date for the first of the next month: the month is
/// not the last one chrono can hold.
pub open spec fn has_next_month(d: Date) -> bool {
    !(d.year == MAX_YEAR && d.month == 12)
}

/// `weeks` is the calendar of the month of `d`: one row of seven slots per
/// week, as many rows as the days need, slot `7 * i + j` being
/// `calendar_slot` of the month.
pub open spec fn is_month_grid(d: Date, weeks: Seq<Vec<Option<Date>>>) -> bool {
    let first = first_of_month(d).weekday_index();
    let n = days_in_month(d.year as int, d.month as int);
    &&& weeks.len() == (first + n + 6) / 7
    &&& forall|i: int| 0 <= i < weeks.len() ==> (#[trigger] weeks[i])@.len() == 7
    &&& forall|i: int, j: int|
        #![trigger weeks[i]@[j]]
        0 <= i < weeks.len() && 0 <= j < 7 ==> weeks[i]@[j] == calendar_slot(
            d.year as int,
            d.month as int,
            first,
            7 * i + j,
        )
}

/// The title `Month YYYY` of the month of `d`.
pub open spec fn is_month_title(d: Date, title: Seq<char>) -> bool {
    title == month_title_text(d)
}

/// The dates of a month's calendar are valid dates.
pub proof fn lemma_grid_dates(d: Date, weeks: Seq<Vec<Option<Date>>>)
    requires
        d.wf(),
        is_month_grid(d, weeks),
    ensures
        forall|i: int, j: int|
            #![trigger weeks[i]@[j]]
            0 <= i < weeks.len() && 0 <= j < weeks[i]@.len() ==> (weeks[i]@[j] matches Some(x)
                ==> x.wf()),
{
}

/// The last day of the month: the day before the first of the next month.
proof fn lemma_last_day(d: Date)
    requires
        d.wf(),
        has_next_month(d),
    ensures
        ({
            let last = Date {
                year: d.year,
                month: d.month,
                day: days_in_month(d.year as int, d.month as int) as u32,
            };
            let next = if d.month == 12 {
                Date { year: (d.year + 1) as i32, month: 1, day: 1 }
            } else {
                Date { year: d.year, month: (d.month + 1) as u32, day: 1 }
            };
            &&& last.wf()
            &&& next.wf()
            &&& last.day_number() == next.day_number() - 1
            &&& first_of_month(d).wf()
            &&& first_of_month(d).day_number() < next.day_number()
        }),
{
    lemma_month_end(d.year as int, d.month as int);
    lemma_days_before_next_year(d.year as int);
}

/// The calendar of the month of `today`, and its title `Month YYYY`.
pub fn month_calendar(today: Date) -> (res: (Vec<Vec<Option<Date>>>, String))
    requires
        today.wf(),
        has_next_month(today),
    ensures
        is_month_grid(today, res.0@),
        is_month_title(today, res.1@),
{
    let year = today.year;
    let month = today.month;
    let first_day = Date { year, month, day: 1 };
    let next_first = if month == 12 {
        Date { year: year + 1, month: 1, day: 1 }
    } else {
        Date { year, month: month + 1, day: 1 }
    };
    proof {
        lemma_last_day(today);
    }
    let last_day = match next_first.add_days(-1) {
        Some(d) => d,
        None => {
            assert(false);
            first_day
        },
    };
    let ghost last = Date { year, month, day: days_in_month(year as int, month as int) as u32 };
    proof {
        lemma_date_with_number(last, next_first.day_number() - 1);
    }
    assert(last_day == last);
    let num_days = last_day.day;
    let first_weekday = first_day.weekday();
    let ghost fw = first_weekday as int;
    let ghost n = num_days as int;

    let mut calendar: Vec<Vec<Option<Date>>> = Vec::new();
    let mut week: Vec<Option<Date>> = Vec::new();

    let mut k: u32 = 0;
    while k < first_weekday
        invariant
            k <= first_weekday < 7,
            calendar@.len() == 0,
            week@.len() == k,
            forall|j: int| 0 <= j < k ==> week@[j] is None,
        decreases first_weekday - k,
    {
        week.push(None);
        k = k + 1;
    }

    let mut day: u32 = 1;
    while day <= num_days
        invariant
            1 <= day <= num_days + 1,
            num_days == n,
            n == days_in_month(year as int, month as int),
            1 <= month <= 12,
            first_weekday == fw,
            0 <= fw < 7,
            fw == first_of_month(today).weekday_index(),
            year == today.year,
            month == today.month,
            today.wf(),
            week@.len() < 7,
            7 * calendar@.len() + week@.len() == fw + day - 1,
            forall|i: int| 0 <= i < calendar@.len() ==> (#[trigger] calendar@[i])@.len() == 7,
            forall|i: int, j: int|
                #![trigger calendar@[i]@[j]]
                0 <= i < calendar@.len() && 0 <= j < 7 ==> calendar@[i]@[j] == calendar_slot(
                    year as int,
                    month as int,
                    fw,
                    7 * i + j,
                ),
            forall|j: int|
                0 <= j < week@.len() ==> week@[j] == calendar_slot(
                    year as int,
                    month as int,
                    fw,
                    7 * calendar@.len() + j,
                ),
        decreases num_days + 1 - day,
    {
        let date = Date { year, month, day };
        week.push(Some(date));
        if week.len() == 7 {
            calendar.push(week);
            week = Vec::new();
        }
        day = day + 1;
    }

    if week.len() > 0 {
        while week.len() < 7
            invariant
                0 < week@.len() <= 7,
                7 * calendar@.len() + 7 > fw + n,
                7 * calendar@.len() + week@.len() >= fw + n,
                forall|j: int|
                    0 <= j < week@.len() ==> week@[j] == calendar_slot(
                        year as int,
                        month as int,
                        fw,
                        7 * calendar@.len() + j,
                    ),
                n == days_in_month(year as int, month as int),
                7 * calendar@.len() <= fw + n,
            decreases 7 - week@.len(),
        {
            week.push(None);
        }
        calendar.push(week);
    }
    let title = format_date(today, "%B %Y");
    (calendar, title)
}

/// The calendar of the month of `date`, or of the month the local clock
/// shows where `date` is `None`, and its title `Month YYYY`. Where the
/// month is the last one chrono can hold (December of `MAX_YEAR`, whose
/// next month has no first day) the weeks are left empty.
pub fn get_calendar(date: Option<Date>) -> (res: (Vec<Vec<Option<Date>>>, String))
    requires
        date matches Some(d) ==> d.wf(),
    ensures
        date matches Some(d) ==> {
            &&& is_month_title(d, res.1@)
            &&& if has_next_month(d) {
                is_month_grid(d, res.0@)
            } else {
                res.0@.len() == 0
            }
        },
        exists|today: Date|
            {
                &&& today.wf()
                &&& date matches Some(d) ==> today == d
                &&& is_month_title(today, res.1@)
                &&& if has_next_month(today) {
                    is_month_grid(today, res.0@)
                } else {
                    res.0@.len() == 0
                }
            },
{
    let today = match date {
        Some(d) => d,
        None => local_today(),
    };
    if today.year == MAX_YEAR && today.month == 12 {
        return (Vec::new(), format_date(today, "%B %Y"));
    }
    month_calendar(today)
}

} // verus!

verus! {

/// The week (counted from 0) of the calendar that holds day `k` of a month
/// whose 1st falls on weekday `first`.
pub open spec fn day_week(first: int, k: int) -> int {
    (first + k - 1) / 7
}

/// The column (Monday 0) of the calendar that holds day `k` of a month whose
/// 1st falls on weekday `first`.
pub open spec fn day_column(first: int, k: int) -> int {
    (first + k - 1) % 7
}

/// Law: the calendar shows each day of the month exactly once, in order,
/// Monday first: day `k` sits in week `(first + k - 1) / 7`, column
/// `(first + k - 1) % 7`, where `first` is the weekday of the 1st; every
/// other slot is blank; every week has seven slots and the calendar has
/// four to six weeks.
pub proof fn law_calendar_days(d: Date, weeks: Seq<Vec<Option<Date>>>)
    requires
        d.wf(),
        is_month_grid(d, weeks),
    ensures
        4 <= weeks.len() <= 6,
        forall|k: int|
            1 <= k <= days_in_month(d.year as int, d.month as int) ==> #[trigger] weeks[day_week(
                (Date { year: d.year, month: d.month, day: 1 }).weekday_index(),
                k,
            )]@[day_column((Date { year: d.year, month: d.month, day: 1 }).weekday_index(), k)] == Some(
                Date { year: d.year, month: d.month, day: k as u32 },
            ),
        forall|i: int, j: int|
            #![trigger weeks[i]@[j]]
            0 <= i < weeks.len() && 0 <= j < 7 ==> (weeks[i]@[j] matches Some(x) ==> x.year
                == d.year && x.month == d.month && x.day == 7 * i + j - (Date { year: d.year, month: d.month, day: 1 }).weekday_index() + 1),
{
    let first = (Date { year: d.year, month: d.month, day: 1 }).weekday_index();
    let n = days_in_month(d.year as int, d.month as int);
    assert(0 <= first < 7);
    assert(28 <= n <= 31);
    assert forall|k: int| 1 <= k <= n implies #[trigger] weeks[day_week(first, k)]@[day_column(first, k)]
        == Some(Date { year: d.year, month: d.month, day: k as u32 }) by {
        let q = first + k - 1;
        assert(7 * (q / 7) + q % 7 == q);
        assert(0 <= q / 7 < weeks.len());
    }
}

/// Law: the calendar of a date depends only on its year and month: two
/// dates of one month have the same weeks, slot for slot, and the same
/// title.
pub proof fn law_calendar_of_month(d1: Date, d2: Date, w1: Seq<Vec<Option<Date>>>, w2: Seq<Vec<Option<Date>>>)
    requires
        d1.year == d2.year,
        d1.month == d2.month,
        is_month_grid(d1, w1),
        is_month_grid(d2, w2),
    ensures
        w1.len() == w2.len(),
        forall|i: int| 0 <= i < w1.len() ==> #[trigger] w1[i]@ == w2[i]@,
        month_title_text(d1) == month_title_text(d2),
        has_next_month(d1) == has_next_month(d2),
{
    assert(first_of_month(d1) == first_of_month(d2));
    assert forall|i: int| 0 <= i < w1.len() implies #[trigger] w1[i]@ == w2[i]@ by {
        assert forall|j: int| 0 <= j < 7 implies w1[i]@[j] == w2[i]@[j] by {}
        assert(w1[i]@ =~= w2[i]@);
    }
}

} // verus!
