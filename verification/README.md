# schedule_bot

A Telegram bot that answers students with the day's lessons of their group,
read from the college timetable (an xlsx workbook with one sheet per week).

- `src/` is the library, verified with Verus: calendar dates and their
  arithmetic (`date`), reading dates users write (`date_parse`), the month
  calendar for picking a day (`month`), worksheet cells (`grid`), the
  sheet names and cells of the workbook (`workbook`), the groups of a week's
  sheet (`groups`), the day's lessons (`schedule`), the current week's
  groups of a new download (`update`) and the texts the bot sends (`bot`).
- `app/` is the bot itself: downloading and opening the workbook, the
  shared state, the chat.
- `tests/` runs the library on concrete dates, grids and small workbooks.

Opening a workbook and reading its sheets go through calamine, which panics
on some malformed files instead of returning an error (a compound-file
header cut short, or a sheet listing its rows out of order). So the library
does not call them: `app/` opens each download and reads every sheet, and
the library's `Workbook` holds the sheet names and the cells read (each
`calamine::Range` turned into a `Grid` by verified code). On such a file the
bot's update task panics, as calamine does.
