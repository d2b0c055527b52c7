# maxalert

MaxAlert is a desktop to-do list with a deadline siren: sticky notes on every monitor,
a full-screen siren three minutes before a deadline, points, levels, badges and a daily
reward, and a two-way link with a Notion database.

`src/` is the verified library (Verus). It holds the application's rules as plain values
with contracts:

- `store`: the saved data; `todos`: adding, editing, completing, postponing and deleting
  to-dos, and the theme shop; `logic`: points, levels, badges and the daily reward;
  `order`, `sorting`: the display order; `report`: the daily report.
- `siren`: when the siren sounds and for which to-do, and the siren's own state;
  `screen`: where the small notes go, which small-note windows are kept for which
  monitor, and what the cursor poll sends.
- `notion`, `sync`: reading Notion replies, building requests, and merging a day's pages.
- `update`, `download`: release versions, the update manifest and installer checks;
  `pages`: the addresses of the application's own pages.
- `clock`, `ids`, `text`: dates and times, ids and labels, text helpers.

`app/` is the desktop shell around it: windows, tray, timers, the data file and HTTP.
`tests/` runs the library on concrete values.

Two things the desktop shell asks of helpers that this code base does not have are left
out: choosing the next weekday for "postpone to the next weekday" and keeping the same
local time on that day (the library's `todos_defer` does the rest of that command, given
the day and the moved deadline, but the shell offers no such command), and a `stage`
value for the siren and reward pages, whose addresses carry everything else.
