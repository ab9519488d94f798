# vnlog

The logic of a Discord bot that keeps a log of visual-novel reading, as a
library verified with Verus, and the bot around it.

- `src/text.rs`: reading unsigned numbers from text and writing integers in
  decimal.
- `src/duration.rs`: reading durations in the `[hour:min]` and `[min]`
  forms, printing them as `h:mm`, and the proof that printing and reading
  back agree.
- `src/calendar.rs`: points in time, the start of the last week, monthly tab
  names (calendar questions go to `chrono`).
- `src/stats.rs`: totals of a user's logs and the statistics reply.
- `src/messages.rs`: the other replies and small decisions (vndb links,
  refresh tokens, ordinals).
- `src/sheets.rs`: the spreadsheet row of a new log.
- `app/`: the bot itself (Discord commands, database, vndb and Google
  Sheets calls), which calls the library.
