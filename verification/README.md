# r2d2wm

A Discord bot that posts messages on cron schedules, and the HTTP API that
stores the schedule in SQLite.

- `src/` is the library, verified with Verus: the data model (tasks,
  messages, identifiers), the cron expression grammar, the reading of database
  rows into tasks, the text of the bot's messages and answers, and the
  decisions of the commands and the API.
- `app/` holds the programs around it: the Discord client, the job scheduler,
  the HTTP server and client, the database connection, files and the
  environment. `r2d2wm api` serves the API; `r2d2wm` runs the bot.
- `tests/` exercises the library.
