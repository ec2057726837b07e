# discord-vc-statsmaster (verified core)

The logic of a Discord bot that tracks time spent in voice channels, keeps
per-user todo lists with deadlines, and posts and resets a weekly leaderboard.

- `src/` is the library, verified with Verus: weekly schedules and the UTC slot
  of an instant (`schedule`), deadline texts (`deadline`), voice sessions and
  the time they credit (`sessions`), todo-list buttons, delete menus and
  autocomplete labels (`todo`), clicks on the bot's components
  (`interactions`), command replies and reports (`replies`), release
  announcements (`changelog`), and the text primitives they share (`text`).
  `clock` holds the calls into chrono and std that read the clock, parse user
  dates and lowercase text.
- `app/` is the bot itself: Discord commands and events (poise/serenity),
  SQLite queries (sqlx, with the schema migrations read from `./migrations`
  at start-up), the GitHub request (reqwest) and the background task that runs
  the weekly reset.
- `tests/` exercises the library on concrete values.
