# todo_core

A personal todo list: four life sections (Sp, I, Si, P), importance levels,
due dates, an archive of todos completed more than a day ago, and dated daily
boards with a general backlog. Unfinished todos are carried forward when the
next daily board is created.

- `src/` is the library, verified with Verus:
  - `model` — sections, importance levels and the request and response types;
  - `text` — character helpers, decimal formatting, text order, trimming;
  - `date` — `YYYY-MM-DD` validation, leap years, the next day, shifting by days;
  - `daily` — daily boards: status, create with carry-forward, placing todos;
  - `listing` — list filters, the archive window, the four sort orders, section counts;
  - `todos` — creating, updating, toggling, deleting todos, and reading stored rows;
  - `client` — what the web client computes: URLs, the daily header, panels, edits;
  - `forms` — the client's forms as state and events: quick add, the archive
    filters, the daily view's dates, adding to and removing from Daily, the
    board picker's confirm step.
- `tests/` exercises the library.
- `app/` is the HTTP server (actix-web, SQLite): it reads the stored state,
  lets the library decide, and writes the result back.
