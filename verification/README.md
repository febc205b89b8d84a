# oxitailr

A terminal log viewer and live tailer: it follows local files and remote files
over SSH, parses each line (plain text or JSON), filters and highlights lines,
fires alerts on matching lines, and keeps SSH passwords in an encrypted store.

## Layout

- `src/` — the library, verified with Verus. Each public function states its
  behaviour in `requires`/`ensures`; the laws of the library (what the log
  buffer keeps, alert cooldowns, line assembly across reads, form round trips,
  the credential file's read-after-write) are public proof functions or
  clauses of the functions they concern.
  - `models`, `text`, `strmap`: log entries, levels, string helpers, a small
    string-keyed map.
  - `parser`, `json`, `clock`: plain and JSON line parsing, timestamps.
  - `filter`, `pattern`: filter rules and the filter engine over compiled
    regexes.
  - `alert`: alert rules, cooldowns and dispatch; notification texts.
  - `tail`, `ssh`, `source`: following files (partial lines, rotation),
    the remote `tail` command, known hosts, the authentication steps,
    source bookkeeping.
  - `appcore`, `view`: the application state, ingestion of source events,
    key handling (search navigation among them), search matches and
    the visible window of lines.
  - `config`, `session`, `credentials`, `dialogs`, `palette`, `ansi`, `size`,
    `paths`: configuration values, the encrypted credential store, form
    state, colors, ANSI escape handling and size formatting.
- `tests/` — tests run against the compiled library.
- `app/` — the program around the library: command line, file and network
  I/O, the async source tasks, desktop/webhook/bell alerts and the ratatui
  frontend.
