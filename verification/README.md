# ducktabe

DuckDB Tabular Explorer: a terminal UI that opens a tabular file (Parquet, CSV,
anything DuckDB reads), exposes it as the view `df`, runs the SQL typed in its
editor with `Ctrl+R`, and shows the first rows of the result in a scrollable
table whose header gives each column's name and type.

## Layout

- `src/` — the library, verified with Verus:
  - `sql.rs` — the statements sent to the database (the view `df`, the schema
    read, the 2048-row limit).
  - `batch.rs` — record batches held as text; the rows and schema read from them.
  - `table.rs` — the opened file, the tables shown (result, notice, error) and
    their drawing through `comfy-table`.
  - `app.rs` — the output panel: what it shows, its size, the cut into header
    and content, scrolling.
  - `events.rs` — the key bindings.
  - `ui.rs` — figures the screen layout is computed from.
  - `text.rs` — lines, joining and display width of text.
  - `error.rs` — the errors and their messages.
- `app/` — the program: command line, DuckDB connection, conversion of Arrow
  record batches, terminal setup, event loop and drawing with `ratatui`.
- `tests/` — tests of the library.

Keys: `Ctrl+R` run query, `Ctrl+W` toggle output wrap, `Ctrl` + arrows (or
`h j k l`) scroll results, `Esc` quit.
