# amux

A friendly client for persistent local and remote agent sessions, backed by
tmux. The library in `src/` holds the logic and is verified with Verus; the
program in `app/` reads the command line and the terminal, runs tmux, and
draws with ratatui.

- `src/model.rs` — targets, sessions, panes.
- `src/tmux.rs` — the argument lists sent to tmux, the parsing of its
  listings, shell quoting of commands, error messages.
- `src/dashboard.rs` — the dashboard's state (sessions, the selected
  session's panes, focus) and how it answers keys, clicks, the wheel and its
  buttons, including starting a session from the launcher.
- `src/session_view.rs` — the session view's state: pane selection, scroll
  offsets, command mode, keys forwarded to panes, captures, cursor, footer.
- `src/refresh.rs` — a refresh of the session view as a sequence of tmux
  round trips.
- `src/geometry.rs` — where tmux's panes are drawn, separators and frames.
- `src/ansi.rs` — decoding captured pane output with its SGR escapes.
- `src/screen.rs` — the lines and styles the screens show.
- `src/table.rs`, `src/text.rs` — table rows and character helpers.

Run the tests with `cargo test`; verify `src/` with Verus.
