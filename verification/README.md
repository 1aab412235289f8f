# zappaw

The logic of a terminal chat client, verified with Verus.

- `src/client/` — the networked client: its state (`app`), the line editor
  (`input`), text measuring, clipping, padding and wrapping (`text`), what the
  drawing routines place where (`draw`), the server API's records and URLs
  (`api`), slash commands (`commands`) and the decisions of the event loop
  (`events`).
- `src/local/` — the offline demo chat, which shares the editor and text
  layout, plus the intro art, the help panel and the chat bubble layout.
- `src/chars.rs`, `src/width.rs`, `src/timing.rs` — character classes, UTF-8
  offsets, decimal formatting, display widths (from `unicode-width`) and clock
  readings.
- `src/laws.rs` — properties that span several operations.
- `app/` — the terminal program around the library: HTTP calls, files,
  drawing with crossterm and ratatui, and the event loop.
