# dsh_tui

The verified core of the dsh inline terminal: what the terminal shows and how it answers
keys and host frames, proved with Verus.

- `src/text.rs`, `src/unicode.rs`: character helpers, and the calls into `std`,
  `unicode-segmentation` (grapheme clusters) and `ratatui-core` (display widths).
- `src/fit.rs`: keeping the end of a status label within a number of columns.
- `src/draft.rs`: the input draft, editable lines with a grapheme-aware cursor.
- `src/terminal.rs`: the frame the host sends, the application state, and the command
  and picker menus.
- `src/update.rs`: the state machine: every message, its new state and the actions the
  driver performs (write to scrollback, send an event to the host, exit).
- `src/tail.rs`: the live area under the transcript, row by row, sized to the terminal.
- `src/probe.rs`: the PTY probe used to check the terminal framework.
- `src/laws.rs`: properties that span several messages.
- `app/`: the Node binding (napi), the probe program and the eye_declare driver glue.
