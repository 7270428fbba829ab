# punc

A terminal Markdown editor that watches its file on disk and lets you review
outside changes as a diff before taking them in.

The editor's logic is a library verified with Verus; the program around it
(terminal, drawing, file I/O, file watching) is ordinary Rust.

## Layout

- `src/lines.rs` — the line model of a text: which chars break lines, where
  each line starts, and how a (line, column) position maps to a char index.
- `src/ropes.rs` — what the library relies on of `ropey::Rope`, stated over
  the rope's chars.
- `src/editor/` — the cursor, the bounded undo history, and the buffer:
  insertion, deletion, undo and redo, paging, and dirty tracking that follows
  the saved state.
- `src/markdown.rs`, `src/highlight.rs` — reading the Markdown shape of a line
  and splitting it into styled spans.
- `src/diff.rs` — the line diff between the buffer and the disk.
- `src/app.rs` — the editor state: modes, the review of outside changes, the
  quit confirmation, the outline and the preview.
- `src/keys.rs` — what each key does in each mode.
- `src/display.rs`, `src/view.rs` — soft wrapping by display width, scrolling
  that keeps the cursor on screen, and the texts the screen shows.
- `src/cli.rs` — the command line, the texts it prints, and the choice of
  clipboard helper.
- `src/watch.rs` — which file-system events concern the edited file.
- `app/` — `main`, the terminal loop, drawing with ratatui, reading and saving
  files, and the file watcher.
- `tests/` — tests of the library on concrete values.

The `law_*` proof functions state what holds across operations, such as that
an undo brings back the state before an edit, that Tab is one undo step, and
that accepting the disk version leaves the buffer clean.
