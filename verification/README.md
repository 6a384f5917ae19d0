# mewtui

A three-pane terminal code editor: a shell on the left, a code editor in the
middle, a file tree on the right.

The editor's state and rules live in `src/`, written in Verus and proved
against their contracts:

- `editor/` — the rope-backed text buffer (cursor, selection, edits) over a
  line model of the text, and syntax highlighting by file extension;
- `filetree/` — directory listings ordered directories first and by name
  without regard to case, expansion and selection;
- `shell/` — the terminal screen that escape sequences write into, and how
  the shell's working directory is found;
- `keys.rs` — what each key sends to the shell;
- `app.rs` — what each key does to the whole state, and the outside work
  it asks for;
- `theme.rs`, `ui.rs` — the themes and the pieces of drawing that are
  computed (gutter width, colors of a line, runs of alike cells).

Each module states its laws as public proof functions named `law_*`.

`app/` is the program: terminal setup and drawing with ratatui and
crossterm, the PTY with portable-pty and vte, the clipboard with arboard,
and reading files and directories. `tests/` runs the library on concrete
values.
