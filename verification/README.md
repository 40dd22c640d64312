# tide

A terminal IDE: a file tree, tabbed code editors, a shell pane and a fuzzy
search popup, plus `tidy`, a small stand-alone shell. The state of the
application and every decision it takes on a key press, a mouse event or
an entered command are a Verus-verified library; a thin front end draws
the panes and does the terminal, file, process and thread work.

## Layout

- `src/` — the verified library.
  - `geometry` — rectangles, the two dividers and their drag bands.
  - `events` — the key and mouse events the library tells apart.
  - `popup_menu` — a list with a wrapping highlight, capped insertion.
  - `text` — UTF-8 offsets, whitespace splitting, number parsing and
    printing, line splitting, path joining.
  - `input` — the shell's command line with its history and queue.
  - `search` (and `search::menu`) — search results, their scores and
    locations, and the ranked result menu with its query line.
  - `file_system` — the file tree: reading, expanding and collapsing
    directories, hidden entries, the walk order.
  - `shell` — working directory, exported variables, the command run.
  - `application` — the whole application state, the handling of keys,
    mouse events and commands as a state change plus an action for the
    front end to perform, and the layout helpers the drawing uses.
  - `tidy` — the small shell's line editing.
  - `laws` — properties that span several operations.
- `tests/` — tests of the library on concrete values.
- `app/` — the front end: terminal setup, drawing with `ratatui`, the
  event thread, editors, file reads and writes, the search threads and the
  pseudo-terminal that runs commands. It checks each library call's
  precondition before making it.

Outside crates that only compute (`nucleo` for scoring, `bstr` for
trimming, `crc64` for checksums) are called from the library through
wrappers whose contracts state what the crates' sources show.
