# serie

A terminal browser for the commit graph of a git repository, with its
graph layout, rendering decisions and view logic written in Verus and
proved against their specifications.

## Layout

- `src/` — the verified library.
  - `graph/` — commit columns, the edges of every row (including how merge
    lines are routed around commits and other lines), the pixel shapes of a
    row image, and the box-drawing text rows used when no image protocol is
    available.
  - `git.rs` — reading `git log`, `show-ref` and `stash list` output, and
    the arguments of the ref operations.
  - `widget/`, `view/` — the commit list, detail, refs and dialog views, and
    how each key changes them.
  - `protocol.rs` — the iTerm2 and kitty image sequences and the choice of
    protocol; `watch.rs` — automatic refreshing.
  - `config.rs`, `keybind.rs`, `event.rs` — settings, key bindings and the
    events the application reacts to.
- `app/` — the program around the library: command-line options, reading
  the configuration file, running `git`, drawing with ratatui and the event
  loop.
- `tests/` — tests of the library on concrete values.
