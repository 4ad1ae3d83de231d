# gwx

The logic of `gwx`, a manager of git worktrees, written in Verus: what may be
removed and in which order, what `gwx list` and `gwx clean` print, and how the
interactive screens take keys and draw themselves.

- `src/` is the library. Every function states what it returns or changes, and
  is proved to.
  - `text`, `path`, `git`: texts and their widths, paths as bytes, and what git
    tells about worktrees.
  - `commands`: `list`, `remove` and `clean`. A removal and a cleaning are state
    machines; `removal_laws` holds what is true of every removal from start to
    end.
  - `tui`: keys, the picker, its dialog and help line, the clean screen, and
    what holds of every frame (`draw_laws`). A frame is a list of things to
    draw, turned into the bytes a terminal takes.
- `app/` is the terminal, the threads and the calls to git around it.
- `tests/` runs the library on concrete values.

What is believed without proof is small: `String::push` and `pop`, the
lowercase of a text, the text of a byte run, crossterm's escape sequences and
its test for the control key.
