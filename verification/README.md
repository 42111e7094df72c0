# mpvpaper-rs, verified core

A video wallpaper player for wlroots-based Wayland compositors: mpv renders
into layer-shell surfaces on one or all outputs, pauses or stops when the
wallpaper is covered or a listed program runs, and hands the outputs to a
small holder process while stopped.

## Layout

- `src/` is the library, verified with Verus. It holds the decisions of the
  program as functions from plain values to plain values, each with a
  contract, and the laws that tie them together:
  - `cli` — the command-line grammar, validation, and the arguments with
    which the player and the holder relaunch each other;
  - `handover`, `holder` — where the two programs are, which arguments can
    be passed on, and when the holder revives the player;
  - `config`, `process` — configuration paths, the watch-list format, and
    matching programs against a snapshot of the process table;
  - `control` — the shared pause/stop state and one step of each worker;
  - `mpv` — the user's `-o` options, the saved playback position, and
    which outputs are drawn;
  - `startup` — output selector, watch lists, and mpv's option and property
    plans;
  - `wayland`, `render` — output selection and listing, per-output geometry,
    HiDPI sizes, and the search for a GL context.
- `app/` runs the program around the library: Wayland, EGL, mpv, threads,
  signals, files and `exec`.
- `tests/` exercises the library on concrete values.
