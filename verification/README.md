# asciicut

A cutting editor for asciinema `.cast` recordings: parse a v2/v3 recording,
preview the terminal screen at any time, show an activity waveform, compose
an edit project (kept segments, speed, idle cap, end holds) into a new cast,
and export it to video through the bundled `agg` and `ffmpeg` helpers.

## Layout

- `src/` — the verified library (Verus):
  - `text.rs` — trimming, line splitting and integer parsing with the same
    acceptance rules as `str::trim`, `str::lines` and `str::parse`.
  - `cast.rs` — event codes, document layout, header normalization, parse
    errors and their messages.
  - `terminal.rs`, `frame.rs` — replay through the `avt` virtual terminal
    and the screen snapshot (text rows padded to width, drawn cells).
  - `activity.rs` — change-density scoring and bucket accumulation.
  - `session.rs`, `paths.rs` — the editing session and sibling-file naming.
  - `export.rs`, `sidecars.rs` — export formats, sidecar command lines and
    lookup, progress parsing, and the export pipeline as a state machine.
  - `desktop.rs` — the unsaved-changes quit guard and export handle.
  - `cli.rs`, `dto.rs` — command-line dispatch, request defaults, wire shapes.
- `app/` — the program around it: the floating-point event clock, compose
  timing, JSON encoding, file I/O, the HTTP preview server and the CLI.
- `tests/` — tests of the library.
