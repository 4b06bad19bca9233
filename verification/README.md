# apex-equalizer

A spectrum-analyser display for a panel of 128 by 40 dots.

- `src/` is the library, verified with Verus. It decides everything that does
  not need floating-point arithmetic or a device: settings and their limits
  (`settings`), which device and configuration to capture from (`device`), the
  steps of starting capture (`stream`) and the messages when it fails
  (`error`), the sample history and the bars' levels (`capture`, `bands`), and
  the picture (`frame`, `equalizer`). What holds over several steps of capture
  is stated in `laws`. Floating-point values pass through it as
  bit patterns, which it compares (`single`, `double`) but does not compute
  with.
- `app/` captures audio, does the arithmetic, and serves the pictures as a
  stream.
- `tests/` runs the library.
