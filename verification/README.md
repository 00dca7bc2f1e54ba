# matrix-screensaver

A Matrix-style falling character rain screensaver for Linux (X11 and Wayland), built
around a formally verified library.

- `src/` — the verified library: configuration defaults and the configuration path,
  glyph tables, colour parsing, the clock overlay's per-frame decisions and placement,
  the screen grid and trail clipping, the exit sequence, window titles and their
  recognition, font selection, the order in which idle backends are probed and the
  polling state machine of the polling backends.
- `app/` — the program around it: SDL windows and drawing, reading the clock and the
  configuration file, the D-Bus, X11 and Wayland idle backends, and the floating-point
  animation (column motion, fades, flicker).
- `tests/` — tests of the library.
