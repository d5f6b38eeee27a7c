# rustdac

Control logic of a real-time echo-cancelling audio bridge, verified with Verus.

The bridge captures the microphone, cancels the echo of what the speaker plays with `aec3`, and
hands the result to a virtual microphone. It sleeps while nobody listens or nothing is heard,
finds its silence threshold by measuring the ambient level, and shows its state in the terminal.

- `src/` is the library. It decides when the processing thread sleeps and wakes (`gate`,
  `calibration`, `processor`), moves samples (`frames`, `highpass`), chooses the canceller's
  settings (`preset`), reads who uses the virtual microphone (`devices`, `sessions`), and says what
  the screen shows and where (`console`, `panels`, `layout`, `text`). Levels, thresholds and output
  samples are bit patterns (`single`), so that every comparison has a contract.
- `app/` is the program: devices, threads, the terminal and floating-point signal processing.
- `tests/` runs the library with the real outside crates.

Two calls into outside crates are trusted: the canceller's default settings in `preset` and the
row layout in `layout`. Each says in its comment what is taken for granted.
