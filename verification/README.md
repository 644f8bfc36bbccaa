# freya_terminal

The core of a terminal widget, verified with Verus: a pty session from the setup of
its master to the cells that are drawn.

- `src/` is the library. `lifecycle` sets a session up step by step and kills and reaps
  the command when a step fails. `session` takes in what the program prints: it keeps
  the emulated screen, answers queries, remembers the working directory, title and
  clipboard, and refreshes the buffer that a widget draws (`buffer`, `pty`, `reply`).
  `fd_pty` decides what becomes of the calls on a master that was opened elsewhere.
  `emulator`, `decoder` and `size` hold what is trusted of `vt100`, `termwiz` and
  `portable-pty`. `laws` states what holds across functions, `runs` what holds however
  the output is cut into reads, and `turns` in which order reads, updates and the close
  come.
- `tests/` runs the library with those crates linked.
- `app/` is the event loop: descriptors, processes, tasks and notifications.
