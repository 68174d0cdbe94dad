# chip8

A verified CHIP-8 interpreter core.

- `src/semantics.rs` states what every instruction does to the machine
  (`step`) and when the interpreter cannot execute it (`faults`).
- `src/machine.rs` holds the machine and the verified operations: `fetch`,
  `execute` / `decode`, program and font loading, timers and keypad events.
- `src/display.rs` turns the frame buffer into the list of rectangles that a
  front end paints.
- `src/keypad.rs` maps host keys to the hex keypad.
- `src/diagnostics.rs` says which instructions the interpreter reports on
  at the console.
- `src/grid.rs` and `src/rng.rs` are the trusted boundary to the `array2d`
  and `rand` crates.
- `src/laws.rs` proves properties that span instructions.
- `app/main.rs` is the SDL front end: file reading, window, events, drawing.
