# chip8

A CHIP-8 interpreter whose core is verified with Verus.

- `src/model.rs`: the abstract machine (`Machine`) and the meaning of every
  instruction (`Machine::step`), with the condition under which an
  instruction can run at all (`Machine::step_defined`).
- `src/machine.rs`: the executable machine `Chip8`, its construction and
  program loading.
- `src/execute.rs`: instruction execution, proved to follow `Machine::step`.
- `src/peripherals.rs`: timers, keypad and the scaled frame buffer.
- `src/laws.rs`: properties across instructions (call/return, sprite
  drawing, register store/load, decimal conversion, glyphs, timers).
- `src/entropy.rs`: the trusted calls that feed the random byte.
- `app/main.rs`: the window loop (minifb), keyboard mapping and pacing.

Run with `cargo run --release -- path/to/rom.ch8`.
