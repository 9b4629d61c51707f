# chip8

A CHIP-8 interpreter whose machine is verified with Verus.

- `src/state.rs`: the mathematical model of the machine (`MachineState`) and the effect
  of every instruction, of a fetch, of a whole cycle and of a timer tick.
- `src/chip8.rs`: the machine (`Chip8`), each instruction proved against its effect, and
  the cycle that fetches, decodes and executes.
- `src/frontend.rs`: the key map of the keypad and the rectangles to paint for a screen.
- `src/session.rs`: what a window event does to a running program, and one display frame.
- `src/laws.rs`: properties that span instructions (the invariant every cycle keeps, `RET`
  after `CALL`, drawing twice, decimal digits, store and read of registers, arithmetic
  flags, waiting for a key, the key map).
- `src/rng.rs`: the calls into `rand`.
- `app/`: the SDL window, the ROM file and the main loop.
