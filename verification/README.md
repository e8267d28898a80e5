# chip8_emulator

A CHIP-8 interpreter whose core is verified with Verus.

- `src/instruction.rs`: the 35 opcodes, `decode` and its specification.
- `src/semantics.rs`: the abstract machine state `Chip8State` and what one
  cycle does to it (`Chip8State::step`), including when a cycle would leave
  memory or the range of its arithmetic (`Chip8State::can_step`).
- `src/engine.rs`: `Chip8Engine`, proved to refine `Chip8State::step`.
- `src/message.rs`: the error messages of refused cycles.
- `src/random.rs`: the random byte for `CXNN`, from the `rand` crate.
- `src/laws.rs`: properties over several cycles (call/return, sprite XOR,
  BCD, register store/load, carry, keypad).
- `app/`: the terminal runner and the `wasm-bindgen` interface for the browser.
