# chip8

A CHIP-8 virtual machine whose instruction interpreter is verified with Verus.

- `src/` is the library. `semantics.rs` states what every instruction does
  over a mathematical model of the machine (`MachineState`); `chip8.rs`
  implements fetch, decode and execute and proves each against that model.
  `stack.rs`, `memory.rs`, `display.rs`, `sprite.rs`, `keyboard.rs`,
  `timer.rs` and `cpu.rs` hold the machine's parts, `opcode.rs` the operand
  fields of an opcode, `frame.rs` one frame of ten instruction cycles and a timer countdown,
  `random.rs` the one call into `rand`, and `laws.rs`
  the properties that relate several instructions.
- `app/` opens a window with `winit`, shows the screen through `pixels`,
  and runs one frame of the machine per display refresh.
- `tests/` exercises the library on concrete programs.
