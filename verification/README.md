# chip8

A CHIP-8 virtual machine whose instruction semantics are stated and proved
with Verus, and a winit + pixels frontend around it.

- `src/machine.rs`: the machine (`Chip8`), its mathematical model
  (`Machine`), the meaning of each instruction (`execute`, `next_state`) and
  the bounds a cycle must stay in (`step_fault`).
- `src/instruction.rs`: opcode decoding.
- `src/frame.rs`: one 60 Hz frame (a batch of cycles, then the timers).
- `src/keymap.rs`: physical keyboard position to keypad key.
- `src/render.rs`: the screen as RGBA bytes.
- `src/laws.rs`: properties across instructions (call/return, store/load,
  carries and borrows, drawing twice, waiting for a key, the font).
- `app/main.rs`: window, event loop, input, rendering and frame pacing.
