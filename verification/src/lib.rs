//! A CHIP-8 virtual machine: memory, registers, stack, display and keypad,
//! with the meaning of every opcode stated and proved.
//!
//! - [`machine`]: the machine, its model and the semantics of a cycle.
//! - [`instruction`]: decoding opcodes into instructions.
//! - [`frame`]: a 60 Hz frame of cycles and timer ticks.
//! - [`keymap`]: the physical keyboard layout of the keypad.
//! - [`render`]: the screen as RGBA pixels.
//! - [`laws`]: properties that span instructions.
//! - [`opcode_laws`]: what each instruction, a cycle and a timer period do,
//!   stated directly over the state before and after.
//! - [`decode_laws`]: decoding inverts the opcode layout.
pub mod decode_laws;
pub mod frame;
pub mod instruction;
pub mod keymap;
pub mod laws;
pub mod machine;
pub mod opcode_laws;
pub mod render;

pub use frame::{CYCLES_PER_FRAME, CPU_HZ, TIMER_HZ};
pub use instruction::{decode, Instruction};
pub use keymap::scancode_to_chip8;
pub use machine::{
    Chip8, Fault, UnknownOpcode, DISPLAY_HEIGHT, DISPLAY_SIZE, DISPLAY_WIDTH, MAX_ROM_SIZE,
};
pub use render::frame_rgba;
