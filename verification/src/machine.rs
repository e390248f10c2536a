//! The CHIP-8 virtual machine: memory, registers, stack, display, keypad.
//!
//! - [`Chip8::new`] builds a fresh machine with the font set in RAM.
//! - [`Chip8::load_rom`] copies a program into memory at `0x200`.
//! - [`Chip8::tick`] fetches, decodes and executes one instruction.
//! - [`Chip8::decrement_timers`] is meant to be called at 60 Hz.
//! - `display` and `keypad` are public so that a frontend can read the
//!   screen and write key states.
//!
//! The meaning of every operation is stated over [`Machine`], the
//! mathematical model of a `Chip8` (its view).
use vstd::prelude::*;
use crate::instruction::{decode, operands_in_range, spec_decode, Instruction};
use vstd::arithmetic::div_mod::{lemma_fundamental_div_mod, lemma_fundamental_div_mod_converse};

verus! {

pub const DISPLAY_WIDTH: usize = 64;

pub const DISPLAY_HEIGHT: usize = 32;

pub const DISPLAY_SIZE: usize = 2048;

pub const MEMORY_SIZE: usize = 4096;

pub const NUM_REGISTERS: usize = 16;

pub const STACK_SIZE: usize = 16;

pub const NUM_KEYS: usize = 16;

/// Programs start at `0x200` in RAM; the first 512 bytes were historically
/// reserved for the interpreter.
pub const PROGRAM_START: u16 = 0x200;

/// Address of the built-in font sprites.
pub const FONT_BASE: u16 = 0x50;

/// The largest program that fits in memory after `PROGRAM_START`.
pub const MAX_ROM_SIZE: usize = 3584;

/// The 16 hexadecimal digit sprites `0..F`, five bytes each, one byte per
/// row of 8 pixels.
pub open spec fn font_glyphs() -> Seq<u8> {
    seq![
        0xF0u8, 0x90, 0x90, 0x90, 0xF0,  // 0
        0x20, 0x60, 0x20, 0x20, 0x70,  // 1
        0xF0, 0x10, 0xF0, 0x80, 0xF0,  // 2
        0xF0, 0x10, 0xF0, 0x10, 0xF0,  // 3
        0x90, 0x90, 0xF0, 0x10, 0x10,  // 4
        0xF0, 0x80, 0xF0, 0x10, 0xF0,  // 5
        0xF0, 0x80, 0xF0, 0x90, 0xF0,  // 6
        0xF0, 0x10, 0x20, 0x40, 0x40,  // 7
        0xF0, 0x90, 0xF0, 0x90, 0xF0,  // 8
        0xF0, 0x90, 0xF0, 0x10, 0xF0,  // 9
        0xF0, 0x90, 0xF0, 0x90, 0x90,  // A
        0xE0, 0x90, 0xE0, 0x90, 0xE0,  // B
        0xF0, 0x80, 0x80, 0x80, 0xF0,  // C
        0xE0, 0x90, 0x90, 0x90, 0xE0,  // D
        0xF0, 0x80, 0xF0, 0x80, 0xF0,  // E
        0xF0, 0x80, 0xF0, 0x80, 0x80,  // F
    ]
}

/// The mathematical model of a machine: the state that instructions read
/// and write.
pub struct Machine {
    pub memory: Seq<u8>,
    pub v: Seq<u8>,
    pub i: u16,
    pub pc: u16,
    pub stack: Seq<u16>,
    pub sp: u8,
    pub delay_timer: u8,
    pub sound_timer: u8,
    pub display: Seq<bool>,
    pub keypad: Seq<bool>,
}

/// Why executing the instruction at `pc` would leave the machine's bounds.
#[derive(Clone, Copy, Debug, PartialEq, Eq, Structural)]
pub enum Fault {
    /// The two opcode bytes at `pc` are not both inside memory.
    PcOutOfMemory,
    /// `RET` with an empty call stack.
    StackUnderflow,
    /// `CALL` with a full call stack (or `RET` with a corrupt stack pointer).
    StackOverflow,
    /// The instruction reads or writes memory past its end, starting at `I`.
    MemoryOutOfRange,
    /// `EX9E` / `EXA1` with a key code `Vx` that is not a key.
    KeyOutOfRange,
}

/// An opcode that the machine does not implement; it was skipped.
#[derive(Clone, Copy, Debug, PartialEq, Eq, Structural)]
pub struct UnknownOpcode {
    pub opcode: u16,
    /// The address the opcode was fetched from.
    pub address: u16,
}

/// The initial memory: zeros, with the font set at `FONT_BASE`.
pub open spec fn initial_memory() -> Seq<u8> {
    Seq::new(
        4096,
        |a: int|
            if 0x50 <= a < 0xA0 {
                font_glyphs()[a - 0x50]
            } else {
                0u8
            },
    )
}

/// A freshly built machine.
pub open spec fn initial_machine() -> Machine {
    Machine {
        memory: initial_memory(),
        v: Seq::new(16, |k: int| 0u8),
        i: 0,
        pc: 0x200,
        stack: Seq::new(16, |k: int| 0u16),
        sp: 0,
        delay_timer: 0,
        sound_timer: 0,
        display: Seq::new(2048, |k: int| false),
        keypad: Seq::new(16, |k: int| false),
    }
}

/// The machine after `rom` has been copied to `PROGRAM_START`.
pub open spec fn with_program(s: Machine, rom: Seq<u8>) -> Machine {
    Machine {
        memory: Seq::new(
            s.memory.len(),
            |a: int|
                if 0x200 <= a < 0x200 + rom.len() {
                    rom[a - 0x200]
                } else {
                    s.memory[a]
                },
        ),
        ..s
    }
}

/// A timer one 60 Hz period later: one less, but never below zero.
pub open spec fn timer_after_period(t: u8) -> u8 {
    if t > 0 {
        (t - 1) as u8
    } else {
        0
    }
}

/// The machine after one 60 Hz timer period.
pub open spec fn after_timer_period(s: Machine) -> Machine {
    Machine {
        delay_timer: timer_after_period(s.delay_timer),
        sound_timer: timer_after_period(s.sound_timer),
        ..s
    }
}

/// The opcode at `pc`, stored big-endian over two bytes.
pub open spec fn fetch_opcode(s: Machine) -> u16 {
    (s.memory[s.pc as int] * 256 + s.memory[s.pc + 1]) as u16
}

/// The instruction at `pc`.
pub open spec fn current_instruction(s: Machine) -> Instruction {
    spec_decode(fetch_opcode(s))
}

/// Skips the next instruction when `cond` holds.
pub open spec fn skip_if(s: Machine, cond: bool) -> Machine {
    if cond {
        Machine { pc: (s.pc + 2) as u16, ..s }
    } else {
        s
    }
}

/// Writes register `x`.
pub open spec fn set_reg(s: Machine, x: u8, val: u8) -> Machine {
    Machine { v: s.v.update(x as int, val), ..s }
}

/// Writes register `x`, then the flag register `VF` (so the flag wins when
/// `x` is `F`).
pub open spec fn set_reg_and_flag(s: Machine, x: u8, val: u8, flag: u8) -> Machine {
    Machine { v: s.v.update(x as int, val).update(15, flag), ..s }
}

/// Bit `col` (0 = leftmost, 7 = rightmost) of a sprite row.
pub open spec fn sprite_bit(row_bits: u8, col: int) -> bool {
    (row_bits >> ((7 - col) as u8)) & 1u8 == 1u8
}

/// Whether the screen pixel `idx` is a lit pixel of the `n`-row sprite read
/// from memory at `i`, placed with its top-left corner at `(x0, y0)`.
/// Sprite pixels past the right or bottom edge fall on no screen pixel:
/// they are clipped.
pub open spec fn sprite_covers(memory: Seq<u8>, i: u16, x0: int, y0: int, n: int, idx: int) -> bool {
    let col = idx % 64 - x0;
    let row = idx / 64 - y0;
    &&& 0 <= col < 8
    &&& 0 <= row < n
    &&& sprite_bit(memory[i + row], col)
}

/// The column where a sprite drawn with `Vx` starts: wrapped onto the screen.
pub open spec fn sprite_x0(s: Machine, x: u8) -> int {
    (s.v[x as int] % 64) as int
}

/// The row where a sprite drawn with `Vy` starts: wrapped onto the screen.
pub open spec fn sprite_y0(s: Machine, y: u8) -> int {
    (s.v[y as int] % 32) as int
}

/// Whether drawing the sprite turns some lit pixel off.
pub open spec fn draw_collides(s: Machine, x: u8, y: u8, n: u8) -> bool {
    exists|idx: int|
        0 <= idx < 2048 && #[trigger] sprite_covers(
            s.memory,
            s.i,
            sprite_x0(s, x),
            sprite_y0(s, y),
            n as int,
            idx,
        ) && s.display[idx]
}

/// The screen after XOR-ing the sprite onto it.
pub open spec fn drawn_display(s: Machine, x: u8, y: u8, n: u8) -> Seq<bool> {
    Seq::new(
        2048,
        |idx: int|
            if sprite_covers(s.memory, s.i, sprite_x0(s, x), sprite_y0(s, y), n as int, idx) {
                !s.display[idx]
            } else {
                s.display[idx]
            },
    )
}

/// The lowest key code whose key is pressed, searching from `k`.
pub open spec fn first_pressed_from(keypad: Seq<bool>, k: int) -> Option<int>
    decreases 16 - k,
{
    if k >= 16 || k < 0 {
        None
    } else if keypad[k] {
        Some(k)
    } else {
        first_pressed_from(keypad, k + 1)
    }
}

/// The lowest key code whose key is pressed, if any.
pub open spec fn first_pressed(keypad: Seq<bool>) -> Option<int> {
    first_pressed_from(keypad, 0)
}

/// The effect of `ins` on `s`, whose `pc` already points past the
/// instruction. `random` is the byte that `CXNN` masks.
pub open spec fn execute(s: Machine, ins: Instruction, random: u8) -> Machine {
    match ins {
        Instruction::ClearScreen => Machine { display: Seq::new(2048, |k: int| false), ..s },
        Instruction::Return => Machine {
            sp: (s.sp - 1) as u8,
            pc: s.stack[s.sp - 1],
            ..s
        },
        Instruction::Jump { addr } => Machine { pc: addr, ..s },
        Instruction::Call { addr } => Machine {
            stack: s.stack.update(s.sp as int, s.pc),
            sp: (s.sp + 1) as u8,
            pc: addr,
            ..s
        },
        Instruction::SkipIfEqualImm { x, nn } => skip_if(s, s.v[x as int] == nn),
        Instruction::SkipIfNotEqualImm { x, nn } => skip_if(s, s.v[x as int] != nn),
        Instruction::SkipIfEqualReg { x, y } => skip_if(s, s.v[x as int] == s.v[y as int]),
        Instruction::LoadImm { x, nn } => set_reg(s, x, nn),
        Instruction::AddImm { x, nn } => set_reg(s, x, ((s.v[x as int] + nn) % 256) as u8),
        Instruction::Move { x, y } => set_reg(s, x, s.v[y as int]),
        Instruction::Or { x, y } => set_reg(s, x, s.v[x as int] | s.v[y as int]),
        Instruction::And { x, y } => set_reg(s, x, s.v[x as int] & s.v[y as int]),
        Instruction::Xor { x, y } => set_reg(s, x, s.v[x as int] ^ s.v[y as int]),
        Instruction::AddReg { x, y } => {
            let sum = s.v[x as int] + s.v[y as int];
            set_reg_and_flag(s, x, (sum % 256) as u8, if sum > 255 { 1 } else { 0 })
        },
        Instruction::SubReg { x, y } => {
            let diff = s.v[x as int] - s.v[y as int];
            set_reg_and_flag(
                s,
                x,
                ((diff + 256) % 256) as u8,
                if diff >= 0 { 1 } else { 0 },
            )
        },
        Instruction::ShiftRight { x } => set_reg_and_flag(
            s,
            x,
            s.v[x as int] >> 1u8,
            s.v[x as int] & 1u8,
        ),
        Instruction::SubReversed { x, y } => {
            let diff = s.v[y as int] - s.v[x as int];
            set_reg_and_flag(
                s,
                x,
                ((diff + 256) % 256) as u8,
                if diff >= 0 { 1 } else { 0 },
            )
        },
        Instruction::ShiftLeft { x } => set_reg_and_flag(
            s,
            x,
            s.v[x as int] << 1u8,
            (s.v[x as int] & 0x80u8) >> 7u8,
        ),
        Instruction::SkipIfNotEqualReg { x, y } => skip_if(s, s.v[x as int] != s.v[y as int]),
        Instruction::LoadIndex { addr } => Machine { i: addr, ..s },
        Instruction::JumpOffset { addr } => Machine { pc: (addr + s.v[0]) as u16, ..s },
        Instruction::Random { x, nn } => set_reg(s, x, random & nn),
        Instruction::Draw { x, y, n } => Machine {
            display: drawn_display(s, x, y, n),
            v: s.v.update(
                15,
                if draw_collides(s, x, y, n) {
                    1u8
                } else {
                    0u8
                },
            ),
            ..s
        },
        Instruction::SkipIfKey { x } => skip_if(s, s.keypad[s.v[x as int] as int]),
        Instruction::SkipIfNotKey { x } => skip_if(s, !s.keypad[s.v[x as int] as int]),
        Instruction::LoadDelay { x } => set_reg(s, x, s.delay_timer),
        Instruction::WaitKey { x } => match first_pressed(s.keypad) {
            Some(k) => set_reg(s, x, k as u8),
            None => Machine { pc: (s.pc - 2) as u16, ..s },
        },
        Instruction::SetDelay { x } => Machine { delay_timer: s.v[x as int], ..s },
        Instruction::SetSound { x } => Machine { sound_timer: s.v[x as int], ..s },
        Instruction::AddIndex { x } => Machine { i: ((s.i + s.v[x as int]) % 0x10000) as u16, ..s },
        Instruction::LoadFont { x } => Machine { i: (0x50 + s.v[x as int] * 5) as u16, ..s },
        Instruction::StoreBcd { x } => {
            let val = s.v[x as int];
            Machine {
                memory: s.memory.update(s.i as int, val / 100).update(
                    s.i + 1,
                    (val / 10) % 10,
                ).update(s.i + 2, val % 10),
                ..s
            }
        },
        Instruction::StoreRegs { x } => Machine {
            memory: Seq::new(
                s.memory.len(),
                |a: int|
                    if s.i <= a <= s.i + x {
                        s.v[a - s.i]
                    } else {
                        s.memory[a]
                    },
            ),
            ..s
        },
        Instruction::LoadRegs { x } => Machine {
            v: Seq::new(
                s.v.len(),
                |k: int|
                    if k <= x {
                        s.memory[s.i + k]
                    } else {
                        s.v[k]
                    },
            ),
            ..s
        },
        Instruction::Unknown => s,
    }
}

/// Whether executing `ins` on `s` stays inside the machine's bounds, and if
/// not, why.
pub open spec fn instruction_fault(s: Machine, ins: Instruction) -> Option<Fault> {
    match ins {
        Instruction::Return => if s.sp == 0 {
            Some(Fault::StackUnderflow)
        } else if s.sp > 16 {
            Some(Fault::StackOverflow)
        } else {
            None
        },
        Instruction::Call { .. } => if s.sp >= 16 {
            Some(Fault::StackOverflow)
        } else {
            None
        },
        Instruction::Draw { n, .. } => if n > 0 && s.i + n > 4096 {
            Some(Fault::MemoryOutOfRange)
        } else {
            None
        },
        Instruction::SkipIfKey { x } => if s.v[x as int] >= 16 {
            Some(Fault::KeyOutOfRange)
        } else {
            None
        },
        Instruction::SkipIfNotKey { x } => if s.v[x as int] >= 16 {
            Some(Fault::KeyOutOfRange)
        } else {
            None
        },
        Instruction::StoreBcd { .. } => if s.i + 2 >= 4096 {
            Some(Fault::MemoryOutOfRange)
        } else {
            None
        },
        Instruction::StoreRegs { x } => if s.i + x >= 4096 {
            Some(Fault::MemoryOutOfRange)
        } else {
            None
        },
        Instruction::LoadRegs { x } => if s.i + x >= 4096 {
            Some(Fault::MemoryOutOfRange)
        } else {
            None
        },
        _ => None,
    }
}

/// The machine with `pc` moved past the current instruction.
pub open spec fn advanced(s: Machine) -> Machine {
    Machine { pc: (s.pc + 2) as u16, ..s }
}

/// Why the next fetch / decode / execute cycle would leave the machine's
/// bounds, if it would.
pub open spec fn step_fault(s: Machine) -> Option<Fault> {
    if s.pc + 1 >= 4096 {
        Some(Fault::PcOutOfMemory)
    } else {
        instruction_fault(advanced(s), current_instruction(s))
    }
}

/// One fetch / decode / execute cycle.
pub open spec fn next_state(s: Machine, random: u8) -> Machine {
    execute(advanced(s), current_instruction(s), random)
}

/// What one cycle reports: the opcode it skipped, if it does not know it.
pub open spec fn unknown_opcode(s: Machine) -> Option<UnknownOpcode> {
    if current_instruction(s) is Unknown {
        Some(UnknownOpcode { opcode: fetch_opcode(s), address: s.pc })
    } else {
        None
    }
}

/// A CHIP-8 machine. Its model is [`Machine`] (`self@`).
pub struct Chip8 {
    /// 4 KB of RAM: the program (from `0x200`), sprites and data.
    memory: [u8; MEMORY_SIZE],
    /// Registers `V0..VF`; `VF` doubles as the flag register.
    v: [u8; NUM_REGISTERS],
    /// The index register.
    i: u16,
    /// Address of the next instruction.
    pc: u16,
    /// Return addresses of the subroutine calls in progress.
    stack: [u16; STACK_SIZE],
    /// Index of the next free stack slot; `0` means empty.
    sp: u8,
    /// Decremented at 60 Hz while positive.
    delay_timer: u8,
    /// Decremented at 60 Hz while positive; the machine beeps while it is.
    sound_timer: u8,
    /// 64 x 32 monochrome pixels, indexed `y * DISPLAY_WIDTH + x`;
    /// `true` is lit.
    pub display: [bool; DISPLAY_SIZE],
    /// The hexadecimal keypad, keys `0..F`; `true` is pressed.
    pub keypad: [bool; NUM_KEYS],
}

impl View for Chip8 {
    type V = Machine;

    closed spec fn view(&self) -> Machine {
        Machine {
            memory: self.memory@,
            v: self.v@,
            i: self.i,
            pc: self.pc,
            stack: self.stack@,
            sp: self.sp,
            delay_timer: self.delay_timer,
            sound_timer: self.sound_timer,
            display: self.display@,
            keypad: self.keypad@,
        }
    }
}

/// The model's sequences have the sizes of the machine's arrays.
pub open spec fn well_sized(s: Machine) -> bool {
    &&& s.memory.len() == 4096
    &&& s.v.len() == 16
    &&& s.stack.len() == 16
    &&& s.display.len() == 2048
    &&& s.keypad.len() == 16
}

/// The 80 font bytes, as an array.
fn font_bytes() -> (bytes: [u8; 80])
    ensures
        bytes@ == font_glyphs(),
{
    let bytes: [u8; 80] = [
        0xF0, 0x90, 0x90, 0x90, 0xF0,  // 0
        0x20, 0x60, 0x20, 0x20, 0x70,  // 1
        0xF0, 0x10, 0xF0, 0x80, 0xF0,  // 2
        0xF0, 0x10, 0xF0, 0x10, 0xF0,  // 3
        0x90, 0x90, 0xF0, 0x10, 0x10,  // 4
        0xF0, 0x80, 0xF0, 0x10, 0xF0,  // 5
        0xF0, 0x80, 0xF0, 0x90, 0xF0,  // 6
        0xF0, 0x10, 0x20, 0x40, 0x40,  // 7
        0xF0, 0x90, 0xF0, 0x90, 0xF0,  // 8
        0xF0, 0x90, 0xF0, 0x10, 0xF0,  // 9
        0xF0, 0x90, 0xF0, 0x90, 0x90,  // A
        0xE0, 0x90, 0xE0, 0x90, 0xE0,  // B
        0xF0, 0x80, 0x80, 0x80, 0xF0,  // C
        0xE0, 0x90, 0x90, 0x90, 0xE0,  // D
        0xF0, 0x80, 0xF0, 0x80, 0xF0,  // E
        0xF0, 0x80, 0xF0, 0x80, 0x80,  // F
    ];
    assert(bytes@ =~= font_glyphs());
    bytes
}

impl Chip8 {
    /// Builds a fresh machine with the font set preloaded at `FONT_BASE`.
    pub fn new() -> (m: Self)
        ensures
            m@ == initial_machine(),
    {
        let mut memory = [0u8; 4096];
        let font = font_bytes();
        let base: usize = 0x50;
        for k in 0..80
            invariant
                base == 0x50,
                font@ == font_glyphs(),
                memory@.len() == 4096,
                forall|a: int|
                    0 <= a < 4096 ==> #[trigger] memory@[a] == (if 0x50 <= a < 0x50 + k {
                        font_glyphs()[a - 0x50]
                    } else {
                        0u8
                    }),
        {
            memory[base + k] = font[k];
        }
        let m = Chip8 {
            memory,
            v: [0u8; 16],
            i: 0,
            pc: PROGRAM_START,
            stack: [0u16; 16],
            sp: 0,
            delay_timer: 0,
            sound_timer: 0,
            display: [false; 2048],
            keypad: [false; 16],
        };
        assert(m@.memory =~= initial_memory());
        assert(m@.v =~= initial_machine().v);
        assert(m@.stack =~= initial_machine().stack);
        assert(m@.display =~= initial_machine().display);
        assert(m@.keypad =~= initial_machine().keypad);
        m
    }

    /// The model of every machine has the sizes of its arrays.
    pub proof fn lemma_well_sized(&self)
        ensures
            well_sized(self@),
    {
    }

    /// Copies a program into memory starting at `PROGRAM_START` (`0x200`).
    /// The program must fit: at most `MAX_ROM_SIZE` bytes.
    pub fn load_rom(&mut self, rom: &[u8])
        requires
            rom@.len() <= MAX_ROM_SIZE,
        ensures
            final(self)@ == with_program(old(self)@, rom@),
    {
        let start: usize = 0x200;
        let n = rom.len();
        for k in 0..n
            invariant
                start == 0x200,
                n == rom@.len(),
                n <= 3584,
                self.memory@.len() == 4096,
                self@ == (Machine { memory: self@.memory, ..old(self)@ }),
                forall|a: int|
                    0 <= a < 4096 ==> #[trigger] self.memory@[a] == (if 0x200 <= a < 0x200 + k {
                        rom@[a - 0x200]
                    } else {
                        old(self)@.memory[a]
                    }),
        {
            self.memory[start + k] = rom[k];
        }
        assert(self@.memory =~= with_program(old(self)@, rom@).memory);
    }

    /// The address of the next instruction.
    pub fn pc(&self) -> (pc: u16)
        ensures
            pc == self@.pc,
    {
        self.pc
    }

    /// The index register `I`.
    pub fn index_register(&self) -> (i: u16)
        ensures
            i == self@.i,
    {
        self.i
    }

    /// Register `Vx`.
    pub fn register(&self, x: usize) -> (val: u8)
        requires
            x < NUM_REGISTERS,
        ensures
            val == self@.v[x as int],
    {
        self.v[x]
    }

    /// The memory byte at `addr`.
    pub fn memory_byte(&self, addr: usize) -> (byte: u8)
        requires
            addr < MEMORY_SIZE,
        ensures
            byte == self@.memory[addr as int],
    {
        self.memory[addr]
    }

    /// The number of return addresses on the call stack.
    pub fn stack_pointer(&self) -> (sp: u8)
        ensures
            sp == self@.sp,
    {
        self.sp
    }

    /// The delay timer.
    pub fn delay_timer(&self) -> (t: u8)
        ensures
            t == self@.delay_timer,
    {
        self.delay_timer
    }

    /// The sound timer; the machine beeps while it is positive.
    pub fn sound_timer(&self) -> (t: u8)
        ensures
            t == self@.sound_timer,
    {
        self.sound_timer
    }

    /// Decrements both timers by one, saturating at zero. Meant to be called
    /// at 60 Hz, independently of the CPU speed.
    pub fn decrement_timers(&mut self)
        ensures
            final(self)@ == after_timer_period(old(self)@),
    {
        self.delay_timer = self.delay_timer.saturating_sub(1);
        self.sound_timer = self.sound_timer.saturating_sub(1);
    }
}


/// The byte of randomness that `CXNN` masks, from `rand::random::<u8>()`,
/// which draws it from the thread-local generator. Nothing is claimed of
/// its value: any byte may come back.
#[verifier::external_body]
fn random_byte() -> (b: u8) {
    rand::random::<u8>()
}

/// Two bytes read big-endian form the opcode.
proof fn lemma_big_endian(high: u16, low: u16)
    requires
        high < 256,
        low < 256,
    ensures
        (high << 8) | low == high * 256 + low,
{
    assert(high < 256 && low < 256 ==> (high << 8) | low == high * 256 + low) by (bit_vector);
}

/// A screen index splits into a column below 64 and a row below 32.
proof fn lemma_screen_coords(idx: int)
    requires
        0 <= idx < 2048,
    ensures
        0 <= idx % 64 < 64,
        0 <= idx / 64 < 32,
        idx == (idx / 64) * 64 + idx % 64,
{
    lemma_fundamental_div_mod(idx, 64);
}

/// The screen index of column `sx` of row `sy`.
proof fn lemma_pixel_index(idx: int, sx: int, sy: int)
    requires
        0 <= sx < 64,
        idx == sy * 64 + sx,
    ensures
        idx % 64 == sx,
        idx / 64 == sy,
{
    lemma_fundamental_div_mod_converse(idx, 64, sy, sx);
}

/// Whether screen pixel `idx` is a lit sprite pixel that a row-by-row,
/// left-to-right drawing has reached before row `r`, column `c`.
spec fn drawn_before(
    memory: Seq<u8>,
    i: u16,
    x0: int,
    y0: int,
    n: int,
    idx: int,
    r: int,
    c: int,
) -> bool {
    &&& sprite_covers(memory, i, x0, y0, n, idx)
    &&& (idx / 64 - y0 < r || (idx / 64 - y0 == r && idx % 64 - x0 < c))
}

/// Two drawing progress points that reach the same pixels find the same
/// collisions.
proof fn lemma_same_progress_same_collision(
    memory: Seq<u8>,
    i: u16,
    x0: int,
    y0: int,
    n: int,
    display: Seq<bool>,
    r1: int,
    c1: int,
    r2: int,
    c2: int,
)
    requires
        forall|j: int|
            0 <= j < 2048 ==> drawn_before(memory, i, x0, y0, n, j, r1, c1) == drawn_before(
                memory,
                i,
                x0,
                y0,
                n,
                j,
                r2,
                c2,
            ),
    ensures
        (exists|j: int|
            0 <= j < 2048 && #[trigger] drawn_before(memory, i, x0, y0, n, j, r1, c1)
                && display[j]) == (exists|j: int|
            0 <= j < 2048 && #[trigger] drawn_before(memory, i, x0, y0, n, j, r2, c2)
                && display[j]),
{
    if exists|j: int|
        0 <= j < 2048 && #[trigger] drawn_before(memory, i, x0, y0, n, j, r1, c1) && display[j] {
        let w = choose|j: int|
            0 <= j < 2048 && #[trigger] drawn_before(memory, i, x0, y0, n, j, r1, c1)
                && display[j];
        assert(drawn_before(memory, i, x0, y0, n, w, r2, c2));
    }
    if exists|j: int|
        0 <= j < 2048 && #[trigger] drawn_before(memory, i, x0, y0, n, j, r2, c2) && display[j] {
        let w = choose|j: int|
            0 <= j < 2048 && #[trigger] drawn_before(memory, i, x0, y0, n, j, r2, c2)
                && display[j];
        assert(drawn_before(memory, i, x0, y0, n, w, r1, c1));
    }
}

/// A group of instructions that only move `pc` or touch the stack or screen
/// as a whole.
spec fn is_control(ins: Instruction) -> bool {
    ||| ins is ClearScreen
    ||| ins is Return
    ||| ins is Jump
    ||| ins is Call
    ||| ins is SkipIfEqualImm
    ||| ins is SkipIfNotEqualImm
    ||| ins is SkipIfEqualReg
    ||| ins is SkipIfNotEqualReg
    ||| ins is JumpOffset
}

/// Instructions that compute on registers.
spec fn is_arithmetic(ins: Instruction) -> bool {
    ||| ins is LoadImm
    ||| ins is AddImm
    ||| ins is Move
    ||| ins is Or
    ||| ins is And
    ||| ins is Xor
    ||| ins is AddReg
    ||| ins is SubReg
    ||| ins is ShiftRight
    ||| ins is SubReversed
    ||| ins is ShiftLeft
    ||| ins is LoadIndex
    ||| ins is Random
}

/// Instructions on keys and timers.
spec fn is_io(ins: Instruction) -> bool {
    ||| ins is SkipIfKey
    ||| ins is SkipIfNotKey
    ||| ins is LoadDelay
    ||| ins is WaitKey
    ||| ins is SetDelay
    ||| ins is SetSound
}

/// Instructions on `I` and memory.
spec fn is_memory(ins: Instruction) -> bool {
    ||| ins is AddIndex
    ||| ins is LoadFont
    ||| ins is StoreBcd
    ||| ins is StoreRegs
    ||| ins is LoadRegs
}

impl Chip8 {
    /// The opcode at `pc`.
    fn fetch(&self) -> (op: u16)
        requires
            self@.pc + 1 < 4096,
        ensures
            op == fetch_opcode(self@),
    {
        let high = self.memory[self.pc as usize] as u16;
        let low = self.memory[self.pc as usize + 1] as u16;
        proof {
            lemma_big_endian(high, low);
        }
        (high << 8) | low
    }

    /// Why the next [`Chip8::tick`] would leave the machine's bounds, or
    /// `None` when it can run.
    pub fn pending_fault(&self) -> (f: Option<Fault>)
        ensures
            f == step_fault(self@),
    {
        if self.pc as usize + 1 >= 4096 {
            return Some(Fault::PcOutOfMemory);
        }
        let ins = decode(self.fetch());
        match ins {
            Instruction::Return => {
                if self.sp == 0 {
                    Some(Fault::StackUnderflow)
                } else if self.sp > 16 {
                    Some(Fault::StackOverflow)
                } else {
                    None
                }
            },
            Instruction::Call { .. } => {
                if self.sp >= 16 {
                    Some(Fault::StackOverflow)
                } else {
                    None
                }
            },
            Instruction::Draw { n, .. } => {
                if n > 0 && self.i as usize + n as usize > 4096 {
                    Some(Fault::MemoryOutOfRange)
                } else {
                    None
                }
            },
            Instruction::SkipIfKey { x } | Instruction::SkipIfNotKey { x } => {
                if self.v[x as usize] >= 16 {
                    Some(Fault::KeyOutOfRange)
                } else {
                    None
                }
            },
            Instruction::StoreBcd { .. } => {
                if self.i as usize + 2 >= 4096 {
                    Some(Fault::MemoryOutOfRange)
                } else {
                    None
                }
            },
            Instruction::StoreRegs { x } | Instruction::LoadRegs { x } => {
                if self.i as usize + x as usize >= 4096 {
                    Some(Fault::MemoryOutOfRange)
                } else {
                    None
                }
            },
            _ => None,
        }
    }

    /// Runs one fetch / decode / execute cycle, with `random` as the byte
    /// that `CXNN` masks. Returns the opcode when it is not one the machine
    /// knows; the cycle then only moves `pc` past it.
    pub fn step(&mut self, random: u8) -> (unknown: Option<UnknownOpcode>)
        requires
            step_fault(old(self)@) is None,
        ensures
            final(self)@ == next_state(old(self)@, random),
            unknown == unknown_opcode(old(self)@),
    {
        let opcode = self.fetch();
        let ins = decode(opcode);
        let address = self.pc;
        self.pc = self.pc + 2;
        match ins {
            Instruction::ClearScreen
            | Instruction::Return
            | Instruction::Jump { .. }
            | Instruction::Call { .. }
            | Instruction::SkipIfEqualImm { .. }
            | Instruction::SkipIfNotEqualImm { .. }
            | Instruction::SkipIfEqualReg { .. }
            | Instruction::SkipIfNotEqualReg { .. }
            | Instruction::JumpOffset { .. } => {
                self.execute_control(ins);
                None
            },
            Instruction::LoadImm { .. }
            | Instruction::AddImm { .. }
            | Instruction::Move { .. }
            | Instruction::Or { .. }
            | Instruction::And { .. }
            | Instruction::Xor { .. }
            | Instruction::AddReg { .. }
            | Instruction::SubReg { .. }
            | Instruction::ShiftRight { .. }
            | Instruction::SubReversed { .. }
            | Instruction::ShiftLeft { .. }
            | Instruction::LoadIndex { .. }
            | Instruction::Random { .. } => {
                self.execute_arithmetic(ins, random);
                None
            },
            Instruction::Draw { x, y, n } => {
                self.draw(x, y, n);
                None
            },
            Instruction::SkipIfKey { .. }
            | Instruction::SkipIfNotKey { .. }
            | Instruction::LoadDelay { .. }
            | Instruction::WaitKey { .. }
            | Instruction::SetDelay { .. }
            | Instruction::SetSound { .. } => {
                self.execute_io(ins);
                None
            },
            Instruction::AddIndex { .. }
            | Instruction::LoadFont { .. }
            | Instruction::StoreBcd { .. }
            | Instruction::StoreRegs { .. }
            | Instruction::LoadRegs { .. } => {
                self.execute_memory(ins);
                None
            },
            Instruction::Unknown => Some(UnknownOpcode { opcode, address }),
        }
    }

    /// Runs one fetch / decode / execute cycle; `CXNN` draws its byte from
    /// the random number generator.
    pub fn tick(&mut self) -> (unknown: Option<UnknownOpcode>)
        requires
            step_fault(old(self)@) is None,
        ensures
            exists|random: u8| final(self)@ == #[trigger] next_state(old(self)@, random),
            !(current_instruction(old(self)@) is Random) ==> final(self)@ == next_state(
                old(self)@,
                0,
            ),
            unknown == unknown_opcode(old(self)@),
    {
        let ins = decode(self.fetch());
        let random = match ins {
            Instruction::Random { .. } => random_byte(),
            _ => 0,
        };
        let unknown = self.step(random);
        unknown
    }

    fn execute_control(&mut self, ins: Instruction)
        requires
            is_control(ins),
            operands_in_range(ins),
            instruction_fault(old(self)@, ins) is None,
            old(self)@.pc <= 4096,
        ensures
            final(self)@ == execute(old(self)@, ins, 0),
    {
        match ins {
            Instruction::ClearScreen => {
                self.display = [false; 2048];
                assert(self.display@ =~= Seq::new(2048, |k: int| false));
            },
            Instruction::Return => {
                self.sp = self.sp - 1;
                self.pc = self.stack[self.sp as usize];
            },
            Instruction::Jump { addr } => {
                self.pc = addr;
            },
            Instruction::Call { addr } => {
                self.stack[self.sp as usize] = self.pc;
                self.sp = self.sp + 1;
                self.pc = addr;
            },
            Instruction::SkipIfEqualImm { x, nn } => {
                if self.v[x as usize] == nn {
                    self.pc = self.pc + 2;
                }
            },
            Instruction::SkipIfNotEqualImm { x, nn } => {
                if self.v[x as usize] != nn {
                    self.pc = self.pc + 2;
                }
            },
            Instruction::SkipIfEqualReg { x, y } => {
                if self.v[x as usize] == self.v[y as usize] {
                    self.pc = self.pc + 2;
                }
            },
            Instruction::SkipIfNotEqualReg { x, y } => {
                if self.v[x as usize] != self.v[y as usize] {
                    self.pc = self.pc + 2;
                }
            },
            Instruction::JumpOffset { addr } => {
                self.pc = addr + self.v[0] as u16;
            },
            _ => {},
        }
    }

    fn execute_arithmetic(&mut self, ins: Instruction, random: u8)
        requires
            is_arithmetic(ins),
            operands_in_range(ins),
        ensures
            final(self)@ == execute(old(self)@, ins, random),
    {
        match ins {
            Instruction::LoadImm { x, nn } => {
                self.v[x as usize] = nn;
            },
            Instruction::AddImm { x, nn } => {
                self.v[x as usize] = self.v[x as usize].wrapping_add(nn);
            },
            Instruction::Move { x, y } => {
                self.v[x as usize] = self.v[y as usize];
            },
            Instruction::Or { x, y } => {
                self.v[x as usize] = self.v[x as usize] | self.v[y as usize];
            },
            Instruction::And { x, y } => {
                self.v[x as usize] = self.v[x as usize] & self.v[y as usize];
            },
            Instruction::Xor { x, y } => {
                self.v[x as usize] = self.v[x as usize] ^ self.v[y as usize];
            },
            Instruction::AddReg { x, y } => {
                let vx = self.v[x as usize];
                let vy = self.v[y as usize];
                let carry: u8 = if vx as u16 + vy as u16 > 255 {
                    1
                } else {
                    0
                };
                self.v[x as usize] = vx.wrapping_add(vy);
                self.v[15] = carry;
            },
            Instruction::SubReg { x, y } => {
                let vx = self.v[x as usize];
                let vy = self.v[y as usize];
                let no_borrow: u8 = if vx >= vy {
                    1
                } else {
                    0
                };
                self.v[x as usize] = vx.wrapping_sub(vy);
                self.v[15] = no_borrow;
            },
            Instruction::ShiftRight { x } => {
                let vx = self.v[x as usize];
                let lsb = vx & 1;
                self.v[x as usize] = vx >> 1;
                self.v[15] = lsb;
            },
            Instruction::SubReversed { x, y } => {
                let vx = self.v[x as usize];
                let vy = self.v[y as usize];
                let no_borrow: u8 = if vy >= vx {
                    1
                } else {
                    0
                };
                self.v[x as usize] = vy.wrapping_sub(vx);
                self.v[15] = no_borrow;
            },
            Instruction::ShiftLeft { x } => {
                let vx = self.v[x as usize];
                let msb = (vx & 0x80) >> 7;
                self.v[x as usize] = vx << 1;
                self.v[15] = msb;
            },
            Instruction::LoadIndex { addr } => {
                self.i = addr;
            },
            Instruction::Random { x, nn } => {
                self.v[x as usize] = random & nn;
            },
            _ => {},
        }
    }

    /// The lowest key code whose key is pressed, if any.
    fn first_pressed_key(&self) -> (key: Option<u8>)
        ensures
            key == (match first_pressed(self@.keypad) {
                Some(k) => Some(k as u8),
                None => None,
            }),
    {
        let mut k: usize = 0;
        while k < 16
            invariant
                k <= 16,
                first_pressed(self@.keypad) == first_pressed_from(self@.keypad, k as int),
            decreases 16 - k,
        {
            if self.keypad[k] {
                return Some(k as u8);
            }
            k = k + 1;
        }
        None
    }

    fn execute_io(&mut self, ins: Instruction)
        requires
            is_io(ins),
            operands_in_range(ins),
            instruction_fault(old(self)@, ins) is None,
            2 <= old(self)@.pc <= 4096,
        ensures
            final(self)@ == execute(old(self)@, ins, 0),
    {
        match ins {
            Instruction::SkipIfKey { x } => {
                if self.keypad[self.v[x as usize] as usize] {
                    self.pc = self.pc + 2;
                }
            },
            Instruction::SkipIfNotKey { x } => {
                if !self.keypad[self.v[x as usize] as usize] {
                    self.pc = self.pc + 2;
                }
            },
            Instruction::LoadDelay { x } => {
                self.v[x as usize] = self.delay_timer;
            },
            Instruction::WaitKey { x } => {
                match self.first_pressed_key() {
                    Some(key) => {
                        self.v[x as usize] = key;
                    },
                    None => {
                        self.pc = self.pc - 2;
                    },
                }
            },
            Instruction::SetDelay { x } => {
                self.delay_timer = self.v[x as usize];
            },
            Instruction::SetSound { x } => {
                self.sound_timer = self.v[x as usize];
            },
            _ => {},
        }
    }

    fn execute_memory(&mut self, ins: Instruction)
        requires
            is_memory(ins),
            operands_in_range(ins),
            instruction_fault(old(self)@, ins) is None,
        ensures
            final(self)@ == execute(old(self)@, ins, 0),
    {
        match ins {
            Instruction::AddIndex { x } => {
                self.i = self.i.wrapping_add(self.v[x as usize] as u16);
            },
            Instruction::LoadFont { x } => {
                self.i = FONT_BASE + (self.v[x as usize] as u16) * 5;
            },
            Instruction::StoreBcd { x } => {
                let val = self.v[x as usize];
                let i = self.i as usize;
                self.memory[i] = val / 100;
                self.memory[i + 1] = (val / 10) % 10;
                self.memory[i + 2] = val % 10;
            },
            Instruction::StoreRegs { x } => {
                let base = self.i as usize;
                let last = x as usize;
                let ghost s0 = self@;
                for offset in 0..last + 1
                    invariant
                        base == s0.i,
                        last == x,
                        x < 16,
                        base + last < 4096,
                        self.memory@.len() == 4096,
                        self@ == (Machine { memory: self@.memory, ..s0 }),
                        forall|a: int|
                            0 <= a < 4096 ==> #[trigger] self.memory@[a] == (if base <= a < base
                                + offset {
                                s0.v[a - base]
                            } else {
                                s0.memory[a]
                            }),
                {
                    self.memory[base + offset] = self.v[offset];
                }
                assert(self@.memory =~= execute(s0, ins, 0).memory);
            },
            Instruction::LoadRegs { x } => {
                let base = self.i as usize;
                let last = x as usize;
                let ghost s0 = self@;
                for offset in 0..last + 1
                    invariant
                        base == s0.i,
                        last == x,
                        x < 16,
                        base + last < 4096,
                        self.v@.len() == 16,
                        self@ == (Machine { v: self@.v, ..s0 }),
                        forall|k: int|
                            0 <= k < 16 ==> #[trigger] self.v@[k] == (if k < offset {
                                s0.memory[base + k]
                            } else {
                                s0.v[k]
                            }),
                {
                    self.v[offset] = self.memory[base + offset];
                }
                assert(self@.v =~= execute(s0, ins, 0).v);
            },
            _ => {},
        }
    }

    /// `DXYN`: XORs the `n`-row sprite at `I` onto the screen at
    /// `(Vx, Vy)`, wrapped onto the screen and clipped at its edges, and
    /// sets `VF` to whether a lit pixel was turned off.
    fn draw(&mut self, x: u8, y: u8, n: u8)
        requires
            x < 16,
            y < 16,
            n < 16,
            n > 0 ==> old(self)@.i + n <= 4096,
        ensures
            final(self)@ == execute(old(self)@, Instruction::Draw { x, y, n }, 0),
    {
        let ghost s0 = self@;
        let start_x: usize = (self.v[x as usize] % 64) as usize;
        let start_y: usize = (self.v[y as usize] % 32) as usize;
        let base: usize = self.i as usize;
        let height: usize = n as usize;
        let ghost mem = s0.memory;
        let ghost x0 = sprite_x0(s0, x);
        let ghost y0 = sprite_y0(s0, y);
        let mut collision = false;
        let mut row: usize = 0;
        while row < height
            invariant
                self@ == (Machine { display: self@.display, ..s0 }),
                self.display@.len() == 2048,
                self.memory@ == mem,
                start_x == x0,
                start_y == y0,
                0 <= x0 < 64,
                0 <= y0 < 32,
                base == s0.i,
                height == n,
                row <= height,
                height < 16,
                height > 0 ==> base + height <= 4096,
                forall|idx: int|
                    0 <= idx < 2048 ==> #[trigger] self.display@[idx] == (if drawn_before(
                        mem,
                        s0.i,
                        x0,
                        y0,
                        n as int,
                        idx,
                        row as int,
                        0,
                    ) {
                        !s0.display[idx]
                    } else {
                        s0.display[idx]
                    }),
                collision == exists|idx: int|
                    0 <= idx < 2048 && #[trigger] drawn_before(
                        mem,
                        s0.i,
                        x0,
                        y0,
                        n as int,
                        idx,
                        row as int,
                        0,
                    ) && s0.display[idx],
            decreases height - row,
        {
            let sprite_row = self.memory[base + row];
            let mut col: usize = 0;
            while col < 8
                invariant
                    self@ == (Machine { display: self@.display, ..s0 }),
                    self.display@.len() == 2048,
                    self.memory@ == mem,
                    sprite_row == mem[base + row],
                    start_x == x0,
                    start_y == y0,
                    0 <= x0 < 64,
                    0 <= y0 < 32,
                    base == s0.i,
                    height == n,
                    row < height,
                    col <= 8,
                    forall|idx: int|
                        0 <= idx < 2048 ==> #[trigger] self.display@[idx] == (if drawn_before(
                            mem,
                            s0.i,
                            x0,
                            y0,
                            n as int,
                            idx,
                            row as int,
                            col as int,
                        ) {
                            !s0.display[idx]
                        } else {
                            s0.display[idx]
                        }),
                    collision == exists|idx: int|
                        0 <= idx < 2048 && #[trigger] drawn_before(
                            mem,
                            s0.i,
                            x0,
                            y0,
                            n as int,
                            idx,
                            row as int,
                            col as int,
                        ) && s0.display[idx],
                decreases 8 - col,
            {
                let bit = (sprite_row >> (7 - col as u8)) & 1;
                let ghost old_display = self.display@;
                let ghost old_collision = collision;
                let sx = start_x + col;
                let sy = start_y + row;
                if bit == 1 && sx < 64 && sy < 32 {
                    let idx = sy * 64 + sx;
                    proof {
                        lemma_pixel_index(idx as int, sx as int, sy as int);
                    }
                    if self.display[idx] {
                        collision = true;
                    }
                    self.display[idx] = !self.display[idx];
                    proof {
                        assert forall|j: int| 0 <= j < 2048 implies drawn_before(
                            mem,
                            s0.i,
                            x0,
                            y0,
                            n as int,
                            j,
                            row as int,
                            col + 1,
                        ) == (drawn_before(
                            mem,
                            s0.i,
                            x0,
                            y0,
                            n as int,
                            j,
                            row as int,
                            col as int,
                        ) || j == idx) by {
                            lemma_screen_coords(j);
                        }
                        assert(!drawn_before(
                            mem,
                            s0.i,
                            x0,
                            y0,
                            n as int,
                            idx as int,
                            row as int,
                            col as int,
                        ));
                        assert(old_display[idx as int] == s0.display[idx as int]);
                        assert(drawn_before(
                            mem,
                            s0.i,
                            x0,
                            y0,
                            n as int,
                            idx as int,
                            row as int,
                            col + 1,
                        ));
                        if old_collision {
                            let w = choose|j: int|
                                0 <= j < 2048 && #[trigger] drawn_before(
                                    mem,
                                    s0.i,
                                    x0,
                                    y0,
                                    n as int,
                                    j,
                                    row as int,
                                    col as int,
                                ) && s0.display[j];
                            assert(drawn_before(
                                mem,
                                s0.i,
                                x0,
                                y0,
                                n as int,
                                w,
                                row as int,
                                col + 1,
                            ));
                        }
                        if exists|j: int|
                            0 <= j < 2048 && #[trigger] drawn_before(
                                mem,
                                s0.i,
                                x0,
                                y0,
                                n as int,
                                j,
                                row as int,
                                col + 1,
                            ) && s0.display[j] {
                            let w = choose|j: int|
                                0 <= j < 2048 && #[trigger] drawn_before(
                                    mem,
                                    s0.i,
                                    x0,
                                    y0,
                                    n as int,
                                    j,
                                    row as int,
                                    col + 1,
                                ) && s0.display[j];
                            if w != idx {
                                assert(drawn_before(
                                    mem,
                                    s0.i,
                                    x0,
                                    y0,
                                    n as int,
                                    w,
                                    row as int,
                                    col as int,
                                ));
                            }
                        }
                    }
                } else {
                    proof {
                        assert forall|j: int| 0 <= j < 2048 implies drawn_before(
                            mem,
                            s0.i,
                            x0,
                            y0,
                            n as int,
                            j,
                            row as int,
                            col + 1,
                        ) == drawn_before(
                            mem,
                            s0.i,
                            x0,
                            y0,
                            n as int,
                            j,
                            row as int,
                            col as int,
                        ) by {
                            lemma_screen_coords(j);
                        }
                        lemma_same_progress_same_collision(
                            mem,
                            s0.i,
                            x0,
                            y0,
                            n as int,
                            s0.display,
                            row as int,
                            col + 1,
                            row as int,
                            col as int,
                        );
                    }
                }
                col = col + 1;
            }
            proof {
                assert forall|j: int| 0 <= j < 2048 implies drawn_before(
                    mem,
                    s0.i,
                    x0,
                    y0,
                    n as int,
                    j,
                    row + 1,
                    0,
                ) == drawn_before(mem, s0.i, x0, y0, n as int, j, row as int, 8) by {
                    lemma_screen_coords(j);
                }
                lemma_same_progress_same_collision(
                    mem,
                    s0.i,
                    x0,
                    y0,
                    n as int,
                    s0.display,
                    row + 1,
                    0,
                    row as int,
                    8,
                );
            }
            row = row + 1;
        }
        proof {
            assert forall|j: int| 0 <= j < 2048 implies drawn_before(
                mem,
                s0.i,
                x0,
                y0,
                n as int,
                j,
                n as int,
                0,
            ) == sprite_covers(mem, s0.i, x0, y0, n as int, j) by {
                lemma_screen_coords(j);
            }
        }
        self.v[15] = if collision {
            1
        } else {
            0
        };
        proof {
            assert(self.display@ =~= drawn_display(s0, x, y, n));
            assert(collision == draw_collides(s0, x, y, n));
        }
    }
}

} // verus!
