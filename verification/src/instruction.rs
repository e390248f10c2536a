//! Decoding of 16-bit CHIP-8 opcodes into instructions.
//!
//! An opcode is four hexadecimal nibbles `ABCD`:
//! - `A` selects the instruction family,
//! - `B` is usually the register index `X`,
//! - `C` is usually the register index `Y`,
//! - `D` is a 4-bit immediate `N` or a sub-operation,
//! - `CD` is the 8-bit immediate `NN` and `BCD` the 12-bit address `NNN`.
use vstd::prelude::*;

verus! {

/// One decoded CHIP-8 instruction. Register indices are in `0..16`.
#[derive(Clone, Copy, Debug, PartialEq, Eq, Structural)]
pub enum Instruction {
    /// `00E0`: clear the screen.
    ClearScreen,
    /// `00EE`: return from a subroutine.
    Return,
    /// `1NNN`: jump to `NNN`.
    Jump { addr: u16 },
    /// `2NNN`: call the subroutine at `NNN`.
    Call { addr: u16 },
    /// `3XNN`: skip the next instruction if `Vx == NN`.
    SkipIfEqualImm { x: u8, nn: u8 },
    /// `4XNN`: skip the next instruction if `Vx != NN`.
    SkipIfNotEqualImm { x: u8, nn: u8 },
    /// `5XY0`: skip the next instruction if `Vx == Vy`.
    SkipIfEqualReg { x: u8, y: u8 },
    /// `6XNN`: `Vx = NN`.
    LoadImm { x: u8, nn: u8 },
    /// `7XNN`: `Vx += NN`, wrapping, `VF` untouched.
    AddImm { x: u8, nn: u8 },
    /// `8XY0`: `Vx = Vy`.
    Move { x: u8, y: u8 },
    /// `8XY1`: `Vx |= Vy`.
    Or { x: u8, y: u8 },
    /// `8XY2`: `Vx &= Vy`.
    And { x: u8, y: u8 },
    /// `8XY3`: `Vx ^= Vy`.
    Xor { x: u8, y: u8 },
    /// `8XY4`: `Vx += Vy`, `VF` = carry.
    AddReg { x: u8, y: u8 },
    /// `8XY5`: `Vx -= Vy`, `VF` = no borrow.
    SubReg { x: u8, y: u8 },
    /// `8XY6`: `Vx >>= 1`, `VF` = the bit shifted out (`Vy` is ignored).
    ShiftRight { x: u8 },
    /// `8XY7`: `Vx = Vy - Vx`, `VF` = no borrow.
    SubReversed { x: u8, y: u8 },
    /// `8XYE`: `Vx <<= 1`, `VF` = the bit shifted out (`Vy` is ignored).
    ShiftLeft { x: u8 },
    /// `9XY0`: skip the next instruction if `Vx != Vy`.
    SkipIfNotEqualReg { x: u8, y: u8 },
    /// `ANNN`: `I = NNN`.
    LoadIndex { addr: u16 },
    /// `BNNN`: jump to `NNN + V0`.
    JumpOffset { addr: u16 },
    /// `CXNN`: `Vx = random byte & NN`.
    Random { x: u8, nn: u8 },
    /// `DXYN`: draw an `N`-row sprite from `I` at `(Vx, Vy)`.
    Draw { x: u8, y: u8, n: u8 },
    /// `EX9E`: skip the next instruction if key `Vx` is pressed.
    SkipIfKey { x: u8 },
    /// `EXA1`: skip the next instruction if key `Vx` is not pressed.
    SkipIfNotKey { x: u8 },
    /// `FX07`: `Vx = delay timer`.
    LoadDelay { x: u8 },
    /// `FX0A`: wait for a key press and store its code in `Vx`.
    WaitKey { x: u8 },
    /// `FX15`: `delay timer = Vx`.
    SetDelay { x: u8 },
    /// `FX18`: `sound timer = Vx`.
    SetSound { x: u8 },
    /// `FX1E`: `I += Vx`, wrapping on 16 bits.
    AddIndex { x: u8 },
    /// `FX29`: `I` = address of the font glyph of digit `Vx`.
    LoadFont { x: u8 },
    /// `FX33`: store the decimal digits of `Vx` at `I`, `I+1`, `I+2`.
    StoreBcd { x: u8 },
    /// `FX55`: store `V0..=Vx` at `I..`.
    StoreRegs { x: u8 },
    /// `FX65`: load `V0..=Vx` from `I..`.
    LoadRegs { x: u8 },
    /// Any opcode that is none of the above.
    Unknown,
}

/// The first (most significant) nibble of an opcode: the instruction family.
pub open spec fn family(op: u16) -> u16 {
    op / 0x1000
}

/// The second nibble: the register index `X`.
pub open spec fn field_x(op: u16) -> u16 {
    (op / 0x100) % 0x10
}

/// The third nibble: the register index `Y`.
pub open spec fn field_y(op: u16) -> u16 {
    (op / 0x10) % 0x10
}

/// The fourth nibble: the immediate `N`.
pub open spec fn field_n(op: u16) -> u16 {
    op % 0x10
}

/// The low byte: the immediate `NN`.
pub open spec fn field_nn(op: u16) -> u16 {
    op % 0x100
}

/// The low twelve bits: the address `NNN`.
pub open spec fn field_nnn(op: u16) -> u16 {
    op % 0x1000
}

/// What an opcode means, read off its nibbles.
pub open spec fn spec_decode(op: u16) -> Instruction {
    let a = family(op);
    let x = field_x(op) as u8;
    let y = field_y(op) as u8;
    let n = field_n(op);
    let nn = field_nn(op) as u8;
    let nnn = field_nnn(op) as u16;
    if a == 0x0 {
        if op == 0x00E0 {
            Instruction::ClearScreen
        } else if op == 0x00EE {
            Instruction::Return
        } else {
            Instruction::Unknown
        }
    } else if a == 0x1 {
        Instruction::Jump { addr: nnn }
    } else if a == 0x2 {
        Instruction::Call { addr: nnn }
    } else if a == 0x3 {
        Instruction::SkipIfEqualImm { x, nn }
    } else if a == 0x4 {
        Instruction::SkipIfNotEqualImm { x, nn }
    } else if a == 0x5 {
        if n == 0 {
            Instruction::SkipIfEqualReg { x, y }
        } else {
            Instruction::Unknown
        }
    } else if a == 0x6 {
        Instruction::LoadImm { x, nn }
    } else if a == 0x7 {
        Instruction::AddImm { x, nn }
    } else if a == 0x8 {
        if n == 0x0 {
            Instruction::Move { x, y }
        } else if n == 0x1 {
            Instruction::Or { x, y }
        } else if n == 0x2 {
            Instruction::And { x, y }
        } else if n == 0x3 {
            Instruction::Xor { x, y }
        } else if n == 0x4 {
            Instruction::AddReg { x, y }
        } else if n == 0x5 {
            Instruction::SubReg { x, y }
        } else if n == 0x6 {
            Instruction::ShiftRight { x }
        } else if n == 0x7 {
            Instruction::SubReversed { x, y }
        } else if n == 0xE {
            Instruction::ShiftLeft { x }
        } else {
            Instruction::Unknown
        }
    } else if a == 0x9 {
        if n == 0 {
            Instruction::SkipIfNotEqualReg { x, y }
        } else {
            Instruction::Unknown
        }
    } else if a == 0xA {
        Instruction::LoadIndex { addr: nnn }
    } else if a == 0xB {
        Instruction::JumpOffset { addr: nnn }
    } else if a == 0xC {
        Instruction::Random { x, nn }
    } else if a == 0xD {
        Instruction::Draw { x, y, n: n as u8 }
    } else if a == 0xE {
        if nn == 0x9E {
            Instruction::SkipIfKey { x }
        } else if nn == 0xA1 {
            Instruction::SkipIfNotKey { x }
        } else {
            Instruction::Unknown
        }
    } else {
        if nn == 0x07 {
            Instruction::LoadDelay { x }
        } else if nn == 0x0A {
            Instruction::WaitKey { x }
        } else if nn == 0x15 {
            Instruction::SetDelay { x }
        } else if nn == 0x18 {
            Instruction::SetSound { x }
        } else if nn == 0x1E {
            Instruction::AddIndex { x }
        } else if nn == 0x29 {
            Instruction::LoadFont { x }
        } else if nn == 0x33 {
            Instruction::StoreBcd { x }
        } else if nn == 0x55 {
            Instruction::StoreRegs { x }
        } else if nn == 0x65 {
            Instruction::LoadRegs { x }
        } else {
            Instruction::Unknown
        }
    }
}

/// The register indices and the sprite height that an instruction names are
/// all below 16, and its addresses are twelve-bit.
pub open spec fn operands_in_range(ins: Instruction) -> bool {
    match ins {
        Instruction::Jump { addr } => addr < 0x1000,
        Instruction::Call { addr } => addr < 0x1000,
        Instruction::LoadIndex { addr } => addr < 0x1000,
        Instruction::JumpOffset { addr } => addr < 0x1000,
        Instruction::SkipIfEqualImm { x, .. } => x < 16,
        Instruction::SkipIfNotEqualImm { x, .. } => x < 16,
        Instruction::SkipIfEqualReg { x, y } => x < 16 && y < 16,
        Instruction::LoadImm { x, .. } => x < 16,
        Instruction::AddImm { x, .. } => x < 16,
        Instruction::Move { x, y } => x < 16 && y < 16,
        Instruction::Or { x, y } => x < 16 && y < 16,
        Instruction::And { x, y } => x < 16 && y < 16,
        Instruction::Xor { x, y } => x < 16 && y < 16,
        Instruction::AddReg { x, y } => x < 16 && y < 16,
        Instruction::SubReg { x, y } => x < 16 && y < 16,
        Instruction::ShiftRight { x } => x < 16,
        Instruction::SubReversed { x, y } => x < 16 && y < 16,
        Instruction::ShiftLeft { x } => x < 16,
        Instruction::SkipIfNotEqualReg { x, y } => x < 16 && y < 16,
        Instruction::Random { x, .. } => x < 16,
        Instruction::Draw { x, y, n } => x < 16 && y < 16 && n < 16,
        Instruction::SkipIfKey { x } => x < 16,
        Instruction::SkipIfNotKey { x } => x < 16,
        Instruction::LoadDelay { x } => x < 16,
        Instruction::WaitKey { x } => x < 16,
        Instruction::SetDelay { x } => x < 16,
        Instruction::SetSound { x } => x < 16,
        Instruction::AddIndex { x } => x < 16,
        Instruction::LoadFont { x } => x < 16,
        Instruction::StoreBcd { x } => x < 16,
        Instruction::StoreRegs { x } => x < 16,
        Instruction::LoadRegs { x } => x < 16,
        _ => true,
    }
}

/// Every decoded instruction names registers inside the register file.
pub proof fn lemma_decode_operands_in_range(op: u16)
    ensures
        operands_in_range(spec_decode(op)),
{
}

/// The masks and shifts that split an opcode compute its nibbles.
proof fn lemma_masks_are_nibbles(op: u16)
    ensures
        (op & 0xF000) >> 12 == op / 0x1000,
        (op & 0x0F00) >> 8 == (op / 0x100) % 0x10,
        (op & 0x00F0) >> 4 == (op / 0x10) % 0x10,
        op & 0x000F == op % 0x10,
        op & 0x00FF == op % 0x100,
        op & 0x0FFF == op % 0x1000,
{
    assert((op & 0xF000) >> 12 == op / 0x1000) by (bit_vector);
    assert((op & 0x0F00) >> 8 == (op / 0x100) % 0x10) by (bit_vector);
    assert((op & 0x00F0) >> 4 == (op / 0x10) % 0x10) by (bit_vector);
    assert(op & 0x000F == op % 0x10) by (bit_vector);
    assert(op & 0x00FF == op % 0x100) by (bit_vector);
    assert(op & 0x0FFF == op % 0x1000) by (bit_vector);
}

/// Decodes an opcode, splitting it into nibbles with masks and shifts.
pub fn decode(opcode: u16) -> (ins: Instruction)
    ensures
        ins == spec_decode(opcode),
        operands_in_range(ins),
{
    proof {
        lemma_masks_are_nibbles(opcode);
    }
    let a: u16 = (opcode & 0xF000) >> 12;
    let x: u8 = ((opcode & 0x0F00) >> 8) as u8;
    let y: u8 = ((opcode & 0x00F0) >> 4) as u8;
    let n: u8 = (opcode & 0x000F) as u8;
    let nn: u8 = (opcode & 0x00FF) as u8;
    let nnn: u16 = opcode & 0x0FFF;
    match a {
        0x0 => {
            if opcode == 0x00E0 {
                Instruction::ClearScreen
            } else if opcode == 0x00EE {
                Instruction::Return
            } else {
                Instruction::Unknown
            }
        },
        0x1 => Instruction::Jump { addr: nnn },
        0x2 => Instruction::Call { addr: nnn },
        0x3 => Instruction::SkipIfEqualImm { x, nn },
        0x4 => Instruction::SkipIfNotEqualImm { x, nn },
        0x5 => {
            if n == 0 {
                Instruction::SkipIfEqualReg { x, y }
            } else {
                Instruction::Unknown
            }
        },
        0x6 => Instruction::LoadImm { x, nn },
        0x7 => Instruction::AddImm { x, nn },
        0x8 => match n {
            0x0 => Instruction::Move { x, y },
            0x1 => Instruction::Or { x, y },
            0x2 => Instruction::And { x, y },
            0x3 => Instruction::Xor { x, y },
            0x4 => Instruction::AddReg { x, y },
            0x5 => Instruction::SubReg { x, y },
            0x6 => Instruction::ShiftRight { x },
            0x7 => Instruction::SubReversed { x, y },
            0xE => Instruction::ShiftLeft { x },
            _ => Instruction::Unknown,
        },
        0x9 => {
            if n == 0 {
                Instruction::SkipIfNotEqualReg { x, y }
            } else {
                Instruction::Unknown
            }
        },
        0xA => Instruction::LoadIndex { addr: nnn },
        0xB => Instruction::JumpOffset { addr: nnn },
        0xC => Instruction::Random { x, nn },
        0xD => Instruction::Draw { x, y, n },
        0xE => match nn {
            0x9E => Instruction::SkipIfKey { x },
            0xA1 => Instruction::SkipIfNotKey { x },
            _ => Instruction::Unknown,
        },
        _ => match nn {
            0x07 => Instruction::LoadDelay { x },
            0x0A => Instruction::WaitKey { x },
            0x15 => Instruction::SetDelay { x },
            0x18 => Instruction::SetSound { x },
            0x1E => Instruction::AddIndex { x },
            0x29 => Instruction::LoadFont { x },
            0x33 => Instruction::StoreBcd { x },
            0x55 => Instruction::StoreRegs { x },
            0x65 => Instruction::LoadRegs { x },
            _ => Instruction::Unknown,
        },
    }
}

} // verus!
