//! Decoding is the inverse of writing an instruction's fields into the
//! opcode's nibbles.
use vstd::prelude::*;
use vstd::arithmetic::div_mod::lemma_fundamental_div_mod_converse;
use crate::instruction::{operands_in_range, spec_decode, Instruction};

verus! {

/// The opcode of an instruction: the family nibble, then `X`, `Y`, `N` (or
/// `NN`, or `NNN`) in the lower nibbles. The shifts are written with `Y = 0`.
pub open spec fn encode(ins: Instruction) -> int {
    match ins {
        Instruction::ClearScreen => 0x00E0,
        Instruction::Return => 0x00EE,
        Instruction::Jump { addr } => 0x1000 + addr,
        Instruction::Call { addr } => 0x2000 + addr,
        Instruction::SkipIfEqualImm { x, nn } => 0x3000 + x * 0x100 + nn,
        Instruction::SkipIfNotEqualImm { x, nn } => 0x4000 + x * 0x100 + nn,
        Instruction::SkipIfEqualReg { x, y } => 0x5000 + x * 0x100 + y * 0x10,
        Instruction::LoadImm { x, nn } => 0x6000 + x * 0x100 + nn,
        Instruction::AddImm { x, nn } => 0x7000 + x * 0x100 + nn,
        Instruction::Move { x, y } => 0x8000 + x * 0x100 + y * 0x10,
        Instruction::Or { x, y } => 0x8001 + x * 0x100 + y * 0x10,
        Instruction::And { x, y } => 0x8002 + x * 0x100 + y * 0x10,
        Instruction::Xor { x, y } => 0x8003 + x * 0x100 + y * 0x10,
        Instruction::AddReg { x, y } => 0x8004 + x * 0x100 + y * 0x10,
        Instruction::SubReg { x, y } => 0x8005 + x * 0x100 + y * 0x10,
        Instruction::ShiftRight { x } => 0x8006 + x * 0x100,
        Instruction::SubReversed { x, y } => 0x8007 + x * 0x100 + y * 0x10,
        Instruction::ShiftLeft { x } => 0x800E + x * 0x100,
        Instruction::SkipIfNotEqualReg { x, y } => 0x9000 + x * 0x100 + y * 0x10,
        Instruction::LoadIndex { addr } => 0xA000 + addr,
        Instruction::JumpOffset { addr } => 0xB000 + addr,
        Instruction::Random { x, nn } => 0xC000 + x * 0x100 + nn,
        Instruction::Draw { x, y, n } => 0xD000 + x * 0x100 + y * 0x10 + n,
        Instruction::SkipIfKey { x } => 0xE09E + x * 0x100,
        Instruction::SkipIfNotKey { x } => 0xE0A1 + x * 0x100,
        Instruction::LoadDelay { x } => 0xF007 + x * 0x100,
        Instruction::WaitKey { x } => 0xF00A + x * 0x100,
        Instruction::SetDelay { x } => 0xF015 + x * 0x100,
        Instruction::SetSound { x } => 0xF018 + x * 0x100,
        Instruction::AddIndex { x } => 0xF01E + x * 0x100,
        Instruction::LoadFont { x } => 0xF029 + x * 0x100,
        Instruction::StoreBcd { x } => 0xF033 + x * 0x100,
        Instruction::StoreRegs { x } => 0xF055 + x * 0x100,
        Instruction::LoadRegs { x } => 0xF065 + x * 0x100,
        Instruction::Unknown => -1,
    }
}

/// An opcode assembled from four nibbles splits back into them.
proof fn lemma_split_nibbles(op: int, a: int, b: int, c: int, d: int)
    requires
        0 <= a < 16,
        0 <= b < 16,
        0 <= c < 16,
        0 <= d < 16,
        op == a * 0x1000 + b * 0x100 + c * 0x10 + d,
    ensures
        op / 0x1000 == a,
        (op / 0x100) % 0x10 == b,
        (op / 0x10) % 0x10 == c,
        op % 0x10 == d,
        op % 0x100 == c * 0x10 + d,
        op % 0x1000 == b * 0x100 + c * 0x10 + d,
{
    lemma_fundamental_div_mod_converse(op, 0x1000, a, b * 0x100 + c * 0x10 + d);
    lemma_fundamental_div_mod_converse(op, 0x100, a * 0x10 + b, c * 0x10 + d);
    lemma_fundamental_div_mod_converse(a * 0x10 + b, 0x10, a, b);
    lemma_fundamental_div_mod_converse(op, 0x10, a * 0x100 + b * 0x10 + c, d);
    lemma_fundamental_div_mod_converse(a * 0x100 + b * 0x10 + c, 0x10, a * 0x10 + b, c);
}

/// An opcode is its four nibbles.
proof fn lemma_join_nibbles(op: u16)
    ensures
        op == (op / 0x1000) * 0x1000 + ((op / 0x100) % 0x10) * 0x100 + ((op / 0x10) % 0x10)
            * 0x10 + op % 0x10,
        op / 0x1000 < 16,
{
    assert(op == (op / 0x1000) * 0x1000 + ((op / 0x100) % 0x10) * 0x100 + ((op / 0x10) % 0x10)
        * 0x10 + op % 0x10) by (bit_vector);
    assert(op / 0x1000 < 16) by (bit_vector);
}

/// Decoding the opcode of an instruction gives the instruction back.
pub proof fn lemma_decode_inverts_encode(ins: Instruction)
    requires
        operands_in_range(ins),
        !(ins is Unknown),
    ensures
        0 <= encode(ins) < 0x10000,
        spec_decode(encode(ins) as u16) == ins,
{
    let op = encode(ins);
    match ins {
        Instruction::ClearScreen => lemma_split_nibbles(op, 0, 0, 0xE, 0),
        Instruction::Return => lemma_split_nibbles(op, 0, 0, 0xE, 0xE),
        Instruction::Jump { addr } => lemma_split_nibbles(
            op,
            1,
            (addr / 0x100) as int,
            ((addr / 0x10) % 0x10) as int,
            (addr % 0x10) as int,
        ),
        Instruction::Call { addr } => lemma_split_nibbles(
            op,
            2,
            (addr / 0x100) as int,
            ((addr / 0x10) % 0x10) as int,
            (addr % 0x10) as int,
        ),
        Instruction::SkipIfEqualImm { x, nn } => lemma_split_nibbles(
            op,
            3,
            x as int,
            (nn / 0x10) as int,
            (nn % 0x10) as int,
        ),
        Instruction::SkipIfNotEqualImm { x, nn } => lemma_split_nibbles(
            op,
            4,
            x as int,
            (nn / 0x10) as int,
            (nn % 0x10) as int,
        ),
        Instruction::SkipIfEqualReg { x, y } => lemma_split_nibbles(op, 5, x as int, y as int, 0),
        Instruction::LoadImm { x, nn } => lemma_split_nibbles(
            op,
            6,
            x as int,
            (nn / 0x10) as int,
            (nn % 0x10) as int,
        ),
        Instruction::AddImm { x, nn } => lemma_split_nibbles(
            op,
            7,
            x as int,
            (nn / 0x10) as int,
            (nn % 0x10) as int,
        ),
        Instruction::Move { x, y } => lemma_split_nibbles(op, 8, x as int, y as int, 0),
        Instruction::Or { x, y } => lemma_split_nibbles(op, 8, x as int, y as int, 1),
        Instruction::And { x, y } => lemma_split_nibbles(op, 8, x as int, y as int, 2),
        Instruction::Xor { x, y } => lemma_split_nibbles(op, 8, x as int, y as int, 3),
        Instruction::AddReg { x, y } => lemma_split_nibbles(op, 8, x as int, y as int, 4),
        Instruction::SubReg { x, y } => lemma_split_nibbles(op, 8, x as int, y as int, 5),
        Instruction::ShiftRight { x } => lemma_split_nibbles(op, 8, x as int, 0, 6),
        Instruction::SubReversed { x, y } => lemma_split_nibbles(op, 8, x as int, y as int, 7),
        Instruction::ShiftLeft { x } => lemma_split_nibbles(op, 8, x as int, 0, 0xE),
        Instruction::SkipIfNotEqualReg { x, y } => lemma_split_nibbles(
            op,
            9,
            x as int,
            y as int,
            0,
        ),
        Instruction::LoadIndex { addr } => lemma_split_nibbles(
            op,
            0xA,
            (addr / 0x100) as int,
            ((addr / 0x10) % 0x10) as int,
            (addr % 0x10) as int,
        ),
        Instruction::JumpOffset { addr } => lemma_split_nibbles(
            op,
            0xB,
            (addr / 0x100) as int,
            ((addr / 0x10) % 0x10) as int,
            (addr % 0x10) as int,
        ),
        Instruction::Random { x, nn } => lemma_split_nibbles(
            op,
            0xC,
            x as int,
            (nn / 0x10) as int,
            (nn % 0x10) as int,
        ),
        Instruction::Draw { x, y, n } => lemma_split_nibbles(
            op,
            0xD,
            x as int,
            y as int,
            n as int,
        ),
        Instruction::SkipIfKey { x } => lemma_split_nibbles(op, 0xE, x as int, 9, 0xE),
        Instruction::SkipIfNotKey { x } => lemma_split_nibbles(op, 0xE, x as int, 0xA, 1),
        Instruction::LoadDelay { x } => lemma_split_nibbles(op, 0xF, x as int, 0, 7),
        Instruction::WaitKey { x } => lemma_split_nibbles(op, 0xF, x as int, 0, 0xA),
        Instruction::SetDelay { x } => lemma_split_nibbles(op, 0xF, x as int, 1, 5),
        Instruction::SetSound { x } => lemma_split_nibbles(op, 0xF, x as int, 1, 8),
        Instruction::AddIndex { x } => lemma_split_nibbles(op, 0xF, x as int, 1, 0xE),
        Instruction::LoadFont { x } => lemma_split_nibbles(op, 0xF, x as int, 2, 9),
        Instruction::StoreBcd { x } => lemma_split_nibbles(op, 0xF, x as int, 3, 3),
        Instruction::StoreRegs { x } => lemma_split_nibbles(op, 0xF, x as int, 5, 5),
        Instruction::LoadRegs { x } => lemma_split_nibbles(op, 0xF, x as int, 6, 5),
        Instruction::Unknown => {},
    }
}

/// Every opcode that decodes to a known instruction is that instruction's
/// opcode; for the shifts, whose `Y` nibble is ignored, it is the opcode
/// with `Y` cleared. So no opcode outside the instruction set is taken for
/// an instruction.
pub proof fn lemma_encode_inverts_decode(op: u16)
    ensures
        ({
            let ins = spec_decode(op);
            &&& !(ins is Unknown) && !(ins is ShiftRight) && !(ins is ShiftLeft) ==> encode(ins)
                == op
            &&& (ins is ShiftRight || ins is ShiftLeft) ==> encode(ins) == op - ((op / 0x10)
                % 0x10) * 0x10
        }),
{
    lemma_join_nibbles(op);
    let a = op / 0x1000;
    let b = (op / 0x100) % 0x10;
    let c = (op / 0x10) % 0x10;
    let d = op % 0x10;
    lemma_split_nibbles(op as int, a as int, b as int, c as int, d as int);
}

} // verus!
