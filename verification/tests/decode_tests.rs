use chip8::instruction::{decode, Instruction};

#[test]
fn decodes_documented_examples() {
    assert_eq!(decode(0xA22A), Instruction::LoadIndex { addr: 0x22A });
    assert_eq!(decode(0x6A07), Instruction::LoadImm { x: 0xA, nn: 0x07 });
    assert_eq!(decode(0xD01F), Instruction::Draw { x: 0, y: 1, n: 0xF });
    assert_eq!(decode(0x83A4), Instruction::AddReg { x: 3, y: 0xA });
    assert_eq!(decode(0xFB33), Instruction::StoreBcd { x: 0xB });
    assert_eq!(decode(0x7A12), Instruction::AddImm { x: 0xA, nn: 0x12 });
}

#[test]
fn decodes_every_family() {
    assert_eq!(decode(0x00E0), Instruction::ClearScreen);
    assert_eq!(decode(0x00EE), Instruction::Return);
    assert_eq!(decode(0x0123), Instruction::Unknown);
    assert_eq!(decode(0x1ABC), Instruction::Jump { addr: 0xABC });
    assert_eq!(decode(0x2ABC), Instruction::Call { addr: 0xABC });
    assert_eq!(decode(0x3A12), Instruction::SkipIfEqualImm { x: 0xA, nn: 0x12 });
    assert_eq!(decode(0x4A12), Instruction::SkipIfNotEqualImm { x: 0xA, nn: 0x12 });
    assert_eq!(decode(0x5AB0), Instruction::SkipIfEqualReg { x: 0xA, y: 0xB });
    assert_eq!(decode(0x5AB1), Instruction::Unknown);
    assert_eq!(decode(0x8AB0), Instruction::Move { x: 0xA, y: 0xB });
    assert_eq!(decode(0x8AB1), Instruction::Or { x: 0xA, y: 0xB });
    assert_eq!(decode(0x8AB2), Instruction::And { x: 0xA, y: 0xB });
    assert_eq!(decode(0x8AB3), Instruction::Xor { x: 0xA, y: 0xB });
    assert_eq!(decode(0x8AB5), Instruction::SubReg { x: 0xA, y: 0xB });
    assert_eq!(decode(0x8AB6), Instruction::ShiftRight { x: 0xA });
    assert_eq!(decode(0x8AB7), Instruction::SubReversed { x: 0xA, y: 0xB });
    assert_eq!(decode(0x8ABE), Instruction::ShiftLeft { x: 0xA });
    assert_eq!(decode(0x8AB8), Instruction::Unknown);
    assert_eq!(decode(0x9AB0), Instruction::SkipIfNotEqualReg { x: 0xA, y: 0xB });
    assert_eq!(decode(0x9AB1), Instruction::Unknown);
    assert_eq!(decode(0xBABC), Instruction::JumpOffset { addr: 0xABC });
    assert_eq!(decode(0xCA12), Instruction::Random { x: 0xA, nn: 0x12 });
    assert_eq!(decode(0xEA9E), Instruction::SkipIfKey { x: 0xA });
    assert_eq!(decode(0xEAA1), Instruction::SkipIfNotKey { x: 0xA });
    assert_eq!(decode(0xEA00), Instruction::Unknown);
    assert_eq!(decode(0xFA07), Instruction::LoadDelay { x: 0xA });
    assert_eq!(decode(0xFA0A), Instruction::WaitKey { x: 0xA });
    assert_eq!(decode(0xFA15), Instruction::SetDelay { x: 0xA });
    assert_eq!(decode(0xFA18), Instruction::SetSound { x: 0xA });
    assert_eq!(decode(0xFA1E), Instruction::AddIndex { x: 0xA });
    assert_eq!(decode(0xFA29), Instruction::LoadFont { x: 0xA });
    assert_eq!(decode(0xFA55), Instruction::StoreRegs { x: 0xA });
    assert_eq!(decode(0xFA65), Instruction::LoadRegs { x: 0xA });
    assert_eq!(decode(0xFA99), Instruction::Unknown);
}
