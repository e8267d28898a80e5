use chip8_emulator::{decode, Instruction};

#[test]
fn decodes_every_family() {
    assert_eq!(decode(0x00E0), Some(Instruction::ClearScreen));
    assert_eq!(decode(0x00EE), Some(Instruction::Return));
    assert_eq!(decode(0x1ABC), Some(Instruction::Jump { addr: 0xABC }));
    assert_eq!(decode(0x2ABC), Some(Instruction::Call { addr: 0xABC }));
    assert_eq!(decode(0x3A12), Some(Instruction::SkipIfEqualImm { x: 0xA, nn: 0x12 }));
    assert_eq!(decode(0x4A12), Some(Instruction::SkipIfNotEqualImm { x: 0xA, nn: 0x12 }));
    assert_eq!(decode(0x5AB0), Some(Instruction::SkipIfEqualReg { x: 0xA, y: 0xB }));
    assert_eq!(decode(0x9AB0), Some(Instruction::SkipIfNotEqualReg { x: 0xA, y: 0xB }));
    assert_eq!(decode(0x6A12), Some(Instruction::LoadImm { x: 0xA, nn: 0x12 }));
    assert_eq!(decode(0x7A12), Some(Instruction::AddImm { x: 0xA, nn: 0x12 }));
    assert_eq!(decode(0x8AB0), Some(Instruction::Move { x: 0xA, y: 0xB }));
    assert_eq!(decode(0x8AB1), Some(Instruction::Or { x: 0xA, y: 0xB }));
    assert_eq!(decode(0x8AB2), Some(Instruction::And { x: 0xA, y: 0xB }));
    assert_eq!(decode(0x8AB3), Some(Instruction::Xor { x: 0xA, y: 0xB }));
    assert_eq!(decode(0x8AB4), Some(Instruction::AddReg { x: 0xA, y: 0xB }));
    assert_eq!(decode(0x8AB5), Some(Instruction::SubReg { x: 0xA, y: 0xB }));
    assert_eq!(decode(0x8AB6), Some(Instruction::ShiftRight { x: 0xA, y: 0xB }));
    assert_eq!(decode(0x8AB7), Some(Instruction::SubRevReg { x: 0xA, y: 0xB }));
    assert_eq!(decode(0x8ABE), Some(Instruction::ShiftLeft { x: 0xA, y: 0xB }));
    assert_eq!(decode(0xAABC), Some(Instruction::SetIndex { addr: 0xABC }));
    assert_eq!(decode(0xBABC), Some(Instruction::JumpOffset { x: 0xA, addr: 0xABC }));
    assert_eq!(decode(0xCA12), Some(Instruction::Random { x: 0xA, nn: 0x12 }));
    assert_eq!(decode(0xDAB7), Some(Instruction::Draw { x: 0xA, y: 0xB, n: 7 }));
    assert_eq!(decode(0xEA9E), Some(Instruction::SkipIfKey { x: 0xA }));
    assert_eq!(decode(0xEAA1), Some(Instruction::SkipIfNotKey { x: 0xA }));
    assert_eq!(decode(0xFA07), Some(Instruction::LoadDelay { x: 0xA }));
    assert_eq!(decode(0xFA0A), Some(Instruction::WaitKey { x: 0xA }));
    assert_eq!(decode(0xFA15), Some(Instruction::SetDelay { x: 0xA }));
    assert_eq!(decode(0xFA18), Some(Instruction::SetSound { x: 0xA }));
    assert_eq!(decode(0xFA1E), Some(Instruction::AddIndex { x: 0xA }));
    assert_eq!(decode(0xFA29), Some(Instruction::FontChar { x: 0xA }));
    assert_eq!(decode(0xFA33), Some(Instruction::StoreBcd { x: 0xA }));
    assert_eq!(decode(0xFA55), Some(Instruction::StoreRegs { x: 0xA }));
    assert_eq!(decode(0xFA65), Some(Instruction::LoadRegs { x: 0xA }));
}

#[test]
fn rejects_unknown_opcodes() {
    for op in [0x0000u16, 0x00E1, 0x0123, 0x5AB1, 0x9AB1, 0x8AB8, 0x8ABF, 0xE000, 0xEA9F, 0xF000, 0xFA66, 0xFFFF] {
        assert_eq!(decode(op), None, "{:04X}", op);
    }
}
