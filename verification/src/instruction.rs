//! Decoding of the 16-bit CHIP-8 opcodes.

use vstd::prelude::*;

verus! {

/// One decoded CHIP-8 instruction. `x` and `y` name registers `VX` and `VY`,
/// `nn` is an 8-bit immediate, `addr` a 12-bit address and `n` a 4-bit height.
#[derive(Clone, Copy, Debug, PartialEq, Eq, Structural)]
pub enum Instruction {
    /// 00E0: clear the frame buffer.
    ClearScreen,
    /// 00EE: return from a subroutine.
    Return,
    /// 1NNN: jump to `addr`.
    Jump { addr: u16 },
    /// 2NNN: call the subroutine at `addr`.
    Call { addr: u16 },
    /// 3XNN: skip the next instruction if `VX == nn`.
    SkipIfEqualImm { x: u8, nn: u8 },
    /// 4XNN: skip the next instruction if `VX != nn`.
    SkipIfNotEqualImm { x: u8, nn: u8 },
    /// 5XY0: skip the next instruction if `VX == VY`.
    SkipIfEqualReg { x: u8, y: u8 },
    /// 9XY0: skip the next instruction if `VX != VY`.
    SkipIfNotEqualReg { x: u8, y: u8 },
    /// 6XNN: `VX = nn`.
    LoadImm { x: u8, nn: u8 },
    /// 7XNN: `VX = VX + nn`, wrapping, `VF` untouched.
    AddImm { x: u8, nn: u8 },
    /// 8XY0: `VX = VY`.
    Move { x: u8, y: u8 },
    /// 8XY1: `VX = VX | VY`.
    Or { x: u8, y: u8 },
    /// 8XY2: `VX = VX & VY`.
    And { x: u8, y: u8 },
    /// 8XY3: `VX = VX ^ VY`.
    Xor { x: u8, y: u8 },
    /// 8XY4: `VX = VX + VY`, `VF` = carry.
    AddReg { x: u8, y: u8 },
    /// 8XY5: `VX = VX - VY`, `VF` = no borrow.
    SubReg { x: u8, y: u8 },
    /// 8XY7: `VX = VY - VX`, `VF` = no borrow.
    SubRevReg { x: u8, y: u8 },
    /// 8XY6: shift right by one, `VF` = bit shifted out.
    ShiftRight { x: u8, y: u8 },
    /// 8XYE: shift left by one, `VF` = bit shifted out.
    ShiftLeft { x: u8, y: u8 },
    /// ANNN: `I = addr`.
    SetIndex { addr: u16 },
    /// BNNN / BXNN: jump to `addr` plus `V0` (old mode) or `VX` (new mode).
    JumpOffset { x: u8, addr: u16 },
    /// CXNN: `VX` = random byte `& nn`.
    Random { x: u8, nn: u8 },
    /// DXYN: draw an `n`-row sprite from `I` at (`VX`, `VY`).
    Draw { x: u8, y: u8, n: u8 },
    /// EX9E: skip the next instruction if key `VX` is held.
    SkipIfKey { x: u8 },
    /// EXA1: skip the next instruction if key `VX` is not held.
    SkipIfNotKey { x: u8 },
    /// FX07: `VX` = delay timer.
    LoadDelay { x: u8 },
    /// FX15: delay timer = `VX`.
    SetDelay { x: u8 },
    /// FX18: sound timer = `VX`.
    SetSound { x: u8 },
    /// FX1E: `I = I + VX`.
    AddIndex { x: u8 },
    /// FX0A: wait for a key press and store it in `VX`.
    WaitKey { x: u8 },
    /// FX29: `I` = address of the font glyph for `VX`.
    FontChar { x: u8 },
    /// FX33: store the decimal digits of `VX` at `I`, `I+1`, `I+2`.
    StoreBcd { x: u8 },
    /// FX55: store `V0..=VX` in memory from `I`.
    StoreRegs { x: u8 },
    /// FX65: load `V0..=VX` from memory at `I`.
    LoadRegs { x: u8 },
}

impl Instruction {
    /// The operands fit their fields in an opcode: registers and heights
    /// below 16, addresses below 4096.
    pub open spec fn wf(self) -> bool {
        match self {
            Instruction::ClearScreen | Instruction::Return => true,
            Instruction::Jump { addr } | Instruction::Call { addr } | Instruction::SetIndex { addr } => addr < 4096,
            Instruction::JumpOffset { x, addr } => x < 16 && addr < 4096,
            Instruction::SkipIfEqualImm { x, .. }
            | Instruction::SkipIfNotEqualImm { x, .. }
            | Instruction::LoadImm { x, .. }
            | Instruction::AddImm { x, .. }
            | Instruction::Random { x, .. } => x < 16,
            Instruction::SkipIfEqualReg { x, y }
            | Instruction::SkipIfNotEqualReg { x, y }
            | Instruction::Move { x, y }
            | Instruction::Or { x, y }
            | Instruction::And { x, y }
            | Instruction::Xor { x, y }
            | Instruction::AddReg { x, y }
            | Instruction::SubReg { x, y }
            | Instruction::SubRevReg { x, y }
            | Instruction::ShiftRight { x, y }
            | Instruction::ShiftLeft { x, y } => x < 16 && y < 16,
            Instruction::Draw { x, y, n } => x < 16 && y < 16 && n < 16,
            Instruction::SkipIfKey { x }
            | Instruction::SkipIfNotKey { x }
            | Instruction::LoadDelay { x }
            | Instruction::SetDelay { x }
            | Instruction::SetSound { x }
            | Instruction::AddIndex { x }
            | Instruction::WaitKey { x }
            | Instruction::FontChar { x }
            | Instruction::StoreBcd { x }
            | Instruction::StoreRegs { x }
            | Instruction::LoadRegs { x } => x < 16,
        }
    }
}

/// Every instruction that an opcode decodes to has operands that fit.
pub proof fn lemma_decode_wf(op: u16)
    ensures
        spec_decode(op) matches Some(ins) ==> ins.wf(),
{
}

/// First (most significant) nibble of an opcode.
pub open spec fn nib1(op: u16) -> int { op as int / 4096 }
/// Second nibble of an opcode: the `X` register.
pub open spec fn nib2(op: u16) -> int { (op as int / 256) % 16 }
/// Third nibble of an opcode: the `Y` register.
pub open spec fn nib3(op: u16) -> int { (op as int / 16) % 16 }
/// Last nibble of an opcode.
pub open spec fn nib4(op: u16) -> int { op as int % 16 }
/// Low 12 bits of an opcode.
pub open spec fn low12(op: u16) -> u16 { (op as int % 4096) as u16 }
/// Low 8 bits of an opcode.
pub open spec fn low8(op: u16) -> u8 { (op as int % 256) as u8 }

/// The instruction an opcode stands for, `None` for an opcode the
/// interpreter does not know.
pub open spec fn spec_decode(op: u16) -> Option<Instruction> {
    let (a, x, y, d) = (nib1(op), nib2(op) as u8, nib3(op) as u8, nib4(op));
    if op == 0x00E0 {
        Some(Instruction::ClearScreen)
    } else if op == 0x00EE {
        Some(Instruction::Return)
    } else if a == 0x1 {
        Some(Instruction::Jump { addr: low12(op) })
    } else if a == 0x2 {
        Some(Instruction::Call { addr: low12(op) })
    } else if a == 0x3 {
        Some(Instruction::SkipIfEqualImm { x, nn: low8(op) })
    } else if a == 0x4 {
        Some(Instruction::SkipIfNotEqualImm { x, nn: low8(op) })
    } else if a == 0x5 && d == 0 {
        Some(Instruction::SkipIfEqualReg { x, y })
    } else if a == 0x9 && d == 0 {
        Some(Instruction::SkipIfNotEqualReg { x, y })
    } else if a == 0x6 {
        Some(Instruction::LoadImm { x, nn: low8(op) })
    } else if a == 0x7 {
        Some(Instruction::AddImm { x, nn: low8(op) })
    } else if a == 0x8 && d == 0x0 {
        Some(Instruction::Move { x, y })
    } else if a == 0x8 && d == 0x1 {
        Some(Instruction::Or { x, y })
    } else if a == 0x8 && d == 0x2 {
        Some(Instruction::And { x, y })
    } else if a == 0x8 && d == 0x3 {
        Some(Instruction::Xor { x, y })
    } else if a == 0x8 && d == 0x4 {
        Some(Instruction::AddReg { x, y })
    } else if a == 0x8 && d == 0x5 {
        Some(Instruction::SubReg { x, y })
    } else if a == 0x8 && d == 0x7 {
        Some(Instruction::SubRevReg { x, y })
    } else if a == 0x8 && d == 0x6 {
        Some(Instruction::ShiftRight { x, y })
    } else if a == 0x8 && d == 0xE {
        Some(Instruction::ShiftLeft { x, y })
    } else if a == 0xA {
        Some(Instruction::SetIndex { addr: low12(op) })
    } else if a == 0xB {
        Some(Instruction::JumpOffset { x, addr: low12(op) })
    } else if a == 0xC {
        Some(Instruction::Random { x, nn: low8(op) })
    } else if a == 0xD {
        Some(Instruction::Draw { x, y, n: d as u8 })
    } else if a == 0xE && low8(op) == 0x9E {
        Some(Instruction::SkipIfKey { x })
    } else if a == 0xE && low8(op) == 0xA1 {
        Some(Instruction::SkipIfNotKey { x })
    } else if a == 0xF && low8(op) == 0x07 {
        Some(Instruction::LoadDelay { x })
    } else if a == 0xF && low8(op) == 0x15 {
        Some(Instruction::SetDelay { x })
    } else if a == 0xF && low8(op) == 0x18 {
        Some(Instruction::SetSound { x })
    } else if a == 0xF && low8(op) == 0x1E {
        Some(Instruction::AddIndex { x })
    } else if a == 0xF && low8(op) == 0x0A {
        Some(Instruction::WaitKey { x })
    } else if a == 0xF && low8(op) == 0x29 {
        Some(Instruction::FontChar { x })
    } else if a == 0xF && low8(op) == 0x33 {
        Some(Instruction::StoreBcd { x })
    } else if a == 0xF && low8(op) == 0x55 {
        Some(Instruction::StoreRegs { x })
    } else if a == 0xF && low8(op) == 0x65 {
        Some(Instruction::LoadRegs { x })
    } else {
        None
    }
}

/// The opcode made of the two bytes at the program counter, high byte first.
pub open spec fn spec_opcode(hi: u8, lo: u8) -> u16 {
    (hi as int * 256 + lo as int) as u16
}

/// Joins the two bytes of an opcode, high byte first.
pub fn opcode(hi: u8, lo: u8) -> (op: u16)
    ensures
        op == spec_opcode(hi, lo),
{
    let op: u16 = (hi as u16) << 8 | (lo as u16);
    assert(((hi as u16) << 8 | (lo as u16)) == hi as u16 * 256 + lo as u16) by (bit_vector);
    op
}

/// Splits an opcode into its four nibbles, most significant first.
fn nibbles(op: u16) -> (r: (u8, u8, u8, u8))
    ensures
        r.0 == nib1(op),
        r.1 == nib2(op),
        r.2 == nib3(op),
        r.3 == nib4(op),
{
    let n1: u8 = ((op & 0xF000) >> 12) as u8;
    let n2: u8 = ((op & 0x0F00) >> 8) as u8;
    let n3: u8 = ((op & 0x00F0) >> 4) as u8;
    let n4: u8 = (op & 0x000F) as u8;
    assert(((op & 0xF000) >> 12) == op / 4096) by (bit_vector);
    assert(((op & 0x0F00) >> 8) == (op / 256) % 16) by (bit_vector);
    assert(((op & 0x00F0) >> 4) == (op / 16) % 16) by (bit_vector);
    assert((op & 0x000F) == op % 16) by (bit_vector);
    (n1, n2, n3, n4)
}

/// Decodes an opcode; `None` for one the interpreter does not know.
pub fn decode(op: u16) -> (r: Option<Instruction>)
    ensures
        r == spec_decode(op),
{
    let (a, x, y, d) = nibbles(op);
    let addr: u16 = op & 0x0FFF;
    let nn: u8 = (op & 0x00FF) as u8;
    assert((op & 0x0FFF) == op % 4096) by (bit_vector);
    assert((op & 0x00FF) == op % 256) by (bit_vector);
    if op == 0x00E0 {
        Some(Instruction::ClearScreen)
    } else if op == 0x00EE {
        Some(Instruction::Return)
    } else if a == 0x1 {
        Some(Instruction::Jump { addr })
    } else if a == 0x2 {
        Some(Instruction::Call { addr })
    } else if a == 0x3 {
        Some(Instruction::SkipIfEqualImm { x, nn })
    } else if a == 0x4 {
        Some(Instruction::SkipIfNotEqualImm { x, nn })
    } else if a == 0x5 && d == 0 {
        Some(Instruction::SkipIfEqualReg { x, y })
    } else if a == 0x9 && d == 0 {
        Some(Instruction::SkipIfNotEqualReg { x, y })
    } else if a == 0x6 {
        Some(Instruction::LoadImm { x, nn })
    } else if a == 0x7 {
        Some(Instruction::AddImm { x, nn })
    } else if a == 0x8 && d == 0x0 {
        Some(Instruction::Move { x, y })
    } else if a == 0x8 && d == 0x1 {
        Some(Instruction::Or { x, y })
    } else if a == 0x8 && d == 0x2 {
        Some(Instruction::And { x, y })
    } else if a == 0x8 && d == 0x3 {
        Some(Instruction::Xor { x, y })
    } else if a == 0x8 && d == 0x4 {
        Some(Instruction::AddReg { x, y })
    } else if a == 0x8 && d == 0x5 {
        Some(Instruction::SubReg { x, y })
    } else if a == 0x8 && d == 0x7 {
        Some(Instruction::SubRevReg { x, y })
    } else if a == 0x8 && d == 0x6 {
        Some(Instruction::ShiftRight { x, y })
    } else if a == 0x8 && d == 0xE {
        Some(Instruction::ShiftLeft { x, y })
    } else if a == 0xA {
        Some(Instruction::SetIndex { addr })
    } else if a == 0xB {
        Some(Instruction::JumpOffset { x, addr })
    } else if a == 0xC {
        Some(Instruction::Random { x, nn })
    } else if a == 0xD {
        Some(Instruction::Draw { x, y, n: d })
    } else if a == 0xE && nn == 0x9E {
        Some(Instruction::SkipIfKey { x })
    } else if a == 0xE && nn == 0xA1 {
        Some(Instruction::SkipIfNotKey { x })
    } else if a == 0xF && nn == 0x07 {
        Some(Instruction::LoadDelay { x })
    } else if a == 0xF && nn == 0x15 {
        Some(Instruction::SetDelay { x })
    } else if a == 0xF && nn == 0x18 {
        Some(Instruction::SetSound { x })
    } else if a == 0xF && nn == 0x1E {
        Some(Instruction::AddIndex { x })
    } else if a == 0xF && nn == 0x0A {
        Some(Instruction::WaitKey { x })
    } else if a == 0xF && nn == 0x29 {
        Some(Instruction::FontChar { x })
    } else if a == 0xF && nn == 0x33 {
        Some(Instruction::StoreBcd { x })
    } else if a == 0xF && nn == 0x55 {
        Some(Instruction::StoreRegs { x })
    } else if a == 0xF && nn == 0x65 {
        Some(Instruction::LoadRegs { x })
    } else {
        None
    }
}

} // verus!
