//! What each instruction does, stated over its inputs and results: how the
//! registers, flags, memory, program counter and keypad after an instruction
//! relate to those before it.

use vstd::prelude::*;
use crate::instruction::{Instruction, spec_decode, nib1, nib2, nib3, nib4, low8, low12};
use crate::semantics::{Chip8State, initial_state, spec_font, pc_limit_message, unknown_instruction_message, hex_digit};

verus! {

/// The state is the same as `s` apart from the registers.
pub open spec fn only_registers_differ(s: Chip8State, t: Chip8State) -> bool {
    Chip8State { registers: s.registers, ..t } == s
}

/// Registers other than `VX` and `VF` keep their values.
pub open spec fn others_kept(s: Chip8State, t: Chip8State, x: int) -> bool {
    &&& t.registers.len() == 16
    &&& forall|k: int| 0 <= k < 16 && k != x && k != 15 ==> #[trigger] t.registers[k] == s.registers[k]
}

// ---------------------------------------------------------------- control flow

/// `1NNN` sets the program counter to `NNN` and changes nothing else.
pub proof fn lemma_jump(s: Chip8State, addr: u16, r: u8)
    ensures
        s.execute(Instruction::Jump { addr }, r).program_counter == addr,
        (Chip8State { program_counter: s.program_counter, ..s.execute(Instruction::Jump { addr }, r) }) == s,
{
}

/// `2NNN` pushes the address of the next instruction and jumps to `NNN`.
pub proof fn lemma_call(s: Chip8State, addr: u16, r: u8)
    ensures
        ({
            let t = s.execute(Instruction::Call { addr }, r);
            &&& t.program_counter == addr
            &&& t.stack.len() == s.stack.len() + 1
            &&& t.stack.last() == s.program_counter
            &&& t.stack.drop_last() == s.stack
            &&& (Chip8State { program_counter: s.program_counter, stack: s.stack, ..t }) == s
        }),
{
    assert(s.stack.push(s.program_counter).drop_last() =~= s.stack);
}

/// `00EE` pops the top of the stack into the program counter; with an empty
/// stack it goes to `0x200`.
pub proof fn lemma_return(s: Chip8State, r: u8)
    ensures
        ({
            let t = s.execute(Instruction::Return, r);
            &&& s.stack.len() > 0 ==> t.stack.push(t.program_counter) == s.stack
            &&& s.stack.len() == 0 ==> t.program_counter == 0x200 && t.stack == s.stack
            &&& (Chip8State { program_counter: s.program_counter, stack: s.stack, ..t }) == s
        }),
{
    if s.stack.len() > 0 {
        assert(s.stack.drop_last().push(s.stack.last()) =~= s.stack);
    }
}

/// What a conditional skip does: past one more instruction when `cond`, in
/// place otherwise, nothing else changed.
pub open spec fn skipped_when(s: Chip8State, t: Chip8State, cond: bool) -> bool {
    &&& cond ==> t.program_counter == s.program_counter + 2
    &&& !cond ==> t.program_counter == s.program_counter
    &&& (Chip8State { program_counter: s.program_counter, ..t }) == s
}

/// `3XNN`, `4XNN`, `5XY0`, `9XY0`, `EX9E` and `EXA1` skip the next
/// instruction exactly when `VX == NN`, `VX != NN`, `VX == VY`, `VX != VY`,
/// key `VX` is held, key `VX` is not held.
pub proof fn lemma_skips(s: Chip8State, x: u8, y: u8, nn: u8, r: u8)
    requires
        s.wf(),
        x < 16,
        y < 16,
        s.program_counter + 2 <= 0xFFFF,
    ensures
        skipped_when(s, s.execute(Instruction::SkipIfEqualImm { x, nn }, r), s.registers[x as int] == nn),
        skipped_when(s, s.execute(Instruction::SkipIfNotEqualImm { x, nn }, r), s.registers[x as int] != nn),
        skipped_when(
            s,
            s.execute(Instruction::SkipIfEqualReg { x, y }, r),
            s.registers[x as int] == s.registers[y as int],
        ),
        skipped_when(
            s,
            s.execute(Instruction::SkipIfNotEqualReg { x, y }, r),
            s.registers[x as int] != s.registers[y as int],
        ),
        s.registers[x as int] < 16 ==> skipped_when(
            s,
            s.execute(Instruction::SkipIfKey { x }, r),
            s.keyboard[s.registers[x as int] as int],
        ),
        s.registers[x as int] < 16 ==> skipped_when(
            s,
            s.execute(Instruction::SkipIfNotKey { x }, r),
            !s.keyboard[s.registers[x as int] as int],
        ),
{
}

/// `BNNN` jumps to `NNN` plus `V0` in legacy mode and plus `VX` otherwise.
pub proof fn lemma_jump_with_offset(s: Chip8State, x: u8, addr: u16, r: u8)
    requires
        s.wf(),
        x < 16,
        addr < 4096,
    ensures
        ({
            let t = s.execute(Instruction::JumpOffset { x, addr }, r);
            &&& s.legacy ==> t.program_counter == addr + s.registers[0]
            &&& !s.legacy ==> t.program_counter == addr + s.registers[x as int]
            &&& (Chip8State { program_counter: s.program_counter, ..t }) == s
        }),
{
}

// ---------------------------------------------------------- register arithmetic

/// `6XNN` puts `NN` in `VX`, `7XNN` adds `NN` to `VX` modulo 256 without
/// touching `VF`, `8XY0` copies `VY` to `VX`; the other registers and the rest
/// of the state stay.
pub proof fn lemma_load_add_move(s: Chip8State, x: u8, y: u8, nn: u8, r: u8)
    requires
        s.wf(),
        x < 16,
        y < 16,
    ensures
        ({
            let t = s.execute(Instruction::LoadImm { x, nn }, r);
            t.registers[x as int] == nn && others_kept(s, t, x as int) && t.registers[15] == (if x == 15 { nn } else { s.registers[15] })
                && only_registers_differ(s, t)
        }),
        ({
            let t = s.execute(Instruction::AddImm { x, nn }, r);
            &&& (t.registers[x as int] - s.registers[x as int] - nn) % 256 == 0
            &&& others_kept(s, t, x as int)
            &&& x != 15 ==> t.registers[15] == s.registers[15]
            &&& only_registers_differ(s, t)
        }),
        ({
            let t = s.execute(Instruction::Move { x, y }, r);
            &&& t.registers[x as int] == s.registers[y as int]
            &&& others_kept(s, t, x as int)
            &&& x != 15 ==> t.registers[15] == s.registers[15]
            &&& only_registers_differ(s, t)
        }),
{
    let t = s.execute(Instruction::AddImm { x, nn }, r);
    let v = s.registers[x as int] + nn;
    assert(t.registers[x as int] == v % 256);
    assert((v % 256 - v) % 256 == 0) by (nonlinear_arith);
}

/// `8XY1`, `8XY2`, `8XY3` put `VX | VY`, `VX & VY`, `VX ^ VY` in `VX`.
pub proof fn lemma_bitwise(s: Chip8State, x: u8, y: u8, r: u8)
    requires
        s.wf(),
        x < 16,
        y < 16,
    ensures
        ({
            let t = s.execute(Instruction::Or { x, y }, r);
            &&& t.registers[x as int] == s.registers[x as int] | s.registers[y as int]
            &&& others_kept(s, t, x as int)
            &&& x != 15 ==> t.registers[15] == s.registers[15]
            &&& only_registers_differ(s, t)
        }),
        ({
            let t = s.execute(Instruction::And { x, y }, r);
            &&& t.registers[x as int] == s.registers[x as int] & s.registers[y as int]
            &&& others_kept(s, t, x as int)
            &&& x != 15 ==> t.registers[15] == s.registers[15]
            &&& only_registers_differ(s, t)
        }),
        ({
            let t = s.execute(Instruction::Xor { x, y }, r);
            &&& t.registers[x as int] == s.registers[x as int] ^ s.registers[y as int]
            &&& others_kept(s, t, x as int)
            &&& x != 15 ==> t.registers[15] == s.registers[15]
            &&& only_registers_differ(s, t)
        }),
{
}

/// `8XY4`, `8XY5`, `8XY7`: with `X` other than `F`, the result and the flag
/// account for the whole sum or difference: `VX' + 256 * VF = VX + VY`,
/// `VX' + VY = VX + 256 * (1 - VF)`, `VX' + VX = VY + 256 * (1 - VF)`, with
/// `VF` 0 or 1; so `VF` is the carry, or 1 exactly when nothing was borrowed.
pub proof fn lemma_add_sub_flags(s: Chip8State, x: u8, y: u8, r: u8)
    requires
        s.wf(),
        x < 15,
        y < 16,
    ensures
        ({
            let t = s.execute(Instruction::AddReg { x, y }, r);
            &&& t.registers[15] <= 1
            &&& t.registers[x as int] + 256 * t.registers[15] == s.registers[x as int] + s.registers[y as int]
            &&& others_kept(s, t, x as int)
            &&& only_registers_differ(s, t)
        }),
        ({
            let t = s.execute(Instruction::SubReg { x, y }, r);
            &&& t.registers[15] <= 1
            &&& t.registers[x as int] + s.registers[y as int] == s.registers[x as int] + 256 * (1 - t.registers[15])
            &&& (t.registers[15] == 1 <==> s.registers[x as int] >= s.registers[y as int])
            &&& others_kept(s, t, x as int)
            &&& only_registers_differ(s, t)
        }),
        ({
            let t = s.execute(Instruction::SubRevReg { x, y }, r);
            &&& t.registers[15] <= 1
            &&& t.registers[x as int] + s.registers[x as int] == s.registers[y as int] + 256 * (1 - t.registers[15])
            &&& (t.registers[15] == 1 <==> s.registers[y as int] >= s.registers[x as int])
            &&& others_kept(s, t, x as int)
            &&& only_registers_differ(s, t)
        }),
{
}

/// `8XY6` and `8XYE` shift the source (`VY` in legacy mode, `VX` otherwise)
/// by one and put the bit shifted out in `VF`: `2 * VX' + VF` or
/// `VX' + 256 * VF` equals the source, resp. twice the source, when `X` is not
/// `F`.
pub proof fn lemma_shifts(s: Chip8State, x: u8, y: u8, r: u8)
    requires
        s.wf(),
        x < 15,
        y < 16,
    ensures
        ({
            let t = s.execute(Instruction::ShiftRight { x, y }, r);
            let src = if s.legacy { s.registers[y as int] } else { s.registers[x as int] };
            &&& t.registers[15] <= 1
            &&& 2 * t.registers[x as int] + t.registers[15] == src
            &&& others_kept(s, t, x as int)
            &&& only_registers_differ(s, t)
        }),
        ({
            let t = s.execute(Instruction::ShiftLeft { x, y }, r);
            let src = if s.legacy { s.registers[y as int] } else { s.registers[x as int] };
            &&& t.registers[15] <= 1
            &&& t.registers[x as int] + 256 * t.registers[15] == 2 * src
            &&& others_kept(s, t, x as int)
            &&& only_registers_differ(s, t)
        }),
{
}

/// `CXNN` puts the random byte masked with `NN` in `VX`.
pub proof fn lemma_random(s: Chip8State, x: u8, nn: u8, r: u8)
    requires
        s.wf(),
        x < 16,
    ensures
        ({
            let t = s.execute(Instruction::Random { x, nn }, r);
            &&& t.registers[x as int] == r & nn
            &&& others_kept(s, t, x as int)
            &&& only_registers_differ(s, t)
        }),
{
}

// ------------------------------------------------------------ index and memory

/// `ANNN` sets `I` to `NNN`, `FX1E` adds `VX` to `I`, `FX29` sets `I` to
/// `0x50 + 5 * VX`; nothing else changes.
pub proof fn lemma_index(s: Chip8State, x: u8, addr: u16, r: u8)
    requires
        s.wf(),
        x < 16,
    ensures
        s.execute(Instruction::SetIndex { addr }, r).index == addr,
        (Chip8State { index: s.index, ..s.execute(Instruction::SetIndex { addr }, r) }) == s,
        s.index + s.registers[x as int] <= 0xFFFF ==> s.execute(Instruction::AddIndex { x }, r).index
            == s.index + s.registers[x as int],
        (Chip8State { index: s.index, ..s.execute(Instruction::AddIndex { x }, r) }) == s,
        0x50 + 5 * s.registers[x as int] <= 0xFF ==> s.execute(Instruction::FontChar { x }, r).index
            == 0x50 + 5 * s.registers[x as int],
        (Chip8State { index: s.index, ..s.execute(Instruction::FontChar { x }, r) }) == s,
{
}

/// `FX33` writes the hundreds, tens and units of `VX` at `I`, `I+1`, `I+2`
/// and no other byte.
pub proof fn lemma_bcd_frame(s: Chip8State, x: u8, r: u8)
    requires
        s.wf(),
        x < 16,
        s.index + 2 < 4096,
    ensures
        ({
            let t = s.execute(Instruction::StoreBcd { x }, r);
            let i = s.index as int;
            &&& t.memory.len() == 4096
            &&& t.memory[i] == s.registers[x as int] / 100
            &&& t.memory[i + 1] == (s.registers[x as int] / 10) % 10
            &&& t.memory[i + 2] == s.registers[x as int] % 10
            &&& forall|a: int| 0 <= a < 4096 && (a < i || a > i + 2) ==> #[trigger] t.memory[a] == s.memory[a]
            &&& (Chip8State { memory: s.memory, ..t }) == s
        }),
{
}

/// `FX55` writes `V0..=VX` at `I..=I+X` and no other byte; `I` then points
/// just past them in legacy mode and stays otherwise.
pub proof fn lemma_store_registers(s: Chip8State, x: u8, r: u8)
    requires
        s.wf(),
        x < 16,
        s.index + x < 4096,
    ensures
        ({
            let t = s.execute(Instruction::StoreRegs { x }, r);
            let i = s.index as int;
            &&& t.memory.len() == 4096
            &&& forall|k: int| 0 <= k <= x ==> #[trigger] t.memory[i + k] == s.registers[k]
            &&& forall|a: int| 0 <= a < 4096 && (a < i || a > i + x) ==> #[trigger] t.memory[a] == s.memory[a]
            &&& t.index == if s.legacy { i + x + 1 } else { i }
            &&& (Chip8State { memory: s.memory, index: s.index, ..t }) == s
        }),
{
}

/// `FX65` reads `V0..=VX` from `I..=I+X`, leaves the other registers; `I`
/// then points just past them in legacy mode and stays otherwise.
pub proof fn lemma_load_registers(s: Chip8State, x: u8, r: u8)
    requires
        s.wf(),
        x < 16,
        s.index + x + 1 <= 4096,
    ensures
        ({
            let t = s.execute(Instruction::LoadRegs { x }, r);
            let i = s.index as int;
            &&& t.registers.len() == 16
            &&& forall|k: int| 0 <= k <= x ==> #[trigger] t.registers[k] == s.memory[i + k]
            &&& forall|k: int| x < k < 16 ==> #[trigger] t.registers[k] == s.registers[k]
            &&& t.index == if s.legacy { i + x + 1 } else { i }
            &&& (Chip8State { registers: s.registers, index: s.index, ..t }) == s
        }),
{
}

// ------------------------------------------------------------ timers and keys

/// `FX07` reads the delay timer into `VX`; `FX15` and `FX18` set the delay and
/// sound timers from `VX`.
pub proof fn lemma_timers(s: Chip8State, x: u8, r: u8)
    requires
        s.wf(),
        x < 16,
    ensures
        ({
            let t = s.execute(Instruction::LoadDelay { x }, r);
            t.registers[x as int] == s.delay_timer && others_kept(s, t, x as int) && only_registers_differ(s, t)
        }),
        s.execute(Instruction::SetDelay { x }, r) == (Chip8State { delay_timer: s.registers[x as int], ..s }),
        s.execute(Instruction::SetSound { x }, r) == (Chip8State { sound_timer: s.registers[x as int], ..s }),
{
}

/// `FX0A` with a press pending takes its key into `VX` and consumes the press
/// (none is pending after it); with none pending it moves the program counter
/// back onto itself and changes nothing else.
pub proof fn lemma_wait_key(s: Chip8State, x: u8, r: u8)
    requires
        s.wf(),
        x < 16,
        s.program_counter >= 2,
    ensures
        ({
            let t = s.execute(Instruction::WaitKey { x }, r);
            &&& !t.key_pressed.0
            &&& s.key_pressed.0 ==> {
                &&& t.registers[x as int] == s.key_pressed.1
                &&& others_kept(s, t, x as int)
                &&& t.program_counter == s.program_counter
                &&& (Chip8State { registers: s.registers, key_pressed: s.key_pressed, ..t }) == s
            }
            &&& !s.key_pressed.0 ==> t.program_counter == s.program_counter - 2
                && (Chip8State { program_counter: s.program_counter, ..t }) == s
        }),
{
}

/// Two `FX0A` in a row take one press: the first takes the key, the second
/// keeps waiting on itself.
pub proof fn lemma_wait_key_consumes_press(s: Chip8State, x: u8, y: u8, r1: u8, r2: u8)
    requires
        s.wf(),
        x < 16,
        y < 16,
        s.key_pressed.0,
        s.program_counter >= 2,
    ensures
        ({
            let t = s.execute(Instruction::WaitKey { x }, r1);
            let u = t.execute(Instruction::WaitKey { x: y }, r2);
            &&& u.program_counter == t.program_counter - 2
            &&& u.registers == t.registers
        }),
{
}

/// Pressing a key holds it and leaves the other keys; releasing a key lets it
/// go and leaves the other keys; keys above `F` change nothing.
pub proof fn lemma_keys(s: Chip8State, key: int)
    requires
        s.wf(),
    ensures
        0 <= key < 16 ==> s.press(key).keyboard[key] && !s.release(key).keyboard[key],
        forall|k: int| 0 <= k < 16 && k != key ==> #[trigger] s.press(key).keyboard[k] == s.keyboard[k],
        forall|k: int| 0 <= k < 16 && k != key ==> #[trigger] s.release(key).keyboard[k] == s.keyboard[k],
        s.press(key).keyboard.len() == 16,
        s.release(key).keyboard.len() == 16,
        (Chip8State { keyboard: s.keyboard, ..s.press(key) }) == s,
        (Chip8State { keyboard: s.keyboard, ..s.release(key) }) == s,
        !(0 <= key < 16) ==> s.press(key) == s && s.release(key) == s,
{
}

// --------------------------------------------------------------------- screen

/// `00E0` darkens every pixel and raises the draw flag.
pub proof fn lemma_clear_screen(s: Chip8State, r: u8)
    requires
        s.wf(),
    ensures
        ({
            let t = s.execute(Instruction::ClearScreen, r);
            &&& t.display.len() == 2048
            &&& forall|p: int| 0 <= p < 2048 ==> !#[trigger] t.display[p]
            &&& t.draw
            &&& (Chip8State { display: s.display, draw: s.draw, ..t }) == s
        }),
{
}

proof fn lemma_row_bit(row: u8, b: u8)
    requires
        b < 8,
    ensures
        (row & (0x80u8 >> b) != 0) == ((row >> ((7 - b) as u8)) & 1u8 == 1u8),
{
    assert((row & (0x80u8 >> b) != 0) == ((row >> ((7u8 - b) as u8)) & 1u8 == 1u8)) by (bit_vector)
        requires
            b < 8,
    ;
}

/// Whether `DXYN` with its corner at (`x0`, `y0`) puts a lit sprite bit on
/// pixel `p`: row `r`, column `c` of the screen hold bit `c - x0` (from the
/// left) of the sprite byte at `I + (r - y0)`, for rows below `y0 + n` and
/// columns below `x0 + 8`.
pub open spec fn lit_by_sprite(s: Chip8State, x0: int, y0: int, n: int, p: int) -> bool {
    let r = p / 64;
    let c = p % 64;
    &&& y0 <= r < y0 + n
    &&& x0 <= c < x0 + 8
    &&& (s.memory[s.index + (r - y0)] >> ((7 - (c - x0)) as u8)) & 1u8 == 1u8
}

/// `DXYN` flips exactly the pixels under lit sprite bits, with the corner at
/// (`VX mod 64`, `VY mod 32`) and the sprite cut at the screen edges; `VF`
/// becomes 1 when some lit pixel went dark and 0 otherwise, whatever it held
/// before; the draw flag goes up and nothing else changes.
#[verifier::rlimit(40)]
pub proof fn lemma_draw(s: Chip8State, x: u8, y: u8, n: u8, r: u8)
    requires
        s.wf(),
        x < 16,
        y < 16,
        n < 16,
    ensures
        ({
            let t = s.execute(Instruction::Draw { x, y, n }, r);
            let x0 = (s.registers[x as int] % 64) as int;
            let y0 = (s.registers[y as int] % 32) as int;
            &&& t.display.len() == 2048
            &&& forall|p: int| 0 <= p < 2048 ==> #[trigger] t.display[p] == (s.display[p] != lit_by_sprite(s, x0, y0, n as int, p))
            &&& t.registers.len() == 16
            &&& (t.registers[15] == 1 <==> exists|p: int| 0 <= p < 2048 && s.display[p] && !#[trigger] t.display[p])
            &&& (t.registers[15] == 0 <==> !exists|p: int| 0 <= p < 2048 && s.display[p] && !#[trigger] t.display[p])
            &&& others_kept(s, t, 15)
            &&& t.draw
            &&& (Chip8State { display: s.display, registers: s.registers, draw: s.draw, ..t }) == s
        }),
{
    let t = s.execute(Instruction::Draw { x, y, n }, r);
    let x0 = (s.registers[x as int] % 64) as int;
    let y0 = (s.registers[y as int] % 32) as int;
    assert forall|p: int| 0 <= p < 2048 implies #[trigger] t.display[p] == (s.display[p] != lit_by_sprite(
        s,
        x0,
        y0,
        n as int,
        p,
    )) by {
        let c = p % 64;
        if x0 <= c < x0 + 8 {
            lemma_row_bit(s.memory[s.index + (p / 64 - y0)], (c - x0) as u8);
        }
    }
    if s.draw_collides(x0, y0, n as int) {
        let w = choose|p: int| 0 <= p < 2048 && #[trigger] s.display[p] && s.sprite_covers(x0, y0, n as int, p);
        assert(s.display[w] && !t.display[w]);
    } else {
        assert forall|p: int| 0 <= p < 2048 && s.display[p] implies #[trigger] t.display[p] by {
            assert(!s.sprite_covers(x0, y0, n as int, p));
        }
    }
}

// -------------------------------------------------------------------- decoding

/// The opcode of an instruction, as the instruction table writes it.
pub open spec fn encode(ins: Instruction) -> int {
    match ins {
        Instruction::ClearScreen => 0x00E0,
        Instruction::Return => 0x00EE,
        Instruction::Jump { addr } => 0x1000 + addr,
        Instruction::Call { addr } => 0x2000 + addr,
        Instruction::SkipIfEqualImm { x, nn } => 0x3000 + 256 * x + nn,
        Instruction::SkipIfNotEqualImm { x, nn } => 0x4000 + 256 * x + nn,
        Instruction::SkipIfEqualReg { x, y } => 0x5000 + 256 * x + 16 * y,
        Instruction::LoadImm { x, nn } => 0x6000 + 256 * x + nn,
        Instruction::AddImm { x, nn } => 0x7000 + 256 * x + nn,
        Instruction::Move { x, y } => 0x8000 + 256 * x + 16 * y,
        Instruction::Or { x, y } => 0x8001 + 256 * x + 16 * y,
        Instruction::And { x, y } => 0x8002 + 256 * x + 16 * y,
        Instruction::Xor { x, y } => 0x8003 + 256 * x + 16 * y,
        Instruction::AddReg { x, y } => 0x8004 + 256 * x + 16 * y,
        Instruction::SubReg { x, y } => 0x8005 + 256 * x + 16 * y,
        Instruction::ShiftRight { x, y } => 0x8006 + 256 * x + 16 * y,
        Instruction::SubRevReg { x, y } => 0x8007 + 256 * x + 16 * y,
        Instruction::ShiftLeft { x, y } => 0x800E + 256 * x + 16 * y,
        Instruction::SkipIfNotEqualReg { x, y } => 0x9000 + 256 * x + 16 * y,
        Instruction::SetIndex { addr } => 0xA000 + addr,
        Instruction::JumpOffset { x, addr } => 0xB000 + addr,
        Instruction::Random { x, nn } => 0xC000 + 256 * x + nn,
        Instruction::Draw { x, y, n } => 0xD000 + 256 * x + 16 * y + n,
        Instruction::SkipIfKey { x } => 0xE09E + 256 * x,
        Instruction::SkipIfNotKey { x } => 0xE0A1 + 256 * x,
        Instruction::LoadDelay { x } => 0xF007 + 256 * x,
        Instruction::WaitKey { x } => 0xF00A + 256 * x,
        Instruction::SetDelay { x } => 0xF015 + 256 * x,
        Instruction::SetSound { x } => 0xF018 + 256 * x,
        Instruction::AddIndex { x } => 0xF01E + 256 * x,
        Instruction::FontChar { x } => 0xF029 + 256 * x,
        Instruction::StoreBcd { x } => 0xF033 + 256 * x,
        Instruction::StoreRegs { x } => 0xF055 + 256 * x,
        Instruction::LoadRegs { x } => 0xF065 + 256 * x,
    }
}

/// Decoding only ever gives the instruction that the table writes as that
/// opcode.
#[verifier::rlimit(40)]
pub proof fn lemma_decode_matches_table(op: u16)
    ensures
        spec_decode(op) matches Some(ins) ==> encode(ins) == op,
{
    lemma_nibbles(op);
}

/// An opcode is made of its four nibbles.
proof fn lemma_nibbles(op: u16)
    ensures
        op == 4096 * nib1(op) + 256 * nib2(op) + 16 * nib3(op) + nib4(op),
        0 <= nib1(op) < 16,
        0 <= nib2(op) < 16,
        0 <= nib3(op) < 16,
        0 <= nib4(op) < 16,
        low12(op) == 256 * nib2(op) + 16 * nib3(op) + nib4(op),
        low8(op) == 16 * nib3(op) + nib4(op),
{
    assert(op == 4096 * (op / 4096) + 256 * ((op / 256) % 16) + 16 * ((op / 16) % 16) + op % 16) by (bit_vector);
    assert(op / 4096 < 16 && (op / 256) % 16 < 16 && (op / 16) % 16 < 16 && op % 16 < 16) by (bit_vector);
    assert(op % 4096 == 256 * ((op / 256) % 16) + 16 * ((op / 16) % 16) + op % 16) by (bit_vector);
    assert(op % 256 == 16 * ((op / 16) % 16) + op % 16) by (bit_vector);
}

/// Every instruction of the table decodes from its opcode (for `BNNN`, `X`
/// being the top digit of `NNN`).
#[verifier::rlimit(40)]
pub proof fn lemma_table_decodes(ins: Instruction)
    requires
        ins.wf(),
        ins matches Instruction::JumpOffset { x, addr } ==> x == addr / 256,
    ensures
        0 <= encode(ins) <= 0xFFFF,
        spec_decode(encode(ins) as u16) == Some(ins),
{
    match ins {
        Instruction::ClearScreen => lemma_compose(0, 0, 14, 0),
        Instruction::Return => lemma_compose(0, 0, 14, 14),
        Instruction::Jump { addr } => lemma_compose(1, addr as int / 256, (addr as int / 16) % 16, addr as int % 16),
        Instruction::Call { addr } => lemma_compose(2, addr as int / 256, (addr as int / 16) % 16, addr as int % 16),
        Instruction::SetIndex { addr } => lemma_compose(10, addr as int / 256, (addr as int / 16) % 16, addr as int % 16),
        Instruction::JumpOffset { x, addr } => lemma_compose(11, addr as int / 256, (addr as int / 16) % 16, addr as int % 16),
        Instruction::SkipIfEqualImm { x, nn } => lemma_compose(3, x as int, nn as int / 16, nn as int % 16),
        Instruction::SkipIfNotEqualImm { x, nn } => lemma_compose(4, x as int, nn as int / 16, nn as int % 16),
        Instruction::LoadImm { x, nn } => lemma_compose(6, x as int, nn as int / 16, nn as int % 16),
        Instruction::AddImm { x, nn } => lemma_compose(7, x as int, nn as int / 16, nn as int % 16),
        Instruction::Random { x, nn } => lemma_compose(12, x as int, nn as int / 16, nn as int % 16),
        Instruction::SkipIfEqualReg { x, y } => lemma_compose(5, x as int, y as int, 0),
        Instruction::SkipIfNotEqualReg { x, y } => lemma_compose(9, x as int, y as int, 0),
        Instruction::Move { x, y } => lemma_compose(8, x as int, y as int, 0),
        Instruction::Or { x, y } => lemma_compose(8, x as int, y as int, 1),
        Instruction::And { x, y } => lemma_compose(8, x as int, y as int, 2),
        Instruction::Xor { x, y } => lemma_compose(8, x as int, y as int, 3),
        Instruction::AddReg { x, y } => lemma_compose(8, x as int, y as int, 4),
        Instruction::SubReg { x, y } => lemma_compose(8, x as int, y as int, 5),
        Instruction::ShiftRight { x, y } => lemma_compose(8, x as int, y as int, 6),
        Instruction::SubRevReg { x, y } => lemma_compose(8, x as int, y as int, 7),
        Instruction::ShiftLeft { x, y } => lemma_compose(8, x as int, y as int, 14),
        Instruction::Draw { x, y, n } => lemma_compose(13, x as int, y as int, n as int),
        Instruction::SkipIfKey { x } => lemma_compose(14, x as int, 9, 14),
        Instruction::SkipIfNotKey { x } => lemma_compose(14, x as int, 10, 1),
        Instruction::LoadDelay { x } => lemma_compose(15, x as int, 0, 7),
        Instruction::WaitKey { x } => lemma_compose(15, x as int, 0, 10),
        Instruction::SetDelay { x } => lemma_compose(15, x as int, 1, 5),
        Instruction::SetSound { x } => lemma_compose(15, x as int, 1, 8),
        Instruction::AddIndex { x } => lemma_compose(15, x as int, 1, 14),
        Instruction::FontChar { x } => lemma_compose(15, x as int, 2, 9),
        Instruction::StoreBcd { x } => lemma_compose(15, x as int, 3, 3),
        Instruction::StoreRegs { x } => lemma_compose(15, x as int, 5, 5),
        Instruction::LoadRegs { x } => lemma_compose(15, x as int, 6, 5),
    }
}

/// The opcode made of four nibbles has those nibbles.
proof fn lemma_compose(a: int, b: int, c: int, d: int)
    requires
        0 <= a < 16,
        0 <= b < 16,
        0 <= c < 16,
        0 <= d < 16,
    ensures
        ({
            let op = (4096 * a + 256 * b + 16 * c + d) as u16;
            &&& op as int == 4096 * a + 256 * b + 16 * c + d
            &&& nib1(op) == a && nib2(op) == b && nib3(op) == c && nib4(op) == d
            &&& low12(op) == 256 * b + 16 * c + d
            &&& low8(op) == 16 * c + d
        }),
{
    let op = (4096 * a + 256 * b + 16 * c + d) as u16;
    lemma_nibbles(op);
}


// ---------------------------------------------------------------------- cycles

/// A cycle with the program counter below 4094 reads the opcode high byte
/// first from the program counter, moves the program counter two bytes on,
/// and then either runs the instruction and returns `Ok(true)`, or, for an
/// opcode with no instruction, stops there with an error; at 4094 or above it
/// changes nothing and returns the limit error.
pub proof fn lemma_cycle(s: Chip8State, r: u8)
    requires
        s.wf(),
    ensures
        s.program_counter < 4094 ==> ({
            let pc = s.program_counter as int;
            let op = (256 * s.memory[pc] + s.memory[pc + 1]) as u16;
            let moved = Chip8State { program_counter: (pc + 2) as u16, ..s };
            &&& spec_decode(op) matches Some(ins) ==> s.step(r) == (moved.execute(ins, r), Ok::<bool, Seq<char>>(true))
            &&& spec_decode(op) is None ==> s.step(r) == (moved, Err::<bool, Seq<char>>(unknown_instruction_message(op)))
        }),
        s.program_counter >= 4094 ==> s.step(r) == (s, Err::<bool, Seq<char>>(pc_limit_message())),
{
}

/// The value of an upper-case hexadecimal digit.
pub open spec fn hex_value(c: char) -> int {
    if '0' <= c <= '9' { c as int - '0' as int } else { c as int - 'A' as int + 10 }
}

/// The message of an unknown opcode is `Unknown instruction: ` followed by
/// four upper-case hexadecimal digits that spell the opcode.
#[verifier::rlimit(40)]
pub proof fn lemma_unknown_instruction_message(op: u16)
    ensures
        ({
            let m = unknown_instruction_message(op);
            &&& m.len() == 25
            &&& m.subrange(0, 21) == "Unknown instruction: "@
            &&& forall|k: int| 21 <= k < 25 ==> ('0' <= #[trigger] m[k] <= '9' || 'A' <= m[k] <= 'F')
            &&& 4096 * hex_value(m[21]) + 256 * hex_value(m[22]) + 16 * hex_value(m[23]) + hex_value(m[24]) == op
        }),
{
    reveal_strlit("Unknown instruction: ");
    let m = unknown_instruction_message(op);
    lemma_nibbles(op);
    assert forall|d: int| 0 <= d < 16 implies hex_value(#[trigger] hex_digit(d)) == d
        && ('0' <= hex_digit(d) <= '9' || 'A' <= hex_digit(d) <= 'F') by {
    }
    assert(m.subrange(0, 21) =~= "Unknown instruction: "@);
    assert(m[21] == hex_digit(nib1(op)));
    assert(m[22] == hex_digit(nib2(op)));
    assert(m[23] == hex_digit(nib3(op)));
    assert(m[24] == hex_digit(nib4(op)));
}

/// Whether an address lies inside the 4 KiB of memory.
pub open spec fn in_memory(a: int) -> bool {
    0 <= a < 4096
}

/// The cycles that can run are all cycles but these: `DXYN` reading sprite
/// rows past the end of memory (it reads up to `n` rows, and one more row
/// than fit on screen), `EX9E`/`EXA1` with `VX` above `F`, `FX1E` taking `I`
/// past `0xFFFF`, `FX29` with `0x50 + 5 * VX` above `0xFF`, and `FX33`,
/// `FX55`, `FX65` touching memory past its end.
#[verifier::rlimit(40)]
pub proof fn lemma_can_execute(s: Chip8State, ins: Instruction)
    requires
        s.wf(),
        ins.wf(),
    ensures
        s.can_execute(ins) <==> match ins {
            Instruction::Draw { x, y, n } => {
                let y0 = s.registers[y as int] % 32;
                forall|k: int| 0 <= k < n && y0 + k <= 32 ==> #[trigger] in_memory(s.index + k)
            },
            Instruction::SkipIfKey { x } | Instruction::SkipIfNotKey { x } => s.registers[x as int] < 16,
            Instruction::AddIndex { x } => s.index + s.registers[x as int] <= 0xFFFF,
            Instruction::FontChar { x } => 0x50 + 5 * s.registers[x as int] <= 0xFF,
            Instruction::StoreBcd { x } => s.index + 2 < 4096,
            Instruction::StoreRegs { x } => s.index + x < 4096,
            Instruction::LoadRegs { x } => s.index + x < 4096,
            _ => true,
        },
{
    if let Instruction::Draw { x, y, n } = ins {
        let y0 = s.registers[y as int] % 32;
        let rows = Chip8State::rows_read(y0 as int, n as int);
        if rows > 0 {
            if s.can_execute(ins) {
            } else {
                assert(0 <= rows - 1 < n && y0 + (rows - 1) <= 32);
                assert(!in_memory(s.index + (rows - 1)));
            }
        }
    }
}

// ----------------------------------------------------------------- start state

/// A fresh interpreter starts at `0x200` with all registers, timers and keys
/// cleared, no press pending, an empty stack, a dark screen, the draw flag
/// down, `I` at 0, the sixteen five-row glyphs `0`..`F` at `0x50..0xA0` and
/// every other byte of memory 0.
pub proof fn lemma_initial_state(legacy: bool)
    ensures
        ({
            let s = initial_state(legacy);
            &&& s.wf()
            &&& s.program_counter == 0x200
            &&& s.index == 0
            &&& s.stack.len() == 0
            &&& s.delay_timer == 0 && s.sound_timer == 0
            &&& !s.key_pressed.0
            &&& !s.draw
            &&& s.legacy == legacy
            &&& forall|k: int| 0 <= k < 16 ==> #[trigger] s.registers[k] == 0 && !s.keyboard[k]
            &&& forall|p: int| 0 <= p < 2048 ==> !#[trigger] s.display[p]
            &&& forall|k: int| 0 <= k < 80 ==> #[trigger] s.memory[0x50 + k] == spec_font()[k]
            &&& forall|a: int| 0 <= a < 4096 && !(0x50 <= a < 0xA0) ==> #[trigger] s.memory[a] == 0
            &&& spec_font() == seq![
                0xF0u8, 0x90, 0x90, 0x90, 0xF0, 0x20, 0x60, 0x20, 0x20, 0x70, // 0 1
                0xF0, 0x10, 0xF0, 0x80, 0xF0, 0xF0, 0x10, 0xF0, 0x10, 0xF0, // 2 3
                0x90, 0x90, 0xF0, 0x10, 0x10, 0xF0, 0x80, 0xF0, 0x10, 0xF0, // 4 5
                0xF0, 0x80, 0xF0, 0x90, 0xF0, 0xF0, 0x10, 0x20, 0x40, 0x40, // 6 7
                0xF0, 0x90, 0xF0, 0x90, 0xF0, 0xF0, 0x90, 0xF0, 0x10, 0xF0, // 8 9
                0xF0, 0x90, 0xF0, 0x90, 0x90, 0xE0, 0x90, 0xE0, 0x90, 0xE0, // A B
                0xF0, 0x80, 0x80, 0x80, 0xF0, 0xE0, 0x90, 0x90, 0x90, 0xE0, // C D
                0xF0, 0x80, 0xF0, 0x80, 0xF0, 0xF0, 0x80, 0xF0, 0x80, 0x80, // E F
            ]
        }),
{
}

/// The screen as bytes has one byte per pixel: 1 for a lit pixel, 0 for a
/// dark one.
pub proof fn lemma_display_bytes(s: Chip8State)
    requires
        s.wf(),
    ensures
        s.display_bytes().len() == 2048,
        forall|p: int| 0 <= p < 2048 ==> (#[trigger] s.display_bytes()[p] == 1 <==> s.display[p]),
        forall|p: int| 0 <= p < 2048 ==> (#[trigger] s.display_bytes()[p] == 0 <==> !s.display[p]),
{
}

} // verus!
