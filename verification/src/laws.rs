//! Properties of the interpreter that span several steps or hold of every
//! step.

use vstd::prelude::*;
use crate::instruction::{Instruction, spec_decode, lemma_decode_wf};
use crate::semantics::{Chip8State, pc_limit_message, spec_font};

verus! {

/// Every cycle that stays in bounds keeps the sizes of memory, registers, keypad and frame buffer.
pub proof fn lemma_step_keeps_wf(s: Chip8State, rnd: u8)
    requires
        s.wf(),
        s.can_step(),
    ensures
        s.step(rnd).0.wf(),
{
    if s.program_counter < 4094 {
        lemma_decode_wf(s.fetch());
        if let Some(ins) = spec_decode(s.fetch()) {
            lemma_execute_keeps_wf(s.advance(), ins, rnd);
        }
    }
}

/// Every instruction that stays in bounds keeps the sizes of memory, registers, keypad and frame
/// buffer.
pub proof fn lemma_execute_keeps_wf(s: Chip8State, ins: Instruction, rnd: u8)
    requires
        s.wf(),
        ins.wf(),
        s.can_execute(ins),
    ensures
        s.execute(ins, rnd).wf(),
{
    match ins {
        Instruction::Draw { x, y, n } => {
            assert(s.execute(ins, rnd).display.len() == 2048);
        },
        Instruction::StoreRegs { x } => {
            assert(s.execute(ins, rnd).memory.len() == 4096);
        },
        Instruction::LoadRegs { x } => {
            assert(s.execute(ins, rnd).registers.len() == 16);
        },
        _ => {},
    }
}


/// A cycle refused for its program counter changes nothing and says why.
pub proof fn lemma_refused_cycle_changes_nothing(s: Chip8State, rnd: u8)
    requires
        s.program_counter >= 4094,
    ensures
        s.step(rnd).0 == s,
        s.step(rnd).1 == Err::<bool, Seq<char>>(pc_limit_message()),
{
}

/// Only `CXNN` depends on the random byte: every other cycle is the same
/// whatever byte it is given.
pub proof fn lemma_step_needs_random_only_for_cxnn(s: Chip8State, r1: u8, r2: u8)
    requires
        !s.uses_random(),
    ensures
        s.step(r1) == s.step(r2),
{
}

/// A `2NNN` call to a routine that starts with `00EE` comes back to the
/// instruction after the call, with the stack as it was.
pub proof fn lemma_call_then_return(s: Chip8State, r1: u8, r2: u8, addr: u16)
    requires
        s.wf(),
        s.program_counter < 4094,
        spec_decode(s.fetch()) == Some(Instruction::Call { addr }),
        addr < 4094,
        s.memory[addr as int] == 0x00,
        s.memory[addr + 1] == 0xEE,
    ensures
        s.step(r1).0.step(r2).0 == s.advance(),
        s.step(r1).1 == Ok::<bool, Seq<char>>(true),
{
    let t = s.step(r1).0;
    assert(t.fetch() == 0x00EE);
    assert(spec_decode(0x00EE) == Some(Instruction::Return));
    assert(t.stack.drop_last() =~= s.stack);
}

/// Drawing the same sprite twice at the same place restores the frame buffer,
/// when neither coordinate register is `VF` (which the first draw sets).
pub proof fn lemma_draw_twice_restores_display(s: Chip8State, x: u8, y: u8, n: u8, r1: u8, r2: u8)
    requires
        s.wf(),
        x < 15,
        y < 15,
        n < 16,
    ensures
        s.execute(Instruction::Draw { x, y, n }, r1).execute(Instruction::Draw { x, y, n }, r2).display
            == s.display,
{
    let ins = Instruction::Draw { x, y, n };
    let t = s.execute(ins, r1);
    let u = t.execute(ins, r2);
    assert(t.reg(x as int) == s.reg(x as int));
    assert(t.reg(y as int) == s.reg(y as int));
    let (x0, y0) = ((s.reg(x as int) % 64) as int, (s.reg(y as int) % 32) as int);
    assert forall|p: int| 0 <= p < 2048 implies #[trigger] u.display[p] == s.display[p] by {
        assert(t.sprite_covers(x0, y0, n as int, p) == s.sprite_covers(x0, y0, n as int, p));
    }
    assert(u.display =~= s.display);
}

/// `FX33` stores the three decimal digits of `VX`, most significant first.
pub proof fn lemma_bcd_digits(s: Chip8State, x: u8, rnd: u8)
    requires
        s.wf(),
        x < 16,
        s.can_execute(Instruction::StoreBcd { x }),
    ensures
        ({
            let t = s.execute(Instruction::StoreBcd { x }, rnd);
            let i = s.index as int;
            &&& t.memory[i] < 10 && t.memory[i + 1] < 10 && t.memory[i + 2] < 10
            &&& t.memory[i] * 100 + t.memory[i + 1] * 10 + t.memory[i + 2] == s.reg(x as int)
        }),
{
}

/// Outside legacy mode, `FX55` followed by `FX65` with the same `X` gives
/// back the registers it stored.
pub proof fn lemma_store_then_load_registers(s: Chip8State, x: u8, r1: u8, r2: u8)
    requires
        s.wf(),
        !s.legacy,
        x < 16,
        s.can_execute(Instruction::StoreRegs { x }),
    ensures
        s.execute(Instruction::StoreRegs { x }, r1).execute(Instruction::LoadRegs { x }, r2).registers
            == s.registers,
{
    let t = s.execute(Instruction::StoreRegs { x }, r1);
    let u = t.execute(Instruction::LoadRegs { x }, r2);
    assert(u.registers =~= s.registers);
}

/// `8XY4` loses nothing: the new `VX` plus 256 times the carry in `VF` is the
/// sum of the old `VX` and `VY`, when `X` is not `F`.
pub proof fn lemma_add_with_carry(s: Chip8State, x: u8, y: u8, rnd: u8)
    requires
        s.wf(),
        x < 15,
        y < 16,
    ensures
        ({
            let t = s.execute(Instruction::AddReg { x, y }, rnd);
            t.reg(x as int) + 256 * t.reg(15) == s.reg(x as int) + s.reg(y as int)
        }),
{
}

/// Releasing a key that was pressed from the released state puts the keypad
/// back as it was, and a pressed key reads as held.
pub proof fn lemma_press_then_release(s: Chip8State, key: int)
    requires
        s.wf(),
        0 <= key < 16,
        !s.keyboard[key],
    ensures
        s.press(key).keyboard[key],
        s.press(key).release(key) == s,
{
    assert(s.press(key).release(key).keyboard =~= s.keyboard);
}

/// With the font in place (as a fresh interpreter has it), `FX29` points `I`
/// at the five rows of the glyph for the digit in `VX`.
pub proof fn lemma_font_char_points_at_glyph(s: Chip8State, x: u8, rnd: u8)
    requires
        s.wf(),
        x < 16,
        s.reg(x as int) < 16,
        s.memory.subrange(0x50, 0xA0) == spec_font(),
    ensures
        ({
            let t = s.execute(Instruction::FontChar { x }, rnd);
            let d = s.reg(x as int) as int;
            t.memory.subrange(t.index as int, t.index + 5) == spec_font().subrange(5 * d, 5 * d + 5)
        }),
{
    let t = s.execute(Instruction::FontChar { x }, rnd);
    let d = s.reg(x as int) as int;
    assert(t.index == 0x50 + 5 * d);
    assert forall|k: int| 0 <= k < 5 implies #[trigger] t.memory[t.index + k] == spec_font()[5 * d + k] by {
        assert(s.memory.subrange(0x50, 0xA0)[5 * d + k] == s.memory[0x50 + 5 * d + k]);
    }
    assert(t.memory.subrange(t.index as int, t.index + 5) =~= spec_font().subrange(5 * d, 5 * d + 5));
}

/// A fresh interpreter has the font in place.
pub proof fn lemma_initial_state_has_font(legacy: bool)
    ensures
        crate::semantics::initial_state(legacy).memory.subrange(0x50, 0xA0) == spec_font(),
        crate::semantics::initial_state(legacy).wf(),
{
    assert(crate::semantics::initial_state(legacy).memory.subrange(0x50, 0xA0) =~= spec_font());
}

} // verus!
