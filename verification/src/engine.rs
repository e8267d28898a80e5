//! The interpreter itself: its state, the fetch-decode-execute cycle and the
//! controls that the host uses to feed keys, read the screen and run timers.

use vstd::prelude::*;
use crate::instruction::{Instruction, decode, opcode, lemma_decode_wf};
use crate::laws::lemma_step_keeps_wf;
use crate::message::{pc_limit_error, unknown_instruction_error};
use crate::random::random_byte;
use crate::semantics::{Chip8State, initial_state, outcome, spec_font, sprite_bit};

verus! {

/// A CHIP-8 interpreter.
pub struct Chip8Engine {
    memory: Vec<u8>,
    program_counter: u16,
    registers: Vec<u8>,
    keyboard: Vec<bool>,
    key_pressed: (bool, u8),
    index: u16,
    stack: Vec<u16>,
    display: Vec<bool>,
    delay_timer: u8,
    sound_timer: u8,
    legacy: bool,
    draw: bool,
}

impl View for Chip8Engine {
    type V = Chip8State;

    closed spec fn view(&self) -> Chip8State {
        Chip8State {
            memory: self.memory@,
            program_counter: self.program_counter,
            registers: self.registers@,
            keyboard: self.keyboard@,
            key_pressed: self.key_pressed,
            index: self.index,
            stack: self.stack@,
            display: self.display@,
            delay_timer: self.delay_timer,
            sound_timer: self.sound_timer,
            legacy: self.legacy,
            draw: self.draw,
        }
    }
}

/// The built-in font, as it is copied to `0x50`.
fn font_set() -> (font: Vec<u8>)
    ensures
        font@ == spec_font(),
{
    let font: Vec<u8> = vec![
        0xF0, 0x90, 0x90, 0x90, 0xF0, // 0
        0x20, 0x60, 0x20, 0x20, 0x70, // 1
        0xF0, 0x10, 0xF0, 0x80, 0xF0, // 2
        0xF0, 0x10, 0xF0, 0x10, 0xF0, // 3
        0x90, 0x90, 0xF0, 0x10, 0x10, // 4
        0xF0, 0x80, 0xF0, 0x10, 0xF0, // 5
        0xF0, 0x80, 0xF0, 0x90, 0xF0, // 6
        0xF0, 0x10, 0x20, 0x40, 0x40, // 7
        0xF0, 0x90, 0xF0, 0x90, 0xF0, // 8
        0xF0, 0x90, 0xF0, 0x10, 0xF0, // 9
        0xF0, 0x90, 0xF0, 0x90, 0x90, // A
        0xE0, 0x90, 0xE0, 0x90, 0xE0, // B
        0xF0, 0x80, 0x80, 0x80, 0xF0, // C
        0xE0, 0x90, 0x90, 0x90, 0xE0, // D
        0xF0, 0x80, 0xF0, 0x80, 0xF0, // E
        0xF0, 0x80, 0xF0, 0x80, 0x80, // F
    ];
    assert(font@ =~= spec_font());
    font
}

/// A vector of `n` zero bytes.
fn zeroed_bytes(n: usize) -> (v: Vec<u8>)
    ensures
        v@ == Seq::new(n as nat, |i: int| 0u8),
{
    let mut v: Vec<u8> = Vec::new();
    while v.len() < n
        invariant
            v.len() <= n,
            forall|i: int| 0 <= i < v.len() ==> v@[i] == 0u8,
        decreases n - v.len(),
    {
        v.push(0);
    }
    assert(v@ =~= Seq::new(n as nat, |i: int| 0u8));
    v
}

/// A vector of `n` times `false`.
fn cleared_flags(n: usize) -> (v: Vec<bool>)
    ensures
        v@ == Seq::new(n as nat, |i: int| false),
{
    let mut v: Vec<bool> = Vec::new();
    while v.len() < n
        invariant
            v.len() <= n,
            forall|i: int| 0 <= i < v.len() ==> !v@[i],
        decreases n - v.len(),
    {
        v.push(false);
    }
    assert(v@ =~= Seq::new(n as nat, |i: int| false));
    v
}

impl Chip8Engine {
    /// A fresh interpreter: 4 KiB of zeroed memory with the font at `0x50`,
    /// all registers, timers and keys cleared, a blank screen, and execution
    /// starting at `0x200`. `legacy` selects the COSMAC VIP
    /// behaviour of the shift, jump-with-offset and register store/load
    /// instructions.
    pub fn new(legacy: bool) -> (engine: Self)
        ensures
            engine@ == initial_state(legacy),
    {
        let mut memory = zeroed_bytes(4096);
        let font = font_set();
        let mut i: usize = 0;
        while i < 80
            invariant
                i <= 80,
                font@ == spec_font(),
                memory@.len() == 4096,
                forall|a: int|
                    0 <= a < 4096 ==> #[trigger] memory@[a] == if 0x50 <= a < 0x50 + i {
                        spec_font()[a - 0x50]
                    } else {
                        0u8
                    },
            decreases 80 - i,
        {
            memory[0x50 + i] = font[i];
            i += 1;
        }
        let engine = Chip8Engine {
            memory,
            program_counter: 0x200,
            registers: zeroed_bytes(16),
            keyboard: cleared_flags(16),
            key_pressed: (false, 0),
            index: 0,
            stack: Vec::new(),
            display: cleared_flags(2048),
            delay_timer: 0,
            sound_timer: 0,
            legacy,
            draw: false,
        };
        assert(engine@.memory =~= initial_state(legacy).memory);
        engine
    }

    /// Copies a program into memory from `0x200` on; the rest of memory is
    /// left as it was. A program must fit in the 3584 bytes from `0x200` to
    /// the end of memory.
    pub fn load_bytes(&mut self, data: &[u8])
        requires
            old(self)@.wf(),
            data@.len() <= 4096 - 0x200,
        ensures
            final(self)@ == (Chip8State {
                memory: Seq::new(
                    4096,
                    |a: int| if 0x200 <= a < 0x200 + data@.len() { data@[a - 0x200] } else { old(self)@.memory[a] },
                ),
                ..old(self)@
            }),
    {
        let mut i: usize = 0;
        while i < data.len()
            invariant
                i <= data@.len() <= 4096 - 0x200,
                self.memory@.len() == 4096,
                self@ == (Chip8State { memory: self.memory@, ..old(self)@ }),
                forall|a: int|
                    0 <= a < 4096 ==> #[trigger] self.memory@[a] == if 0x200 <= a < 0x200 + i {
                        data@[a - 0x200]
                    } else {
                        old(self)@.memory[a]
                    },
            decreases data@.len() - i,
        {
            self.memory[0x200 + i] = data[i];
            i += 1;
        }
        assert(self@.memory =~= Seq::new(
            4096,
            |a: int| if 0x200 <= a < 0x200 + data@.len() { data@[a - 0x200] } else { old(self)@.memory[a] },
        ));
    }
}


/// Pixels of the sprite that lie before row `row`, or on row `row` left of
/// column `col`: the part of the sprite drawn so far.
spec fn drawn_before(s: Chip8State, x0: int, y0: int, n: int, p: int, row: int, col: int) -> bool {
    &&& s.sprite_covers(x0, y0, n, p)
    &&& (p / 64 < row || (p / 64 == row && p % 64 < col))
}

proof fn lemma_sprite_bit(row: u8, b: u8)
    requires
        b < 8,
    ensures
        (((row << b) & 0x80u8) != 0u8) == sprite_bit(row, b),
{
    assert((((row << b) & 0x80u8) != 0u8) == (row & (0x80u8 >> b) != 0)) by (bit_vector)
        requires
            b < 8,
    ;
}

impl Chip8Engine {
    /// `DXYN` with the start corner already reduced to the screen: flips the
    /// pixels under the sprite, sets `VF` to whether a lit pixel went out, and
    /// raises the draw flag.
    fn draw_sprite(&mut self, x0: u8, y0: u8, n: u8)
        requires
            old(self)@.wf(),
            x0 < 64,
            y0 < 32,
            Chip8State::rows_read(y0 as int, n as int) == 0
                || old(self)@.index + Chip8State::rows_read(y0 as int, n as int) <= 4096,
        ensures
            final(self)@ == old(self)@.draw_sprite(x0 as int, y0 as int, n as int),
    {
        let ghost s0 = self@;
        let ghost (xi, yi, ni) = (x0 as int, y0 as int, n as int);
        self.registers[15] = 0;
        let mut collision = false;
        let mut h: u8 = 0;
        while h < n
            invariant
                s0.wf(),
                x0 < 64,
                y0 < 32,
                xi == x0,
                yi == y0,
                ni == n,
                Chip8State::rows_read(yi, ni) == 0 || s0.index + Chip8State::rows_read(yi, ni) <= 4096,
                h <= n,
                y0 + h <= 32,
                self@ == (Chip8State { display: self.display@, registers: self.registers@, ..s0 }),
                self.display@.len() == 2048,
                self.registers@ == s0.registers.update(15, if collision { 1u8 } else { 0u8 }),
                forall|p: int|
                    0 <= p < 2048 ==> #[trigger] self.display@[p] == (s0.display[p] != drawn_before(
                        s0, xi, yi, ni, p, yi + h, 0)),
                collision == exists|p: int|
                    0 <= p < 2048 && #[trigger] s0.display[p] && drawn_before(s0, xi, yi, ni, p, yi + h, 0),
            ensures
                h == n || y0 + h == 32,
                self@ == (Chip8State { display: self.display@, registers: self.registers@, ..s0 }),
                self.display@.len() == 2048,
                self.registers@ == s0.registers.update(15, if collision { 1u8 } else { 0u8 }),
                forall|p: int|
                    0 <= p < 2048 ==> #[trigger] self.display@[p] == (s0.display[p] != drawn_before(
                        s0, xi, yi, ni, p, yi + h, 0)),
                collision == exists|p: int|
                    0 <= p < 2048 && #[trigger] s0.display[p] && drawn_before(s0, xi, yi, ni, p, yi + h, 0),
            decreases n - h,
        {
            let row: u8 = self.memory[(self.index + h as u16) as usize];
            let curr_y: u8 = y0 + h;
            if curr_y == 32 {
                break;
            }
            let ghost r = curr_y as int;
            let mut bit: u8 = 0;
            while bit < 8
                invariant
                    s0.wf(),
                    x0 < 64,
                    curr_y < 32,
                    r == curr_y,
                    xi == x0,
                    yi == y0,
                    ni == n,
                    h < n,
                    curr_y == y0 + h,
                    row == s0.memory[s0.index + h],
                    bit <= 8,
                    x0 + bit <= 64,
                    self@ == (Chip8State { display: self.display@, registers: self.registers@, ..s0 }),
                    self.display@.len() == 2048,
                    self.registers@ == s0.registers.update(15, if collision { 1u8 } else { 0u8 }),
                    forall|p: int|
                        0 <= p < 2048 ==> #[trigger] self.display@[p] == (s0.display[p] != drawn_before(
                            s0, xi, yi, ni, p, r, x0 + bit)),
                    collision == exists|p: int|
                        0 <= p < 2048 && #[trigger] s0.display[p] && drawn_before(s0, xi, yi, ni, p, r, x0 + bit),
                ensures
                    bit == 8 || x0 + bit == 64,
                    self@ == (Chip8State { display: self.display@, registers: self.registers@, ..s0 }),
                    self.display@.len() == 2048,
                    self.registers@ == s0.registers.update(15, if collision { 1u8 } else { 0u8 }),
                    forall|p: int|
                        0 <= p < 2048 ==> #[trigger] self.display@[p] == (s0.display[p] != drawn_before(
                            s0, xi, yi, ni, p, r, x0 + bit)),
                    collision == exists|p: int|
                        0 <= p < 2048 && #[trigger] s0.display[p] && drawn_before(s0, xi, yi, ni, p, r, x0 + bit),
                decreases 8 - bit,
            {
                let curr_bit: bool = (row << bit) & 0b1000_0000 != 0;
                let curr_x: u8 = x0 + bit;
                if curr_x == 64 {
                    break;
                }
                let idx: usize = (curr_y as u16 * 64 + curr_x as u16) as usize;
                let ghost c = curr_x as int;
                proof {
                    lemma_sprite_bit(row, bit);
                    assert(idx / 64 == r && idx % 64 == c) by (nonlinear_arith)
                        requires
                            idx == r * 64 + c,
                            0 <= c < 64,
                            0 <= r,
                    ;
                    assert(curr_bit == s0.sprite_covers(xi, yi, ni, idx as int));
                    let ghost c1 = c + 1;
                    assert forall|p: int| 0 <= p < 2048 && p != idx implies
                        #[trigger] drawn_before(s0, xi, yi, ni, p, r, c1) == drawn_before(s0, xi, yi, ni, p, r, c) by {
                        if p / 64 == r && p % 64 == c {
                            assert(p == 64 * (p / 64) + p % 64);
                        }
                    }
                    assert(drawn_before(s0, xi, yi, ni, idx as int, r, c + 1) == curr_bit);
                    assert(!drawn_before(s0, xi, yi, ni, idx as int, r, c));
                }
                let ghost before = self.display@;
                if self.display[idx] && curr_bit {
                    self.display[idx] = false;
                    self.registers[15] = 1;
                    collision = true;
                } else if !self.display[idx] && curr_bit {
                    self.display[idx] = true;
                }
                proof {
                    let ghost i = idx as int;
                    if collision {
                        if s0.display[i] && curr_bit {
                            assert(s0.display[i] && drawn_before(s0, xi, yi, ni, i, r, c + 1));
                        } else {
                            let w = choose|p: int|
                                0 <= p < 2048 && #[trigger] s0.display[p] && drawn_before(s0, xi, yi, ni, p, r, c);
                            assert(s0.display[w] && drawn_before(s0, xi, yi, ni, w, r, c + 1));
                        }
                    }
                    assert(self.registers@ =~= s0.registers.update(15, if collision { 1u8 } else { 0u8 }));
                }
                bit += 1;
            }
            proof {
                let ghost cc = x0 + bit;
                let ghost nr = yi + h + 1;
                assert forall|p: int| 0 <= p < 2048 implies
                    #[trigger] drawn_before(s0, xi, yi, ni, p, r, cc) == drawn_before(s0, xi, yi, ni, p, nr, 0) by {
                }
            }
            h += 1;
        }
        proof {
            let ghost nr = yi + h;
            assert forall|p: int| 0 <= p < 2048 implies
                #[trigger] drawn_before(s0, xi, yi, ni, p, nr, 0) == s0.sprite_covers(xi, yi, ni, p) by {
            }
        }
        self.draw = true;
        assert(self.display@ =~= s0.drawn_display(xi, yi, ni));
        assert(self.registers@ =~= s0.registers.update(15, if s0.draw_collides(xi, yi, ni) { 1u8 } else { 0u8 }));
    }
}


impl Chip8Engine {
    /// `FX55`: stores `V0..=VX` in memory from `I` on; in legacy mode `I`
    /// ends up just past the last byte written.
    fn store_registers(&mut self, x: u8)
        requires
            old(self)@.wf(),
            x < 16,
            old(self)@.index + x < 4096,
        ensures
            final(self)@ == (Chip8State {
                memory: old(self)@.stored_registers(x as int),
                index: if old(self)@.legacy { (old(self)@.index + x + 1) as u16 } else { old(self)@.index },
                ..old(self)@
            }),
    {
        let ghost s0 = self@;
        let start = self.index;
        let count: usize = x as usize + 1;
        let mut k: usize = 0;
        while k < count
            invariant
                s0.wf(),
                count == x + 1,
                x < 16,
                start == s0.index,
                start + x < 4096,
                k <= count,
                self.memory@.len() == 4096,
                self.registers@ == s0.registers,
                self.index == if s0.legacy { (start + k) as u16 } else { start },
                self@ == (Chip8State { memory: self.memory@, index: self.index, ..s0 }),
                forall|a: int|
                    0 <= a < 4096 ==> #[trigger] self.memory@[a] == if start <= a < start + k {
                        s0.registers[a - start]
                    } else {
                        s0.memory[a]
                    },
            decreases count - k,
        {
            if self.legacy {
                self.memory[self.index as usize] = self.registers[k];
                self.index += 1;
            } else {
                self.memory[(start + k as u16) as usize] = self.registers[k];
            }
            k += 1;
        }
        assert(self.memory@ =~= s0.stored_registers(x as int));
    }

    /// `FX65`: loads `V0..=VX` from memory at `I`; in legacy mode `I` ends up
    /// just past the last byte read.
    fn load_registers(&mut self, x: u8)
        requires
            old(self)@.wf(),
            x < 16,
            old(self)@.index + x + 1 <= 4096,
        ensures
            final(self)@ == (Chip8State {
                registers: old(self)@.loaded_registers(x as int),
                index: if old(self)@.legacy { (old(self)@.index + x + 1) as u16 } else { old(self)@.index },
                ..old(self)@
            }),
    {
        let ghost s0 = self@;
        let start = self.index;
        let count: usize = x as usize + 1;
        let mut k: usize = 0;
        while k < count
            invariant
                s0.wf(),
                count == x + 1,
                x < 16,
                start == s0.index,
                start + x + 1 <= 4096,
                k <= count,
                self.registers@.len() == 16,
                self.memory@ == s0.memory,
                self.index == if s0.legacy { (start + k) as u16 } else { start },
                self@ == (Chip8State { registers: self.registers@, index: self.index, ..s0 }),
                forall|i: int|
                    0 <= i < 16 ==> #[trigger] self.registers@[i] == if i < k {
                        s0.memory[start + i]
                    } else {
                        s0.registers[i]
                    },
            decreases count - k,
        {
            let value = self.memory[(start + k as u16) as usize];
            self.registers[k] = value;
            if self.legacy {
                self.index += 1;
            }
            k += 1;
        }
        assert(self.registers@ =~= s0.loaded_registers(x as int));
    }

    /// Runs one decoded instruction, the program counter having already moved
    /// past it.
    #[verifier::rlimit(50)]
    fn execute(&mut self, ins: Instruction, random: u8)
        requires
            old(self)@.wf(),
            ins.wf(),
            old(self)@.can_execute(ins),
            2 <= old(self)@.program_counter <= 4095,
        ensures
            final(self)@ == old(self)@.execute(ins, random),
    {
        let ghost s0 = self@;
        match ins {
            Instruction::ClearScreen => {
                self.display = cleared_flags(2048);
                self.draw = true;
            },
            Instruction::Return => {
                self.program_counter = match self.stack.pop() {
                    Some(addr) => addr,
                    None => 0x200,
                };
            },
            Instruction::Jump { addr } => {
                self.program_counter = addr;
            },
            Instruction::Call { addr } => {
                self.stack.push(self.program_counter);
                self.program_counter = addr;
            },
            Instruction::SkipIfEqualImm { x, nn } => {
                if self.registers[x as usize] == nn {
                    self.program_counter += 2;
                }
            },
            Instruction::SkipIfNotEqualImm { x, nn } => {
                if self.registers[x as usize] != nn {
                    self.program_counter += 2;
                }
            },
            Instruction::SkipIfEqualReg { x, y } => {
                if self.registers[x as usize] == self.registers[y as usize] {
                    self.program_counter += 2;
                }
            },
            Instruction::SkipIfNotEqualReg { x, y } => {
                if self.registers[x as usize] != self.registers[y as usize] {
                    self.program_counter += 2;
                }
            },
            Instruction::LoadImm { x, nn } => {
                self.registers[x as usize] = nn;
            },
            Instruction::AddImm { x, nn } => {
                let v = self.registers[x as usize].wrapping_add(nn);
                self.registers[x as usize] = v;
            },
            Instruction::Move { x, y } => {
                let v = self.registers[y as usize];
                self.registers[x as usize] = v;
            },
            Instruction::Or { x, y } => {
                let v = self.registers[x as usize] | self.registers[y as usize];
                self.registers[x as usize] = v;
            },
            Instruction::And { x, y } => {
                let v = self.registers[x as usize] & self.registers[y as usize];
                self.registers[x as usize] = v;
            },
            Instruction::Xor { x, y } => {
                let v = self.registers[x as usize] ^ self.registers[y as usize];
                self.registers[x as usize] = v;
            },
            Instruction::AddReg { x, y } => {
                let vx = self.registers[x as usize];
                let vy = self.registers[y as usize];
                let carries: bool = vx as u16 + vy as u16 > 255;
                self.registers[x as usize] = vx.wrapping_add(vy);
                self.registers[15] = if carries { 1 } else { 0 };
            },
            Instruction::SubReg { x, y } => {
                let vx = self.registers[x as usize];
                let vy = self.registers[y as usize];
                let borrows: bool = vx < vy;
                self.registers[x as usize] = vx.wrapping_sub(vy);
                self.registers[15] = if !borrows { 1 } else { 0 };
            },
            Instruction::SubRevReg { x, y } => {
                let vx = self.registers[x as usize];
                let vy = self.registers[y as usize];
                let borrows: bool = vy < vx;
                self.registers[x as usize] = vy.wrapping_sub(vx);
                self.registers[15] = if !borrows { 1 } else { 0 };
            },
            Instruction::ShiftRight { x, y } => {
                let target = if self.legacy {
                    self.registers[y as usize]
                } else {
                    self.registers[x as usize]
                };
                let shifted_out = target & 1;
                assert(target & 1 == target % 2 && target >> 1 == target / 2) by (bit_vector);
                self.registers[x as usize] = target >> 1;
                self.registers[15] = shifted_out;
            },
            Instruction::ShiftLeft { x, y } => {
                let target = if self.legacy {
                    self.registers[y as usize]
                } else {
                    self.registers[x as usize]
                };
                let shifted_out = (target & 0x80) >> 7;
                assert((target & 0x80) >> 7 == target / 128 && target << 1 == (target * 2) % 256) by (bit_vector);
                self.registers[x as usize] = target << 1;
                self.registers[15] = shifted_out;
            },
            Instruction::SetIndex { addr } => {
                self.index = addr;
            },
            Instruction::JumpOffset { x, addr } => {
                if self.legacy {
                    self.program_counter = addr + self.registers[0] as u16;
                } else {
                    self.program_counter = addr + self.registers[x as usize] as u16;
                }
            },
            Instruction::Random { x, nn } => {
                self.registers[x as usize] = random & nn;
            },
            Instruction::Draw { x, y, n } => {
                let x0: u8 = self.registers[x as usize] % 64;
                let y0: u8 = self.registers[y as usize] % 32;
                self.draw_sprite(x0, y0, n);
            },
            Instruction::SkipIfKey { x } => {
                if self.keyboard[self.registers[x as usize] as usize] {
                    self.program_counter += 2;
                }
            },
            Instruction::SkipIfNotKey { x } => {
                if !self.keyboard[self.registers[x as usize] as usize] {
                    self.program_counter += 2;
                }
            },
            Instruction::LoadDelay { x } => {
                self.registers[x as usize] = self.delay_timer;
            },
            Instruction::SetDelay { x } => {
                self.delay_timer = self.registers[x as usize];
            },
            Instruction::SetSound { x } => {
                self.sound_timer = self.registers[x as usize];
            },
            Instruction::AddIndex { x } => {
                self.index += self.registers[x as usize] as u16;
            },
            Instruction::WaitKey { x } => {
                self.program_counter -= 2;
                if self.key_pressed.0 {
                    self.registers[x as usize] = self.key_pressed.1;
                    self.key_pressed.0 = false;
                    self.program_counter += 2;
                }
            },
            Instruction::FontChar { x } => {
                self.index = (0x50 + self.registers[x as usize] * 5) as u16;
            },
            Instruction::StoreBcd { x } => {
                let number: u8 = self.registers[x as usize];
                let i: usize = self.index as usize;
                self.memory[i] = number / 100;
                self.memory[i + 1] = (number % 100) / 10;
                self.memory[i + 2] = number % 10;
            },
            Instruction::StoreRegs { x } => {
                self.store_registers(x);
            },
            Instruction::LoadRegs { x } => {
                self.load_registers(x);
            },
        }
        assert(self@ =~= s0.execute(ins, random));
    }
}


impl Chip8Engine {
    /// Whether the instruction stays in bounds (see `Chip8State::can_execute`).
    fn can_execute(&self, ins: Instruction) -> (ok: bool)
        requires
            self@.wf(),
            ins.wf(),
        ensures
            ok == self@.can_execute(ins),
    {
        match ins {
            Instruction::Draw { x, y, n } => {
                let y0: u8 = self.registers[y as usize] % 32;
                let rows: u32 = if (n as u32) < 33 - y0 as u32 { n as u32 } else { 33 - y0 as u32 };
                rows == 0 || self.index as u32 + rows <= 4096
            },
            Instruction::SkipIfKey { x } => self.registers[x as usize] < 16,
            Instruction::SkipIfNotKey { x } => self.registers[x as usize] < 16,
            Instruction::AddIndex { x } => self.index as u32 + self.registers[x as usize] as u32 <= 0xFFFF,
            Instruction::FontChar { x } => 0x50 + self.registers[x as usize] as u32 * 5 <= 0xFF,
            Instruction::StoreBcd { x } => (self.index as u32) + 2 < 4096,
            Instruction::StoreRegs { x } => (self.index as u32) + (x as u32) < 4096,
            Instruction::LoadRegs { x } => (self.index as u32) + (x as u32) + 1 <= 4096,
            _ => true,
        }
    }

    /// Whether the next cycle stays inside memory, the keypad and the range of
    /// its arithmetic, so that `tick` may run it; a host checks this before
    /// each cycle and stops where it is `false`.
    pub fn can_tick(&self) -> (ok: bool)
        requires
            self@.wf(),
        ensures
            ok == self@.can_step(),
    {
        if self.program_counter >= 4094 {
            return true;
        }
        let pc = self.program_counter as usize;
        let op = opcode(self.memory[pc], self.memory[pc + 1]);
        proof {
            lemma_decode_wf(op);
        }
        match decode(op) {
            Some(ins) => self.can_execute(ins),
            None => true,
        }
    }

    /// One fetch-decode-execute cycle, with `random` as the byte that `CXNN`
    /// masks. A program counter at 4094 or above is refused with an error and
    /// the state unchanged; an unknown opcode is refused with an error naming
    /// it, after the program counter has moved past it; every other cycle
    /// returns `Ok(true)`.
    pub fn tick_with_random(&mut self, random: u8) -> (r: Result<bool, String>)
        requires
            old(self)@.wf(),
            old(self)@.can_step(),
        ensures
            final(self)@ == old(self)@.step(random).0,
            outcome(r) == old(self)@.step(random).1,
            final(self)@.wf(),
    {
        proof {
            lemma_step_keeps_wf(self@, random);
        }
        if self.program_counter >= 4094 {
            return Err(pc_limit_error());
        }
        let pc = self.program_counter as usize;
        let op = opcode(self.memory[pc], self.memory[pc + 1]);
        self.program_counter += 2;
        proof {
            lemma_decode_wf(op);
        }
        match decode(op) {
            Some(ins) => {
                self.execute(ins, random);
                Ok(true)
            },
            None => Err(unknown_instruction_error(op)),
        }
    }

    /// Whether the next cycle runs `CXNN`.
    fn needs_random(&self) -> (b: bool)
        requires
            self@.wf(),
        ensures
            b == self@.uses_random(),
    {
        if self.program_counter >= 4094 {
            return false;
        }
        let pc = self.program_counter as usize;
        let op = opcode(self.memory[pc], self.memory[pc + 1]);
        match decode(op) {
            Some(Instruction::Random { .. }) => true,
            _ => false,
        }
    }

    /// One fetch-decode-execute cycle (see `tick_with_random`); `CXNN` takes
    /// its byte from the thread-local random generator, and the cycle is the
    /// one that `tick_with_random` runs with that byte.
    pub fn tick(&mut self) -> (r: Result<bool, String>)
        requires
            old(self)@.wf(),
            old(self)@.can_step(),
        ensures
            exists|random: u8|
                final(self)@ == old(self)@.step(random).0 && outcome(r) == old(self)@.step(random).1,
            final(self)@.wf(),
    {
        let random: u8 = if self.needs_random() { random_byte() } else { 0 };
        self.tick_with_random(random)
    }
}


impl Chip8Engine {
    /// Holds key `key` down; keys above `F` are ignored.
    pub fn press_key(&mut self, key: usize)
        requires
            old(self)@.wf(),
        ensures
            final(self)@ == old(self)@.press(key as int),
    {
        if key < 16 {
            self.keyboard[key] = true;
        }
    }

    /// Releases key `key`; keys above `F` are ignored.
    pub fn release_key(&mut self, key: usize)
        requires
            old(self)@.wf(),
        ensures
            final(self)@ == old(self)@.release(key as int),
    {
        if key < 16 {
            self.keyboard[key] = false;
        }
    }

    /// Records a key press for `FX0A` to pick up.
    pub fn set_key_pressed(&mut self, key: u8)
        ensures
            final(self)@ == (Chip8State { key_pressed: (true, key), ..old(self)@ }),
    {
        self.key_pressed = (true, key);
    }

    /// Drops a recorded key press, keeping the key it named.
    pub fn clear_key_pressed(&mut self)
        ensures
            final(self)@ == (Chip8State { key_pressed: (false, old(self)@.key_pressed.1), ..old(self)@ }),
    {
        self.key_pressed.0 = false;
    }

    /// The delay timer.
    pub fn get_delay_timer(&self) -> (value: u8)
        ensures
            value == self@.delay_timer,
    {
        self.delay_timer
    }

    /// Sets the delay timer.
    pub fn set_delay_timer(&mut self, value: u8)
        ensures
            final(self)@ == (Chip8State { delay_timer: value, ..old(self)@ }),
    {
        self.delay_timer = value;
    }

    /// The sound timer.
    pub fn get_sound_timer(&self) -> (value: u8)
        ensures
            value == self@.sound_timer,
    {
        self.sound_timer
    }

    /// Sets the sound timer.
    pub fn set_sound_timer(&mut self, value: u8)
        ensures
            final(self)@ == (Chip8State { sound_timer: value, ..old(self)@ }),
    {
        self.sound_timer = value;
    }

    /// Whether the frame buffer changed since the flag was last reset.
    pub fn get_draw_flag(&self) -> (flag: bool)
        ensures
            flag == self@.draw,
    {
        self.draw
    }

    /// Lowers the draw flag once the frame buffer has been shown.
    pub fn reset_draw_flag(&mut self)
        ensures
            final(self)@ == (Chip8State { draw: false, ..old(self)@ }),
    {
        self.draw = false;
    }

    /// Whether the interpreter follows the COSMAC VIP behaviour.
    pub fn is_old(&self) -> (legacy: bool)
        ensures
            legacy == self@.legacy,
    {
        self.legacy
    }

    /// The frame buffer, row by row, 1 for a lit pixel and 0 for a dark one.
    pub fn get_display(&self) -> (pixels: Vec<u8>)
        ensures
            pixels@ == self@.display_bytes(),
    {
        let mut pixels: Vec<u8> = Vec::new();
        let mut i: usize = 0;
        while i < self.display.len()
            invariant
                i <= self.display@.len(),
                pixels@.len() == i,
                forall|p: int| 0 <= p < i ==> pixels@[p] == if self.display@[p] { 1u8 } else { 0u8 },
            decreases self.display@.len() - i,
        {
            pixels.push(if self.display[i] { 1 } else { 0 });
            i += 1;
        }
        assert(pixels@ =~= self@.display_bytes());
        pixels
    }
}

} // verus!
