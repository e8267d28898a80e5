//! The abstract machine: what one step of the interpreter does to the
//! memory, registers, stack, timers, keypad and frame buffer.

use vstd::prelude::*;
use crate::instruction::{Instruction, spec_decode, spec_opcode, nib1, nib2, nib3, nib4};

verus! {

/// Bytes of addressable memory.
pub const MEMORY_SIZE: usize = 4096;

/// Address at which programs are loaded and where execution starts.
pub const PROGRAM_START: u16 = 0x200;

/// Address of the built-in hexadecimal font.
pub const FONT_START: usize = 0x50;

/// Number of general purpose registers `V0..=VF`.
pub const REGISTER_COUNT: usize = 16;

/// Number of keys on the hexadecimal keypad.
pub const KEY_COUNT: usize = 16;

/// Number of pixels in the frame buffer.
pub const DISPLAY_SIZE: usize = 2048;

/// The abstract state of the interpreter.
#[verifier::ext_equal]
pub struct Chip8State {
    pub memory: Seq<u8>,
    pub program_counter: u16,
    pub registers: Seq<u8>,
    /// `true` for a key that is held down.
    pub keyboard: Seq<bool>,
    /// A key press waiting for `FX0A`: whether there is one, and the key.
    pub key_pressed: (bool, u8),
    pub index: u16,
    pub stack: Seq<u16>,
    /// Row-major, `64 * y + x`; `true` for a lit pixel.
    pub display: Seq<bool>,
    pub delay_timer: u8,
    pub sound_timer: u8,
    /// The COSMAC VIP behaviour of `8XY6`, `8XYE`, `BNNN`, `FX55`, `FX65`.
    pub legacy: bool,
    /// Set when the frame buffer changed and should be shown again.
    pub draw: bool,
}

/// The built-in font: sixteen glyphs `0`..`F`, five rows of four pixels each.
pub open spec fn spec_font() -> Seq<u8> {
    seq![
        0xF0u8, 0x90, 0x90, 0x90, 0xF0, // 0
        0x20, 0x60, 0x20, 0x20, 0x70, // 1
        0xF0, 0x10, 0xF0, 0x80, 0xF0, // 2
        0xF0, 0x10, 0xF0, 0x10, 0xF0, // 3
        0x90, 0x90, 0xF0, 0x10, 0x10, // 4
        0xF0, 0x80, 0xF0, 0x10, 0xF0, // 5
        0xF0, 0x80, 0xF0, 0x90, 0xF0, // 6
        0xF0, 0x10, 0x20, 0x40, 0x40, // 7
        0xF0, 0x90, 0xF0, 0x90, 0xF0, // 8
        0xF0, 0x90, 0xF0, 0x10, 0xF0, // 9
        0xF0, 0x90, 0xF0, 0x90, 0x90, // A
        0xE0, 0x90, 0xE0, 0x90, 0xE0, // B
        0xF0, 0x80, 0x80, 0x80, 0xF0, // C
        0xE0, 0x90, 0x90, 0x90, 0xE0, // D
        0xF0, 0x80, 0xF0, 0x80, 0xF0, // E
        0xF0, 0x80, 0xF0, 0x80, 0x80, // F
    ]
}

/// The state of a freshly built interpreter: the font at `0x50`, everything
/// else zero, execution starting at `0x200`.
pub open spec fn initial_state(legacy: bool) -> Chip8State {
    Chip8State {
        memory: Seq::new(
            4096,
            |a: int| if 0x50 <= a < 0xA0 { spec_font()[a - 0x50] } else { 0u8 },
        ),
        program_counter: 0x200,
        registers: Seq::new(16, |i: int| 0u8),
        keyboard: Seq::new(16, |i: int| false),
        key_pressed: (false, 0u8),
        index: 0,
        stack: Seq::empty(),
        display: Seq::new(2048, |i: int| false),
        delay_timer: 0,
        sound_timer: 0,
        legacy,
        draw: false,
    }
}

/// Whether bit `b` of a sprite row, counted from the left, is set.
pub open spec fn sprite_bit(row: u8, b: u8) -> bool {
    row & (0x80u8 >> b) != 0
}

impl Chip8State {
    /// The sizes of memory, registers, keypad and frame buffer.
    pub open spec fn wf(self) -> bool {
        &&& self.memory.len() == 4096
        &&& self.registers.len() == 16
        &&& self.keyboard.len() == 16
        &&& self.display.len() == 2048
    }

    /// Register `VX`.
    pub open spec fn reg(self, x: int) -> u8 {
        self.registers[x]
    }

    /// The state with `VX` set to `v`.
    pub open spec fn set_reg(self, x: int, v: u8) -> Chip8State {
        Chip8State { registers: self.registers.update(x, v), ..self }
    }

    /// The state with `VX` set to `v` and then `VF` set to `flag`.
    pub open spec fn set_reg_flag(self, x: int, v: u8, flag: u8) -> Chip8State {
        self.set_reg(x, v).set_reg(15, flag)
    }

    /// The state with the program counter moved past one more instruction
    /// when `cond` holds.
    pub open spec fn skip_if(self, cond: bool) -> Chip8State {
        if cond {
            Chip8State { program_counter: (self.program_counter + 2) as u16, ..self }
        } else {
            self
        }
    }

    /// Whether pixel `p` lies under a lit bit of the `n`-row sprite at `I`
    /// placed with its top-left corner at (`x0`, `y0`); the sprite is cut at
    /// the right and bottom edges of the screen.
    pub open spec fn sprite_covers(self, x0: int, y0: int, n: int, p: int) -> bool {
        let r = p / 64;
        let c = p % 64;
        &&& y0 <= r < y0 + n
        &&& x0 <= c < x0 + 8
        &&& sprite_bit(self.memory[self.index + (r - y0)], (c - x0) as u8)
    }

    /// The frame buffer with every pixel under the sprite flipped.
    pub open spec fn drawn_display(self, x0: int, y0: int, n: int) -> Seq<bool> {
        Seq::new(2048, |p: int| self.display[p] != self.sprite_covers(x0, y0, n, p))
    }

    /// Whether drawing the sprite turns a lit pixel off.
    pub open spec fn draw_collides(self, x0: int, y0: int, n: int) -> bool {
        exists|p: int| 0 <= p < 2048 && #[trigger] self.display[p] && self.sprite_covers(x0, y0, n, p)
    }

    /// The state after drawing the sprite: pixels flipped, `VF` set to 1 on a
    /// collision and to 0 otherwise, and the draw flag raised.
    pub open spec fn draw_sprite(self, x0: int, y0: int, n: int) -> Chip8State {
        Chip8State {
            display: self.drawn_display(x0, y0, n),
            registers: self.registers.update(15, if self.draw_collides(x0, y0, n) { 1u8 } else { 0u8 }),
            draw: true,
            ..self
        }
    }

    /// Number of sprite rows `DXYN` reads from memory for a sprite that starts
    /// on row `y0`: it reads the row that would fall on line 32 before it stops.
    pub open spec fn rows_read(y0: int, n: int) -> int {
        if n < 33 - y0 { n } else { 33 - y0 }
    }

    /// `V0..=VX` stored in memory from `I` on.
    pub open spec fn stored_registers(self, x: int) -> Seq<u8> {
        Seq::new(
            self.memory.len(),
            |a: int| if self.index <= a <= self.index + x { self.registers[a - self.index] } else { self.memory[a] },
        )
    }

    /// `V0..=VX` loaded from memory at `I`.
    pub open spec fn loaded_registers(self, x: int) -> Seq<u8> {
        Seq::new(
            self.registers.len(),
            |k: int| if k <= x { self.memory[self.index + k] } else { self.registers[k] },
        )
    }

    /// What one instruction does, the program counter having already moved
    /// past it; `rnd` is the random byte that `CXNN` uses.
    pub open spec fn execute(self, ins: Instruction, rnd: u8) -> Chip8State {
        match ins {
            Instruction::ClearScreen => Chip8State {
                display: Seq::new(2048, |p: int| false),
                draw: true,
                ..self
            },
            Instruction::Return => if self.stack.len() > 0 {
                Chip8State {
                    program_counter: self.stack.last(),
                    stack: self.stack.drop_last(),
                    ..self
                }
            } else {
                Chip8State { program_counter: 0x200, ..self }
            },
            Instruction::Jump { addr } => Chip8State { program_counter: addr, ..self },
            Instruction::Call { addr } => Chip8State {
                program_counter: addr,
                stack: self.stack.push(self.program_counter),
                ..self
            },
            Instruction::SkipIfEqualImm { x, nn } => self.skip_if(self.reg(x as int) == nn),
            Instruction::SkipIfNotEqualImm { x, nn } => self.skip_if(self.reg(x as int) != nn),
            Instruction::SkipIfEqualReg { x, y } => self.skip_if(self.reg(x as int) == self.reg(y as int)),
            Instruction::SkipIfNotEqualReg { x, y } => self.skip_if(self.reg(x as int) != self.reg(y as int)),
            Instruction::LoadImm { x, nn } => self.set_reg(x as int, nn),
            Instruction::AddImm { x, nn } => self.set_reg(x as int, ((self.reg(x as int) + nn) % 256) as u8),
            Instruction::Move { x, y } => self.set_reg(x as int, self.reg(y as int)),
            Instruction::Or { x, y } => self.set_reg(x as int, self.reg(x as int) | self.reg(y as int)),
            Instruction::And { x, y } => self.set_reg(x as int, self.reg(x as int) & self.reg(y as int)),
            Instruction::Xor { x, y } => self.set_reg(x as int, self.reg(x as int) ^ self.reg(y as int)),
            Instruction::AddReg { x, y } => {
                let sum = self.reg(x as int) + self.reg(y as int);
                self.set_reg_flag(x as int, (sum % 256) as u8, if sum > 255 { 1 } else { 0 })
            },
            Instruction::SubReg { x, y } => {
                let (vx, vy) = (self.reg(x as int), self.reg(y as int));
                self.set_reg_flag(x as int, ((vx - vy + 256) % 256) as u8, if vx >= vy { 1 } else { 0 })
            },
            Instruction::SubRevReg { x, y } => {
                let (vx, vy) = (self.reg(x as int), self.reg(y as int));
                self.set_reg_flag(x as int, ((vy - vx + 256) % 256) as u8, if vy >= vx { 1 } else { 0 })
            },
            Instruction::ShiftRight { x, y } => {
                let t = if self.legacy { self.reg(y as int) } else { self.reg(x as int) };
                self.set_reg_flag(x as int, t / 2, t % 2)
            },
            Instruction::ShiftLeft { x, y } => {
                let t = if self.legacy { self.reg(y as int) } else { self.reg(x as int) };
                self.set_reg_flag(x as int, ((t * 2) % 256) as u8, t / 128)
            },
            Instruction::SetIndex { addr } => Chip8State { index: addr, ..self },
            Instruction::JumpOffset { x, addr } => {
                let offset = if self.legacy { self.reg(0) } else { self.reg(x as int) };
                Chip8State { program_counter: (addr + offset) as u16, ..self }
            },
            Instruction::Random { x, nn } => self.set_reg(x as int, rnd & nn),
            Instruction::Draw { x, y, n } => self.draw_sprite(
                (self.reg(x as int) % 64) as int,
                (self.reg(y as int) % 32) as int,
                n as int,
            ),
            Instruction::SkipIfKey { x } => self.skip_if(self.keyboard[self.reg(x as int) as int]),
            Instruction::SkipIfNotKey { x } => self.skip_if(!self.keyboard[self.reg(x as int) as int]),
            Instruction::LoadDelay { x } => self.set_reg(x as int, self.delay_timer),
            Instruction::SetDelay { x } => Chip8State { delay_timer: self.reg(x as int), ..self },
            Instruction::SetSound { x } => Chip8State { sound_timer: self.reg(x as int), ..self },
            Instruction::AddIndex { x } => Chip8State {
                index: (self.index + self.reg(x as int)) as u16,
                ..self
            },
            Instruction::WaitKey { x } => if self.key_pressed.0 {
                Chip8State {
                    key_pressed: (false, self.key_pressed.1),
                    ..self.set_reg(x as int, self.key_pressed.1)
                }
            } else {
                Chip8State { program_counter: (self.program_counter - 2) as u16, ..self }
            },
            Instruction::FontChar { x } => Chip8State {
                index: (0x50 + self.reg(x as int) * 5) as u16,
                ..self
            },
            Instruction::StoreBcd { x } => {
                let v = self.reg(x as int);
                Chip8State {
                    memory: self.memory
                        .update(self.index as int, v / 100)
                        .update(self.index + 1, (v % 100) / 10)
                        .update(self.index + 2, v % 10),
                    ..self
                }
            },
            Instruction::StoreRegs { x } => Chip8State {
                memory: self.stored_registers(x as int),
                index: if self.legacy { (self.index + x + 1) as u16 } else { self.index },
                ..self
            },
            Instruction::LoadRegs { x } => Chip8State {
                registers: self.loaded_registers(x as int),
                index: if self.legacy { (self.index + x + 1) as u16 } else { self.index },
                ..self
            },
        }
    }

    /// The inputs on which an instruction stays inside memory, the keypad and
    /// the range of its 8- and 16-bit arithmetic (elsewhere it would panic).
    pub open spec fn can_execute(self, ins: Instruction) -> bool {
        match ins {
            Instruction::Draw { x, y, n } => {
                let rows = Self::rows_read((self.reg(y as int) % 32) as int, n as int);
                rows == 0 || self.index + rows <= 4096
            },
            Instruction::SkipIfKey { x } => self.reg(x as int) < 16,
            Instruction::SkipIfNotKey { x } => self.reg(x as int) < 16,
            Instruction::AddIndex { x } => self.index + self.reg(x as int) <= 0xFFFF,
            Instruction::FontChar { x } => 0x50 + self.reg(x as int) * 5 <= 0xFF,
            Instruction::StoreBcd { x } => self.index + 2 < 4096,
            Instruction::StoreRegs { x } => self.index + x < 4096,
            Instruction::LoadRegs { x } => self.index + x + 1 <= 4096,
            _ => true,
        }
    }

    /// The opcode at the program counter.
    pub open spec fn fetch(self) -> u16 {
        spec_opcode(self.memory[self.program_counter as int], self.memory[self.program_counter + 1])
    }

    /// The state with the program counter moved past the current instruction.
    pub open spec fn advance(self) -> Chip8State {
        Chip8State { program_counter: (self.program_counter + 2) as u16, ..self }
    }

    /// One fetch-decode-execute cycle: the next state and what the cycle
    /// returns. A program counter at 4094 or above is refused with the state
    /// unchanged; an unknown opcode is refused after the program counter has
    /// moved past it.
    pub open spec fn step(self, rnd: u8) -> (Chip8State, Result<bool, Seq<char>>) {
        if self.program_counter >= 4094 {
            (self, Err(pc_limit_message()))
        } else {
            match spec_decode(self.fetch()) {
                Some(ins) => (self.advance().execute(ins, rnd), Ok(true)),
                None => (self.advance(), Err(unknown_instruction_message(self.fetch()))),
            }
        }
    }

    /// The states on which a cycle does not panic.
    pub open spec fn can_step(self) -> bool {
        self.program_counter >= 4094 || match spec_decode(self.fetch()) {
            Some(ins) => self.advance().can_execute(ins),
            None => true,
        }
    }
}

/// The upper-case hexadecimal digit for `d < 16`.
pub open spec fn hex_digit(d: int) -> char {
    seq!['0', '1', '2', '3', '4', '5', '6', '7', '8', '9', 'A', 'B', 'C', 'D', 'E', 'F'][d]
}

/// The message of a cycle refused for its program counter.
pub open spec fn pc_limit_message() -> Seq<char> {
    "Program Counter tried to go over allowed memory limit"@
}

/// The message of a cycle refused for an unknown opcode: the opcode in four
/// upper-case hexadecimal digits.
pub open spec fn unknown_instruction_message(op: u16) -> Seq<char> {
    "Unknown instruction: "@ + seq![
        hex_digit(nib1(op)),
        hex_digit(nib2(op)),
        hex_digit(nib3(op)),
        hex_digit(nib4(op)),
    ]
}


impl Chip8State {
    /// Whether the next cycle runs `CXNN`, the one instruction that uses a
    /// random byte.
    pub open spec fn uses_random(self) -> bool {
        self.program_counter < 4094 && spec_decode(self.fetch()) matches Some(Instruction::Random { .. })
    }

    /// The keypad with `key` held down; keys above `F` are ignored.
    pub open spec fn press(self, key: int) -> Chip8State {
        if 0 <= key < 16 {
            Chip8State { keyboard: self.keyboard.update(key, true), ..self }
        } else {
            self
        }
    }

    /// The keypad with `key` released; keys above `F` are ignored.
    pub open spec fn release(self, key: int) -> Chip8State {
        if 0 <= key < 16 {
            Chip8State { keyboard: self.keyboard.update(key, false), ..self }
        } else {
            self
        }
    }

    /// The frame buffer as bytes, 1 for a lit pixel and 0 for a dark one.
    pub open spec fn display_bytes(self) -> Seq<u8> {
        Seq::new(self.display.len(), |p: int| if self.display[p] { 1u8 } else { 0u8 })
    }
}

/// What a cycle returned, with the message of an error as its characters.
pub open spec fn outcome(r: Result<bool, String>) -> Result<bool, Seq<char>> {
    match r {
        Ok(b) => Ok(b),
        Err(e) => Err(e@),
    }
}

} // verus!
