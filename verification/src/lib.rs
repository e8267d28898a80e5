//! A CHIP-8 interpreter core: memory, registers, timers, keypad and a
//! monochrome 64x32 frame buffer, stepped one instruction at a time.

pub mod instruction;
pub mod semantics;
pub mod engine;
pub mod message;
mod random;
pub mod laws;
pub mod opcode_laws;

pub use engine::Chip8Engine;
pub use instruction::{Instruction, decode};

use vstd::prelude::*;

verus! {

/// Width of the frame buffer in pixels.
pub const SCREEN_WIDTH: usize = 64;

/// Height of the frame buffer in pixels.
pub const SCREEN_HEIGHT: usize = 32;

} // verus!
