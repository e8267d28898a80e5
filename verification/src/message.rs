//! The text of the errors that a cycle reports.

use vstd::prelude::*;
use crate::semantics::{hex_digit, pc_limit_message, unknown_instruction_message};

verus! {

/// The upper-case hexadecimal digit of `d`, as a one-character string.
fn hex_digit_str(d: u8) -> (s: &'static str)
    requires
        d < 16,
    ensures
        s@ == seq![hex_digit(d as int)],
{
    let digits = "0123456789ABCDEF";
    proof {
        reveal_strlit("0123456789ABCDEF");
    }
    let sub = digits.substring_ascii(d as usize, d as usize + 1);
    assert(sub@ =~= seq![hex_digit(d as int)]);
    sub
}

/// The message of a cycle refused for its program counter.
pub fn pc_limit_error() -> (s: String)
    ensures
        s@ == pc_limit_message(),
{
    String::from_str("Program Counter tried to go over allowed memory limit")
}

/// The message of a cycle refused for the unknown opcode `op`.
pub fn unknown_instruction_error(op: u16) -> (s: String)
    ensures
        s@ == unknown_instruction_message(op),
{
    let mut s = String::from_str("Unknown instruction: ");
    s.append(hex_digit_str((op / 4096) as u8));
    s.append(hex_digit_str(((op / 256) % 16) as u8));
    s.append(hex_digit_str(((op / 16) % 16) as u8));
    s.append(hex_digit_str((op % 16) as u8));
    assert(s@ =~= unknown_instruction_message(op));
    s
}

} // verus!
