//! The fatal conditions that stop the machine.

use vstd::prelude::*;

verus! {

/// A fatal condition met while running a program.
///
/// Each fault carries the program counter of the instruction that met it.
/// The machine is left as it was before that instruction, so the failing
/// state can be looked at afterwards.
#[derive(Debug, Clone, Copy, PartialEq, Eq, Structural)]
pub enum Fault {
    /// The word at `pc` is no instruction of the machine.
    Decode { pc: usize, opcode: u16 },
    /// The instruction at `pc` needed memory up to `address`, which lies
    /// beyond the last cell.
    Memory { pc: usize, address: usize },
    /// The instruction at `pc` is a return, and the call stack is empty.
    StackUnderflow { pc: usize },
}

} // verus!
