//! The ways in which the machine gives up.

use vstd::prelude::*;

verus! {

/// Why the machine stopped. A fault is final: the dictionary or the program
/// that ran is inconsistent, and the machine is not meant to go on.
#[derive(Clone, Copy, PartialEq, Eq, Debug, Structural)]
pub enum Fault {
    /// A cell index, a byte address or a register left linear memory.
    OutOfBounds,
    /// `/MOD` was asked to divide by zero.
    DivisionByZero,
    /// The code field that was dispatched holds no known primitive.
    UnknownOpcode(i32),
    /// A dictionary search followed as many links as memory has bytes and
    /// found no end: the headers from `LATEST` on form no dictionary.
    EndlessDictionary,
    /// A system call result was handed in while none was asked for.
    NoSyscallPending,
}

} // verus!
