//! System-call decoding: the dispatch decision of the system-call handler.
//! The handler itself runs on the syscall entry path; what it decides from
//! the register arguments is decoded here, and the surrounding runtime
//! performs the action (reading the user buffer, writing the console).

use vstd::prelude::*;

verus! {

/// What one system call asks for.
#[derive(Clone, Copy, PartialEq, Eq, Structural, Debug)]
pub enum SyscallAction {
    /// Write the user buffer at the given address and length to the
    /// console.
    WriteConsole(u64, u64),
    /// An instruction number this kernel does not know; it is reported,
    /// never silently swallowed.
    Unknown(u64),
}

/// Decodes one system call from its instruction number and arguments.
pub fn decode_syscall(instr: u64, arg1: u64, arg2: u64) -> (r: SyscallAction)
    ensures
        r == (if instr == 1 {
            SyscallAction::WriteConsole(arg1, arg2)
        } else {
            SyscallAction::Unknown(instr)
        }),
{
    if instr == 1 {
        SyscallAction::WriteConsole(arg1, arg2)
    } else {
        SyscallAction::Unknown(instr)
    }
}

} // verus!
