//! The ways in which the machine can fail.

use vstd::prelude::*;

verus! {

/// A fatal condition. None of them can be recovered from: once one is raised,
/// the program that raised it is malformed and the machine must stop.
#[derive(Clone, Copy, Debug, PartialEq, Eq, Structural)]
pub enum Fault {
    /// A call was made with all sixteen stack slots in use.
    StackOverflow,
    /// A return was made with no call outstanding.
    StackUnderflow,
    /// The program counter was sent to an address that leaves no room for a
    /// two-byte instruction.
    IllegalJumpTarget,
    /// A memory access reached past the last address.
    MemoryOutOfBounds,
    /// A register index was sixteen or more.
    RegisterIndexOutOfRange,
    /// A font glyph was asked for a value that is not a hexadecimal digit.
    UnrepresentableCharacter,
    /// The instruction word matches no instruction of the machine.
    UnimplementedOpcode,
}

impl Fault {
    /// The words that describe the fault.
    pub open spec fn describe(self) -> Seq<char> {
        match self {
            Fault::StackOverflow => "Stack overflow!"@,
            Fault::StackUnderflow => "Stack underflow!"@,
            Fault::IllegalJumpTarget => "Jumping to illegal address!"@,
            Fault::MemoryOutOfBounds => "Memory access out of bounds!"@,
            Fault::RegisterIndexOutOfRange => "Register index out of bounds!"@,
            Fault::UnrepresentableCharacter => "Unrepresentable character!"@,
            Fault::UnimplementedOpcode => "Unimplemented opcode!"@,
        }
    }

    /// A description of the fault for the user.
    pub fn message(&self) -> (text: String)
        ensures
            text@ == self.describe(),
    {
        match self {
            Fault::StackOverflow => "Stack overflow!".to_owned(),
            Fault::StackUnderflow => "Stack underflow!".to_owned(),
            Fault::IllegalJumpTarget => "Jumping to illegal address!".to_owned(),
            Fault::MemoryOutOfBounds => "Memory access out of bounds!".to_owned(),
            Fault::RegisterIndexOutOfRange => "Register index out of bounds!".to_owned(),
            Fault::UnrepresentableCharacter => "Unrepresentable character!".to_owned(),
            Fault::UnimplementedOpcode => "Unimplemented opcode!".to_owned(),
        }
    }
}

/// A fault together with the instruction that raised it.
#[derive(Clone, Copy, Debug, PartialEq, Eq, Structural)]
pub struct Failure {
    pub fault: Fault,
    /// The address from which the offending instruction was fetched.
    pub program_counter: usize,
    /// The offending instruction word.
    pub opcode: u16,
}

} // verus!
