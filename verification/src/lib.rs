//! A CHIP-8 virtual machine: opcode decoding, the instruction set, the
//! register file, memory, call stack and display, each with a verified
//! contract over a mathematical model of the machine.

pub mod cpu;
pub mod display;
pub mod fault;
pub mod keypad;
pub mod laws;
pub mod machine;
pub mod opcode;
mod random;

pub use cpu::CPU;
pub use display::VirtualDisplay;
pub use fault::{Failure, Fault};
pub use keypad::{logical_key, KeyCode};
pub use machine::{InputState, Machine, Progress};
pub use opcode::{decode, decompose_opcode, Instruction};
