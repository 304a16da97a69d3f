//! A CHIP-8 virtual machine: 4KB memory, sixteen 8-bit registers, a 64x32
//! monochrome display, a hexadecimal keypad latch, and a countdown timer,
//! driven by a verified fetch-decode-execute engine.
use vstd::prelude::*;

pub mod bus;
pub mod chip8;
pub mod cpu;
pub mod display;
pub mod keyboard;
pub mod ram;

verus! {

/// A fatal condition: the interpreter stops rather than corrupt state.
#[derive(Clone, Copy, Debug, PartialEq, Eq, Structural)]
pub enum Chip8Error {
    /// A memory access named an address at or past the end of memory.
    OutOfBounds { address: u16 },
    /// Decode found no operation matching the instruction word.
    UnknownOpcode { pc: u16, instruction: u16 },
    /// A return was executed with no return address on the call stack.
    StackUnderflow { pc: u16 },
    /// A ROM image does not fit in memory above the reserved region.
    RomTooLarge { size: usize },
}

} // verus!
