//! An interpreter for the CHIP-8 virtual machine: memory with the built-in
//! hexadecimal font, an instruction decoder, and a processor whose every
//! instruction is specified over a mathematical model of the machine state.

pub mod bus;
pub mod chip8;
mod draw;
pub mod fault;
pub mod instruction;
pub mod io;
pub mod laws;
pub mod memory;
pub mod processor;
pub mod semantics;

pub use bus::Bus;
pub use chip8::Chip8;
pub use fault::Fault;
pub use instruction::{decode, Instruction};
pub use io::{Audio, Display, Input, Pixel};
pub use memory::Memory;
pub use processor::Processor;
