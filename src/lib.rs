//! A CHIP-8 virtual machine: memory with a call stack, registers, timers,
//! keypad, a 64x32 monochrome display, and an instruction decoder and
//! execution engine whose behaviour is stated in contracts.

pub mod timers;
pub mod registers;
pub mod input;
pub mod memory;
pub mod output;
pub mod sprites;
pub mod machine;
pub mod cpu;
pub mod host;
pub mod laws;
