//! A CHIP-8 interpreter core: memory, registers, timers, a framebuffer and
//! the fetch-decode-execute cycle, with each instruction's effect stated as a
//! contract over an abstract machine state.

pub mod cpu;
pub mod display;
pub mod instruction;
pub mod theorems;

pub use cpu::{Cpu, Fault, LoadError};
pub use instruction::{decode, Instruction};
