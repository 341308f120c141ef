//! A verified CHIP-8 virtual machine.
//!
//! The heart of the crate is [`chip8::Chip8`], an interpreter for the CHIP-8
//! instruction set: 4 KB of memory, sixteen 8-bit registers, a 16-level call
//! stack, a 64x32 monochrome framebuffer, two 60 Hz countdown timers, and a
//! 16-key keypad.  Every instruction's effect on the machine is stated
//! against a mathematical model of the machine state ([`semantics::AbsState`])
//! and proved.  [`laws`] collects machine-wide theorems about the semantics.

pub mod application;
pub mod audio;
pub mod chip8;
pub mod laws;
pub mod screen;
pub mod semantics;
