//! A verified interpreter core for an 8-bit virtual machine with a fixed
//! 4096-byte memory, sixteen 8-bit registers, a 16-entry call stack, two
//! countdown timers, a 64x32 monochrome framebuffer and a 16-key input device.
//!
//! The interpreter fetches two-byte big-endian instruction words, decodes them
//! into an explicit instruction type, and executes them against the machine
//! state. Every opcode's effect is specified exactly by a mathematical step
//! function over a ghost view of the state, and the executable code is proved
//! to follow it.

pub mod display;
pub mod instr;
pub mod keyboard;
pub mod laws;
pub mod machine;
pub mod processor;
mod rng;
