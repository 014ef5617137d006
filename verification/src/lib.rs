//! A small virtual machine with sixteen byte registers, 4 KiB of memory, a
//! 64x32 monochrome framebuffer, a sixteen-key input latch and two countdown
//! timers, driven by a fixed 16-bit instruction encoding.
//!
//! The crate decodes instruction words into typed instructions and executes
//! them one fetch-decode-execute cycle at a time against the machine state.

pub mod cpu;
pub mod decoder;
pub mod display;
pub mod keypad;
pub mod machine;
pub mod memory;
mod rng;
pub mod types;
