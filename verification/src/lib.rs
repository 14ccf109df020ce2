//! A verified CHIP-8 virtual machine core: instruction decode/execute,
//! machine state, countdown timers and the logical framebuffer.
//!
//! Rendering, audio, keyboard polling and program loading are host concerns;
//! the library exposes plain state and per-cycle outcomes for a host loop.

pub mod cartridge;
pub mod cpu;
pub mod display;
pub mod laws;
pub mod opcode;
pub mod timer;
