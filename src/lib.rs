//! A CHIP-8 virtual machine: memory, registers, stack, framebuffer, keys and
//! timers, stepped one instruction at a time.
pub mod emu;
pub mod fault;
pub mod laws;
pub mod model;
pub mod sprite;

pub use emu::Emu;
pub use fault::Fault;
pub use model::{SCREEN_HEIGHT, SCREEN_WIDTH};
