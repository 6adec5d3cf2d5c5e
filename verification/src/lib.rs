//! A verified CHIP-8 interpreter core: a 4096-byte memory, sixteen 8-bit
//! registers, a 16-slot call stack, two timers, a 64x32 framebuffer and a
//! 16-key keypad, driven one fetch-decode-execute step at a time.

pub mod cpu;
pub mod lemmas;
mod rng;
pub mod state;

pub use cpu::Chip8;
pub use state::Machine;
