//! A CHIP-8 interpreter core: memory, registers, call stack, framebuffer,
//! timers and keypad, with each instruction's effect stated as a function on
//! an abstract machine state and every operation proved against it.
pub mod state;
pub mod semantics;
mod sprite;
pub mod emulator;
pub mod laws;

pub use state::{Chip8Error, MachineState};
pub use emulator::Emulator;
