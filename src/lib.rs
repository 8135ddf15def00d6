//! A CHIP-8 interpreter: instruction decoding, the machine state and its
//! transitions, the keypad, and the two throttling clocks.

pub mod instr;
pub mod model;
pub mod chip8;
mod rng;
pub mod timer;
pub mod keymap;
pub mod laws;
