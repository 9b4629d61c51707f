//! A CHIP-8 interpreter: the machine, its instructions, and the plain-value parts of a
//! desktop front end.
pub mod rng;
pub mod state;
pub mod chip8;
pub mod frontend;
pub mod session;
pub mod laws;
pub mod semantics;
