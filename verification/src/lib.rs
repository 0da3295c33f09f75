//! A Z80 system: an assembler for Z80 source text, a CPU core with its
//! attached I/O devices, and a machine driver that runs the CPU in slices.

pub mod components;
pub mod text;
pub mod cpu;
pub mod emulator;
pub mod runner;
pub mod formatting;
pub mod assembler;
