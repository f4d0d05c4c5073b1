//! An emulator for a 16-bit educational register machine: a flat memory of
//! 65536 words, ten registers, sixteen opcodes and six service calls. Each
//! instruction cycle is a verified transition from CPU, memory and an optional
//! input byte to new CPU, memory, output characters and an outcome.
pub mod cpu;
pub mod isa;
pub mod lemmas;
pub mod memory;
