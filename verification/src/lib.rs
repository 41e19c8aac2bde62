//! Core of a user-mode RV64I instruction-set emulator: guest memory with
//! per-byte permissions, a pure instruction decoder, the integer register
//! file, the per-instruction execution engine, the fetch/decode/execute
//! step, and a loader that places ELF64 segments into guest memory.
pub mod cpu;
pub mod decoder;
pub mod emulator;
pub mod exceptions;
pub mod loader;
pub mod memory;
pub mod words;
