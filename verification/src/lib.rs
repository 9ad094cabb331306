//! Core of a PlayStation (MIPS R3000A) emulator: instruction decoding, the
//! CPU register file with its load- and branch-delay bookkeeping, the
//! coprocessor register files and the physical memory bus.
pub mod cpu;
pub mod memory;
