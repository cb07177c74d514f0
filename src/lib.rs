//! Inspection of a running process's memory: symbol resolution in its ELF
//! image, runtime address computation and word-granular capture through a
//! process-tracing session.

pub mod address;
pub mod arith;
pub mod choice;
pub mod chunks;
pub mod dump;
pub mod dwarf;
pub mod elf;
pub mod process;
pub mod session;
pub mod symbol;
pub mod text;
