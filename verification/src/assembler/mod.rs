//! A second, table-driven assembler for the project ISA: frames are
//! `[opcode][PLEN:4 | FLAGS:4][payload]`, 2-byte aligned, and label
//! references are backfilled as 64-bit big-endian addresses.
pub mod err;
pub mod isa;
pub mod ast;
pub mod parser;
pub mod encode;
pub mod assemble;
pub mod image;
pub mod laws;

pub use assemble::{assemble, Object};
pub use err::Result;
