//! A small register machine: an instruction set of fixed four-byte words, a
//! fetch-decode-execute engine over 32 signed registers, a comparison flag, a
//! remainder register and a grow-only heap.

pub mod instructions;
pub mod vm;
pub mod assembler;
pub mod repl;
