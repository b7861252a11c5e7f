//! A small register-based virtual machine: a fixed bank of 32 signed registers
//! driven by a stream of fixed-width, four-byte instructions.

pub mod instruction;
pub mod vm;
pub mod laws;
pub mod hex;
pub mod assembler;
pub mod repl;
