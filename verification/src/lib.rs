//! An instruction-set simulator for an 8051-class microcontroller.
//!
//! Assembly source is lexed, its labels are resolved in a first pass, and each
//! statement is then executed directly against a 256-byte model of the on-chip
//! memory. Every function carries a contract over a mathematical model of the
//! machine: the memory image is a sequence of 256 bytes, the jump table a map
//! from label names to source positions, the source text a sequence of bytes.

pub mod bits;
pub mod error;
pub mod machine;
pub mod text;
pub mod lexer;
pub mod jump_table;
pub mod operand;
pub mod assembler;
pub mod alu;
pub mod laws;
pub mod report;
