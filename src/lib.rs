//! An interpreter for a small machine of 15-bit words: 32768 cells of memory,
//! eight registers, an unbounded stack and line-buffered console input.
//!
//! `word` holds the value space and the arithmetic of the machine, `machine`
//! the interpreter and its model, `laws` properties that relate several steps.
pub mod word;
pub mod machine;
pub mod laws;
