//! A minimal interpreter for an eight-instruction tape language.
//!
//! The machine owns a fixed tape of byte cells, a cursor into the tape, and a
//! control stack that resolves backward jumps for loop constructs. Cursor
//! movement and cell arithmetic both wrap around. The full instruction
//! semantics are given as a mathematical small-step function in [`semantics`],
//! the executable engine in [`engine`] is proved to implement it, and
//! [`laws`] states the language-level guarantees as proved theorems.

pub mod engine;
pub mod laws;
pub mod semantics;
