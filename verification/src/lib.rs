//! A bytecode interpreter for a minimal tape language.
//!
//! Source text is compiled into a flat sequence of [`instruction::Instruction`]s
//! with resolved jump targets, and then executed on a fixed-size tape of byte
//! cells for at most a given number of cycles.

pub mod brackets;
pub mod budget;
pub mod compiler;
pub mod instruction;
pub mod machine;
pub mod run;
