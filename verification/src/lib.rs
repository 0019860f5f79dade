//! Code generation and unit finalization for a small scripting language.
//!
//! A syntax tree that carries source spans is turned into stack-machine
//! instructions, collected in a unit builder, validated and frozen into an
//! immutable unit.

pub mod assemble;
pub mod ast;
pub mod bytes;
pub mod compile;
pub mod context;
pub mod diagnostics;
pub mod inst;
pub mod laws;
pub mod load;
pub mod needs;
pub mod number;
pub mod source;
pub mod span;
pub mod text;
pub mod unit;
