//! A bytecode virtual machine for a small scripting language.
//!
//! The machine runs compiled functions: it owns a value stack, a stack of call
//! frames, a heap of closures, classes, instances and captured variables, a set
//! of interned strings and a table of global variables. What one instruction
//! does is written down in `semantics` as a function on a mathematical model of
//! the machine (`machine::Machine`); the executable interpreter in `vm` is
//! proved to follow it. `laws` states what holds of every program.

pub mod ast;
pub mod chunk;
pub mod compiler;
pub mod error;
pub mod event;
pub mod fuel;
pub mod inject;
pub mod laws;
pub mod machine;
pub mod number;
pub mod object;
pub mod semantics;
pub mod string;
pub mod table;
pub mod text;
pub mod value;
pub mod vm;
