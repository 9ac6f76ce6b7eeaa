//! Instrumentation backend for a probe language over a stack-machine module:
//! a behavior tree that says which probes apply where, a linear-memory
//! allocator, and the two generator phases that rewrite the target module.

pub mod error;
pub mod memory;
pub mod script;
pub mod symbols;
pub mod tree;
pub mod module;
pub mod emit;
pub mod init_generator;
pub mod instr_generator;
pub mod driver;
