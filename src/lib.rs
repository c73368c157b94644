//! A small record-transformation engine.
//!
//! Programs read and write fields of a record (a tree of scalars, sequences
//! and string-keyed mappings), bind local variables to slots, branch, and
//! call built-in functions. A program runs through either of two backends
//! that agree by proof: a tree-walking interpreter, which is the reference
//! semantics, and a stack machine over compiled bytecode. A runtime driver
//! holds the slots and is reused from one record to the next.
//!
//! The module `stats` gathers trace statistics from span records.
pub mod builtins;
pub mod env;
pub mod interp;
pub mod program;
pub mod runtime;
pub mod stats;
pub mod value;
pub mod vm;
