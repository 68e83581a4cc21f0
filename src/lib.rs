//! A small register machine: a fixed program of instructions runs against one
//! growable array of `i32` values, addressed by index.

pub mod instruction;
pub mod semantics;
pub mod vm;
pub mod laws;
