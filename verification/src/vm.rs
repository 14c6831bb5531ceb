//! The virtual machine's class-file layer, run-time constant pool, types,
//! method descriptors and launcher configuration.
pub mod attribute;
pub mod class_file;
pub mod constant_pool;
pub mod cursor;
pub mod display;
pub mod java_type;
pub mod launcher;
pub mod layout;
pub mod method_area;
pub mod method_descriptor;
pub mod runtime_constant_pool;

use vstd::prelude::*;

verus! {

/// Runs a program from the bytes of its main class. Execution is not wired up
/// here: the call returns without doing anything.
pub fn run(_main: Vec<u8>) {
}

} // verus!
