//! Run-time structures of the virtual machine: resolved constant-pool entries
//! and the interpreter's control-flow rules.
pub mod entry;
pub mod interpreter;
