//! A small Java virtual machine toolkit: class-file readers, constant-pool
//! resolution and method-descriptor parsing, with their behaviour stated as
//! Verus contracts.
pub mod class_file;
pub mod jclass;
pub mod runtime;
pub mod text;
pub mod vm;
