//! The newer class-file model: method attributes as the interpreter reads them.
pub mod method;
