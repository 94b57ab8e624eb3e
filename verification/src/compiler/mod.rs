//! Code emission: a checked module as the text of a script.

pub mod codegen;
pub mod text;
