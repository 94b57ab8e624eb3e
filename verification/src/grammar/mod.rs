//! The grammar of the language: from the text of a module to its syntax tree.

pub mod forward;
pub mod parser;
pub mod rules;
pub mod scan;
