//! Reading source text: the declaration model, the declaration tree and
//! the pairing of rules with declarations.

pub mod rust_parser;
pub mod structure;
pub mod syntax;
pub mod tree_laws;
