//! Rules: what the comments of a source file ask of its declarations.

pub mod generic;
