//! Indexes the declarations of a source project into a tree and pairs rule
//! comments with the declarations they stand in front of.
//!
//! A rule comment is a line comment that begins with the marker `#AIRULE:`;
//! it holds for the declaration that starts on the next line.
//! [`parser::rust_parser`] pairs the rule comments of one file with its
//! top-level declarations, and [`rules::generic`] holds a pair together with
//! the exact text of its declaration, ready to be put into a prompt.
//! [`parser::structure`] builds the tree of a whole project: modules with
//! the files they name, structs, enums and functions, and the methods that
//! implementation blocks give to types.
//!
//! The library reads no file. Its callers hand it texts, and it hands back
//! values and, where something left a part of the result empty, a list of
//! what it met.
//!
//! # What is proved
//!
//! Every function is verified against its contract: it does not panic, its
//! loops end, and its result is the one that the contract's specification
//! function names. [`parser::tree_laws`] and the lemmas of
//! [`parser::rust_parser`] state what follows for every input.
//!
//! # What is assumed
//!
//! Source text is parsed by `syn`, the marker is found by `regex`, and a
//! manifest is read by `toml`. What these crates compute is not proved: it
//! is named, and the contracts of the functions that call out speak of the
//! names. The rest is stated over plain values of the library's own
//! ([`parser::syntax::Declaration`] for parsed syntax), so that every
//! function that takes such values is proved for each of them.

pub mod config;
pub mod engine;
pub mod parser;
pub mod rules;
pub mod text;
