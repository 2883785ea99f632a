//! Semantic analysis (type checking) for a small statically typed kernel
//! language: name resolution over lexical scopes, a registry of declared
//! types with their cast edges, and a checking pass that annotates a parsed
//! module in place.

pub mod ast;
pub mod error;
pub mod laws;
pub mod module;
pub mod symbol_table;
pub mod type_check;
pub mod type_environment;
