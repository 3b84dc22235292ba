//! Semantic-analysis core of a compiler for a smart-contract language:
//! structural type interning, typed struct/enum declarations with
//! monomorphization, the module/namespace tree with its current-module
//! cursor, and the storage-purity effect lattice.

pub mod abi;
pub mod attribute;
pub mod comments;
pub mod enum_decl;
pub mod error;
pub mod items;
pub mod language;
pub mod namespace;
pub mod purity;
pub mod span;
pub mod struct_decl;
pub mod type_engine;
