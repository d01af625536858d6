//! Static type checking for the native operators and special forms of a
//! smart-contract expression language.
//!
//! An expression tree is checked against a typing context (lexically scoped
//! variable bindings) and a read-only contract schema store; every visited
//! node is annotated in a type map with either its resolved type or an
//! explicit "no value" marker for purely syntactic positions.  All failures
//! are structured error values; checking is deterministic and fail-fast.

pub mod representation;
pub mod types;
pub mod errors;
pub mod signatures;
pub mod contexts;
pub mod natives;
pub mod semantics;
pub mod laws;
