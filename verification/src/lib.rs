//! A type interning and canonicalization engine for a wasm module's type
//! section.
//!
//! The engine consumes type definitions produced by an external,
//! already-validated type-checking pass and converts them into a compact,
//! deduplicated, index-addressable canonical form. Recursion groups of
//! mutually-referencing types are assigned a contiguous block of canonical
//! indices before any member's body is converted, which is what makes
//! forward references within a group resolvable in a single pass.

pub mod convert;
pub mod id_map;
pub mod laws;
pub mod module_types;
pub mod module_types_builder;
pub mod types;
pub mod validator_types;
