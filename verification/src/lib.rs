//! A function-type registry for a typed component interface.
//!
//! A component interface exports functions, either at the top level or grouped
//! into named interface instances, whose parameter and return types are
//! structural: records, variants, enums, tuples, lists, options and results.
//! Before a call expression against such an interface can be type-checked, the
//! checker must know the signature of every name that could appear as a
//! callee, including the constructors of every sum type reachable anywhere in
//! the exported signatures.  This crate builds that symbol table once per
//! interface and answers lookups against it.

pub mod types;
pub mod exports;
pub mod call_type;
pub mod keys;
pub mod model;
pub mod registry;
pub mod laws;
