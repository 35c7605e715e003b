//! The per-program-point abstract state of a path-sensitive abstract
//! interpreter: a map from abstract storage locations to abstract values,
//! with aliasing-aware updates and the lattice operations that a fixpoint
//! driver needs.

pub mod abstract_value;
pub mod environment;
pub mod laws;
pub mod path;
pub mod value_map;
