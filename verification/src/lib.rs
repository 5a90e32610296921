//! Assignment of cryptographic parameters to dataflow graphs of
//! homomorphic-encryption operators.
//!
//! The crate owns the circuit data model and the key-assignment protocol:
//! a graph of typed operators is built through [`dag::DagBuilder`], cut into
//! noise-homogeneous partitions, searched under an optional
//! [`restriction::SearchSpaceRestriction`], and a solved parameter assignment
//! is turned into a complete keyset plus per-operator key bindings.
//! The numeric cost/noise model and the search procedure that walks candidate
//! parameter tuples are external collaborators: they are driven by the caller,
//! and their outcome is handed back to this crate to be checked and packaged.

pub mod dag;
pub mod dump;
pub mod fp;
pub mod json;
pub mod keys;
pub mod operator;
pub mod options;
pub mod parameters;
pub mod partition;
pub mod restriction;
pub mod solution;
