//! Constant-carrying enums as a verified build-time generator.
//!
//! Given the declaration of a closed enum whose variants are annotated with
//! constant literal values, this library builds a validated schema and a
//! consistent family of lookup operations: a forward value accessor, a
//! reverse value-to-variant lookup that is aware of duplicate values and of
//! payload-bearing variants, equality against the raw value, a debug
//! rendering, and (in a second mode) per-variant typed retrieval.

use vstd::prelude::*;

pub mod token;
pub mod decl;
pub mod extract;
pub mod prelude;
pub mod schema;
pub mod classify;
pub mod uniform;
pub mod hetero;
pub mod demo;

verus! {

/// Errors that the generated reverse lookup can return to its caller.
///
/// These are ordinary values, never fatal: the reverse lookup guarantees
/// that these are the only three failure shapes it can produce.
#[derive(Debug, Clone)]
pub enum Error {
    /// The raw value matches no variant's constant: carries the raw value's
    /// canonical text and the enum's name.
    InvalidValue(String, String),
    /// The raw value is shared by more than one variant: carries the shared
    /// canonical text.
    UnreachableValue(String),
    /// The raw value belongs to a variant that carries payload fields and so
    /// cannot be reconstructed from its constant alone: carries the
    /// variant's name.
    UnableToReturnVariant(String),
}

impl Error {
    /// An equal copy.
    pub fn duplicate(&self) -> (r: Error)
        ensures
            r == *self,
    {
        match self {
            Error::InvalidValue(a, b) => Error::InvalidValue(a.clone(), b.clone()),
            Error::UnreachableValue(a) => Error::UnreachableValue(a.clone()),
            Error::UnableToReturnVariant(a) => Error::UnableToReturnVariant(a.clone()),
        }
    }
}

} // verus!
