//! Compatibility checking for the evolution of Simple Binary Encoding (SBE)
//! message schemas.
//!
//! Two schema versions — a previously published *latest* schema and a
//! candidate *current* schema — are walked in parallel and their structural
//! differences are reduced to a [`CompatibilityLevel`] verdict through a
//! five-element lattice. Strategy types then enforce a minimum acceptable
//! verdict.

use vstd::prelude::*;

pub mod compatibility;
pub mod evolution;
pub mod laws;
pub mod signature;
pub mod types;

pub use compatibility::CompatibilityLevel;
pub use evolution::backward::BackwardCompatibility;
pub use evolution::forward::ForwardCompatibility;
pub use evolution::full::FullCompatibility;
pub use evolution::validator::{check_schemas, SbeSchemaValidator};
pub use evolution::{
    EvolutionError, EvolutionStrategy, NoneCompatibility, Optional, PartialCompatibility,
    SchemaValidator, Validator,
};
pub use types::{build_vtable, Schema, VTable};

verus! {

use crate::evolution::EvolutionError as EvoError;

/// Errors that can occur when working with SBE schema files.
#[derive(Debug, Clone, Copy, PartialEq, Eq, Structural)]
pub enum SbeSchemaError {
    /// An error from validating schema evolution.
    Evolution(EvoError),
    /// Two declarations of one schema carry the same type name.
    DuplicateTypeName,
}

impl From<EvoError> for SbeSchemaError {
    fn from(e: EvoError) -> (r: Self) {
        SbeSchemaError::Evolution(e)
    }
}

impl vstd::std_specs::convert::FromSpecImpl<EvoError> for SbeSchemaError {
    open spec fn obeys_from_spec() -> bool {
        true
    }

    open spec fn from_spec(e: EvoError) -> Self {
        SbeSchemaError::Evolution(e)
    }
}

} // verus!
