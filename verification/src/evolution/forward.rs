//! Forward compatibility strategy.
//!
//! Allowed:
//! - adding fields,
//! - deleting optional fields.

use vstd::prelude::*;

use crate::compatibility::{get_compatibility_from_current_and_new_level, CompatibilityLevel};
use crate::evolution::validator::{strategy_outcome, verdict_meets_threshold};
use crate::evolution::{EvolutionError, EvolutionStrategy, SchemaValidator};

verus! {

/// Schema evolution strategy that accepts changes after which an old
/// consumer can still read new messages.
pub struct ForwardCompatibility<V: SchemaValidator> {
    validator: V,
}

impl<V: SchemaValidator> ForwardCompatibility<V> {
    /// Create a new `ForwardCompatibility` strategy with the given validator.
    pub fn new(validator: V) -> (r: Self)
        ensures
            r.spec_check() == strategy_outcome(
                CompatibilityLevel::Forward,
                validator.latest_v(),
                validator.current_v(),
            ),
    {
        Self { validator }
    }
}

impl<V: SchemaValidator> EvolutionStrategy for ForwardCompatibility<V> {
    type SchemaType = V::SchemaType;

    closed spec fn spec_check(&self) -> Result<CompatibilityLevel, EvolutionError> {
        strategy_outcome(
            CompatibilityLevel::Forward,
            self.validator.latest_v(),
            self.validator.current_v(),
        )
    }

    fn compatibility_level(&self) -> (r: CompatibilityLevel)
        ensures
            r == CompatibilityLevel::Forward,
    {
        CompatibilityLevel::Forward
    }

    fn check(&self) -> (r: Result<CompatibilityLevel, EvolutionError>) {
        let version_level = match self.validator.compare_version() {
            Ok(level) => level,
            Err(e) => {
                return Err(e);
            },
        };
        let header_level = match self.validator.compare_message_header() {
            Ok(level) => level,
            Err(e) => {
                return Err(e);
            },
        };
        let types_level = match self.validator.compare_types() {
            Ok(level) => level,
            Err(e) => {
                return Err(e);
            },
        };
        let messages_level = match self.validator.compare_messages() {
            Ok(level) => level,
            Err(e) => {
                return Err(e);
            },
        };
        let verdict = get_compatibility_from_current_and_new_level(
            get_compatibility_from_current_and_new_level(
                get_compatibility_from_current_and_new_level(version_level, header_level),
                types_level,
            ),
            messages_level,
        );
        if verdict_meets_threshold(verdict, CompatibilityLevel::Forward) {
            Ok(verdict)
        } else {
            Err(EvolutionError::SchemaNotCompatible(verdict))
        }
    }
}

} // verus!
