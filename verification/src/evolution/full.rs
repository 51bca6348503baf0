//! Full compatibility strategy.
//!
//! Allowed:
//! - adding optional fields to messages,
//! - deleting optional fields.

use vstd::prelude::*;

use crate::compatibility::{get_compatibility_from_current_and_new_level, CompatibilityLevel};
use crate::evolution::validator::{strategy_outcome, verdict_meets_threshold};
use crate::evolution::{EvolutionError, EvolutionStrategy, SchemaValidator};

verus! {

/// Schema evolution strategy that accepts only changes compatible in both
/// directions.
pub struct FullCompatibility<V: SchemaValidator> {
    validator: V,
}

impl<V: SchemaValidator> FullCompatibility<V> {
    /// Create a new `FullCompatibility` strategy with the given validator.
    pub fn new(validator: V) -> (r: Self)
        ensures
            r.spec_check() == strategy_outcome(
                CompatibilityLevel::Full,
                validator.latest_v(),
                validator.current_v(),
            ),
    {
        Self { validator }
    }
}

impl<V: SchemaValidator> EvolutionStrategy for FullCompatibility<V> {
    type SchemaType = V::SchemaType;

    closed spec fn spec_check(&self) -> Result<CompatibilityLevel, EvolutionError> {
        strategy_outcome(
            CompatibilityLevel::Full,
            self.validator.latest_v(),
            self.validator.current_v(),
        )
    }

    fn compatibility_level(&self) -> (r: CompatibilityLevel)
        ensures
            r == CompatibilityLevel::Full,
    {
        CompatibilityLevel::Full
    }

    fn check(&self) -> (r: Result<CompatibilityLevel, EvolutionError>) {
        let version_level = match self.validator.compare_version() {
            Ok(level) => level,
            Err(e) => {
                return Err(e);
            },
        };
        let header_level = match self.validator.compare_message_header() {
            Ok(level) => level,
            Err(e) => {
                return Err(e);
            },
        };
        let types_level = match self.validator.compare_types() {
            Ok(level) => level,
            Err(e) => {
                return Err(e);
            },
        };
        let messages_level = match self.validator.compare_messages() {
            Ok(level) => level,
            Err(e) => {
                return Err(e);
            },
        };
        let verdict = get_compatibility_from_current_and_new_level(
            get_compatibility_from_current_and_new_level(
                get_compatibility_from_current_and_new_level(version_level, header_level),
                types_level,
            ),
            messages_level,
        );
        if verdict_meets_threshold(verdict, CompatibilityLevel::Full) {
            Ok(verdict)
        } else {
            Err(EvolutionError::SchemaNotCompatible(verdict))
        }
    }
}

} // verus!
