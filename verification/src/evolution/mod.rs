//! Schema evolution: the error taxonomy, the strategy and validator traits,
//! and the validator facade.

use vstd::prelude::*;

pub mod backward;
pub mod forward;
pub mod full;
pub mod optional_impl_for_types;
pub mod partial_compatibility_for_types;
pub mod validator;

pub use crate::compatibility::CompatibilityLevel;

verus! {

use crate::compatibility::CompatibilityLevel as Level;
use crate::types::SchemaV;

/// Errors that a schema evolution check can raise.
#[derive(Debug, Clone, Copy, PartialEq, Eq, Structural)]
pub enum EvolutionError {
    /// The verdict failed the strategy's threshold; carries the computed
    /// verdict for diagnostics.
    SchemaNotCompatible(Level),
    /// One or both schemas omit the version attribute.
    MissingVersion,
    /// One or both schemas omit the `messageHeader` composite.
    MissingMessageHeader,
}

impl EvolutionError {
    /// A human-readable description of the error, naming the computed
    /// verdict where one is carried.
    pub fn message(&self) -> (r: String)
        ensures
            r@ == match *self {
                EvolutionError::SchemaNotCompatible(level) =>
                    "Schema is not compatible with the latest schema! Compatibility level: "@
                    + crate::compatibility::level_name(level),
                EvolutionError::MissingVersion => "Missing schema version"@,
                EvolutionError::MissingMessageHeader => "Missing message header"@,
            },
    {
        match self {
            EvolutionError::SchemaNotCompatible(level) => {
                let mut text = String::from_str(
                    "Schema is not compatible with the latest schema! Compatibility level: ",
                );
                let name = level.name();
                text.append(name.as_str());
                text
            },
            EvolutionError::MissingVersion => String::from_str("Missing schema version"),
            EvolutionError::MissingMessageHeader => String::from_str("Missing message header"),
        }
    }
}

/// Whether an item of a compared bag of declarations is optional at the
/// wire level.
pub trait Optional: View + Sized {
    /// Optionality as a function of the wire-relevant content.
    spec fn spec_is_optional(v: Self::V) -> bool;

    /// Check whether the item is optional.
    fn is_optional(&self) -> (r: bool)
        ensures
            r == Self::spec_is_optional(self@),
    ;
}

/// Partial compatibility of two versions of one construct.
pub trait PartialCompatibility: View + Sized {
    /// The verdict as a function of the two wire-relevant contents.
    spec fn spec_partial_compatibility(current: Self::V, latest: Self::V) -> Level;

    /// Compute the verdict; `self` is the current version and `latest` the
    /// previously published one.
    fn partial_compatibility(&self, latest: &Self) -> (r: Level)
        ensures
            r == Self::spec_partial_compatibility(self@, latest@),
    ;
}

/// A validator that compares two schema versions piece by piece.
pub trait SchemaValidator {
    /// The type of the schema the validator works against.
    type SchemaType;

    /// The content of the latest (previously published) schema.
    spec fn latest_v(&self) -> SchemaV;

    /// The content of the current (candidate) schema.
    spec fn current_v(&self) -> SchemaV;

    /// Get the latest schema.
    fn latest(&self) -> &Self::SchemaType;

    /// Get the current schema.
    fn current(&self) -> &Self::SchemaType;

    /// Compare the version of the current schema with the latest schema.
    fn compare_version(&self) -> (r: Result<Level, EvolutionError>)
        ensures
            r == crate::evolution::validator::version_verdict(
                self.latest_v().version,
                self.current_v().version,
            ),
    ;

    /// Compare the message header of the current schema with the latest
    /// schema.
    fn compare_message_header(&self) -> (r: Result<Level, EvolutionError>)
        ensures
            r == crate::evolution::validator::header_verdict(self.latest_v(), self.current_v()),
    ;

    /// Compare the type definitions of the current schema with the latest
    /// schema.
    fn compare_types(&self) -> (r: Result<Level, EvolutionError>)
        ensures
            r == Ok::<Level, EvolutionError>(
                crate::evolution::validator::types_verdict(self.latest_v(), self.current_v()),
            ),
    ;

    /// Compare the messages of the current schema with the latest schema.
    fn compare_messages(&self) -> (r: Result<Level, EvolutionError>)
        ensures
            r == Ok::<Level, EvolutionError>(
                crate::evolution::validator::messages_verdict(self.latest_v(), self.current_v()),
            ),
    ;
}

/// A strategy for schema evolution: a policy on the verdict of comparing
/// two schema versions.
pub trait EvolutionStrategy {
    /// The type of the schema the strategy works against.
    type SchemaType;

    /// The outcome of the check, as a function of the strategy's state.
    spec fn spec_check(&self) -> Result<Level, EvolutionError>;

    /// The minimum compatibility level the strategy accepts.
    fn compatibility_level(&self) -> Level;

    /// Check if the current schema is compatible with the latest schema.
    fn check(&self) -> (r: Result<Level, EvolutionError>)
        ensures
            r == self.spec_check(),
    ;
}

/// A validator for schema evolution, parameterised by a strategy.
pub struct Validator<E: EvolutionStrategy> {
    strategy: E,
}

impl<E: EvolutionStrategy> Validator<E> {
    /// The outcome the wrapped strategy decides.
    pub closed spec fn spec_check(&self) -> Result<Level, EvolutionError> {
        self.strategy.spec_check()
    }

    /// Create a new validator with the given strategy.
    pub fn new(strategy: E) -> (r: Self)
        ensures
            r.spec_check() == strategy.spec_check(),
    {
        Self { strategy }
    }

    /// Check if the current schema is compatible with the latest schema.
    pub fn check(&self) -> (r: Result<Level, EvolutionError>)
        ensures
            r == self.spec_check(),
    {
        self.strategy.check()
    }
}

/// A strategy that accepts all changes: every verdict meets its threshold,
/// so its check returns the comparator's raw verdict; structural errors
/// still surface unchanged.
pub struct NoneCompatibility<V: SchemaValidator> {
    validator: V,
}

impl<V: SchemaValidator> NoneCompatibility<V> {
    /// Create a new `NoneCompatibility` strategy with the given validator.
    pub fn new(validator: V) -> (r: Self)
        ensures
            r.spec_check() == crate::evolution::validator::strategy_outcome(
                Level::Incompatible,
                validator.latest_v(),
                validator.current_v(),
            ),
    {
        Self { validator }
    }
}

impl<V: SchemaValidator> EvolutionStrategy for NoneCompatibility<V> {
    type SchemaType = V::SchemaType;

    closed spec fn spec_check(&self) -> Result<Level, EvolutionError> {
        crate::evolution::validator::strategy_outcome(
            Level::Incompatible,
            self.validator.latest_v(),
            self.validator.current_v(),
        )
    }

    fn compatibility_level(&self) -> (r: Level)
        ensures
            r == Level::Incompatible,
    {
        Level::Incompatible
    }

    fn check(&self) -> (r: Result<Level, EvolutionError>) {
        let version_level = match self.validator.compare_version() {
            Ok(level) => level,
            Err(e) => {
                return Err(e);
            },
        };
        let header_level = match self.validator.compare_message_header() {
            Ok(level) => level,
            Err(e) => {
                return Err(e);
            },
        };
        let types_level = match self.validator.compare_types() {
            Ok(level) => level,
            Err(e) => {
                return Err(e);
            },
        };
        let messages_level = match self.validator.compare_messages() {
            Ok(level) => level,
            Err(e) => {
                return Err(e);
            },
        };
        let verdict = crate::compatibility::get_compatibility_from_current_and_new_level(
            crate::compatibility::get_compatibility_from_current_and_new_level(
                crate::compatibility::get_compatibility_from_current_and_new_level(
                    version_level,
                    header_level,
                ),
                types_level,
            ),
            messages_level,
        );
        // Every verdict meets the weakest threshold.
        Ok(verdict)
    }
}

} // verus!
