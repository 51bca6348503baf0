//! The verdict lattice of schema evolution.
//!
//! `CompatibilityLevel` orders the possible outcomes of comparing two schema
//! versions, from `NoChange` (strongest) down to `None` (weakest); `Backward`
//! and `Forward` are incomparable. Sub-verdicts of a comparison are folded
//! with the lattice meet.

use vstd::prelude::*;

verus! {

/// The compatibility level of a schema evolution strategy.
#[derive(Debug, Clone, Copy, PartialEq, Eq, Structural, Hash)]
pub enum CompatibilityLevel {
    /// Delete fields and add optional fields.
    Backward,
    /// Add fields and delete optional fields.
    Forward,
    /// Add optional fields and delete optional fields.
    Full,
    /// No compatibility can be guaranteed in either direction.
    Incompatible,
    /// No changes are accepted.
    NoChange,
}

/// The name of a verdict, as its variant is written.
pub open spec fn level_name(level: CompatibilityLevel) -> Seq<char> {
    match level {
        CompatibilityLevel::Backward => "Backward"@,
        CompatibilityLevel::Forward => "Forward"@,
        CompatibilityLevel::Full => "Full"@,
        CompatibilityLevel::Incompatible => "Incompatible"@,
        CompatibilityLevel::NoChange => "NoChange"@,
    }
}

impl CompatibilityLevel {
    /// The name of the verdict.
    pub fn name(&self) -> (r: String)
        ensures
            r@ == level_name(*self),
    {
        match self {
            CompatibilityLevel::Backward => String::from_str("Backward"),
            CompatibilityLevel::Forward => String::from_str("Forward"),
            CompatibilityLevel::Full => String::from_str("Full"),
            CompatibilityLevel::Incompatible => String::from_str("Incompatible"),
            CompatibilityLevel::NoChange => String::from_str("NoChange"),
        }
    }
}

/// The lattice meet of two verdicts: the strongest level that both allow.
/// `NoChange` is the identity, `Incompatible` is absorbing, and the meet of
/// the two incomparable directions `Backward` and `Forward` is `Incompatible`.
pub open spec fn meet(a: CompatibilityLevel, b: CompatibilityLevel) -> CompatibilityLevel {
    match (a, b) {
        (CompatibilityLevel::Incompatible, _) => CompatibilityLevel::Incompatible,
        (_, CompatibilityLevel::Incompatible) => CompatibilityLevel::Incompatible,
        (CompatibilityLevel::NoChange, _) => b,
        (_, CompatibilityLevel::NoChange) => a,
        (CompatibilityLevel::Full, _) => b,
        (_, CompatibilityLevel::Full) => a,
        (CompatibilityLevel::Backward, CompatibilityLevel::Backward) => CompatibilityLevel::Backward,
        (CompatibilityLevel::Forward, CompatibilityLevel::Forward) => CompatibilityLevel::Forward,
        (CompatibilityLevel::Backward, CompatibilityLevel::Forward) => CompatibilityLevel::Incompatible,
        (CompatibilityLevel::Forward, CompatibilityLevel::Backward) => CompatibilityLevel::Incompatible,
    }
}

/// Fold a running verdict with the verdict of one more sub-check: the
/// executable form of the lattice meet.
pub fn get_compatibility_from_current_and_new_level(
    level: CompatibilityLevel,
    new_level: CompatibilityLevel,
) -> (r: CompatibilityLevel)
    ensures
        r == meet(level, new_level),
{
    match (level, new_level) {
        (CompatibilityLevel::Incompatible, _) => CompatibilityLevel::Incompatible,
        (_, CompatibilityLevel::Incompatible) => CompatibilityLevel::Incompatible,
        (CompatibilityLevel::NoChange, _) => new_level,
        (_, CompatibilityLevel::NoChange) => level,
        (CompatibilityLevel::Full, _) => new_level,
        (_, CompatibilityLevel::Full) => level,
        (CompatibilityLevel::Backward, CompatibilityLevel::Backward) => CompatibilityLevel::Backward,
        (CompatibilityLevel::Forward, CompatibilityLevel::Forward) => CompatibilityLevel::Forward,
        (CompatibilityLevel::Backward, CompatibilityLevel::Forward) => CompatibilityLevel::Incompatible,
        (CompatibilityLevel::Forward, CompatibilityLevel::Backward) => CompatibilityLevel::Incompatible,
    }
}

/// The meet is commutative.
pub proof fn lemma_meet_commutative(a: CompatibilityLevel, b: CompatibilityLevel)
    ensures
        meet(a, b) == meet(b, a),
{
}

/// The meet is associative.
pub proof fn lemma_meet_associative(
    a: CompatibilityLevel,
    b: CompatibilityLevel,
    c: CompatibilityLevel,
)
    ensures
        meet(meet(a, b), c) == meet(a, meet(b, c)),
{
}

/// `NoChange` is the identity of the meet.
pub proof fn lemma_meet_identity(a: CompatibilityLevel)
    ensures
        meet(CompatibilityLevel::NoChange, a) == a,
        meet(a, CompatibilityLevel::NoChange) == a,
{
}

/// `Incompatible` is absorbing for the meet.
pub proof fn lemma_meet_absorbing(a: CompatibilityLevel)
    ensures
        meet(CompatibilityLevel::Incompatible, a) == CompatibilityLevel::Incompatible,
        meet(a, CompatibilityLevel::Incompatible) == CompatibilityLevel::Incompatible,
{
}

/// The meet is idempotent.
pub proof fn lemma_meet_idempotent(a: CompatibilityLevel)
    ensures
        meet(a, a) == a,
{
}

} // verus!
