//! The bag comparator: sibling declarations are compared set-wise, since SBE
//! treats sibling ordering as non-semantic for compatibility purposes, and
//! per-item verdicts are folded with the lattice meet.

use vstd::prelude::*;

use crate::compatibility::{get_compatibility_from_current_and_new_level, meet, CompatibilityLevel};
use crate::evolution::{Optional, PartialCompatibility};
use crate::types::{
    view_opt_seq, view_seq, vec_view_contains, opt_vec_view_eq, Composite, CompositeV, Ref, Type,
};

verus! {

/// The views of an optional borrowed vector of model values.
pub open spec fn view_opt_ref<T: View>(o: Option<&Vec<T>>) -> Option<Seq<T::V>> {
    match o {
        Some(v) => Some(view_seq(v@)),
        None => None,
    }
}

/// Whether every item of `s` is optional.
pub open spec fn all_optional<T: Optional>(s: Seq<T::V>) -> bool {
    forall|i: int| 0 <= i < s.len() ==> T::spec_is_optional(#[trigger] s[i])
}

/// Whether `latest` holds an item of the given optionality that `current`
/// does not hold: such an item was deleted by the evolution step.
pub open spec fn has_deleted_item<T: Optional>(
    current: Seq<T::V>,
    latest: Seq<T::V>,
    optional: bool,
) -> bool {
    exists|i: int|
        0 <= i < latest.len() && !current.contains(#[trigger] latest[i])
            && T::spec_is_optional(latest[i]) == optional
}

/// Whether `current` holds an item of the given optionality that `latest`
/// does not hold: such an item was added by the evolution step.
pub open spec fn has_added_item<T: Optional>(
    current: Seq<T::V>,
    latest: Seq<T::V>,
    optional: bool,
) -> bool {
    exists|j: int|
        0 <= j < current.len() && !latest.contains(#[trigger] current[j])
            && T::spec_is_optional(current[j]) == optional
}

/// The verdict of comparing two optional bags of sibling declarations.
///
/// Deleting an optional item is forward-compatible and deleting a required
/// item is backward-compatible; adding an optional item is full-compatible
/// and adding a required item is only forward-compatible. The per-item
/// verdicts are folded with the lattice meet, and additions are considered
/// only when every latest item is still present.
pub open spec fn bag_verdict<T: Optional>(
    current: Option<Seq<T::V>>,
    latest: Option<Seq<T::V>>,
) -> CompatibilityLevel {
    match (current, latest) {
        (None, None) => CompatibilityLevel::NoChange,
        (Some(c), None) => if all_optional::<T>(c) {
            CompatibilityLevel::Backward
        } else {
            CompatibilityLevel::Forward
        },
        (None, Some(l)) => if all_optional::<T>(l) {
            CompatibilityLevel::Forward
        } else {
            CompatibilityLevel::Backward
        },
        (Some(c), Some(l)) => {
            if has_deleted_item::<T>(c, l, false) && has_deleted_item::<T>(c, l, true) {
                CompatibilityLevel::Incompatible
            } else if has_deleted_item::<T>(c, l, false) {
                CompatibilityLevel::Backward
            } else if has_deleted_item::<T>(c, l, true) {
                CompatibilityLevel::Forward
            } else if has_added_item::<T>(c, l, false) {
                CompatibilityLevel::Forward
            } else if has_added_item::<T>(c, l, true) {
                CompatibilityLevel::Full
            } else {
                CompatibilityLevel::NoChange
            }
        },
    }
}

/// Fold a running verdict with the deletion of one item: removing an
/// optional item is forward-compatible, removing a required one is
/// backward-compatible.
pub open spec fn deleted_level(level: CompatibilityLevel, is_optional: bool) -> CompatibilityLevel {
    meet(
        level,
        if is_optional {
            CompatibilityLevel::Forward
        } else {
            CompatibilityLevel::Backward
        },
    )
}

/// Fold a running verdict with the addition of one item: adding an optional
/// item is full-compatible, adding a required one is only
/// forward-compatible.
pub open spec fn added_level(level: CompatibilityLevel, is_optional: bool) -> CompatibilityLevel {
    meet(
        level,
        if is_optional {
            CompatibilityLevel::Full
        } else {
            CompatibilityLevel::Forward
        },
    )
}

/// The executable form of [`deleted_level`].
pub fn get_compatibility_from_current_level_and_deleted_field_optionality(
    level: CompatibilityLevel,
    is_optional: bool,
) -> (r: CompatibilityLevel)
    ensures
        r == deleted_level(level, is_optional),
{
    let step = if is_optional {
        CompatibilityLevel::Forward
    } else {
        CompatibilityLevel::Backward
    };
    get_compatibility_from_current_and_new_level(level, step)
}

/// The executable form of [`added_level`].
pub fn get_compatibility_from_current_level_and_added_field_optionality(
    level: CompatibilityLevel,
    is_optional: bool,
) -> (r: CompatibilityLevel)
    ensures
        r == added_level(level, is_optional),
{
    let step = if is_optional {
        CompatibilityLevel::Full
    } else {
        CompatibilityLevel::Forward
    };
    get_compatibility_from_current_and_new_level(level, step)
}

/// Whether every item of `v` is optional.
fn all_optional_exec<T: Optional>(v: &Vec<T>) -> (r: bool)
    ensures
        r == all_optional::<T>(view_seq(v@)),
{
    let mut i: usize = 0;
    while i < v.len()
        invariant
            i <= v.len(),
            forall|j: int| 0 <= j < i ==> T::spec_is_optional(#[trigger] view_seq(v@)[j]),
        decreases v.len() - i,
    {
        let opt = v[i].is_optional();
        proof {
            assert(view_seq(v@)[i as int] == v@[i as int]@);
        }
        if !opt {
            return false;
        }
        i += 1;
    }
    true
}

/// Check the compatibility of two optional vectors of sibling declarations;
/// the first argument is the current version, the second the latest.
pub fn check_vec<T: crate::types::ViewEq + Optional>(
    current: Option<&Vec<T>>,
    latest: Option<&Vec<T>>,
) -> (r: CompatibilityLevel)
    ensures
        r == bag_verdict::<T>(view_opt_ref(current), view_opt_ref(latest)),
{
    match (current, latest) {
        (None, None) => CompatibilityLevel::NoChange,
        (Some(c), None) => {
            if all_optional_exec(c) {
                CompatibilityLevel::Backward
            } else {
                CompatibilityLevel::Forward
            }
        },
        (None, Some(l)) => {
            if all_optional_exec(l) {
                CompatibilityLevel::Forward
            } else {
                CompatibilityLevel::Backward
            }
        },
        (Some(c), Some(l)) => {
            let ghost cv = view_seq(c@);
            let ghost lv = view_seq(l@);
            let mut required_deleted = false;
            let mut optional_deleted = false;
            let mut i: usize = 0;
            while i < l.len()
                invariant
                    i <= l.len(),
                    cv == view_seq(c@),
                    lv == view_seq(l@),
                    lv.len() == l@.len(),
                    required_deleted == exists|k: int|
                        0 <= k < i && !cv.contains(#[trigger] lv[k]) && !T::spec_is_optional(lv[k]),
                    optional_deleted == exists|k: int|
                        0 <= k < i && !cv.contains(#[trigger] lv[k]) && T::spec_is_optional(lv[k]),
                decreases l.len() - i,
            {
                proof {
                    assert(lv[i as int] == l@[i as int]@);
                }
                if !vec_view_contains(c, &l[i]) {
                    if l[i].is_optional() {
                        optional_deleted = true;
                    } else {
                        required_deleted = true;
                    }
                }
                i += 1;
            }
            if required_deleted && optional_deleted {
                CompatibilityLevel::Incompatible
            } else if required_deleted {
                CompatibilityLevel::Backward
            } else if optional_deleted {
                CompatibilityLevel::Forward
            } else {
                let mut required_added = false;
                let mut optional_added = false;
                let mut j: usize = 0;
                while j < c.len()
                    invariant
                        j <= c.len(),
                        cv == view_seq(c@),
                        lv == view_seq(l@),
                        cv.len() == c@.len(),
                        required_added == exists|k: int|
                            0 <= k < j && !lv.contains(#[trigger] cv[k]) && !T::spec_is_optional(
                                cv[k],
                            ),
                        optional_added == exists|k: int|
                            0 <= k < j && !lv.contains(#[trigger] cv[k]) && T::spec_is_optional(
                                cv[k],
                            ),
                    decreases c.len() - j,
                {
                    proof {
                        assert(cv[j as int] == c@[j as int]@);
                    }
                    if !vec_view_contains(l, &c[j]) {
                        if c[j].is_optional() {
                            optional_added = true;
                        } else {
                            required_added = true;
                        }
                    }
                    j += 1;
                }
                if required_added {
                    CompatibilityLevel::Forward
                } else if optional_added {
                    CompatibilityLevel::Full
                } else {
                    CompatibilityLevel::NoChange
                }
            }
        },
    }
}

/// The verdict of comparing two versions of one composite.
///
/// Composites are matched by name upstream, so a name mismatch here is a
/// structural divergence and yields the weakest verdict. Equal contents
/// yield `NoChange`; otherwise the verdicts of the type bag and of the ref
/// bag are folded with the lattice meet.
pub open spec fn composite_verdict(current: CompositeV, latest: CompositeV) -> CompatibilityLevel {
    if current.name != latest.name {
        CompatibilityLevel::Incompatible
    } else if current.types == latest.types && current.refs == latest.refs {
        CompatibilityLevel::NoChange
    } else {
        meet(
            bag_verdict::<Type>(current.types, latest.types),
            bag_verdict::<Ref>(current.refs, latest.refs),
        )
    }
}

impl PartialCompatibility for Composite {
    open spec fn spec_partial_compatibility(current: CompositeV, latest: CompositeV) -> CompatibilityLevel {
        composite_verdict(current, latest)
    }

    fn partial_compatibility(&self, latest: &Self) -> (r: CompatibilityLevel) {
        if !(self.name == latest.name) {
            return CompatibilityLevel::Incompatible;
        }
        if opt_vec_view_eq(&self.types, &latest.types) && opt_vec_view_eq(&self.refs, &latest.refs) {
            return CompatibilityLevel::NoChange;
        }
        let current_types = self.types.as_ref();
        let latest_types = latest.types.as_ref();
        let current_refs = self.refs.as_ref();
        let latest_refs = latest.refs.as_ref();
        let types_level = check_vec::<Type>(current_types, latest_types);
        let refs_level = check_vec::<Ref>(current_refs, latest_refs);
        proof {
            assert(view_opt_ref(current_types) == view_opt_seq(self.types));
            assert(view_opt_ref(latest_types) == view_opt_seq(latest.types));
            assert(view_opt_ref(current_refs) == view_opt_seq(self.refs));
            assert(view_opt_ref(latest_refs) == view_opt_seq(latest.refs));
        }
        get_compatibility_from_current_and_new_level(types_level, refs_level)
    }
}

} // verus!
