//! Optionality of the constructs that the bag comparator walks.
//!
//! Types, refs and fields carry a presence attribute whose default is
//! required. Named declarations (composites, enums, sets), groups, data
//! elements and messages have no presence attribute and count as required.

use vstd::prelude::*;

use crate::evolution::Optional;
use crate::types::{
    Composite, CompositeV, Data, DataV, EnumType, EnumTypeV, Field, FieldV, Group, GroupV,
    Message, MessageV, Presence, Ref, RefV, SetType, SetTypeV, Type, TypeV,
};

verus! {

impl Optional for Type {
    open spec fn spec_is_optional(v: TypeV) -> bool {
        v.presence == Some(Presence::Optional)
    }

    fn is_optional(&self) -> (r: bool) {
        match &self.presence {
            Some(presence) => *presence == Presence::Optional,
            None => false,
        }
    }
}

impl Optional for Ref {
    open spec fn spec_is_optional(v: RefV) -> bool {
        v.presence == Some(Presence::Optional)
    }

    fn is_optional(&self) -> (r: bool) {
        match &self.presence {
            Some(presence) => *presence == Presence::Optional,
            None => false,
        }
    }
}

impl Optional for Field {
    open spec fn spec_is_optional(v: FieldV) -> bool {
        v.presence == Some(Presence::Optional)
    }

    fn is_optional(&self) -> (r: bool) {
        match &self.presence {
            Some(presence) => *presence == Presence::Optional,
            None => false,
        }
    }
}

impl Optional for Composite {
    open spec fn spec_is_optional(v: CompositeV) -> bool {
        false
    }

    fn is_optional(&self) -> (r: bool) {
        false
    }
}

impl Optional for EnumType {
    open spec fn spec_is_optional(v: EnumTypeV) -> bool {
        false
    }

    fn is_optional(&self) -> (r: bool) {
        false
    }
}

impl Optional for SetType {
    open spec fn spec_is_optional(v: SetTypeV) -> bool {
        false
    }

    fn is_optional(&self) -> (r: bool) {
        false
    }
}

impl Optional for Group {
    open spec fn spec_is_optional(v: GroupV) -> bool {
        false
    }

    fn is_optional(&self) -> (r: bool) {
        false
    }
}

impl Optional for Data {
    open spec fn spec_is_optional(v: DataV) -> bool {
        false
    }

    fn is_optional(&self) -> (r: bool) {
        false
    }
}

impl Optional for Message {
    open spec fn spec_is_optional(v: MessageV) -> bool {
        false
    }

    fn is_optional(&self) -> (r: bool) {
        false
    }
}

} // verus!
