//! The schema model: structural equality, the lattice, and the lookup table.

use sbe_schema::compatibility::{get_compatibility_from_current_and_new_level, CompatibilityLevel};
use sbe_schema::evolution::partial_compatibility_for_types::{
    check_vec, get_compatibility_from_current_level_and_added_field_optionality,
    get_compatibility_from_current_level_and_deleted_field_optionality,
};
use sbe_schema::types::{
    vec_view_contains, Choice, Composite, EnumType, Field, Message, Presence, PrimitiveType,
    Schema, SematicVersion, SetType, Type, Types, VTable, VTableObject, ValidValue, ViewEq,
};
use sbe_schema::{build_vtable, SbeSchemaError};
use sbe_schema::PartialCompatibility;
use sbe_schema::compatibility::CompatibilityLevel::{Backward, Forward, Full, Incompatible, NoChange};

fn plain_type(name: &str, primitive: PrimitiveType) -> Type {
    Type {
        name: name.to_string(),
        description: None,
        primitive_type: Some(primitive),
        length: None,
        max_value: None,
        min_value: None,
        null_value: None,
        character_encoding: None,
        presence: None,
        since_version: None,
        value: None,
    }
}

#[test]
fn description_is_ignored_by_structural_equality() {
    let mut a = plain_type("price", PrimitiveType::Uint64);
    let mut b = plain_type("price", PrimitiveType::Uint64);
    a.description = Some("the price".to_string());
    b.description = None;
    assert!(a.view_eq(&b));
    b.description = Some("another wording".to_string());
    assert!(a.view_eq(&b));
}

#[test]
fn presence_is_part_of_a_types_content() {
    let a = plain_type("price", PrimitiveType::Uint64);
    let mut b = plain_type("price", PrimitiveType::Uint64);
    b.presence = Some(Presence::Optional);
    assert!(!a.view_eq(&b));
}

#[test]
fn type_name_is_part_of_its_content() {
    let a = plain_type("price", PrimitiveType::Uint64);
    let b = plain_type("cost", PrimitiveType::Uint64);
    assert!(!a.view_eq(&b));
}

#[test]
fn field_name_is_ignored_but_id_and_type_are_not() {
    let a = Field {
        name: "quantity".to_string(),
        description: None,
        id: 3,
        field_type: "uint32".to_string(),
        since_version: None,
        presence: None,
    };
    let mut renamed = a.clone();
    renamed.name = "qty".to_string();
    assert!(a.view_eq(&renamed));
    let mut other_id = a.clone();
    other_id.id = 4;
    assert!(!a.view_eq(&other_id));
    let mut other_type = a.clone();
    other_type.field_type = "uint64".to_string();
    assert!(!a.view_eq(&other_type));
}

#[test]
fn message_name_is_ignored_by_structural_equality() {
    let a = Message {
        name: "Order".to_string(),
        description: None,
        id: 1,
        fields: None,
        groups: None,
        semantic_type: None,
    };
    let mut b = a.clone();
    b.name = "OrderV2".to_string();
    assert!(a.view_eq(&b));
}

#[test]
fn message_header_finds_the_first_composite_named_message_header() {
    let other = Composite {
        name: "price".to_string(),
        description: None,
        types: Some(vec![plain_type("mantissa", PrimitiveType::Int64)]),
        refs: None,
    };
    let header = Composite {
        name: "messageHeader".to_string(),
        description: None,
        types: Some(vec![plain_type("blockLength", PrimitiveType::Uint16)]),
        refs: None,
    };
    let schema = Schema {
        package: "p".to_string(),
        id: 1,
        version: Some(1),
        semantic_version: SematicVersion::default(),
        description: String::new(),
        byte_order: None,
        includes: None,
        types: Some(vec![
            Types { composites: Some(vec![other]), enums: None, sets: None },
            Types { composites: Some(vec![header]), enums: None, sets: None },
        ]),
        messages: None,
    };
    let found = schema.message_header().expect("header must be found");
    assert_eq!(found.name, "messageHeader");
    assert_eq!(found.types.as_ref().unwrap().len(), 1);

    let empty = Schema::default();
    assert!(empty.message_header().is_none());
}

#[test]
fn lattice_meet_table() {
    let meet = get_compatibility_from_current_and_new_level;
    let all = [NoChange, Full, Backward, Forward, Incompatible];
    // NoChange is the identity and Incompatible is absorbing.
    for level in all {
        assert_eq!(meet(NoChange, level), level);
        assert_eq!(meet(level, NoChange), level);
        assert_eq!(meet(Incompatible, level), Incompatible);
        assert_eq!(meet(level, Incompatible), Incompatible);
    }
    // Commutativity and idempotence.
    for a in all {
        for b in all {
            assert_eq!(meet(a, b), meet(b, a));
        }
        assert_eq!(meet(a, a), a);
    }
    // Associativity.
    for a in all {
        for b in all {
            for c in all {
                assert_eq!(meet(meet(a, b), c), meet(a, meet(b, c)));
            }
        }
    }
    // The two directions are incomparable.
    assert_eq!(meet(Backward, Forward), Incompatible);
    assert_eq!(meet(Full, Backward), Backward);
    assert_eq!(meet(Full, Forward), Forward);
}

#[test]
fn transition_functions_follow_the_meet() {
    let deleted = get_compatibility_from_current_level_and_deleted_field_optionality;
    let added = get_compatibility_from_current_level_and_added_field_optionality;
    assert_eq!(deleted(NoChange, true), Forward);
    assert_eq!(deleted(NoChange, false), Backward);
    assert_eq!(deleted(Forward, false), Incompatible);
    assert_eq!(deleted(Incompatible, true), Incompatible);
    assert_eq!(added(NoChange, true), Full);
    assert_eq!(added(NoChange, false), Forward);
    assert_eq!(added(Backward, false), Incompatible);
    assert_eq!(added(Incompatible, true), Incompatible);
}

#[test]
fn check_vec_compares_bags_not_sequences() {
    let a = plain_type("a", PrimitiveType::Uint8);
    let b = plain_type("b", PrimitiveType::Uint16);
    let mut optional = plain_type("c", PrimitiveType::Uint32);
    optional.presence = Some(Presence::Optional);

    let latest = vec![a.clone(), b.clone()];
    let reordered = vec![b.clone(), a.clone()];
    assert_eq!(check_vec::<Type>(Some(&reordered), Some(&latest)), NoChange);

    let with_optional = vec![a.clone(), b.clone(), optional.clone()];
    assert_eq!(check_vec::<Type>(Some(&with_optional), Some(&latest)), Full);

    let with_required = vec![a.clone(), b.clone(), plain_type("d", PrimitiveType::Int8)];
    assert_eq!(check_vec::<Type>(Some(&with_required), Some(&latest)), Forward);

    let shrunk = vec![a.clone()];
    assert_eq!(check_vec::<Type>(Some(&shrunk), Some(&latest)), Backward);

    let latest_with_optional = vec![a.clone(), optional.clone()];
    assert_eq!(check_vec::<Type>(Some(&shrunk), Some(&latest_with_optional)), Forward);

    assert_eq!(check_vec::<Type>(None, None), NoChange);
    assert_eq!(check_vec::<Type>(Some(&vec![optional.clone()]), None), Backward);
    assert_eq!(check_vec::<Type>(Some(&vec![a.clone()]), None), Forward);
    assert_eq!(check_vec::<Type>(None, Some(&vec![optional.clone()])), Forward);
    assert_eq!(check_vec::<Type>(None, Some(&vec![a.clone()])), Backward);
}

#[test]
fn composite_partial_compatibility_matches_by_name() {
    let latest = Composite {
        name: "price".to_string(),
        description: None,
        types: Some(vec![plain_type("mantissa", PrimitiveType::Int64)]),
        refs: None,
    };
    let same = Composite {
        name: "price".to_string(),
        description: Some("ignored".to_string()),
        types: Some(vec![plain_type("mantissa", PrimitiveType::Int64)]),
        refs: None,
    };
    assert_eq!(same.partial_compatibility(&latest), CompatibilityLevel::NoChange);

    let renamed = Composite { name: "cost".to_string(), ..same.clone() };
    assert_eq!(renamed.partial_compatibility(&latest), CompatibilityLevel::Incompatible);

    let mut extended = same.clone();
    let mut exponent = plain_type("exponent", PrimitiveType::Int8);
    exponent.presence = Some(Presence::Optional);
    extended.types.as_mut().unwrap().push(exponent);
    assert_eq!(extended.partial_compatibility(&latest), CompatibilityLevel::Full);
}

#[test]
fn vec_view_contains_compares_content() {
    let a = plain_type("a", PrimitiveType::Uint8);
    let mut described = plain_type("a", PrimitiveType::Uint8);
    described.description = Some("same content".to_string());
    let items = vec![plain_type("x", PrimitiveType::Char), a.clone()];
    assert!(vec_view_contains(&items, &described));
    assert!(!vec_view_contains(&items, &plain_type("y", PrimitiveType::Char)));
}

#[test]
fn vtable_binds_names_to_declarations() {
    let mut table = VTable::new();
    assert!(!table.contains_name(&"price".to_string()));
    table.add("price".to_string(), VTableObject::Composite(0, 1));
    table.add("side".to_string(), VTableObject::Enum(0, 0));
    assert!(table.contains_name(&"price".to_string()));
    assert_eq!(table.get(&"price".to_string()), Some(&VTableObject::Composite(0, 1)));
    assert_eq!(table.get(&"side".to_string()), Some(&VTableObject::Enum(0, 0)));
    assert_eq!(table.get(&"absent".to_string()), None);
    // A later binding for the same name replaces the earlier one.
    table.add("price".to_string(), VTableObject::Composite(1, 0));
    assert_eq!(table.get(&"price".to_string()), Some(&VTableObject::Composite(1, 0)));
}

#[test]
fn semantic_version_default_is_zero() {
    let v = SematicVersion::default();
    assert_eq!(v.major, 0);
    assert_eq!(v.minor, 0);
    assert_eq!(v.patch, 0);
    assert_eq!(v.pre, "");
    assert_eq!(v.build_metadata, "");
}

#[test]
fn build_vtable_binds_every_declaration() {
    let composite = Composite {
        name: "price".to_string(),
        description: None,
        types: Some(vec![plain_type("mantissa", PrimitiveType::Int64)]),
        refs: None,
    };
    let side = EnumType {
        name: "side".to_string(),
        description: None,
        encoding_type: Some(PrimitiveType::Uint8),
        valid_values: Some(vec![ValidValue {
            name: "buy".to_string(),
            description: None,
            value: "0".to_string(),
        }]),
    };
    let extras = SetType {
        name: "extras".to_string(),
        description: None,
        encoding_type: Some(PrimitiveType::Uint8),
        choices: Some(vec![Choice {
            name: "sunRoof".to_string(),
            description: None,
            value: "0".to_string(),
        }]),
    };
    let schema = Schema {
        package: "p".to_string(),
        id: 1,
        version: Some(1),
        semantic_version: SematicVersion::default(),
        description: String::new(),
        byte_order: None,
        includes: None,
        types: Some(vec![Types {
            composites: Some(vec![composite]),
            enums: Some(vec![side]),
            sets: Some(vec![extras]),
        }]),
        messages: None,
    };
    let table = build_vtable(&schema).expect("distinct names must build");
    assert_eq!(table.get(&"price".to_string()), Some(&VTableObject::Composite(0, 0)));
    assert_eq!(table.get(&"side".to_string()), Some(&VTableObject::Enum(0, 0)));
    assert_eq!(table.get(&"extras".to_string()), Some(&VTableObject::SetType(0, 0)));
    assert_eq!(table.get(&"absent".to_string()), None);

    assert!(build_vtable(&Schema::default()).is_ok());
}

#[test]
fn build_vtable_rejects_duplicate_type_names() {
    let composite = Composite {
        name: "side".to_string(),
        description: None,
        types: Some(vec![plain_type("raw", PrimitiveType::Uint8)]),
        refs: None,
    };
    let clashing = EnumType {
        name: "side".to_string(),
        description: None,
        encoding_type: Some(PrimitiveType::Uint8),
        valid_values: None,
    };
    let schema = Schema {
        package: "p".to_string(),
        id: 1,
        version: Some(1),
        semantic_version: SematicVersion::default(),
        description: String::new(),
        byte_order: None,
        includes: None,
        types: Some(vec![Types {
            composites: Some(vec![composite]),
            enums: Some(vec![clashing]),
            sets: None,
        }]),
        messages: None,
    };
    let result = build_vtable(&schema);
    assert!(result.is_err());
    assert_eq!(result.err(), Some(SbeSchemaError::DuplicateTypeName));
}

#[test]
fn content_signature_ignores_description_and_nothing_else() {
    let a = plain_type("price", PrimitiveType::Uint64);
    let mut described = plain_type("price", PrimitiveType::Uint64);
    described.description = Some("any words".to_string());
    assert_eq!(a.content_signature(), described.content_signature());

    let renamed = plain_type("cost", PrimitiveType::Uint64);
    assert_ne!(a.content_signature(), renamed.content_signature());

    let other_primitive = plain_type("price", PrimitiveType::Int64);
    assert_ne!(a.content_signature(), other_primitive.content_signature());
}

#[test]
fn message_signature_ignores_the_name() {
    let a = Message {
        name: "Order".to_string(),
        description: None,
        id: 9,
        fields: Some(vec![Field {
            name: "qty".to_string(),
            description: None,
            id: 1,
            field_type: "uint32".to_string(),
            since_version: None,
            presence: None,
        }]),
        groups: None,
        semantic_type: None,
    };
    let mut renamed = a.clone();
    renamed.name = "OrderV2".to_string();
    assert_eq!(a.content_signature(), renamed.content_signature());
    let mut other = a.clone();
    other.id = 10;
    assert_ne!(a.content_signature(), other.content_signature());
}

#[test]
fn schema_signature_is_stable_across_copies() {
    let schema = Schema {
        package: "p".to_string(),
        id: 1,
        version: Some(1),
        semantic_version: SematicVersion::default(),
        description: "words".to_string(),
        byte_order: None,
        includes: None,
        types: Some(vec![Types {
            composites: Some(vec![Composite {
                name: "messageHeader".to_string(),
                description: None,
                types: Some(vec![plain_type("blockLength", PrimitiveType::Uint16)]),
                refs: None,
            }]),
            enums: None,
            sets: None,
        }]),
        messages: None,
    };
    let copy = schema.clone();
    assert_eq!(schema.content_signature(), copy.content_signature());
    let mut bumped = schema.clone();
    bumped.version = Some(2);
    assert_ne!(schema.content_signature(), bumped.content_signature());
}
