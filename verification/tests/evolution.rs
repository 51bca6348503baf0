//! End-to-end scenarios: two schema versions compared under each strategy.

use sbe_schema::compatibility::CompatibilityLevel;
use sbe_schema::evolution::validator::check_schemas;
use sbe_schema::types::{Composite, Field, Message, Presence, Schema, Type, Types};
use sbe_schema::{
    BackwardCompatibility, EvolutionError, EvolutionStrategy, ForwardCompatibility,
    FullCompatibility, NoneCompatibility, SbeSchemaValidator, Validator,
};

fn header_type(name: &str) -> Type {
    Type {
        name: name.to_string(),
        description: None,
        primitive_type: Some(sbe_schema::types::PrimitiveType::Uint16),
        length: None,
        max_value: None,
        min_value: None,
        null_value: None,
        character_encoding: None,
        presence: None,
        since_version: None,
        value: None,
    }
}

fn message_header() -> Composite {
    Composite {
        name: "messageHeader".to_string(),
        description: Some("Message identifiers and length of message root".to_string()),
        types: Some(vec![
            header_type("blockLength"),
            header_type("templateId"),
            header_type("schemaId"),
            header_type("version"),
        ]),
        refs: None,
    }
}

fn field(name: &str, id: u32, field_type: &str) -> Field {
    Field {
        name: name.to_string(),
        description: None,
        id,
        field_type: field_type.to_string(),
        since_version: None,
        presence: None,
    }
}

fn order_message(fields: Vec<Field>) -> Message {
    Message {
        name: "Order".to_string(),
        description: None,
        id: 1,
        fields: Some(fields),
        groups: None,
        semantic_type: None,
    }
}

fn schema(version: u32, messages: Vec<Message>) -> Schema {
    Schema {
        package: "order.book".to_string(),
        id: 42,
        version: Some(version),
        semantic_version: Default::default(),
        description: String::new(),
        byte_order: None,
        includes: None,
        types: Some(vec![Types {
            composites: Some(vec![message_header()]),
            enums: None,
            sets: None,
        }]),
        messages: Some(messages),
    }
}

/// Latest version 1 with one required field on one message.
fn latest_schema() -> Schema {
    schema(1, vec![order_message(vec![field("quantity", 1, "uint32")])])
}

fn check_levels(
    latest: &Schema,
    current: &Schema,
) -> (
    Result<CompatibilityLevel, EvolutionError>,
    Result<CompatibilityLevel, EvolutionError>,
    Result<CompatibilityLevel, EvolutionError>,
    Result<CompatibilityLevel, EvolutionError>,
) {
    let full = Validator::new(FullCompatibility::new(SbeSchemaValidator::new(latest, current)))
        .check();
    let backward =
        Validator::new(BackwardCompatibility::new(SbeSchemaValidator::new(latest, current)))
            .check();
    let forward =
        Validator::new(ForwardCompatibility::new(SbeSchemaValidator::new(latest, current)))
            .check();
    let none = Validator::new(NoneCompatibility::new(SbeSchemaValidator::new(latest, current)))
        .check();
    (full, backward, forward, none)
}

#[test]
fn test_validator_none() {
    let latest_schema = Schema::default();
    let current_schema = Schema::default();
    let strategy = NoneCompatibility::new(SbeSchemaValidator::new(&latest_schema, &current_schema));

    let validator = Validator::new(strategy);
    let result = validator.check();
    // Default schemas carry no version attribute, and even the strategy
    // that accepts every verdict surfaces structural errors unchanged.
    let expected = EvolutionError::MissingVersion;
    assert!(result.is_err());
    let returnd_result = result.unwrap_err();
    assert_eq!(returnd_result, expected);
}

#[test]
fn identical_schemas_version_bumped_to_2_are_full_compatible() {
    let latest = latest_schema();
    let current = schema(2, vec![order_message(vec![field("quantity", 1, "uint32")])]);
    assert_eq!(check_schemas(&latest, &current), Ok(CompatibilityLevel::Full));
}

#[test]
fn optional_field_added_is_full_compatible() {
    let latest = latest_schema();
    let mut added = field("flags", 2, "uint8");
    added.presence = Some(Presence::Optional);
    added.since_version = Some(2);
    let current = schema(2, vec![order_message(vec![field("quantity", 1, "uint32"), added])]);
    assert_eq!(check_schemas(&latest, &current), Ok(CompatibilityLevel::Full));
}

#[test]
fn required_field_added_is_forward_compatible() {
    let latest = latest_schema();
    let mut added = field("flags", 2, "uint8");
    added.since_version = Some(2);
    let current = schema(2, vec![order_message(vec![field("quantity", 1, "uint32"), added])]);
    assert_eq!(check_schemas(&latest, &current), Ok(CompatibilityLevel::Forward));
}

#[test]
fn optional_field_removed_is_forward_compatible() {
    let mut removed = field("note", 7, "uint32");
    removed.presence = Some(Presence::Optional);
    let latest = schema(1, vec![order_message(vec![field("quantity", 1, "uint32"), removed])]);
    let current = schema(2, vec![order_message(vec![field("quantity", 1, "uint32")])]);
    assert_eq!(check_schemas(&latest, &current), Ok(CompatibilityLevel::Forward));
}

#[test]
fn required_field_removed_is_backward_compatible() {
    let removed = field("note", 7, "uint32");
    let latest = schema(1, vec![order_message(vec![field("quantity", 1, "uint32"), removed])]);
    let current = schema(2, vec![order_message(vec![field("quantity", 1, "uint32")])]);
    assert_eq!(check_schemas(&latest, &current), Ok(CompatibilityLevel::Backward));
}

#[test]
fn message_renamed_only_is_no_change() {
    let latest = latest_schema();
    let mut renamed = order_message(vec![field("quantity", 1, "uint32")]);
    renamed.name = "OrderV2".to_string();
    let current = schema(1, vec![renamed]);
    assert_eq!(check_schemas(&latest, &current), Ok(CompatibilityLevel::NoChange));
}

#[test]
fn schema_compared_with_itself_is_no_change() {
    let latest = latest_schema();
    let current = latest_schema();
    assert_eq!(check_schemas(&latest, &current), Ok(CompatibilityLevel::NoChange));
}

#[test]
fn version_jump_of_three_is_incompatible() {
    let latest = latest_schema();
    let current = schema(4, vec![order_message(vec![field("quantity", 1, "uint32")])]);
    assert_eq!(check_schemas(&latest, &current), Ok(CompatibilityLevel::Incompatible));
}

#[test]
fn version_going_backwards_is_incompatible() {
    let latest = schema(3, vec![order_message(vec![field("quantity", 1, "uint32")])]);
    let current = schema(2, vec![order_message(vec![field("quantity", 1, "uint32")])]);
    assert_eq!(check_schemas(&latest, &current), Ok(CompatibilityLevel::Incompatible));
}

#[test]
fn missing_version_is_an_error() {
    let latest = latest_schema();
    let mut current = schema(2, vec![order_message(vec![field("quantity", 1, "uint32")])]);
    current.version = None;
    assert_eq!(check_schemas(&latest, &current), Err(EvolutionError::MissingVersion));
}

#[test]
fn missing_message_header_is_an_error() {
    let latest = latest_schema();
    let mut current = schema(2, vec![order_message(vec![field("quantity", 1, "uint32")])]);
    current.types = Some(vec![Types { composites: Some(vec![]), enums: None, sets: None }]);
    assert_eq!(check_schemas(&latest, &current), Err(EvolutionError::MissingMessageHeader));
}

#[test]
fn full_strategy_accepts_version_bump_and_optional_addition() {
    let latest = latest_schema();
    let identical = latest_schema();
    let (full, _, _, _) = check_levels(&latest, &identical);
    assert_eq!(full, Ok(CompatibilityLevel::NoChange));

    let bumped = schema(2, vec![order_message(vec![field("quantity", 1, "uint32")])]);
    let (full, _, _, _) = check_levels(&latest, &bumped);
    assert_eq!(full, Ok(CompatibilityLevel::Full));

    let mut added = field("flags", 2, "uint8");
    added.presence = Some(Presence::Optional);
    let with_optional = schema(2, vec![order_message(vec![field("quantity", 1, "uint32"), added])]);
    let (full, _, _, _) = check_levels(&latest, &with_optional);
    assert_eq!(full, Ok(CompatibilityLevel::Full));
}

#[test]
fn full_strategy_rejects_one_sided_changes() {
    let latest = latest_schema();
    let added = field("flags", 2, "uint8");
    let with_required = schema(2, vec![order_message(vec![field("quantity", 1, "uint32"), added])]);
    let (full, _, _, _) = check_levels(&latest, &with_required);
    assert_eq!(full, Err(EvolutionError::SchemaNotCompatible(CompatibilityLevel::Forward)));

    let mut optional_gone = field("note", 7, "uint32");
    optional_gone.presence = Some(Presence::Optional);
    let latest_with_optional =
        schema(1, vec![order_message(vec![field("quantity", 1, "uint32"), optional_gone])]);
    let current = schema(2, vec![order_message(vec![field("quantity", 1, "uint32")])]);
    let (full, _, _, _) = check_levels(&latest_with_optional, &current);
    assert_eq!(full, Err(EvolutionError::SchemaNotCompatible(CompatibilityLevel::Forward)));

    let required_gone = field("note", 7, "uint32");
    let latest_with_required =
        schema(1, vec![order_message(vec![field("quantity", 1, "uint32"), required_gone])]);
    let (full, _, _, _) = check_levels(&latest_with_required, &current);
    assert_eq!(full, Err(EvolutionError::SchemaNotCompatible(CompatibilityLevel::Backward)));
}

#[test]
fn backward_strategy_accepts_backward_and_rejects_forward() {
    let latest = latest_schema();
    let bumped = schema(2, vec![order_message(vec![field("quantity", 1, "uint32")])]);
    let (_, backward, _, _) = check_levels(&latest, &bumped);
    assert_eq!(backward, Ok(CompatibilityLevel::Full));

    let mut added = field("flags", 2, "uint8");
    added.presence = Some(Presence::Optional);
    let with_optional = schema(2, vec![order_message(vec![field("quantity", 1, "uint32"), added])]);
    let (_, backward, _, _) = check_levels(&latest, &with_optional);
    assert_eq!(backward, Ok(CompatibilityLevel::Full));

    let required_gone = field("note", 7, "uint32");
    let latest_with_required =
        schema(1, vec![order_message(vec![field("quantity", 1, "uint32"), required_gone])]);
    let current = schema(2, vec![order_message(vec![field("quantity", 1, "uint32")])]);
    let (_, backward, _, _) = check_levels(&latest_with_required, &current);
    assert_eq!(backward, Ok(CompatibilityLevel::Backward));

    let with_required =
        schema(2, vec![order_message(vec![field("quantity", 1, "uint32"), field("flags", 2, "uint8")])]);
    let (_, backward, _, _) = check_levels(&latest, &with_required);
    assert_eq!(backward, Err(EvolutionError::SchemaNotCompatible(CompatibilityLevel::Forward)));

    let mut optional_gone = field("note", 7, "uint32");
    optional_gone.presence = Some(Presence::Optional);
    let latest_with_optional =
        schema(1, vec![order_message(vec![field("quantity", 1, "uint32"), optional_gone])]);
    let (_, backward, _, _) = check_levels(&latest_with_optional, &current);
    assert_eq!(backward, Err(EvolutionError::SchemaNotCompatible(CompatibilityLevel::Forward)));
}

#[test]
fn forward_strategy_accepts_forward_and_rejects_backward() {
    let latest = latest_schema();
    let with_required =
        schema(2, vec![order_message(vec![field("quantity", 1, "uint32"), field("flags", 2, "uint8")])]);
    let (_, _, forward, _) = check_levels(&latest, &with_required);
    assert_eq!(forward, Ok(CompatibilityLevel::Forward));

    let required_gone = field("note", 7, "uint32");
    let latest_with_required =
        schema(1, vec![order_message(vec![field("quantity", 1, "uint32"), required_gone])]);
    let current = schema(2, vec![order_message(vec![field("quantity", 1, "uint32")])]);
    let (_, _, forward, _) = check_levels(&latest_with_required, &current);
    assert_eq!(forward, Err(EvolutionError::SchemaNotCompatible(CompatibilityLevel::Backward)));
}

#[test]
fn none_strategy_accepts_every_scenario() {
    // The strategy that accepts everything returns the raw verdict, even on
    // a deliberately broken pair whose version jumps by three.
    let latest = latest_schema();
    let broken = schema(4, vec![order_message(vec![field("quantity", 1, "uint32")])]);
    let (_, _, _, none) = check_levels(&latest, &broken);
    assert_eq!(none, Ok(CompatibilityLevel::Incompatible));
    assert_eq!(check_schemas(&latest, &broken), Ok(CompatibilityLevel::Incompatible));

    let bumped = schema(2, vec![order_message(vec![field("quantity", 1, "uint32")])]);
    let (_, _, _, none) = check_levels(&latest, &bumped);
    assert_eq!(none, Ok(CompatibilityLevel::Full));

    let identical = latest_schema();
    let (_, _, _, none) = check_levels(&latest, &identical);
    assert_eq!(none, Ok(CompatibilityLevel::NoChange));

    let mut renamed = order_message(vec![field("quantity", 1, "uint32")]);
    renamed.name = "OrderV2".to_string();
    let rename_only = schema(1, vec![renamed]);
    let (_, _, _, none) = check_levels(&latest, &rename_only);
    assert_eq!(none, Ok(CompatibilityLevel::NoChange));

    let added = field("flags", 2, "uint8");
    let with_required = schema(2, vec![order_message(vec![field("quantity", 1, "uint32"), added])]);
    let (_, _, _, none) = check_levels(&latest, &with_required);
    assert_eq!(none, Ok(CompatibilityLevel::Forward));

    let required_gone = field("note", 7, "uint32");
    let latest_with_required =
        schema(1, vec![order_message(vec![field("quantity", 1, "uint32"), required_gone])]);
    let current = schema(2, vec![order_message(vec![field("quantity", 1, "uint32")])]);
    let (_, _, _, none) = check_levels(&latest_with_required, &current);
    assert_eq!(none, Ok(CompatibilityLevel::Backward));
}

#[test]
fn strategy_compatibility_levels() {
    let latest = latest_schema();
    let current = latest_schema();
    assert_eq!(
        FullCompatibility::new(SbeSchemaValidator::new(&latest, &current)).compatibility_level(),
        CompatibilityLevel::Full
    );
    assert_eq!(
        BackwardCompatibility::new(SbeSchemaValidator::new(&latest, &current))
            .compatibility_level(),
        CompatibilityLevel::Backward
    );
    assert_eq!(
        ForwardCompatibility::new(SbeSchemaValidator::new(&latest, &current))
            .compatibility_level(),
        CompatibilityLevel::Forward
    );
    assert_eq!(
        NoneCompatibility::new(SbeSchemaValidator::new(&latest, &current)).compatibility_level(),
        CompatibilityLevel::Incompatible
    );
}

#[test]
fn reordering_siblings_does_not_change_the_verdict() {
    let fields_one = vec![field("quantity", 1, "uint32"), field("price", 2, "uint64")];
    let fields_two = vec![field("price", 2, "uint64"), field("quantity", 1, "uint32")];
    let other_message = Message {
        name: "Cancel".to_string(),
        description: None,
        id: 2,
        fields: Some(vec![field("reason", 1, "uint8")]),
        groups: None,
        semantic_type: None,
    };
    let latest = schema(1, vec![order_message(fields_one.clone()), other_message.clone()]);
    let reordered_latest = schema(1, vec![other_message, order_message(fields_two)]);
    let current = schema(2, vec![order_message(vec![field("quantity", 1, "uint32")])]);
    assert_eq!(
        check_schemas(&latest, &current),
        check_schemas(&reordered_latest, &current)
    );
}

#[test]
fn error_messages_name_the_failure() {
    assert_eq!(EvolutionError::MissingVersion.message(), "Missing schema version");
    assert_eq!(EvolutionError::MissingMessageHeader.message(), "Missing message header");
    assert_eq!(
        EvolutionError::SchemaNotCompatible(CompatibilityLevel::Forward).message(),
        "Schema is not compatible with the latest schema! Compatibility level: Forward"
    );
    assert_eq!(CompatibilityLevel::Backward.name(), "Backward");
}

#[test]
fn changed_composite_counts_as_removed_and_verdict_is_backward() {
    // A non-header composite is matched by structural equality in the types
    // bag: changing its contents makes the latest one count as deleted, and
    // additions are not considered while a deletion is present.
    let price = sbe_schema::types::Composite {
        name: "price".to_string(),
        description: None,
        types: Some(vec![header_type("mantissa")]),
        refs: None,
    };
    let mut grown = sbe_schema::types::Composite {
        name: "price".to_string(),
        description: None,
        types: Some(vec![header_type("mantissa"), header_type("exponent")]),
        refs: None,
    };
    grown.description = Some("wider".to_string());

    let mut latest = latest_schema();
    latest.types.as_mut().unwrap()[0].composites.as_mut().unwrap().push(price);
    let mut current = schema(2, vec![order_message(vec![field("quantity", 1, "uint32")])]);
    current.types.as_mut().unwrap()[0].composites.as_mut().unwrap().push(grown);

    assert_eq!(check_schemas(&latest, &current), Ok(CompatibilityLevel::Backward));
}

#[test]
fn added_enum_value_counts_as_changed_enum() {
    let side = |values: Vec<&str>| sbe_schema::types::EnumType {
        name: "side".to_string(),
        description: None,
        encoding_type: Some(sbe_schema::types::PrimitiveType::Uint8),
        valid_values: Some(
            values
                .iter()
                .enumerate()
                .map(|(i, v)| sbe_schema::types::ValidValue {
                    name: v.to_string(),
                    description: None,
                    value: i.to_string(),
                })
                .collect(),
        ),
    };
    let mut latest = latest_schema();
    latest.types.as_mut().unwrap()[0].enums = Some(vec![side(vec!["buy", "sell"])]);
    let mut current = schema(2, vec![order_message(vec![field("quantity", 1, "uint32")])]);
    current.types.as_mut().unwrap()[0].enums = Some(vec![side(vec!["buy", "sell", "cross"])]);

    // Enum values carry no presence attribute: the changed enum counts as a
    // required item deleted from the latest schema.
    assert_eq!(check_schemas(&latest, &current), Ok(CompatibilityLevel::Backward));
}

#[test]
fn types_blocks_are_flattened_before_comparison() {
    // The same declarations split across two types blocks compare as equal
    // bags.
    let extra = sbe_schema::types::SetType {
        name: "extras".to_string(),
        description: None,
        encoding_type: Some(sbe_schema::types::PrimitiveType::Uint8),
        choices: None,
    };
    let mut latest = latest_schema();
    latest.types.as_mut().unwrap()[0].sets = Some(vec![extra.clone()]);
    let mut current = schema(1, vec![order_message(vec![field("quantity", 1, "uint32")])]);
    current.types.as_mut().unwrap().push(sbe_schema::types::Types {
        composites: None,
        enums: None,
        sets: Some(vec![extra]),
    });
    assert_eq!(check_schemas(&latest, &current), Ok(CompatibilityLevel::NoChange));
}

#[test]
fn changed_group_counts_at_the_message_level() {
    let group = |since: Option<u32>| sbe_schema::types::Group {
        name: "legs".to_string(),
        description: None,
        id: 10,
        dimension_type: "groupSizeEncoding".to_string(),
        fields: Some(vec![field("legQty", 1, "uint32")]),
        data: None,
        since_version: since,
    };
    let mut order = order_message(vec![field("quantity", 1, "uint32")]);
    order.groups = Some(vec![group(None)]);
    let latest = schema(1, vec![order]);

    let mut changed = order_message(vec![field("quantity", 1, "uint32")]);
    changed.groups = Some(vec![group(Some(2))]);
    let current = schema(2, vec![changed]);

    // Groups carry no presence attribute: the changed group counts as a
    // required item deleted from the latest message.
    assert_eq!(check_schemas(&latest, &current), Ok(CompatibilityLevel::Backward));
}
