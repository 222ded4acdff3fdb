use bevy_debugger_mcp::messages::{
    validate_component_type_id, validate_entity_id, validate_request, BrpErrorCode, BrpRequest,
    FilterOp,
};

#[test]
fn test_entity_validation() {
    assert!(validate_entity_id(1).is_ok());
    assert!(validate_entity_id(0).is_err());

    assert!(validate_component_type_id("Transform").is_ok());
    assert!(validate_component_type_id("core::Transform").is_ok());
    assert!(validate_component_type_id("").is_err());
    assert!(validate_component_type_id("invalid-name").is_err());
}

#[test]
fn component_type_ids_accept_unicode_letters_and_underscores() {
    assert!(validate_component_type_id("my_component").is_ok());
    assert!(validate_component_type_id("Größe").is_ok());
    assert!(validate_component_type_id("a b").is_err());
    assert_eq!(
        validate_component_type_id("").unwrap_err(),
        "Component type ID cannot be empty"
    );
    assert_eq!(
        validate_component_type_id("x.y").unwrap_err(),
        "Component type ID contains invalid characters"
    );
}

#[test]
fn largest_entity_id_is_valid() {
    assert!(validate_entity_id(u64::MAX).is_ok());
    assert_eq!(validate_entity_id(0).unwrap_err(), "Entity ID cannot be zero");
}

#[test]
fn wire_names_of_codes_and_filters() {
    assert_eq!(BrpErrorCode::EntityNotFound.wire_name(), "entity_not_found");
    assert_eq!(BrpErrorCode::Timeout.description(), "Request timeout");
    assert_eq!(FilterOp::GreaterThanOrEqual.wire_name(), "gte");
    assert_eq!(FilterOp::Regex.wire_name(), "regex");
}

#[test]
fn requests_are_checked_for_entities_and_component_keys() {
    assert!(validate_request(&BrpRequest::Get { entity: 3, components: None }).is_ok());
    assert_eq!(
        validate_request(&BrpRequest::Destroy { entity: 0 }).unwrap_err(),
        "Entity ID cannot be zero"
    );
    let set = BrpRequest::SetComponents {
        entity: 4,
        components: vec![
            ("core::Transform".to_string(), "{}".to_string()),
            ("bad-key".to_string(), "{}".to_string()),
        ],
    };
    assert_eq!(
        validate_request(&set).unwrap_err(),
        "Component type ID contains invalid characters"
    );
    let spawn = BrpRequest::Spawn { components: vec![(String::new(), "{}".to_string())] };
    assert_eq!(validate_request(&spawn).unwrap_err(), "Component type ID cannot be empty");
    assert!(validate_request(&BrpRequest::ListComponents).is_ok());
    assert!(validate_request(&BrpRequest::QueryEntity { entity_id: 0 }).is_ok());
}
