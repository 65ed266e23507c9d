use city3d_stac::attributes::{AttributeDefinition, AttributeSchema, AttributeType, JsonKind};
use serde_json::Value;

#[test]
fn test_attribute_definition() {
    let attr = AttributeDefinition::new("yearOfConstruction", AttributeType::Number)
        .with_description("Year the building was constructed")
        .with_required(false);

    assert_eq!(attr.name, "yearOfConstruction");
    assert_eq!(attr.attr_type, AttributeType::Number);
    assert_eq!(
        attr.description,
        Some("Year the building was constructed".to_string())
    );
    assert_eq!(attr.required, Some(false));
}

#[test]
fn test_attribute_type_from_json() {
    let mut object = serde_json::Map::new();
    object.insert("key".to_string(), Value::String("value".to_string()));
    assert_eq!(
        AttributeType::from_json_value(&Value::String("hello".to_string())),
        AttributeType::String
    );
    assert_eq!(
        AttributeType::from_json_value(&Value::from(42)),
        AttributeType::Number
    );
    assert_eq!(
        AttributeType::from_json_value(&Value::Bool(true)),
        AttributeType::Boolean
    );
    assert_eq!(
        AttributeType::from_json_value(&Value::Array(vec![Value::from(1), Value::from(2), Value::from(3)])),
        AttributeType::Array
    );
    assert_eq!(
        AttributeType::from_json_value(&Value::Object(object)),
        AttributeType::Object
    );
}

#[test]
fn test_attribute_definition_new() {
    let attr = AttributeDefinition::new("height", AttributeType::Number);
    assert_eq!(attr.name, "height");
    assert_eq!(attr.attr_type, AttributeType::Number);
    assert!(attr.description.is_none());
    assert!(attr.required.is_none());
}

#[test]
fn test_attribute_definition_with_description() {
    let attr = AttributeDefinition::new("height", AttributeType::Number)
        .with_description("Building height in meters");
    assert_eq!(
        attr.description,
        Some("Building height in meters".to_string())
    );
}

#[test]
fn test_attribute_definition_with_required() {
    let attr = AttributeDefinition::new("id", AttributeType::String).with_required(true);
    assert_eq!(attr.required, Some(true));
}

#[test]
fn test_attribute_definition_builder_chain() {
    let attr = AttributeDefinition::new("function", AttributeType::String)
        .with_description("Building function")
        .with_required(false);

    assert_eq!(attr.name, "function");
    assert_eq!(attr.attr_type, AttributeType::String);
    assert!(attr.description.is_some());
    assert_eq!(attr.required, Some(false));
}

#[test]
fn test_attribute_type_from_json_string() {
    let value = Value::String("hello".to_string());
    assert_eq!(AttributeType::from_json_value(&value), AttributeType::String);
}

#[test]
fn test_attribute_type_from_json_number() {
    let value = Value::from(42);
    assert_eq!(AttributeType::from_json_value(&value), AttributeType::Number);

    let float_value = Value::from(3.15f64);
    assert_eq!(AttributeType::from_json_value(&float_value), AttributeType::Number);
}

#[test]
fn test_attribute_type_from_json_boolean() {
    let value = Value::Bool(true);
    assert_eq!(AttributeType::from_json_value(&value), AttributeType::Boolean);
}

#[test]
fn test_attribute_type_from_json_array() {
    let value = Value::Array(vec![Value::from(1), Value::from(2), Value::from(3)]);
    assert_eq!(AttributeType::from_json_value(&value), AttributeType::Array);
}

#[test]
fn test_attribute_type_from_json_object() {
    let mut object = serde_json::Map::new();
    object.insert("key".to_string(), Value::String("value".to_string()));
    let value = Value::Object(object);
    assert_eq!(AttributeType::from_json_value(&value), AttributeType::Object);
}

#[test]
fn test_attribute_type_from_json_null() {
    let value = Value::Null;
    assert_eq!(AttributeType::from_json_value(&value), AttributeType::String);
}

#[test]
fn json_kinds_of_each_variant() {
    assert_eq!(JsonKind::of_value(&Value::Null), JsonKind::Null);
    assert_eq!(JsonKind::of_value(&Value::Bool(false)), JsonKind::Bool);
    assert_eq!(JsonKind::of_value(&Value::from(1.5)), JsonKind::Number);
    assert_eq!(JsonKind::of_value(&Value::String("x".to_string())), JsonKind::String);
    assert_eq!(JsonKind::of_value(&Value::Array(vec![])), JsonKind::Array);
    assert_eq!(JsonKind::of_value(&Value::Object(serde_json::Map::new())), JsonKind::Object);
    assert_eq!(AttributeType::from_json_value(&Value::Bool(false)), AttributeType::Boolean);
}

#[test]
fn schema_keeps_one_sorted_entry_per_name_and_falls_back_to_string() {
    let mut schema = AttributeSchema::new();
    schema.observe("height", JsonKind::Number);
    schema.observe("function", JsonKind::Null);
    schema.observe("height", JsonKind::Number);
    schema.observe("class", JsonKind::Number);
    schema.observe("class", JsonKind::String);
    schema.observe("class", JsonKind::Number);
    schema.observe("roof", JsonKind::Null);
    schema.observe("roof", JsonKind::Bool);
    let defs = schema.definitions_copy();
    let names: Vec<&str> = defs.iter().map(|d| d.name.as_str()).collect();
    assert_eq!(names, vec!["class", "height", "roof"]);
    assert_eq!(defs[0].attr_type, AttributeType::String);
    assert_eq!(defs[1].attr_type, AttributeType::Number);
    assert_eq!(defs[2].attr_type, AttributeType::Boolean);
    assert!(defs.iter().all(|d| d.description.is_none() && d.required.is_none()));
}
