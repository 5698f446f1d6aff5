//! The value model: building nested values, accessors, and lenient
//! coercion.
use confidence::confidence_value::{ConfidenceValue, StructValue};
use confidence::details::{FlagMetadata, FlagMetadataValue};

#[test]
fn build_value() {
    let alex = StructValue::default()
        .with_field("is_male", ConfidenceValue::Bool(false))
        .with_field("id", ConfidenceValue::Int(100))
        .with_field("grade", ConfidenceValue::Float((97.5f64).to_bits()))
        .with_field("name", ConfidenceValue::String("Alex".to_string()))
        .with_field(
            "friends",
            ConfidenceValue::Array(vec![
                ConfidenceValue::String("Bob".to_string()),
                ConfidenceValue::String("Carl".to_string()),
            ]),
        )
        .with_field(
            "other",
            ConfidenceValue::Struct(
                StructValue::default()
                    .with_field("description", ConfidenceValue::String("A student".to_string())),
            ),
        );

    let is_male = alex.get("is_male").unwrap();
    assert!(is_male.is_bool());
    assert_eq!(false, is_male.as_bool().unwrap());

    let id = alex.get("id").unwrap();
    assert!(id.is_i64());
    assert_eq!(100, id.as_i64().unwrap());

    let grade = alex.get("grade").unwrap();
    assert!(grade.is_f64());
    assert_eq!(97.5, f64::from_bits(grade.as_f64().unwrap()));

    let name = alex.get("name").unwrap();
    assert!(name.is_str());
    assert_eq!("Alex", alex.get("name").unwrap().as_str().unwrap());

    let friends = alex.get("friends").unwrap();
    assert!(friends.is_array());
    assert_eq!(
        vec![
            ConfidenceValue::String("Bob".to_string()),
            ConfidenceValue::String("Carl".to_string())
        ],
        *friends.as_array().unwrap()
    );

    let other = alex.get("other").unwrap();
    assert!(other.is_struct());
    assert_eq!(
        "A student",
        other.as_struct().unwrap().get("description").unwrap().as_str().unwrap()
    );
}

#[test]
fn add_field_overwrites() {
    let mut s = StructValue::new();
    s.add_field("k", ConfidenceValue::Int(1));
    s.add_field("k", ConfidenceValue::Int(2));
    assert_eq!(s.get("k").unwrap().as_i64().unwrap(), 2);
    assert_eq!(s.fields.len(), 1);
    assert!(s.get("missing").is_none());
}

#[test]
fn as_type_is_lenient() {
    // An Int default against a String-valued field comes back unchanged.
    let value = ConfidenceValue::String("hello".to_string());
    assert_eq!(value.as_type(&42i64), Some(42));

    // A matching variant yields the value itself.
    let value = ConfidenceValue::Int(7);
    assert_eq!(value.as_type(&42i64), Some(7));

    let value = ConfidenceValue::Bool(true);
    assert_eq!(value.as_type(&false), Some(true));

    let value = ConfidenceValue::Int(7);
    assert_eq!(value.as_type(&"fallback".to_string()), Some("fallback".to_string()));
}

#[test]
fn metadata_values() {
    let meta = FlagMetadata::new()
        .with_value("active", FlagMetadataValue::Bool(true))
        .with_value("hits", FlagMetadataValue::Int(3));
    assert_eq!(meta.values.len(), 2);
    assert!(matches!(meta.values[0].1, FlagMetadataValue::Bool(true)));
    assert!(matches!(meta.values[1].1, FlagMetadataValue::Int(3)));
}
