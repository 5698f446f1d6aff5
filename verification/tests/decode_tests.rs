//! Schema parsing, schema-driven decoding, its round trip, and request
//! building.
use confidence::confidence_value::{ConfidenceValue, StructValue};
use confidence::conversion_trait::{struct_to_wire_fields, ToSerdeValueConverter};
use confidence::flag_schema_deserializer::parse_flag_schema;
use confidence::models::{APIConfig, Region, SchemaType, APIURL};
use confidence::resolve::ConfidenceResolver;
use confidence::wire::{WireNumber, WireValue};
use confidence::{get_sdk_version, split_flag_key, SDK_ID};

fn wire_int(i: i64) -> WireValue {
    WireValue::Number(WireNumber { as_int: Some(i), as_double_bits: Some((i as f64).to_bits()) })
}

fn wire_double(d: f64) -> WireValue {
    WireValue::Number(WireNumber { as_int: None, as_double_bits: Some(d.to_bits()) })
}

fn wire_str(s: &str) -> WireValue {
    WireValue::String(s.to_string())
}

fn marker(name: &str) -> WireValue {
    WireValue::Object(vec![(name.to_string(), WireValue::Object(Vec::new()))])
}

fn schema_payload(fields: Vec<(String, WireValue)>) -> WireValue {
    WireValue::Object(vec![("schema".to_string(), WireValue::Object(fields))])
}

#[test]
fn parse_schema_markers() {
    let payload = schema_payload(vec![
        ("b".to_string(), marker("boolSchema")),
        ("i".to_string(), marker("intSchema")),
        ("s".to_string(), marker("stringSchema")),
        ("d".to_string(), marker("doubleSchema")),
        ("unrecognized".to_string(), WireValue::Object(vec![(
            "somethingElse".to_string(),
            WireValue::Null,
        )])),
        ("scalar".to_string(), WireValue::Bool(true)),
    ]);
    let schema = parse_flag_schema(&payload);
    assert_eq!(schema.schema.len(), 4);
    assert!(matches!(schema.schema[0], (ref k, SchemaType::BoolType) if k == "b"));
    assert!(matches!(schema.schema[1], (ref k, SchemaType::IntType) if k == "i"));
    assert!(matches!(schema.schema[2], (ref k, SchemaType::StringType) if k == "s"));
    assert!(matches!(schema.schema[3], (ref k, SchemaType::DoubleType) if k == "d"));
}

#[test]
fn parse_schema_nested() {
    let payload = schema_payload(vec![(
        "outer".to_string(),
        WireValue::Object(vec![(
            "structSchema".to_string(),
            schema_payload(vec![("inner".to_string(), marker("intSchema"))]),
        )]),
    )]);
    let schema = parse_flag_schema(&payload);
    assert_eq!(schema.schema.len(), 1);
    match &schema.schema[0] {
        (key, SchemaType::StructType(sub)) => {
            assert_eq!(key, "outer");
            assert_eq!(sub.schema.len(), 1);
            assert!(matches!(sub.schema[0], (ref k, SchemaType::IntType) if k == "inner"));
        }
        other => panic!("expected a nested schema, found {:?}", other),
    }
}

#[test]
fn parse_schema_of_other_shapes_is_empty() {
    assert_eq!(parse_flag_schema(&WireValue::Null).schema.len(), 0);
    assert_eq!(parse_flag_schema(&WireValue::Object(Vec::new())).schema.len(), 0);
    assert_eq!(
        parse_flag_schema(&WireValue::Object(vec![("schema".to_string(), WireValue::Bool(true))]))
            .schema
            .len(),
        0
    );
}

#[test]
fn decode_preserves_declared_and_drops_undeclared() {
    let payload = schema_payload(vec![
        ("a".to_string(), marker("intSchema")),
        ("b".to_string(), marker("stringSchema")),
    ]);
    let schema = parse_flag_schema(&payload);
    let wire = WireValue::Object(vec![
        ("a".to_string(), wire_int(1)),
        ("b".to_string(), wire_str("x")),
        ("extra".to_string(), WireValue::Bool(true)),
    ]);

    let decoded = confidence::models::decode_value(Some(&wire), Some(&schema));
    assert_eq!(decoded.fields.len(), 2);
    assert_eq!(decoded.get("a").unwrap().as_i64(), Some(1));
    assert_eq!(decoded.get("b").unwrap().as_str(), Some("x"));
    assert!(decoded.get("extra").is_none());
}

#[test]
fn decode_defaults_on_absence_and_mismatch() {
    let payload = schema_payload(vec![
        ("missing_bool".to_string(), marker("boolSchema")),
        ("missing_int".to_string(), marker("intSchema")),
        ("missing_double".to_string(), marker("doubleSchema")),
        ("missing_string".to_string(), marker("stringSchema")),
        ("mismatched_int".to_string(), marker("intSchema")),
    ]);
    let schema = parse_flag_schema(&payload);
    let wire = WireValue::Object(vec![("mismatched_int".to_string(), wire_str("nan"))]);

    let decoded = confidence::models::decode_value(Some(&wire), Some(&schema));
    assert_eq!(decoded.get("missing_bool").unwrap().as_bool(), Some(false));
    assert_eq!(decoded.get("missing_int").unwrap().as_i64(), Some(0));
    assert_eq!(f64::from_bits(decoded.get("missing_double").unwrap().as_f64().unwrap()), 0.0);
    assert_eq!(decoded.get("missing_string").unwrap().as_str(), Some(""));
    assert_eq!(decoded.get("mismatched_int").unwrap().as_i64(), Some(0));
}

#[test]
fn decode_without_schema_or_object_is_empty() {
    let payload = schema_payload(vec![("a".to_string(), marker("intSchema"))]);
    let schema = parse_flag_schema(&payload);
    assert_eq!(confidence::models::decode_value(None, Some(&schema)).fields.len(), 0);
    assert_eq!(
        confidence::models::decode_value(Some(&WireValue::Bool(true)), Some(&schema)).fields.len(),
        0
    );
    let wire = WireValue::Object(vec![("a".to_string(), wire_int(1))]);
    assert_eq!(confidence::models::decode_value(Some(&wire), None).fields.len(), 0);
}

#[test]
fn decode_round_trip_concrete() {
    let payload = schema_payload(vec![
        ("a".to_string(), marker("intSchema")),
        ("b".to_string(), marker("stringSchema")),
        ("d".to_string(), marker("doubleSchema")),
        (
            "nested".to_string(),
            WireValue::Object(vec![(
                "structSchema".to_string(),
                schema_payload(vec![("flag".to_string(), marker("boolSchema"))]),
            )]),
        ),
    ]);
    let schema = parse_flag_schema(&payload);
    let wire = WireValue::Object(vec![
        ("a".to_string(), wire_int(7)),
        ("b".to_string(), wire_str("hello")),
        ("d".to_string(), wire_double(1.25)),
        (
            "nested".to_string(),
            WireValue::Object(vec![("flag".to_string(), WireValue::Bool(true))]),
        ),
        ("dropped".to_string(), WireValue::Null),
    ]);

    let decoded = confidence::models::decode_value(Some(&wire), Some(&schema));
    let rendered = ConfidenceValue::Struct(decoded).convert();
    let again = confidence::models::decode_value(Some(&rendered), Some(&schema));

    assert_eq!(again.get("a").unwrap().as_i64(), Some(7));
    assert_eq!(again.get("b").unwrap().as_str(), Some("hello"));
    assert_eq!(f64::from_bits(again.get("d").unwrap().as_f64().unwrap()), 1.25);
    let nested = again.get("nested").unwrap().as_struct().unwrap();
    assert_eq!(nested.get("flag").unwrap().as_bool(), Some(true));
    assert!(again.get("dropped").is_none());
    assert_eq!(again.fields.len(), 4);
}

#[test]
fn context_renders_to_wire() {
    let context = StructValue::new()
        .with_field("targeting_key", ConfidenceValue::String("x".to_string()))
        .with_field("count", ConfidenceValue::Int(3));
    let rendered = struct_to_wire_fields(&context);
    assert_eq!(rendered.len(), 2);
    assert!(matches!(&rendered[0], (k, WireValue::String(s)) if k == "targeting_key" && s == "x"));
    assert!(
        matches!(&rendered[1], (k, WireValue::Number(n)) if k == "count" && n.as_int == Some(3))
    );
}

#[test]
fn make_request_normalizes_flags() {
    let resolver = ConfidenceResolver::default();
    let config = APIConfig { api_key: "secret".to_string(), region: Region::US };
    let context = StructValue::new().with_field(
        "targeting_key",
        ConfidenceValue::String("x".to_string()),
    );
    let flags = vec!["flag.property".to_string(), "plain".to_string()];

    let request = resolver.make_request(&config, &flags, &context);
    assert_eq!(request.client_secret, "secret");
    assert!(request.apply);
    assert_eq!(request.sdk.id, SDK_ID);
    assert_eq!(request.sdk.version, get_sdk_version());
    assert_eq!(request.flags, vec!["flags/flag".to_string(), "flags/plain".to_string()]);
    assert_eq!(request.evaluation_context.len(), 1);
}

#[test]
fn region_urls() {
    assert_eq!(Region::EU.url(), "https://resolver.eu.confidence.dev");
    assert_eq!(Region::US.url(), "https://resolver.us.confidence.dev");
    assert_eq!(Region::Global.url(), "https://resolver.confidence.dev");
}

#[test]
fn split_key_segments() {
    assert_eq!(split_flag_key("flag.property"), vec!["flag".to_string(), "property".to_string()]);
    assert_eq!(split_flag_key("flag"), vec!["flag".to_string()]);
    assert_eq!(split_flag_key(""), vec!["".to_string()]);
    assert_eq!(
        split_flag_key("a.b.c"),
        vec!["a".to_string(), "b".to_string(), "c".to_string()]
    );
}

#[test]
fn parse_schema_first_marker_wins() {
    // A field carrying several markers takes the first recognized one,
    // checked in the order bool, int, string, double, struct.
    let payload = schema_payload(vec![(
        "both".to_string(),
        WireValue::Object(vec![
            ("intSchema".to_string(), WireValue::Object(Vec::new())),
            ("boolSchema".to_string(), WireValue::Object(Vec::new())),
        ]),
    )]);
    let schema = parse_flag_schema(&payload);
    assert_eq!(schema.schema.len(), 1);
    assert!(matches!(schema.schema[0], (ref k, SchemaType::BoolType) if k == "both"));
}

#[test]
fn array_context_renders_to_wire() {
    let context = StructValue::new().with_field(
        "tags",
        ConfidenceValue::Array(vec![
            ConfidenceValue::String("a".to_string()),
            ConfidenceValue::Int(2),
        ]),
    );
    let rendered = struct_to_wire_fields(&context);
    assert_eq!(rendered.len(), 1);
    match &rendered[0].1 {
        WireValue::Array(items) => {
            assert_eq!(items.len(), 2);
            assert!(matches!(&items[0], WireValue::String(s) if s == "a"));
            assert!(matches!(&items[1], WireValue::Number(n) if n.as_int == Some(2)));
        }
        other => panic!("expected an array, found {:?}", other),
    }
}
