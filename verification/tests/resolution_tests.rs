//! Flag resolution end to end: a deterministic resolver stands in for the
//! network, responses are decoded through the schema, dotted keys are
//! walked, and values are coerced strictly at the top level.
use confidence::confidence_value::{ConfidenceValue, StructValue};
use confidence::details::EvaluationReason;
use confidence::evaluation_error::EvaluationErrorCode;
use confidence::flag_schema_deserializer::parse_flag_schema;
use confidence::models::{
    APIConfig, NetworkResolvedFlag, NetworkResolvedFlags, Region, ResolveError, ResolvedFlag,
    ResolvedFlags,
};
use confidence::resolve::NetworkFlagResolver;
use confidence::wire::{WireNumber, WireValue};
use confidence::Confidence;

#[derive(Clone, Copy)]
struct FnResolver(fn() -> Result<ResolvedFlags, ResolveError>);

impl NetworkFlagResolver for FnResolver {
    fn resolve(
        &self,
        _config: &APIConfig,
        _flags: Vec<String>,
        _evaluation_context: &StructValue,
    ) -> Result<ResolvedFlags, ResolveError> {
        (self.0)()
    }
}

fn client(respond: fn() -> Result<ResolvedFlags, ResolveError>) -> Confidence<FnResolver> {
    Confidence::new(
        APIConfig { api_key: "test_key".to_string(), region: Region::Global },
        FnResolver(respond),
    )
}

/// Render parsed JSON as the library's wire shape.
fn wire_of(v: &serde_json::Value) -> WireValue {
    match v {
        serde_json::Value::Null => WireValue::Null,
        serde_json::Value::Bool(b) => WireValue::Bool(*b),
        serde_json::Value::Number(n) => WireValue::Number(WireNumber {
            as_int: n.as_i64(),
            as_double_bits: n.as_f64().map(f64::to_bits),
        }),
        serde_json::Value::String(s) => WireValue::String(s.clone()),
        serde_json::Value::Array(items) => WireValue::Array(items.iter().map(wire_of).collect()),
        serde_json::Value::Object(fields) => WireValue::Object(
            fields.iter().map(|(k, v)| (k.clone(), wire_of(v))).collect(),
        ),
    }
}

fn resolve_response() -> Result<ResolvedFlags, ResolveError> {
    let json_data = r#"
    {
      "resolvedFlags": [
        {
          "flag": "flags/test-flag",
          "variant": "flags/test-flag/variants/treatment",
          "value": {
            "struct-key": {
              "boolean-key": true,
              "string-key": "treatment-struct",
              "double-key": 123.23,
              "integer-key": 23,
              "nested-struct-key": {
                "nested-boolean-key": true
              }
            },
            "boolean-key": true,
            "string-key": "treatment",
            "double-key": 20.203,
            "integer-key": 40
          },
          "flagSchema": {
            "schema": {
              "struct-key": {
                "structSchema": {
                  "schema": {
                    "boolean-key": { "boolSchema": {} },
                    "string-key": { "stringSchema": {} },
                    "double-key": { "doubleSchema": {} },
                    "integer-key": { "intSchema": {} },
                    "nested-struct-key": {
                      "structSchema": {
                        "schema": {
                          "nested-boolean-key": { "boolSchema": {} }
                        }
                      }
                    }
                  }
                }
              },
              "boolean-key": { "boolSchema": {} },
              "string-key": { "stringSchema": {} },
              "double-key": { "doubleSchema": {} },
              "integer-key": { "intSchema": {} }
            }
          },
          "reason": "RESOLVE_REASON_MATCH"
        }
      ],
      "resolveToken": ""
    }
    "#;
    let root: serde_json::Value = serde_json::from_str(json_data).unwrap();
    let rf = &root["resolvedFlags"][0];
    let network = NetworkResolvedFlag {
        flag: rf["flag"].as_str().unwrap().to_string(),
        variant: rf["variant"].as_str().unwrap().to_string(),
        value: Some(wire_of(&rf["value"])),
        reason: rf["reason"].as_str().unwrap().to_string(),
        flag_schema: Some(parse_flag_schema(&wire_of(&rf["flagSchema"]))),
    };
    Ok(
        NetworkResolvedFlags { resolve_flags: vec![network], resolve_token: String::new() }
            .into_resolved(),
    )
}

#[test]
fn lib_test_resovle_boolean_value() {
    let confidence = client(resolve_response);
    let value = confidence.get_flag("test-flag.boolean-key", false).unwrap();
    assert_eq!(value.value, true);
}

#[test]
fn lib_test_resovle_nested_boolean_value() {
    let confidence = client(resolve_response);
    let value = confidence.get_flag("test-flag.struct-key.boolean-key", false).unwrap();
    assert_eq!(value.value, true);
}

#[test]
fn lib_test_resolve_whole_object() {
    let confidence = client(resolve_response);
    let value = confidence.get_flag("test-flag", StructValue::default()).unwrap();
    assert_eq!(value.value.fields.len(), 5);
}

#[test]
fn lib_test_resolve_whole_object_ints() {
    let confidence = client(resolve_response);
    let value = confidence.get_flag("test-flag", StructValue::default()).unwrap();

    assert_eq!(value.value.get("integer-key").unwrap().as_i64(), Some(40));
    let struct_value = value.value.get("struct-key").unwrap().as_struct().unwrap();
    assert_eq!(struct_value.get("integer-key").unwrap().as_i64(), Some(23));
}

#[test]
fn lib_test_resovle_double_nested_boolean_value() {
    let confidence = client(resolve_response);
    let value = confidence
        .get_flag("test-flag.struct-key.nested-struct-key.nested-boolean-key", false)
        .unwrap();
    assert_eq!(value.value, true);
}

#[test]
fn path_resolution_reasons() {
    // A flag "f" whose value is {"a": {"b": true}}: a dotted key to the
    // leaf matches, the struct prefix yields the whole object, a missing
    // field is not found.
    fn respond() -> Result<ResolvedFlags, ResolveError> {
        let value = StructValue::new().with_field(
            "a",
            ConfidenceValue::Struct(StructValue::new().with_field("b", ConfidenceValue::Bool(true))),
        );
        Ok(ResolvedFlags {
            resolve_token: String::new(),
            flags: vec![ResolvedFlag {
                flag: "flags/f".to_string(),
                variant: None,
                value,
                reason: None,
            }],
        })
    }
    let confidence = client(respond);
    let context = StructValue::new();

    let leaf = confidence.resolve_value("f.a.b", &context).unwrap();
    assert_eq!(leaf.value.as_bool(), Some(true));
    assert_eq!(leaf.reason, Some(EvaluationReason::TargetingMatch));

    let whole = confidence.resolve_value("f.a", &context).unwrap();
    let inner = whole.value.as_struct().unwrap();
    assert_eq!(inner.get("b").unwrap().as_bool(), Some(true));
    assert_eq!(whole.reason, Some(EvaluationReason::Default));

    let missing = confidence.resolve_value("f.missing", &context).unwrap_err();
    assert_eq!(missing.code, EvaluationErrorCode::FlagNotFound);
}

#[test]
fn empty_response_is_flag_not_found() {
    fn respond() -> Result<ResolvedFlags, ResolveError> {
        Ok(ResolvedFlags { resolve_token: String::new(), flags: Vec::new() })
    }
    let confidence = client(respond);
    let error = confidence.get_flag("some-flag", false).unwrap_err();
    assert_eq!(error.code, EvaluationErrorCode::FlagNotFound);
    assert!(error.message.unwrap().contains("could not fetch the flag"));
}

#[test]
fn mismatched_flag_name_is_flag_not_found() {
    fn respond() -> Result<ResolvedFlags, ResolveError> {
        Ok(ResolvedFlags {
            resolve_token: String::new(),
            flags: vec![ResolvedFlag {
                flag: "flags/other".to_string(),
                variant: None,
                value: StructValue::new(),
                reason: None,
            }],
        })
    }
    let confidence = client(respond);
    let error = confidence.get_flag("some-flag", false).unwrap_err();
    assert_eq!(error.code, EvaluationErrorCode::FlagNotFound);
}

#[test]
fn test_resolve_value_network_error() {
    fn respond() -> Result<ResolvedFlags, ResolveError> {
        Err(ResolveError::NetworkError)
    }
    let confidence = client(respond);
    let result = confidence.resolve_value("test.flag", &StructValue::new());

    assert!(result.is_err());
    let error = result.unwrap_err();
    assert_eq!(error.code, EvaluationErrorCode::FlagNotFound);
    assert!(error.message.is_some());
}

#[test]
fn test_resolve_value_serialization_error() {
    fn respond() -> Result<ResolvedFlags, ResolveError> {
        Err(ResolveError::SerializationError)
    }
    let confidence = client(respond);
    let result = confidence.resolve_value("test.flag", &StructValue::new());

    assert!(result.is_err());
    let error = result.unwrap_err();
    assert_eq!(error.code, EvaluationErrorCode::FlagNotFound);
}

#[test]
fn test_resolve_value_invalid_flag_key() {
    fn respond() -> Result<ResolvedFlags, ResolveError> {
        Ok(ResolvedFlags { resolve_token: String::new(), flags: Vec::new() })
    }
    let confidence = client(respond);
    let result = confidence.resolve_value("", &StructValue::new());

    assert!(result.is_err());
    let error = result.unwrap_err();
    assert_eq!(error.code, EvaluationErrorCode::FlagNotFound);
    assert!(error.message.unwrap().contains("Invalid flag key format"));
}

#[test]
fn test_get_flag_type_mismatch() {
    // The resolved leaf is a string; requesting an int must fail
    // strictly, even though the lenient inner layer would default.
    fn respond() -> Result<ResolvedFlags, ResolveError> {
        Ok(ResolvedFlags {
            resolve_token: String::new(),
            flags: vec![ResolvedFlag {
                flag: "flags/test".to_string(),
                variant: Some("variant1".to_string()),
                value: StructValue::new().with_field(
                    "flag",
                    ConfidenceValue::String("hello".to_string()),
                ),
                reason: Some(EvaluationReason::TargetingMatch),
            }],
        })
    }
    let confidence = client(respond);
    let result = confidence.get_flag("test.flag", 42i64);

    assert!(result.is_err());
    let error = result.unwrap_err();
    assert_eq!(error.code, EvaluationErrorCode::TypeMismatch);
    assert!(error.message.unwrap().contains("schema type is different for test.flag"));
}

#[test]
fn test_get_flag_propagates_resolve_error() {
    fn respond() -> Result<ResolvedFlags, ResolveError> {
        Err(ResolveError::NetworkError)
    }
    let confidence = client(respond);
    let result = confidence.get_flag("test.flag", "default".to_string());

    assert!(result.is_err());
    let error = result.unwrap_err();
    assert_eq!(error.code, EvaluationErrorCode::FlagNotFound);
}

#[test]
fn test_get_flag_success_with_fallback_values() {
    // A missing variant falls back to "unknown"; the reason comes from
    // the walk, which marks a scalar leaf as a targeting match.
    fn respond() -> Result<ResolvedFlags, ResolveError> {
        Ok(ResolvedFlags {
            resolve_token: String::new(),
            flags: vec![ResolvedFlag {
                flag: "flags/test".to_string(),
                variant: None,
                value: StructValue::new().with_field(
                    "flag",
                    ConfidenceValue::String("hello".to_string()),
                ),
                reason: None,
            }],
        })
    }
    let confidence = client(respond);
    let result = confidence.get_flag("test.flag", "default".to_string());

    assert!(result.is_ok());
    let details = result.unwrap();
    assert_eq!(details.value, "hello");
    assert_eq!(details.reason, Some(EvaluationReason::TargetingMatch));
    assert_eq!(details.variant, Some("unknown".to_string()));
}
