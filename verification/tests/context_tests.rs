//! Context scoping and event preparation.
use confidence::confidence_value::{ConfidenceValue, StructValue};
use confidence::contextual_confidence::Contextual;
use confidence::event_sender::EventRequest;
use confidence::models::{APIConfig, Region, ResolveError, ResolvedFlags};
use confidence::resolve::NetworkFlagResolver;
use confidence::wire::WireValue;
use confidence::Confidence;

#[derive(Clone, Copy)]
struct EmptyResolver;

impl NetworkFlagResolver for EmptyResolver {
    fn resolve(
        &self,
        _config: &APIConfig,
        _flags: Vec<String>,
        _evaluation_context: &StructValue,
    ) -> Result<ResolvedFlags, ResolveError> {
        Ok(ResolvedFlags { resolve_token: String::new(), flags: Vec::new() })
    }
}

fn client() -> Confidence<EmptyResolver> {
    Confidence::new(
        APIConfig { api_key: "".to_string(), region: Region::EU },
        EmptyResolver,
    )
}

#[test]
fn test_put_context() {
    let mut confidence = client();
    confidence.put_context("key", ConfidenceValue::Int(1));
    let context = confidence.get_context();
    assert_eq!(context.get("key"), Some(&ConfidenceValue::Int(1)));
}

#[test]
fn test_with_context() {
    let confidence = Confidence::new(
        APIConfig { api_key: "X".to_string(), region: Region::EU },
        EmptyResolver,
    );

    let context = StructValue::new().with_field("key", ConfidenceValue::Int(1));
    let new_confidence = confidence.with_context(context);
    assert_eq!(new_confidence.get_context().get("key"), Some(&ConfidenceValue::Int(1)));
}

#[test]
fn context_isolation() {
    // A derived scope gains the patch entries; the base keeps its own key
    // set untouched.
    let mut base = client();
    base.put_context("targeting_key", ConfidenceValue::String("x".to_string()));

    let patch = StructValue::new().with_field("k", ConfidenceValue::String("v".to_string()));
    let scope = base.with_context(patch);

    let scope_context = scope.get_context();
    assert_eq!(scope_context.get("targeting_key").unwrap().as_str(), Some("x"));
    assert_eq!(scope_context.get("k").unwrap().as_str(), Some("v"));

    let base_context = base.get_context();
    assert_eq!(base_context.get("targeting_key").unwrap().as_str(), Some("x"));
    assert!(base_context.get("k").is_none());
}

#[test]
fn with_context_patch_wins() {
    let base = client();
    let patch = StructValue::new().with_field(
        "targeting_key",
        ConfidenceValue::String("visitor".to_string()),
    );
    let scope = base.with_context(patch);
    assert_eq!(scope.get_context().get("targeting_key").unwrap().as_str(), Some("visitor"));
    // The base still carries the seeded value.
    assert_eq!(base.get_context().get("targeting_key").unwrap().as_str(), Some("Sample"));
}

#[test]
fn track_event_request() {
    let mut confidence = Confidence::new(
        APIConfig { api_key: "secret".to_string(), region: Region::Global },
        EmptyResolver,
    );
    confidence.put_context("visitor_id", ConfidenceValue::String("dennis".to_string()));

    let message = StructValue::new()
        .with_field("button", ConfidenceValue::String("buy".to_string()))
        .with_field("visitor_id", ConfidenceValue::String("override".to_string()));

    let request: EventRequest =
        confidence.prepare_track_event("navigate", &message, "2024-01-01T00:00:00Z");

    assert_eq!(request.client_secret, "secret");
    assert_eq!(request.send_time, "2024-01-01T00:00:00Z");
    assert_eq!(request.events.len(), 1);
    let event = &request.events[0];
    assert_eq!(event.event_definition, "eventDefinitions/navigate");
    assert_eq!(event.event_time, "2024-01-01T00:00:00Z");

    let mut button = None;
    let mut visitor = None;
    for (key, value) in &event.payload {
        if key == "button" {
            button = Some(value);
        }
        if key == "visitor_id" {
            visitor = Some(value);
        }
    }
    assert!(matches!(button, Some(WireValue::String(s)) if s == "buy"));
    // The payload wins over the context on a key collision.
    assert!(matches!(visitor, Some(WireValue::String(s)) if s == "override"));
}
