use astrcode::events::EventPayload;
use astrcode::permissions::validate_emit;
use astrcode::permissions::{
    authorize, authorize_emit, decls_to_map, emit_for_sink, try_emit_to_channel, EventDeclTable, EventSender,
    ExtensionCapability, ExtensionEventDecl,
};

fn sample_decl() -> EventDeclTable {
    decls_to_map(&[ExtensionEventDecl {
        event_type: "demo.event".into(),
        schema_version: 1,
        durable: true,
        max_payload_bytes: 1024,
    }])
}

#[test]
fn authorize_emit_requires_capability() {
    assert!(authorize_emit(&[]).is_err());
    authorize_emit(&[ExtensionCapability::EmitEvents]).unwrap();
}

#[test]
fn authorize_denies_small_llm_without_declaration() {
    let err = authorize("small_llm.chat", &[]).unwrap_err();
    assert!(err.contains("small_model not declared"));
}

#[test]
fn authorize_allows_small_llm_when_declared() {
    authorize("small_llm.chat", &[ExtensionCapability::SmallModel]).unwrap();
}

#[test]
fn authorize_passes_unknown_cap_to_backend() {
    authorize("future.cap", &[ExtensionCapability::SmallModel]).unwrap();
}

#[test]
fn try_emit_rejects_undeclared_type() {
    let (tx, mut rx) = tokio::sync::mpsc::unbounded_channel();
    let mut sender = EventSender::new(tx);
    let mut obj = serde_json::Map::new();
    obj.clear();
    let err = try_emit_to_channel("ext-1", &sample_decl(), &mut sender, "other", 1, serde_json::Value::Object(obj)).unwrap_err();
    assert!(err.contains("undeclared"));
    assert!(rx.try_recv().is_err());
}

#[test]
fn try_emit_accepts_declared_event() {
    let (tx, mut rx) = tokio::sync::mpsc::unbounded_channel();
    let mut sender = EventSender::new(tx);
    let mut obj = serde_json::Map::new();
    obj.insert("k".to_string(), serde_json::Value::from(1));
    try_emit_to_channel("ext-1", &sample_decl(), &mut sender, "demo.event", 1, serde_json::Value::Object(obj)).unwrap();
    let payload = rx.try_recv().unwrap();
    assert!(matches!(
        payload,
        EventPayload::ExtensionEvent {
            extension_id,
            event_type,
            ..
        } if extension_id == "ext-1" && event_type == "demo.event"
    ));
}

#[test]
fn oversized_payload_is_refused_after_serializing() {
    let small = serde_json::Value::String("x".repeat(10));
    assert!(validate_emit(&sample_decl(), "demo.event", 1, &small).is_ok());
    let big = serde_json::Value::String("x".repeat(2000));
    assert_eq!(
        validate_emit(&sample_decl(), "demo.event", 1, &big).unwrap_err(),
        "payload exceeds 1024 bytes for demo.event"
    );
    assert_eq!(
        validate_emit(&sample_decl(), "demo.event", 2, &small).unwrap_err(),
        "schema_version 2 exceeds declared 1 for demo.event"
    );
}

#[test]
fn emit_to_closed_channel_reports_it() {
    let (tx, rx) = tokio::sync::mpsc::unbounded_channel();
    drop(rx);
    let mut sender = EventSender::new(tx);
    let err = try_emit_to_channel("ext-1", &sample_decl(), &mut sender, "demo.event", 1, serde_json::Value::Null).unwrap_err();
    assert_eq!(err, "event channel closed");
}

#[test]
fn emit_for_sink_wraps_refusals() {
    let (tx, mut rx) = tokio::sync::mpsc::unbounded_channel();
    let mut sender = EventSender::new(tx);
    assert!(emit_for_sink("ext-1", &sample_decl(), &mut sender, "other", 1, serde_json::Value::Null).is_err());
    assert!(rx.try_recv().is_err());
    assert!(emit_for_sink("ext-1", &sample_decl(), &mut sender, "demo.event", 1, serde_json::Value::Null).is_ok());
    match rx.try_recv().unwrap() {
        EventPayload::ExtensionEvent { schema_version, payload, .. } => {
            assert_eq!(schema_version, 1);
            assert_eq!(payload, serde_json::Value::Null);
        },
        _ => panic!("expected an extension event"),
    }
}
