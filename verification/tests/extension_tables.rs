use astrcode::extension::{
    event_discriminant, event_from_discriminant, event_from_name, event_to_name, execution_mode_discriminant,
    execution_mode_from_discriminant, mode_discriminant, mode_from_discriminant, mode_from_name, ExecutionMode,
    ExtensionEvent, HookMode,
};
use astrcode::permissions::{capability_wire_name, check_emit, decls_to_map, required_capability, ExtensionCapability, ExtensionEventDecl};

const ALL_EVENTS: [ExtensionEvent; 18] = [
    ExtensionEvent::SessionStart,
    ExtensionEvent::SessionShutdown,
    ExtensionEvent::TurnStart,
    ExtensionEvent::TurnEnd,
    ExtensionEvent::PreToolUse,
    ExtensionEvent::PostToolUse,
    ExtensionEvent::BeforeProviderRequest,
    ExtensionEvent::AfterProviderResponse,
    ExtensionEvent::UserPromptSubmit,
    ExtensionEvent::PromptBuild,
    ExtensionEvent::PreCompact,
    ExtensionEvent::PostCompact,
    ExtensionEvent::TurnAborted,
    ExtensionEvent::PostToolUseFailure,
    ExtensionEvent::StepStart,
    ExtensionEvent::StepEnd,
    ExtensionEvent::PostRecap,
    ExtensionEvent::SessionResume,
];

#[test]
fn event_names_and_codes_round_trip() {
    for event in ALL_EVENTS {
        assert_eq!(event_from_name(event_to_name(&event)), Some(event));
        assert_eq!(event_from_discriminant(event_discriminant(event)), Some(event));
    }
    assert_eq!(event_to_name(&ExtensionEvent::PreToolUse), "pre_tool_use");
    assert_eq!(event_from_name("nope"), None);
    assert_eq!(event_from_discriminant(200), None);
}

#[test]
fn mode_tables() {
    for mode in [HookMode::Blocking, HookMode::NonBlocking, HookMode::Advisory] {
        assert_eq!(mode_from_discriminant(mode_discriminant(mode)), Some(mode));
    }
    assert_eq!(mode_from_name("non_blocking"), Some(HookMode::NonBlocking));
    assert_eq!(mode_from_name("sometimes"), None);
    for mode in [ExecutionMode::Sequential, ExecutionMode::Parallel] {
        assert_eq!(execution_mode_from_discriminant(execution_mode_discriminant(mode)), mode);
    }
}

#[test]
fn capabilities_and_emit_checks() {
    assert_eq!(capability_wire_name(ExtensionCapability::EmitEvents), "emit_events");
    assert_eq!(required_capability("small_llm.chat"), Some(ExtensionCapability::SmallModel));
    assert_eq!(required_capability("x"), None);
    let table = decls_to_map(&[ExtensionEventDecl {
        event_type: "demo".into(),
        schema_version: 2,
        durable: false,
        max_payload_bytes: 10,
    }]);
    assert!(check_emit(&table, "demo", 2, 10).is_ok());
    assert!(check_emit(&table, "demo", 3, 1).is_err());
    assert!(check_emit(&table, "demo", 1, 11).is_err());
    assert!(check_emit(&table, "other", 1, 1).unwrap_err().contains("undeclared"));
}
