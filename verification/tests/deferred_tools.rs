use astrcode::deferred_tools::{
    activate_deferred_tools, append_deferred_tools_reminder, clone_tools_by_index, discovered_deferred_tool_names,
    provider_visible_tool_indexes, tool_is_visible, DeferredToolSet, ToolPromptMetadata, ToolSnapshot, TurnState,
};
use astrcode::extension::ExecutionMode;
use astrcode::json_value::JsonValue;
use astrcode::llm::{LlmContent, LlmMessage, LlmRole};
use astrcode::prompt::{ToolDefinition, ToolOrigin};
use astrcode::tool_result::ToolResult;

fn def(name: &str) -> ToolDefinition {
    ToolDefinition {
        name: name.into(),
        description: format!("{name} tool"),
        parameters: serde_json::Value::Null,
        origin: ToolOrigin::Builtin,
        execution_mode: ExecutionMode::Sequential,
    }
}

fn plain(name: &str) -> ToolSnapshot {
    ToolSnapshot { definition: def(name), prompt_metadata: None }
}

fn deferred(name: &str) -> ToolSnapshot {
    ToolSnapshot {
        definition: def(name),
        prompt_metadata: Some(ToolPromptMetadata {
            deferred_discovery_group: Some("mcp".into()),
            deferred_discovery_gate: None,
        }),
    }
}

fn gate(name: &str) -> ToolSnapshot {
    ToolSnapshot {
        definition: def(name),
        prompt_metadata: Some(ToolPromptMetadata {
            deferred_discovery_group: None,
            deferred_discovery_gate: Some("mcp".into()),
        }),
    }
}

fn tools() -> Vec<ToolSnapshot> {
    vec![plain("read"), deferred("mcp__a__x"), gate("tool_search_tool"), deferred("mcp__a__y")]
}

fn text_of(message: &LlmMessage) -> String {
    match &message.content[0] {
        LlmContent::Text { text } => text.clone(),
        _ => panic!("not text"),
    }
}

#[test]
fn deferred_tools_are_hidden_until_activated() {
    let tools = tools();
    let mut active = DeferredToolSet::new();
    assert_eq!(provider_visible_tool_indexes(&tools, &active), vec![0, 2]);
    assert!(activate_deferred_tools(&mut active, &tools, vec!["mcp__a__y".into(), "read".into(), "nope".into()]));
    assert!(active.contains("mcp__a__y"));
    assert!(!active.contains("read"));
    assert_eq!(provider_visible_tool_indexes(&tools, &active), vec![0, 2, 3]);
    assert!(!activate_deferred_tools(&mut active, &tools, vec!["mcp__a__y".into()]));
}

#[test]
fn cloning_by_index_skips_out_of_range() {
    let tools = tools();
    let picked = clone_tools_by_index(&tools, &[3, 9, 0]);
    let names: Vec<&str> = picked.iter().map(|t| t.definition.name.as_str()).collect();
    assert_eq!(names, vec!["mcp__a__y", "read"]);
}

#[test]
fn reminder_lists_hidden_tools_when_a_gate_exists() {
    let tools = tools();
    let mut active = DeferredToolSet::new();
    let mut messages = Vec::new();
    append_deferred_tools_reminder(&mut messages, &tools, &active);
    assert_eq!(messages.len(), 1);
    assert_eq!(messages[0].role, LlmRole::System);
    assert_eq!(
        text_of(&messages[0]),
        "<available-deferred-tools>\nDeferred tools are listed by name only. Use the matching discovery tool to fetch full schemas before calling one of these tools.\nmcp__a__x\nmcp__a__y\n</available-deferred-tools>"
    );
    active.insert("mcp__a__x".into());
    active.insert("mcp__a__y".into());
    let mut none = Vec::new();
    append_deferred_tools_reminder(&mut none, &tools, &active);
    assert!(none.is_empty());
    let no_gate = vec![deferred("mcp__a__x")];
    append_deferred_tools_reminder(&mut none, &no_gate, &DeferredToolSet::new());
    assert!(none.is_empty());
}

#[test]
fn discovered_names_come_from_matches() {
    let matches = JsonValue::Array(vec![
        JsonValue::String("mcp__a__x".into()),
        JsonValue::Number("3".into()),
        JsonValue::String("mcp__a__y".into()),
    ]);
    let result = ToolResult {
        call_id: "c".into(),
        content: String::new(),
        is_error: false,
        error: None,
        metadata: vec![(
            "deferredTools".into(),
            JsonValue::Object(vec![("matches".into(), matches)]),
        )],
        duration_ms: None,
    };
    assert_eq!(discovered_deferred_tool_names(&result), vec!["mcp__a__x".to_string(), "mcp__a__y".to_string()]);
    let empty = ToolResult { metadata: Vec::new(), ..result };
    assert!(discovered_deferred_tool_names(&empty).is_empty());
}

#[test]
fn visibility_by_name() {
    let defs = vec![def("read"), def("grep")];
    assert!(tool_is_visible(&defs, "grep"));
    assert!(!tool_is_visible(&defs, "glob"));
}

#[test]
fn turn_state_offers_visible_tools_and_updates_on_activation() {
    let history = vec![LlmMessage::system("old system".into()), LlmMessage::user("earlier")];
    let all: Vec<(ToolDefinition, Option<ToolPromptMetadata>)> =
        tools().into_iter().map(|t| (t.definition, t.prompt_metadata)).collect();
    let mut state = TurnState::new(history, "system prompt", "hello", all);
    assert_eq!(state.messages.len(), 3);
    assert_eq!(text_of(&state.messages[0]), "system prompt");
    assert_eq!(text_of(&state.messages[1]), "earlier");
    assert_eq!(text_of(&state.messages[2]), "hello");
    let names: Vec<String> = state.visible_tools().into_iter().map(|d| d.name).collect();
    assert_eq!(names, vec!["read".to_string(), "tool_search_tool".to_string()]);
    assert!(state.activate_deferred_tools(vec!["mcp__a__x".into()]));
    let names: Vec<String> = state.visible_tools().into_iter().map(|d| d.name).collect();
    assert_eq!(names, vec!["read".to_string(), "mcp__a__x".to_string(), "tool_search_tool".to_string()]);
    assert_eq!(state.all_tool_snapshots().len(), 4);
    let blank = TurnState::new(Vec::new(), "  ", "hi", Vec::new());
    assert_eq!(blank.messages.len(), 1);
}
