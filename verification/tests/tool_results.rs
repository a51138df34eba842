use astrcode::json_value::JsonValue;
use astrcode::tool_result::{
    background_completion_result, background_reason, backgrounded_placeholder_result, completed_task_context_message,
    error_tool_result, interrupted_tool_result, wait_registry_action, resolve_effective_policy, settle_background_wait, without_member,
    BackgroundPolicy, BackgroundWait, RegistryAction, ToolError, ToolResult,
};

fn object(entries: Vec<(&str, JsonValue)>) -> JsonValue {
    JsonValue::Object(entries.into_iter().map(|(k, v)| (k.to_string(), v)).collect())
}

fn meta<'a>(result: &'a ToolResult, key: &str) -> Option<&'a JsonValue> {
    result.metadata.iter().find(|(k, _)| k == key).map(|(_, v)| v)
}

fn text(s: &str) -> JsonValue {
    JsonValue::String(s.to_string())
}

#[test]
fn resolve_effective_policy_explicit_true() {
    let input = object(vec![("runInBackground", JsonValue::Bool(true))]);
    let result = resolve_effective_policy(BackgroundPolicy::AutoAfter { threshold_secs: 60 }, &input);
    assert_eq!(result, BackgroundPolicy::AutoAfter { threshold_secs: 0 });
}

#[test]
fn resolve_effective_policy_explicit_false() {
    let input = object(vec![("runInBackground", JsonValue::Bool(false))]);
    let result = resolve_effective_policy(BackgroundPolicy::AutoAfter { threshold_secs: 60 }, &input);
    assert_eq!(result, BackgroundPolicy::Never);
}

#[test]
fn resolve_effective_policy_missing_field_returns_declared() {
    let input = object(vec![("command", text("echo hi"))]);
    let result = resolve_effective_policy(BackgroundPolicy::AutoAfter { threshold_secs: 60 }, &input);
    assert_eq!(result, BackgroundPolicy::AutoAfter { threshold_secs: 60 });
}

#[test]
fn resolve_effective_policy_declared_never_with_override() {
    let input = object(vec![("runInBackground", JsonValue::Bool(true))]);
    let result = resolve_effective_policy(BackgroundPolicy::Never, &input);
    assert_eq!(result, BackgroundPolicy::AutoAfter { threshold_secs: 0 });
}

#[test]
fn resolve_effective_policy_non_bool_is_none() {
    let input = object(vec![("runInBackground", text("yes"))]);
    let result = resolve_effective_policy(BackgroundPolicy::AutoAfter { threshold_secs: 30 }, &input);
    assert_eq!(result, BackgroundPolicy::AutoAfter { threshold_secs: 30 });
}

#[test]
fn error_tool_result_not_found() {
    let result = error_tool_result("call-1".into(), "my_tool", ToolError::NotFound("missing".into()), 50, None);
    assert_eq!(result.call_id, "call-1");
    assert!(result.is_error);
    assert!(result.content.contains("missing"));
    assert!(result.content.contains("Suggestion"));
}

#[test]
fn error_tool_result_not_found_suggests_glob_for_legacy_find() {
    let result = error_tool_result("call-2".into(), "find", ToolError::NotFound("find".into()), 10, None);
    assert!(result.content.contains("glob"));
}

#[test]
fn error_tool_result_timeout_includes_ms() {
    let result = error_tool_result("call-2".into(), "shell", ToolError::Timeout(5000), 5000, None);
    assert!(result.content.contains("5000ms"));
    assert_eq!(meta(&result, "timeoutMs"), Some(&JsonValue::Number("5000".into())));
}

#[test]
fn error_tool_result_blocked() {
    let result = error_tool_result(
        "call-3".into(),
        "shell",
        ToolError::Blocked { reason: "policy reason".into() },
        10,
        None,
    );
    assert!(result.content.contains("blocked"));
    assert!(result.content.contains("policy reason"));
}

#[test]
fn error_results_carry_exact_text_and_metadata() {
    let r = error_tool_result("c".into(), "grep", ToolError::InvalidArguments("bad regex".into()), 7, None);
    assert_eq!(
        r.content,
        "Invalid arguments for `grep`: bad regex\nSuggestion: Re-read the parameter schema and retry with corrected arguments. Do not retry with the same arguments."
    );
    assert_eq!(r.error.as_deref(), Some(r.content.as_str()));
    assert_eq!(r.duration_ms, Some(7));
    assert_eq!(meta(&r, "toolName"), Some(&text("grep")));
    assert_eq!(r.metadata.len(), 2);
    let alias = error_tool_result("c".into(), "x", ToolError::NotFound("find".into()), 1, Some("glob"));
    assert!(alias.content.ends_with("Suggestion: Use `glob` instead (exact name from the provider tool list)."));
    let mcp = error_tool_result("c".into(), "x", ToolError::NotFound("mcp__a__b".into()), 1, None);
    assert!(mcp.content.contains("tool_search_tool` first to load the MCP tool schema"));
    let exec = error_tool_result("c".into(), "x", ToolError::Execution("exit 1".into()), 1, None);
    assert!(exec.content.starts_with("`x` failed: exit 1\nSuggestion: Inspect the error above."));
}

#[test]
fn interrupted_result_text() {
    let r = interrupted_tool_result("c9".into(), "shell", 0);
    assert!(r.content.starts_with("`shell` failed: tool execution interrupted before completion\n"));
    assert_eq!(r.duration_ms, Some(0));
}

#[test]
fn run_in_background_switch_is_removed() {
    let input = object(vec![("command", text("ls")), ("runInBackground", JsonValue::Bool(true))]);
    let stripped = without_member(input, "runInBackground");
    assert_eq!(stripped, object(vec![("command", text("ls"))]));
    assert_eq!(without_member(JsonValue::Null, "x"), JsonValue::Null);
}

#[test]
fn placeholder_names_task_and_command() {
    let r = backgrounded_placeholder_result("c1", "task-7", "shell", Some("sleep 100"));
    assert_eq!(
        r.content,
        "Task moved to background (task: task-7). The result will be available in the next turn. Command: sleep 100"
    );
    assert_eq!(meta(&r, "backgrounded"), Some(&JsonValue::Bool(true)));
    assert_eq!(meta(&r, "taskId"), Some(&text("task-7")));
    assert!(!r.is_error);
}

#[test]
fn completed_task_message_reports_failure() {
    let ok = ToolResult {
        call_id: "c".into(),
        content: "out".into(),
        is_error: false,
        error: None,
        metadata: Vec::new(),
        duration_ms: None,
    };
    assert_eq!(
        completed_task_context_message("shell", &ok),
        "<completed-background-task>\nTool: shell\nCompleted successfully.\nOutput:\nout\n</completed-background-task>"
    );
    let failed = ToolResult { is_error: true, error: None, ..ok };
    assert!(completed_task_context_message("shell", &failed).contains("\nFailed: unknown error\n"));
}

#[test]
fn background_completion_points_at_persisted_output() {
    let raw = ToolResult {
        call_id: "ignored".into(),
        content: "long output".into(),
        is_error: false,
        error: None,
        metadata: Vec::new(),
        duration_ms: None,
    };
    let r = background_completion_result(Some(Ok(raw)), "c1", "shell", "t1", 12, Some(2048), None);
    assert_eq!(r.call_id, "c1");
    assert_eq!(
        r.content,
        "Background task completed (task: t1, output: 2048 bytes) (12ms).\nUse `task action=result taskId=\"t1\"` to read the output."
    );
    assert_eq!(meta(&r, "task_id"), Some(&text("t1")));
    assert_eq!(meta(&r, "outputPersisted"), Some(&JsonValue::Bool(true)));
    let missing = background_completion_result(None, "c2", "shell", "t2", 3, None, None);
    assert!(missing.is_error);
    assert!(missing.content.contains("background task completed but no result available"));
    assert_eq!(meta(&missing, "task_id"), Some(&text("t2")));
}

#[test]
fn background_wait_outcomes() {
    let input = object(vec![("command", text("make"))]);
    let timed_out = settle_background_wait(BackgroundWait::TimedOut, "c", "shell", "t", &input, 5, None);
    assert!(timed_out.content.ends_with(" Command: make"));
    let cancelled = settle_background_wait(BackgroundWait::Cancelled, "c", "shell", "t", &input, 5, None);
    assert!(cancelled.content.contains("interrupted before completion"));
    let panicked = settle_background_wait(BackgroundWait::Panicked, "c", "shell", "t", &input, 5, None);
    assert!(panicked.content.contains("tool task panicked before completion"));
    let err = settle_background_wait(
        BackgroundWait::Finished(Some(Err(ToolError::Timeout(9)))),
        "c",
        "shell",
        "t",
        &input,
        5,
        None,
    );
    assert!(err.content.contains("timed out after 9ms"));
    assert_eq!(background_reason(0), "explicit");
    assert_eq!(background_reason(30), "auto_threshold");
}

#[test]
fn interrupted_background_result_names_task() {
    let r = astrcode::tool_result::interrupted_background_tool_result("c1", "bg-1");
    assert_eq!(r.content, "Background task interrupted before completion");
    assert_eq!(r.error.as_deref(), Some("Background task interrupted before completion"));
    assert_eq!(meta(&r, "task_id"), Some(&text("bg-1")));
}

use astrcode::extension::ExecutionMode;
use astrcode::tool_result::{PreparedToolCall, PreparedToolOutcome};

#[test]
fn prepared_call_becomes_executable() {
    let prepared = PreparedToolCall {
        index: 3,
        call_id: "call-3".into(),
        name: "grep".into(),
        tool_input: serde_json::Value::String("needle".into()),
        mode: ExecutionMode::Parallel,
        outcome: PreparedToolOutcome::Ready,
    };
    let exec = prepared.to_executable();
    assert_eq!(exec.index, 3);
    assert_eq!(exec.call_id, "call-3");
    assert_eq!(exec.name, "grep");
    assert_eq!(exec.tool_input, serde_json::Value::String("needle".into()));
}

#[test]
fn registry_follows_each_wait_outcome() {
    assert_eq!(wait_registry_action(&BackgroundWait::Cancelled), RegistryAction::Cancel);
    assert_eq!(wait_registry_action(&BackgroundWait::Finished(None)), RegistryAction::Remove);
    assert_eq!(wait_registry_action(&BackgroundWait::Panicked), RegistryAction::Keep);
    assert_eq!(wait_registry_action(&BackgroundWait::TimedOut), RegistryAction::Keep);
}

#[test]
fn finished_call_carries_the_known_alias() {
    let input = object(vec![]);
    let r = settle_background_wait(
        BackgroundWait::Finished(Some(Err(ToolError::NotFound("find".into())))),
        "c",
        "find",
        "t",
        &input,
        4,
        Some("glob"),
    );
    assert!(r.is_error);
    assert!(r.content.contains("Use `glob` instead"));
}
