use astrcode::json_value::JsonValue;
use astrcode::llm::{count_visible_user_messages, LlmContent, LlmMessage, LlmRole};
use astrcode::stale_repair::{
    stale_background_repairs, stale_child_runs, stale_phase_repair, AgentSessionLink, BackgroundCallState,
};
use astrcode::turn_scheduler::TurnScheduleError;

fn assistant_calls(calls: &[(&str, &str)]) -> LlmMessage {
    LlmMessage {
        role: LlmRole::Assistant,
        content: calls
            .iter()
            .map(|(id, name)| LlmContent::ToolCall {
                call_id: id.to_string(),
                name: name.to_string(),
                arguments: serde_json::Value::String(format!("args of {id}")),
            })
            .collect(),
        name: None,
        reasoning_content: None,
    }
}

#[test]
fn idle_session_has_no_turn_to_repair() {
    let messages = vec![assistant_calls(&[("c1", "read")])];
    let pending = vec!["c1".to_string()];
    assert!(matches!(stale_phase_repair(true, &messages, &pending), Err(TurnScheduleError::NoActiveTurn)));
}

#[test]
fn phase_repair_interrupts_pending_calls_in_order() {
    let messages = vec![assistant_calls(&[("c1", "read"), ("c2", "shell"), ("c3", "grep")])];
    let pending = vec!["c3".to_string(), "c1".to_string()];
    let repair = match stale_phase_repair(false, &messages, &pending) {
        Ok(repair) => repair,
        Err(_) => panic!("a running phase is repaired"),
    };
    assert_eq!(repair.finish_reason, "interrupted");
    let ids: Vec<(String, String)> =
        repair.completions.iter().map(|c| (c.call_id.clone(), c.tool_name.clone())).collect();
    assert_eq!(ids, vec![("c1".to_string(), "read".to_string()), ("c3".to_string(), "grep".to_string())]);
    for c in &repair.completions {
        assert!(c.arguments_json.is_none());
        assert!(c.result.is_error);
        assert_eq!(c.result.call_id, c.call_id);
        assert_eq!(c.result.content, "Tool execution interrupted before completion");
    }
}

#[test]
fn background_repair_skips_completed_active_and_unknown_calls() {
    let messages = vec![assistant_calls(&[("c1", "shell"), ("c2", "shell"), ("c4", "build")])];
    let calls = vec![
        BackgroundCallState { call_id: "c1".into(), task_id: "t1".into(), completed: true },
        BackgroundCallState { call_id: "c2".into(), task_id: "t2".into(), completed: false },
        BackgroundCallState { call_id: "c3".into(), task_id: "t3".into(), completed: false },
        BackgroundCallState { call_id: "c4".into(), task_id: "t4".into(), completed: false },
    ];
    let active = vec!["t2".to_string()];
    let repairs = stale_background_repairs(&calls, &active, &messages);
    assert_eq!(repairs.len(), 1);
    let c = &repairs[0];
    assert_eq!(c.call_id, "c4");
    assert_eq!(c.tool_name, "build");
    assert_eq!(c.arguments_json, Some(serde_json::Value::String("args of c4".into())));
    assert_eq!(c.result.content, "Background task interrupted before completion");
    assert!(c.result.is_error);
    assert_eq!(c.result.metadata, vec![("task_id".to_string(), JsonValue::String("t4".into()))]);
}

#[test]
fn only_inactive_running_children_fail() {
    let links = vec![
        AgentSessionLink { child_session_id: "child-a".into(), running: true },
        AgentSessionLink { child_session_id: "child-b".into(), running: false },
        AgentSessionLink { child_session_id: "child-c".into(), running: true },
        AgentSessionLink { child_session_id: "child-d".into(), running: true },
    ];
    let active = vec!["child-c".to_string()];
    assert_eq!(stale_child_runs(&links, &active), vec!["child-a".to_string(), "child-d".to_string()]);
}

#[test]
fn synthetic_user_messages_are_not_counted() {
    let messages = vec![
        LlmMessage::user("real"),
        LlmMessage::user("<compact_summary>summary</compact_summary>"),
        LlmMessage::system("rules".to_string()),
        LlmMessage::user("also real"),
    ];
    assert_eq!(count_visible_user_messages(&messages, &[false, true, false, false]), 2);
    assert_eq!(count_visible_user_messages(&messages, &[false, false, false, false]), 3);
    assert_eq!(count_visible_user_messages(&[], &[]), 0);
}
