use astrcode::turn_scheduler::{
    abort_step, background_completed_marker, route_prompt_step, route_user_input, summary_from_wait, AbortStep,
    InputRoute, PendingQueues, PromptRoute, SessionManagerError, TurnOutput, TurnScheduleError, TurnSummary,
};
use astrcode::user_prompt::UserPromptParts;

fn prompt(text: &str) -> UserPromptParts {
    UserPromptParts::text_only(text.into())
}

#[test]
fn queued_inputs_leave_in_arrival_order() {
    let mut queues = PendingQueues::new();
    queues.enqueue("s1", prompt("first"));
    queues.enqueue("s2", prompt("other"));
    queues.enqueue("s1", prompt("second"));
    assert_eq!(queues.queue_len("s1"), 2);
    assert_eq!(queues.dequeue_next("s1").unwrap().text, "first");
    assert_eq!(queues.dequeue_next("s1").unwrap().text, "second");
    assert_eq!(queues.queue_len("s1"), 0);
    assert!(queues.dequeue_next("s1").is_none());
    assert_eq!(queues.queue_len("s2"), 1);
}

#[test]
fn non_submittable_inputs_are_skipped() {
    let mut queues = PendingQueues::new();
    queues.enqueue("s", prompt("   "));
    queues.enqueue("s", prompt("real"));
    queues.enqueue("s", prompt(""));
    assert_eq!(queues.dequeue_next("s").unwrap().text, "real");
    assert_eq!(queues.queue_len("s"), 1);
    assert!(queues.dequeue_next("s").is_none());
    assert_eq!(queues.queue_len("s"), 0);
}

#[test]
fn clearing_drops_only_that_session() {
    let mut queues = PendingQueues::new();
    queues.enqueue("a", prompt("x"));
    queues.enqueue("b", prompt("y"));
    assert!(queues.clear("a"));
    assert!(!queues.clear("a"));
    assert_eq!(queues.queue_len("b"), 1);
}

#[test]
fn routing_and_markers() {
    assert_eq!(route_user_input(true), InputRoute::Enqueue);
    assert_eq!(route_user_input(false), InputRoute::StartTurn);
    assert_eq!(route_prompt_step(true), PromptRoute::Inject);
    assert_eq!(route_prompt_step(false), PromptRoute::StartTurn);
    assert_eq!(
        background_completed_marker("shell"),
        "<system type=\"background_completed\" source=\"shell\">"
    );
}

#[test]
fn summaries_from_turn_results() {
    match summary_from_wait(Some(Ok(TurnOutput { finish_reason: "stop".into(), text: "done".into() }))) {
        TurnSummary::Completed { finish_reason, content } => {
            assert_eq!(finish_reason, "stop");
            assert_eq!(content, "done");
        },
        other => panic!("unexpected {other:?}"),
    }
    assert!(matches!(summary_from_wait(Some(Err("boom".into()))), TurnSummary::Failed { error } if error == "boom"));
    assert!(matches!(summary_from_wait(None), TurnSummary::Aborted));
}

#[test]
fn abort_steps() {
    assert_eq!(abort_step(true, false, false), AbortStep::Done);
    assert_eq!(abort_step(false, false, true), AbortStep::SessionNotFound);
    assert_eq!(abort_step(false, true, true), AbortStep::Done);
    assert_eq!(abort_step(false, true, false), AbortStep::RepairStale);
}

#[test]
fn error_messages() {
    assert_eq!(TurnScheduleError::TurnAlreadyRunning.message(), "A turn is already running");
    assert_eq!(TurnScheduleError::SessionNotFound("s1".into()).message(), "Session not found: s1");
    assert_eq!(
        TurnScheduleError::SessionManager(SessionManagerError::InvalidCursor("c7".into())).message(),
        "invalid fork cursor: c7"
    );
    assert_eq!(TurnScheduleError::EventEmit("x".into()).message(), "event emit failed");
}

use astrcode::llm::{LlmContent, LlmMessage, LlmRole};
use astrcode::turn_scheduler::{find_tool_call_history, interrupted_pending_tool_result, pending_requested_tool_calls};

fn assistant_calls(calls: &[(&str, &str)]) -> LlmMessage {
    LlmMessage {
        role: LlmRole::Assistant,
        content: calls
            .iter()
            .map(|(id, name)| LlmContent::ToolCall {
                call_id: id.to_string(),
                name: name.to_string(),
                arguments: serde_json::Value::String(format!("args of {id}")),
            })
            .collect(),
        name: None,
        reasoning_content: None,
    }
}

#[test]
fn pending_calls_follow_request_order() {
    let messages = vec![
        assistant_calls(&[("c1", "read"), ("c2", "shell")]),
        LlmMessage::user("more"),
        assistant_calls(&[("c3", "grep"), ("c1", "read")]),
    ];
    let pending = vec!["c3".to_string(), "c1".to_string(), "zz".to_string()];
    let open = pending_requested_tool_calls(&messages, &pending);
    let got: Vec<(String, String)> = open.into_iter().map(|p| (p.call_id, p.tool_name)).collect();
    assert_eq!(got, vec![("c1".to_string(), "read".to_string()), ("c3".to_string(), "grep".to_string())]);
    let r = interrupted_pending_tool_result("c1");
    assert_eq!(r.content, "Tool execution interrupted before completion");
    assert!(r.is_error && r.metadata.is_empty());
}

#[test]
fn tool_call_history_finds_first_request() {
    let messages = vec![assistant_calls(&[("c1", "read")]), assistant_calls(&[("c2", "shell"), ("c1", "other")])];
    let (name, args) = find_tool_call_history(&messages, "c1").unwrap();
    assert_eq!(name, "read");
    assert_eq!(args, serde_json::Value::String("args of c1".into()));
    assert_eq!(find_tool_call_history(&messages, "c2").unwrap().0, "shell");
    assert!(find_tool_call_history(&messages, "c9").is_none());
}

use astrcode::turn_scheduler::{chain_step, ChainStep};

#[test]
fn chain_runs_queued_turns_before_going_idle() {
    assert_eq!(chain_step(true, true, true), ChainStep { notify_waiter: true, run_next: true, report_idle: false });
    assert_eq!(chain_step(false, false, true), ChainStep { notify_waiter: false, run_next: false, report_idle: true });
    assert_eq!(chain_step(true, false, false), ChainStep { notify_waiter: true, run_next: false, report_idle: false });
}

#[test]
fn repeated_abort_is_silent() {
    // A running session is aborted, then aborted again while it rests.
    assert_eq!(abort_step(true, true, false), AbortStep::Done);
    assert_eq!(abort_step(false, true, true), AbortStep::Done);
    // A stale phase is repaired once; the next abort finds it at rest.
    assert_eq!(abort_step(false, true, false), AbortStep::RepairStale);
    assert_eq!(abort_step(false, true, true), AbortStep::Done);
}
