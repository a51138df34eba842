use astrcode::acp_bridge::{
    ActiveTurnTracker, PromptSignal, TurnOutcome, prompt_signal_resolution, extract_text, prompt_event_action, prompt_stop_reason, stop_reason_for, to_session_update, PromptBlock,
    SessionUpdate, StopReason, ToolCallStatus,
};
use astrcode::events::EventPayload;
use astrcode::tool_result::ToolResult;

fn result(content: &str, is_error: bool) -> ToolResult {
    ToolResult {
        call_id: "c1".into(),
        content: content.into(),
        is_error,
        error: None,
        metadata: Vec::new(),
        duration_ms: None,
    }
}

#[test]
fn finish_reasons_map_to_stop_reasons() {
    assert_eq!(stop_reason_for("aborted"), StopReason::Cancelled);
    assert_eq!(stop_reason_for("cancelled"), StopReason::Cancelled);
    assert_eq!(stop_reason_for("stop"), StopReason::EndTurn);
    assert_eq!(stop_reason_for("interrupted"), StopReason::EndTurn);
    assert_eq!(prompt_stop_reason(None), StopReason::Cancelled);
    assert_eq!(prompt_stop_reason(Some(StopReason::EndTurn)), StopReason::EndTurn);
}

#[test]
fn prompt_text_joins_text_blocks() {
    let blocks = vec![
        PromptBlock::Text("first".into()),
        PromptBlock::Other,
        PromptBlock::Text("second".into()),
    ];
    assert_eq!(extract_text(&blocks), "first\nsecond");
    let leading_empty = vec![PromptBlock::Text(String::new()), PromptBlock::Text("a".into())];
    assert_eq!(extract_text(&leading_empty), "a");
    assert_eq!(extract_text(&[PromptBlock::Other]), "");
}

#[test]
fn deltas_become_chunks() {
    let text = EventPayload::AssistantTextDelta { message_id: "m".into(), delta: "hi".into() };
    assert!(matches!(to_session_update(&text), Some(SessionUpdate::AgentMessageChunk(t)) if t == "hi"));
    let thought = EventPayload::ThinkingDelta { message_id: "m".into(), delta: "hmm".into() };
    assert!(matches!(to_session_update(&thought), Some(SessionUpdate::AgentThoughtChunk(t)) if t == "hmm"));
    let error = EventPayload::ErrorOccurred { message: "boom".into(), recoverable: true };
    assert!(matches!(to_session_update(&error), Some(SessionUpdate::AgentMessageChunk(t)) if t == "[Error] boom"));
    let done = EventPayload::TurnCompleted { finish_reason: "stop".into() };
    assert!(to_session_update(&done).is_none());
}

#[test]
fn tool_calls_become_tool_updates() {
    let started = EventPayload::ToolCallStarted { call_id: "c1".into(), tool_name: "shell".into() };
    match to_session_update(&started) {
        Some(SessionUpdate::ToolCall { call_id, title }) => assert_eq!((call_id.as_str(), title.as_str()), ("c1", "shell")),
        _ => panic!("expected a tool call"),
    }
    let requested = EventPayload::ToolCallRequested {
        call_id: "c1".into(),
        tool_name: "shell".into(),
        arguments: serde_json::Value::String("ls".into()),
    };
    match to_session_update(&requested) {
        Some(SessionUpdate::ToolCallUpdate { call_id, title, status, raw_input, raw_output }) => {
            assert_eq!(call_id, "c1");
            assert_eq!(title, Some("shell".to_string()));
            assert_eq!(status, ToolCallStatus::InProgress);
            assert_eq!(raw_input, Some(serde_json::Value::String("ls".into())));
            assert!(raw_output.is_none());
        },
        _ => panic!("expected a tool call update"),
    }
    let failed = EventPayload::ToolCallCompleted {
        call_id: "c1".into(),
        tool_name: "shell".into(),
        result: result("denied", true),
        arguments: String::new(),
        arguments_json: None,
    };
    match to_session_update(&failed) {
        Some(SessionUpdate::ToolCallUpdate { status, raw_output: Some(out), title, .. }) => {
            assert_eq!(status, ToolCallStatus::Failed);
            assert_eq!(out.content, "denied");
            assert!(out.is_error);
            assert!(title.is_none());
        },
        _ => panic!("expected a tool call update"),
    }
}

#[test]
fn prompt_loop_skips_other_sessions() {
    let done = EventPayload::TurnCompleted { finish_reason: "stop".into() };
    let a = prompt_event_action("s1", "s2", &done);
    assert!(a.forward.is_none() && a.resolve.is_none());
}

#[test]
fn prompt_loop_resolves_on_completion_and_fatal_errors() {
    let aborted = EventPayload::TurnCompleted { finish_reason: "aborted".into() };
    let a = prompt_event_action("s1", "s1", &aborted);
    assert!(a.forward.is_none());
    assert_eq!(a.resolve, Some(StopReason::Cancelled));
    let fatal = EventPayload::ErrorOccurred { message: "bad".into(), recoverable: false };
    let a = prompt_event_action("s1", "s1", &fatal);
    assert!(matches!(a.forward, Some(SessionUpdate::AgentMessageChunk(ref t)) if t == "[Error] bad"));
    assert_eq!(a.resolve, Some(StopReason::EndTurn));
    let soft = EventPayload::ErrorOccurred { message: "retrying".into(), recoverable: true };
    assert_eq!(prompt_event_action("s1", "s1", &soft).resolve, None);
    let delta = EventPayload::AssistantTextDelta { message_id: "m".into(), delta: "x".into() };
    let a = prompt_event_action("s1", "s1", &delta);
    assert!(a.forward.is_some() && a.resolve.is_none());
}

#[test]
fn resolved_turn_delivers_its_outcome() {
    let mut tracker = ActiveTurnTracker::new();
    let mut rx = tracker.register_turn("s1".into(), "t1".into()).into_receiver();
    assert!(tracker.is_pending("s1", "t1"));
    tracker.resolve_turn("s1", "t1", TurnOutcome::Completed { stop_reason: StopReason::EndTurn });
    assert!(!tracker.is_pending("s1", "t1"));
    assert_eq!(rx.try_recv().ok(), Some(TurnOutcome::Completed { stop_reason: StopReason::EndTurn }));
    tracker.resolve_turn("s1", "t1", TurnOutcome::Completed { stop_reason: StopReason::Cancelled });
}

#[test]
fn cancelling_a_session_drops_only_its_turns() {
    let mut tracker = ActiveTurnTracker::new();
    let mut a1 = tracker.register_turn("a".into(), "t1".into()).into_receiver();
    let mut a2 = tracker.register_turn("a".into(), "t2".into()).into_receiver();
    let mut b1 = tracker.register_turn("b".into(), "t1".into()).into_receiver();
    tracker.cancel_session("a");
    assert!(!tracker.is_pending("a", "t1"));
    assert!(!tracker.is_pending("a", "t2"));
    assert!(tracker.is_pending("b", "t1"));
    assert!(matches!(a1.try_recv(), Err(tokio::sync::oneshot::error::TryRecvError::Closed)));
    assert!(matches!(a2.try_recv(), Err(tokio::sync::oneshot::error::TryRecvError::Closed)));
    assert!(matches!(b1.try_recv(), Err(tokio::sync::oneshot::error::TryRecvError::Empty)));
}

#[test]
fn registering_again_replaces_the_waiter() {
    let mut tracker = ActiveTurnTracker::new();
    let mut first = tracker.register_turn("s".into(), "t".into()).into_receiver();
    let mut second = tracker.register_turn("s".into(), "t".into()).into_receiver();
    assert!(matches!(first.try_recv(), Err(tokio::sync::oneshot::error::TryRecvError::Closed)));
    tracker.resolve_turn("s", "t", TurnOutcome::Completed { stop_reason: StopReason::Cancelled });
    assert_eq!(second.try_recv().ok(), Some(TurnOutcome::Completed { stop_reason: StopReason::Cancelled }));
}

#[test]
fn failed_submit_and_closed_feed_end_the_turn() {
    assert_eq!(prompt_signal_resolution(PromptSignal::SubmitFailed), Some(StopReason::EndTurn));
    assert_eq!(prompt_signal_resolution(PromptSignal::FeedClosed), Some(StopReason::EndTurn));
    assert_eq!(prompt_signal_resolution(PromptSignal::FeedLagged), None);
    assert_eq!(prompt_signal_resolution(PromptSignal::OtherNotification), None);
}
