use astrcode::hooks::{
    dispatch_order, post_tool_use_step, pre_tool_use_step, provider_outcome, provider_step, PostToolUseFlow,
    PostToolUseResult, PreToolUseFlow, PreToolUseResult, ProviderFlow, ProviderResult, ProviderState,
};
use astrcode::json_value::JsonValue;
use astrcode::llm::LlmMessage;

#[test]
fn handlers_run_by_descending_priority_stably() {
    assert_eq!(dispatch_order(&[0, 5, 0, 10, 5]), vec![3, 1, 4, 0, 2]);
    assert_eq!(dispatch_order(&[]), Vec::<usize>::new());
    assert_eq!(dispatch_order(&[-1, -1, -1]), vec![0, 1, 2]);
}

#[test]
fn pre_and_post_tool_use_steps() {
    assert!(matches!(
        pre_tool_use_step(JsonValue::Null, PreToolUseResult::ModifyInput { tool_input: JsonValue::Bool(true) }),
        PreToolUseFlow::Continue { tool_input: JsonValue::Bool(true) }
    ));
    assert!(matches!(
        pre_tool_use_step(JsonValue::Null, PreToolUseResult::Block { reason: "no".into() }),
        PreToolUseFlow::Blocked { reason } if reason == "no"
    ));
    assert!(matches!(
        pre_tool_use_step(JsonValue::Bool(false), PreToolUseResult::Allow),
        PreToolUseFlow::Continue { tool_input: JsonValue::Bool(false) }
    ));
    assert!(matches!(
        post_tool_use_step("old".into(), PostToolUseResult::ModifyResult { content: "new".into() }),
        PostToolUseFlow::Continue { content } if content == "new"
    ));
}

#[test]
fn provider_steps_accumulate_messages() {
    let state = ProviderState { messages: vec![LlmMessage::user("a")], modified: false };
    let state = match provider_step(state, ProviderResult::AppendMessages { messages: vec![LlmMessage::user("b")] }) {
        ProviderFlow::Continue(s) => s,
        ProviderFlow::Blocked { .. } => panic!("blocked"),
    };
    assert_eq!(state.messages.len(), 2);
    assert!(state.modified);
    match provider_outcome(state) {
        ProviderResult::ReplaceMessages { messages } => assert_eq!(messages.len(), 2),
        _ => panic!("expected replacement"),
    }
    let untouched = ProviderState { messages: Vec::new(), modified: false };
    assert!(matches!(provider_outcome(untouched), ProviderResult::Allow));
    let blocked = provider_step(ProviderState { messages: Vec::new(), modified: false }, ProviderResult::Block { reason: "r".into() });
    assert!(matches!(blocked, ProviderFlow::Blocked { reason } if reason == "r"));
}

use astrcode::extension::HookMode;
use astrcode::hooks::{handler_run, HandlerRun};

#[test]
fn handler_modes_decide_waiting() {
    assert_eq!(handler_run(HookMode::Blocking), HandlerRun::AwaitAnswer);
    assert_eq!(handler_run(HookMode::Advisory), HandlerRun::AwaitIgnoringFailure);
    assert_eq!(handler_run(HookMode::NonBlocking), HandlerRun::Detach);
}
