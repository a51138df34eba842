use astrcode::json_value::JsonValue;
use astrcode::llm::{LlmContent, LlmRole};
use astrcode::small_llm::{reply_step, small_llm_messages, LlmStreamEvent, ReplyFlow};

fn s(text: &str) -> JsonValue {
    JsonValue::String(text.to_string())
}

fn obj(members: &[(&str, JsonValue)]) -> JsonValue {
    JsonValue::Object(members.iter().map(|(k, v)| (k.to_string(), clone_json(v))).collect())
}

fn clone_json(v: &JsonValue) -> JsonValue {
    match v {
        JsonValue::Null => JsonValue::Null,
        JsonValue::Bool(b) => JsonValue::Bool(*b),
        JsonValue::Number(n) => JsonValue::Number(n.clone()),
        JsonValue::String(t) => JsonValue::String(t.clone()),
        JsonValue::Array(items) => JsonValue::Array(items.iter().map(clone_json).collect()),
        JsonValue::Object(m) => JsonValue::Object(m.iter().map(|(k, v)| (k.clone(), clone_json(v))).collect()),
    }
}

fn text_of(content: &[LlmContent]) -> &str {
    match content {
        [LlmContent::Text { text }] => text.as_str(),
        _ => panic!("expected one text block"),
    }
}

#[test]
fn messages_keep_order_and_map_roles() {
    let request = obj(&[(
        "messages",
        JsonValue::Array(vec![
            obj(&[("role", s("system")), ("content", s("be brief"))]),
            obj(&[("content", s("no role"))]),
            obj(&[("role", s("assistant"))]),
            obj(&[("role", s("tool")), ("content", s("x"))]),
            obj(&[("role", JsonValue::Number("5".into())), ("content", s("y"))]),
        ]),
    )]);
    let messages = small_llm_messages(&request).unwrap_or_else(|e| panic!("{e}"));
    let got: Vec<(LlmRole, &str)> = messages.iter().map(|m| (m.role, text_of(&m.content))).collect();
    assert_eq!(got, vec![(LlmRole::System, "be brief"), (LlmRole::Assistant, ""), (LlmRole::User, "x")]);
    assert!(messages.iter().all(|m| m.name.is_none() && m.reasoning_content.is_none()));
}

#[test]
fn request_without_messages_is_refused() {
    for request in [
        obj(&[]),
        obj(&[("messages", s("hi"))]),
        obj(&[("messages", JsonValue::Array(vec![obj(&[("content", s("x"))])]))]),
        JsonValue::Null,
    ] {
        match small_llm_messages(&request) {
            Err(e) => assert_eq!(e, "messages array is empty or missing"),
            Ok(_) => panic!("expected a refusal"),
        }
    }
}

#[test]
fn reply_gathers_deltas_until_done() {
    let mut text = String::new();
    let events = vec![
        LlmStreamEvent::ContentDelta { delta: "Hel".into() },
        LlmStreamEvent::Other,
        LlmStreamEvent::ContentDelta { delta: "lo".into() },
        LlmStreamEvent::Done,
        LlmStreamEvent::ContentDelta { delta: "ignored".into() },
    ];
    let mut outcome = None;
    for event in events {
        match reply_step(text, event) {
            ReplyFlow::Continue(t) => text = t,
            ReplyFlow::Finished(r) => {
                outcome = Some(r);
                break;
            },
        }
    }
    assert_eq!(outcome, Some(Ok("Hello".to_string())));
}

#[test]
fn reply_stops_on_error() {
    match reply_step("partial".into(), LlmStreamEvent::Error { message: "rate limited".into() }) {
        ReplyFlow::Finished(Err(m)) => assert_eq!(m, "rate limited"),
        _ => panic!("expected a failure"),
    }
}
