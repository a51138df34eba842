//! The `small_llm.chat` host capability: the chat messages an extension's
//! request asks for, and the reply text gathered from the model's stream.
//! Parsing the request text and running the model are the caller's part.

use vstd::prelude::*;
use crate::json_value::{json_get, json_get_member, JsonValue};
use crate::llm::{LlmContent, LlmMessage, LlmRole};
use crate::text::{push_str, str_eq, to_string};

verus! {

/// The role a request names: `user`, `assistant` or `system`; anything
/// else counts as the user.
pub open spec fn role_named(name: Seq<char>) -> LlmRole {
    if name == "assistant"@ {
        LlmRole::Assistant
    } else if name == "system"@ {
        LlmRole::System
    } else {
        LlmRole::User
    }
}

/// `value[key]` as text, if it is a string.
pub open spec fn string_member(value: JsonValue, key: Seq<char>) -> Option<Seq<char>> {
    match json_get(value, key) {
        Some(JsonValue::String(s)) => Some(s@),
        _ => None,
    }
}

/// The (role, text) of the messages a request asks for: each element of
/// its `messages` array whose `role` is a string, with its `content` text
/// (empty unless a string); nothing when `messages` is not an array.
pub open spec fn requested_messages(request: JsonValue) -> Seq<(LlmRole, Seq<char>)> {
    match json_get(request, "messages"@) {
        Some(JsonValue::Array(items)) => messages_of(items@),
        _ => seq![],
    }
}

/// The (role, text) of the message elements, in order.
pub open spec fn messages_of(items: Seq<JsonValue>) -> Seq<(LlmRole, Seq<char>)>
    decreases items.len(),
{
    if items.len() == 0 {
        seq![]
    } else {
        let m = items.last();
        messages_of(items.drop_last()) + match string_member(m, "role"@) {
            Some(role) => seq![
                (role_named(role), match string_member(m, "content"@) {
                    Some(c) => c,
                    None => seq![],
                }),
            ],
            None => seq![],
        }
    }
}

/// Each message holds one text block and the given role.
pub open spec fn are_messages(out: Seq<LlmMessage>, wanted: Seq<(LlmRole, Seq<char>)>) -> bool {
    &&& out.len() == wanted.len()
    &&& forall|i: int| 0 <= i < out.len() ==> (#[trigger] out[i]).is_text_message(wanted[i].0, wanted[i].1)
}

fn string_of(value: Option<&JsonValue>) -> (r: Option<String>)
    ensures
        match value {
            Some(JsonValue::String(s)) => r matches Some(t) && t@ == s@,
            _ => r is None,
        },
{
    match value {
        Some(JsonValue::String(s)) => Some(to_string(s.as_str())),
        _ => None,
    }
}

/// The chat messages a `small_llm.chat` request asks for, in order: each
/// element of its `messages` array that names its role, as a one-text
/// message.  A request with none is refused.
pub fn small_llm_messages(request: &JsonValue) -> (r: Result<Vec<LlmMessage>, String>)
    ensures
        requested_messages(*request).len() == 0 ==> (r matches Err(e) && e@ == "messages array is empty or missing"@),
        requested_messages(*request).len() > 0 ==> (r matches Ok(out) && are_messages(out@, requested_messages(*request))),
{
    let mut out: Vec<LlmMessage> = Vec::new();
    proof {
        reveal_strlit("messages");
        reveal_strlit("role");
        reveal_strlit("content");
        reveal_strlit("assistant");
        reveal_strlit("system");
    }
    if let Some(JsonValue::Array(items)) = json_get_member(request, "messages") {
        let mut i: usize = 0;
        while i < items.len()
            invariant
                0 <= i <= items@.len(),
                are_messages(out@, messages_of(items@.take(i as int))),
            decreases items@.len() - i,
        {
            proof {
                assert(items@.take(i + 1).drop_last() =~= items@.take(i as int));
                assert(items@.take(i + 1).last() == items@[i as int]);
            }
            let m = &items[i];
            let ghost before = out@;
            let ghost prev = messages_of(items@.take(i as int));
            match string_of(json_get_member(m, "role")) {
                Some(role_name) => {
                    let role = if str_eq(role_name.as_str(), "assistant") {
                        LlmRole::Assistant
                    } else if str_eq(role_name.as_str(), "system") {
                        LlmRole::System
                    } else {
                        LlmRole::User
                    };
                    let text = match string_of(json_get_member(m, "content")) {
                        Some(c) => c,
                        None => String::new(),
                    };
                    let ghost t = text@;
                    let mut content: Vec<LlmContent> = Vec::new();
                    content.push(LlmContent::Text { text });
                    out.push(LlmMessage { role, content, name: None, reasoning_content: None });
                    proof {
                        let next = messages_of(items@.take(i + 1));
                        assert(next =~= prev.push((role, t)));
                        assert forall|j: int| 0 <= j < out@.len() implies (#[trigger] out@[j]).is_text_message(
                            next[j].0,
                            next[j].1,
                        ) by {
                            if j < before.len() {
                                assert(out@[j] == before[j]);
                            }
                        }
                    }
                },
                None => {
                    proof {
                        assert(messages_of(items@.take(i + 1)) =~= prev);
                    }
                },
            }
            i = i + 1;
        }
        proof {
            assert(items@.take(items@.len() as int) =~= items@);
        }
    }
    if out.len() == 0 {
        return Err(to_string("messages array is empty or missing"));
    }
    Ok(out)
}

/// An event of the model's reply stream, as far as the capability reads
/// it.
pub enum LlmStreamEvent {
    ContentDelta { delta: String },
    Done,
    Error { message: String },
    /// Reasoning, tool calls and other events, which the reply ignores.
    Other,
}

/// Where gathering a reply goes after one stream event.
pub enum ReplyFlow {
    /// Keep reading; the reply so far.
    Continue(String),
    /// The reply is complete, or failed.
    Finished(Result<String, String>),
}

/// Applies one stream event to the reply gathered so far: deltas are
/// appended, the end of the stream completes the reply, an error fails it.
pub fn reply_step(text: String, event: LlmStreamEvent) -> (r: ReplyFlow)
    ensures
        match event {
            LlmStreamEvent::ContentDelta { delta } => r matches ReplyFlow::Continue(t) && t@ == text@ + delta@,
            LlmStreamEvent::Done => r matches ReplyFlow::Finished(Ok(t)) && t@ == text@,
            LlmStreamEvent::Error { message } => r matches ReplyFlow::Finished(Err(m)) && m == message,
            LlmStreamEvent::Other => r matches ReplyFlow::Continue(t) && t@ == text@,
        },
{
    match event {
        LlmStreamEvent::ContentDelta { delta } => {
            let mut t = text;
            push_str(&mut t, delta.as_str());
            ReplyFlow::Continue(t)
        },
        LlmStreamEvent::Done => ReplyFlow::Finished(Ok(text)),
        LlmStreamEvent::Error { message } => ReplyFlow::Finished(Err(message)),
        LlmStreamEvent::Other => ReplyFlow::Continue(text),
    }
}

} // verus!
