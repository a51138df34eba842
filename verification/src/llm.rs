//! Provider-facing chat messages.

use vstd::prelude::*;

verus! {

/// Author of a chat message.
#[derive(Clone, Copy, Debug, PartialEq, Eq, Structural)]
pub enum LlmRole {
    System,
    User,
    Assistant,
    Tool,
}

/// One content block of a chat message.
pub enum LlmContent {
    Text { text: String },
    Image { base64: String, media_type: String },
    ToolCall { call_id: String, name: String, arguments: serde_json::Value },
}

/// A chat message sent to or received from a model provider.
pub struct LlmMessage {
    pub role: LlmRole,
    pub content: Vec<LlmContent>,
    pub name: Option<String>,
    pub reasoning_content: Option<String>,
}

impl LlmMessage {
    /// True when this message is `role` with exactly one text block `text`
    /// and no name or reasoning.
    pub open spec fn is_text_message(self, role: LlmRole, text: Seq<char>) -> bool {
        &&& self.role == role
        &&& self.content@.len() == 1
        &&& self.content@[0] matches LlmContent::Text { text: t } && t@ == text
        &&& self.name is None
        &&& self.reasoning_content is None
    }

    /// A user message holding `text`.
    pub fn user(text: &str) -> (r: Self)
        ensures
            r.is_text_message(LlmRole::User, text@),
    {
        let mut content = Vec::new();
        content.push(LlmContent::Text { text: text.to_owned() });
        LlmMessage { role: LlmRole::User, content, name: None, reasoning_content: None }
    }

    /// A system message holding `text`.
    pub fn system(text: String) -> (r: Self)
        ensures
            r.is_text_message(LlmRole::System, text@),
    {
        let mut content = Vec::new();
        content.push(LlmContent::Text { text });
        LlmMessage { role: LlmRole::System, content, name: None, reasoning_content: None }
    }
}

/// How many of `messages` are user messages a provider sees: those not
/// flagged as synthetic context (`synthetic[i]` for message `i`).
pub open spec fn visible_user_count(messages: Seq<LlmMessage>, synthetic: Seq<bool>) -> nat
    decreases messages.len(),
{
    if messages.len() == 0 {
        0
    } else {
        let earlier = visible_user_count(messages.drop_last(), synthetic.drop_last());
        if messages.last().role == LlmRole::User && !synthetic.last() {
            earlier + 1
        } else {
            earlier
        }
    }
}

/// Counts the user messages a provider sees, given which messages are
/// synthetic context (such as a compaction summary).
pub fn count_visible_user_messages(messages: &[LlmMessage], synthetic: &[bool]) -> (r: usize)
    requires
        messages@.len() == synthetic@.len(),
    ensures
        r == visible_user_count(messages@, synthetic@),
{
    let mut count: usize = 0;
    let mut i: usize = 0;
    while i < messages.len()
        invariant
            0 <= i <= messages@.len(),
            messages@.len() == synthetic@.len(),
            count <= i,
            count == visible_user_count(messages@.take(i as int), synthetic@.take(i as int)),
        decreases messages@.len() - i,
    {
        proof {
            assert(messages@.take(i + 1).drop_last() =~= messages@.take(i as int));
            assert(synthetic@.take(i + 1).drop_last() =~= synthetic@.take(i as int));
        }
        if messages[i].role == LlmRole::User && !synthetic[i] {
            count = count + 1;
        }
        i = i + 1;
    }
    proof {
        assert(messages@.take(i as int) =~= messages@);
        assert(synthetic@.take(i as int) =~= synthetic@);
    }
    count
}

} // verus!
