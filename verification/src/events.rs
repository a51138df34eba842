//! Session event payloads the library produces.

use vstd::prelude::*;
use crate::tool_result::ToolResult;
use crate::user_prompt::UserImagePart;

verus! {

/// A durable or live session event.
pub enum EventPayload {
    /// A user submission.
    UserMessage { message_id: String, text: String, images: Vec<UserImagePart> },
    /// A streamed piece of assistant text.
    AssistantTextDelta { message_id: String, delta: String },
    /// A streamed piece of the model's reasoning.
    ThinkingDelta { message_id: String, delta: String },
    /// A tool call began.
    ToolCallStarted { call_id: String, tool_name: String },
    /// The model requested a tool call with these arguments.
    ToolCallRequested { call_id: String, tool_name: String, arguments: serde_json::Value },
    /// A tool call finished.
    ToolCallCompleted {
        call_id: String,
        tool_name: String,
        result: ToolResult,
        arguments: String,
        arguments_json: Option<serde_json::Value>,
    },
    /// The turn finished.
    TurnCompleted { finish_reason: String },
    /// Something failed; a turn cannot go on after an error that is not
    /// recoverable.
    ErrorOccurred { message: String, recoverable: bool },
    /// An event emitted by an extension.
    ExtensionEvent {
        extension_id: String,
        event_type: String,
        schema_version: u32,
        payload: serde_json::Value,
    },
}

/// Errors an extension host call reports.
#[derive(Debug)]
pub enum ExtensionError {
    NotFound(String),
    /// A handler did not answer within this many milliseconds.
    Timeout(u64),
    Blocked { reason: String },
    Internal(String),
}

} // verus!
