//! Settings and prompts of the memory extension.

use vstd::prelude::*;
use crate::text::{is_blank, is_blank_str, push_str, to_string};

verus! {

/// Settings of the memory extension (`extensions.astrcode.memory`).
#[derive(Debug, Clone)]
pub struct MemoryConfig {
    /// Index records kept per scope (user and project are trimmed apart).
    pub max_contexts: usize,
    /// Whether extraction runs when a session starts.
    pub auto_extract: bool,
    /// Whether saving a memory syncs changed sessions in the background.
    pub auto_extract_after_save: bool,
    /// Changed sessions handled per pipeline run.
    pub max_changed_sessions: usize,
    /// Sessions with less conversation than this (characters) are skipped.
    pub min_conversation_chars: usize,
    /// Context files older than this many days are deleted.
    pub max_context_age_days: u64,
}

impl Default for MemoryConfig {
    fn default() -> (r: Self)
        ensures
            r.max_contexts == 10,
            r.auto_extract,
            r.auto_extract_after_save,
            r.max_changed_sessions == 5,
            r.min_conversation_chars == 200,
            r.max_context_age_days == 90,
    {
        MemoryConfig {
            max_contexts: 10,
            auto_extract: true,
            auto_extract_after_save: true,
            max_changed_sessions: 5,
            min_conversation_chars: 200,
            max_context_age_days: 90,
        }
    }
}

impl MemoryConfig {
    /// The settings parsed from the extension's configuration, or the
    /// defaults when it did not parse.
    pub fn from_extension_config(parsed: Option<MemoryConfig>) -> (r: Self)
        ensures
            parsed matches Some(c) ==> r == c,
            parsed is None ==> r == MemoryConfig::default_spec(),
    {
        match parsed {
            Some(c) => c,
            None => MemoryConfig::default(),
        }
    }

    /// The default settings.
    pub open spec fn default_spec() -> MemoryConfig {
        MemoryConfig {
            max_contexts: 10,
            auto_extract: true,
            auto_extract_after_save: true,
            max_changed_sessions: 5,
            min_conversation_chars: 200,
            max_context_age_days: 90,
        }
    }
}

/// The JSON shape the model answers with when memories already exist.
pub const BATCH_REPLY_SHAPE: &'static str =
    "{\"sessions\":[{\"session_id\":\"<id>\",\"memories\":[{\"content\":\"...\",\"category\":\"user_pref|project_ctx|decision|general\",\"action\":\"add|update|delete\",\"replaces\":\"optional substring of old memory\",\"entities\":[\"...\"]}]}]}";

/// The JSON shape the model answers with when there are no memories yet.
pub const BATCH_ADD_ONLY_SHAPE: &'static str =
    "{\"sessions\":[{\"session_id\":\"<id>\",\"memories\":[{\"content\":\"...\",\"category\":\"user_pref|project_ctx|decision|general\",\"action\":\"add\",\"entities\":[\"...\"]}]}]}";

/// The prompt of a batch extraction run.
pub open spec fn batch_prompt(session_blocks: Seq<char>, current_date: Seq<char>, existing_memories: Seq<char>) -> Seq<char> {
    if is_blank(existing_memories) {
        "Current date: "@ + current_date + "\n\nChanged session rollouts:\n"@ + session_blocks + "\n\nReturn JSON:\n"@
            + BATCH_ADD_ONLY_SHAPE@
    } else {
        "Current date: "@ + current_date
            + "\n\nExisting memories (user + project) — merge, update, or delete; do not duplicate:\n"@
            + existing_memories + "\n\nChanged session rollouts:\n"@ + session_blocks + "\n\nReturn JSON:\n"@
            + BATCH_REPLY_SHAPE@
    }
}

/// The user prompt of a batch extraction: the date, the existing memories
/// to merge into (when there are any), the changed session rollouts, and
/// the JSON shape to answer with.
pub fn batch_user_prompt(session_blocks: &str, current_date: &str, existing_memories: &str) -> (r: String)
    ensures
        r@ == batch_prompt(session_blocks@, current_date@, existing_memories@),
{
    let mut r = to_string("Current date: ");
    push_str(&mut r, current_date);
    if is_blank_str(existing_memories) {
        push_str(&mut r, "\n\nChanged session rollouts:\n");
        push_str(&mut r, session_blocks);
        push_str(&mut r, "\n\nReturn JSON:\n");
        push_str(&mut r, BATCH_ADD_ONLY_SHAPE);
    } else {
        push_str(&mut r, "\n\nExisting memories (user + project) — merge, update, or delete; do not duplicate:\n");
        push_str(&mut r, existing_memories);
        push_str(&mut r, "\n\nChanged session rollouts:\n");
        push_str(&mut r, session_blocks);
        push_str(&mut r, "\n\nReturn JSON:\n");
        push_str(&mut r, BATCH_REPLY_SHAPE);
    }
    r
}

} // verus!
