//! Tool results and the fixed results the runtime produces itself: tool
//! errors with a suggestion for the model, interruption, the placeholder of
//! a call moved to the background, and the text of a finished background task.

use vstd::prelude::*;
use crate::extension::ExecutionMode;
use crate::json::json_clone;
use crate::json_value::{entries_get, entries_insert, entry_keys, json_get, json_get_member, JsonValue};
use crate::text::{decimal, push_str, starts_with, str_starts_with, to_string, u64_to_decimal, usize_to_decimal};

verus! {

/// The outcome of one tool call as the model sees it.
pub struct ToolResult {
    pub call_id: String,
    pub content: String,
    pub is_error: bool,
    pub error: Option<String>,
    /// Metadata members; each key occurs once.
    pub metadata: Vec<(String, JsonValue)>,
    pub duration_ms: Option<u64>,
}

/// Why a tool call failed.
pub enum ToolError {
    NotFound(String),
    InvalidArguments(String),
    Execution(String),
    Blocked { reason: String },
    Timeout(u64),
}

/// When a tool call is moved to the background.
#[derive(Clone, Copy, Debug, PartialEq, Eq, Structural)]
pub enum BackgroundPolicy {
    Never,
    AutoAfter { threshold_secs: u64 },
}

/// A tool call whose arguments are still streaming in.
pub struct PendingToolCall {
    pub call_id: String,
    pub name: String,
    pub arguments: String,
}

/// A tool result waiting to be committed to the conversation.
pub struct PendingCommittedToolResult {
    pub call_id: String,
    pub tool_name: String,
    pub result: ToolResult,
}

/// The result view a tool contributes to front ends (never sent to the model).
#[derive(Debug, Clone, PartialEq, Eq)]
pub enum ToolResultUiWire {
    /// A built-in result card, by its variant name.
    Builtin { variant: String },
}

/// Metadata key of a tool's front-end contribution.
pub const TOOL_UI_METADATA_KEY: &'static str = "toolUi";

/// Metadata key of the current interaction phase.
pub const TOOL_UI_PHASE_METADATA_KEY: &'static str = "toolUiPhase";

/// Whether a prepared call may run or was blocked before execution.
pub enum PreparedToolOutcome {
    Ready,
    Blocked(ToolResult),
}

/// A tool call ready for the pipeline: its position in the model's reply,
/// its input, how it may run and whether a hook already blocked it.
pub struct PreparedToolCall {
    pub index: usize,
    pub call_id: String,
    pub name: String,
    pub tool_input: serde_json::Value,
    pub mode: ExecutionMode,
    pub outcome: PreparedToolOutcome,
}

/// What an executor needs of a prepared call.
pub struct ExecutableToolCall {
    pub index: usize,
    pub call_id: String,
    pub name: String,
    pub tool_input: serde_json::Value,
}

/// How one prepared call proceeds.
pub enum ToolExecutionStep {
    Blocked(ToolResult),
    Parallel(ExecutableToolCall),
    Sequential(ExecutableToolCall),
}

impl PreparedToolCall {
    /// The executor's copy of this call.
    pub fn to_executable(&self) -> (r: ExecutableToolCall)
        ensures
            r.index == self.index,
            r.call_id@ == self.call_id@,
            r.name@ == self.name@,
            r.tool_input == self.tool_input,
    {
        ExecutableToolCall {
            index: self.index,
            call_id: to_string(self.call_id.as_str()),
            name: to_string(self.name.as_str()),
            tool_input: json_clone(&self.tool_input),
        }
    }
}

// ─── Error results ──────────────────────────────────────────────────────

pub const MCP_NOT_FOUND_SUGGESTION: &'static str =
    "Call `tool_search_tool` first to load the MCP tool schema, then retry with the exact `mcp__...` name from the search result.";

pub const NOT_FOUND_SUGGESTION: &'static str =
    "Use an exact tool name from the provider tool list. Match file paths with `glob` (`pattern` arg) and search contents with `grep`. For external MCP tools, call `tool_search_tool` first.";

pub const INVALID_ARGUMENTS_SUGGESTION: &'static str =
    "Re-read the parameter schema and retry with corrected arguments. Do not retry with the same arguments.";

pub const EXECUTION_SUGGESTION: &'static str =
    "Inspect the error above. Adjust arguments or pick a different approach. Do not retry the identical call.";

pub const BLOCKED_SUGGESTION: &'static str =
    "A hook policy prevented this. Read the reason and adjust your approach instead of retrying.";

pub const TIMEOUT_SUGGESTION: &'static str =
    "The process may still be running in the background. Use `task` to inspect or cancel it, or retry with a smaller scope.";

pub const INTERRUPTED_DETAIL: &'static str = "tool execution interrupted before completion";

/// The first line of an error result.
pub open spec fn error_message(tool_name: Seq<char>, err: ToolError) -> Seq<char> {
    match err {
        ToolError::NotFound(name) => "Tool `"@ + name@ + "` not found."@,
        ToolError::InvalidArguments(detail) => "Invalid arguments for `"@ + tool_name + "`: "@ + detail@,
        ToolError::Execution(detail) => "`"@ + tool_name + "` failed: "@ + detail@,
        ToolError::Blocked { reason } => "`"@ + tool_name + "` was blocked: "@ + reason@,
        ToolError::Timeout(ms) => "`"@ + tool_name + "` timed out after "@ + decimal(ms as nat) + "ms."@,
    }
}

/// The suggestion given with an error; `alias` is a known replacement for
/// a tool that was not found.
pub open spec fn error_suggestion(err: ToolError, alias: Option<Seq<char>>) -> Seq<char> {
    match err {
        ToolError::NotFound(name) => match alias {
            Some(a) => "Use `"@ + a + "` instead (exact name from the provider tool list)."@,
            None => if starts_with(name@, "mcp__"@) {
                MCP_NOT_FOUND_SUGGESTION@
            } else {
                NOT_FOUND_SUGGESTION@
            },
        },
        ToolError::InvalidArguments(_) => INVALID_ARGUMENTS_SUGGESTION@,
        ToolError::Execution(_) => EXECUTION_SUGGESTION@,
        ToolError::Blocked { .. } => BLOCKED_SUGGESTION@,
        ToolError::Timeout(_) => TIMEOUT_SUGGESTION@,
    }
}

/// What an error result tells the model: a missing tool is named by the
/// name the model asked for, and its suggestion points to a known alias
/// when there is one, to `tool_search_tool` for an `mcp__` name, and to the
/// exact tool list otherwise; every other failure names the failing tool
/// first.  Only a timeout carries its limit, with the background-task
/// suggestion; each kind of failure gets its own suggestion.
pub proof fn law_error_reports(tool_name: Seq<char>, err: ToolError, alias: Option<Seq<char>>)
    ensures
        err matches ToolError::NotFound(name) ==> {
            &&& error_message(tool_name, err) == "Tool `"@ + name@ + "` not found."@
            &&& alias matches Some(a) ==> error_suggestion(err, alias).subrange(5, 5 + a.len() as int) == a
            &&& alias is None && name@.len() >= 5 && name@.take(5) == seq!['m', 'c', 'p', '_', '_'] ==> error_suggestion(
                err,
                alias,
            ) == MCP_NOT_FOUND_SUGGESTION@
            &&& alias is None && !(name@.len() >= 5 && name@.take(5) == seq!['m', 'c', 'p', '_', '_']) ==> error_suggestion(
                err,
                alias,
            ) == NOT_FOUND_SUGGESTION@
        },
        !(err is NotFound) ==> error_message(tool_name, err).take(tool_name.len() as int + 2) == seq!['`'] + tool_name
            + seq!['`'] || error_message(tool_name, err).take(24 + tool_name.len() as int) == "Invalid arguments for `"@
            + tool_name + seq!['`'],
        error_timeout(err) == (if let ToolError::Timeout(ms) = err { Some(ms) } else { None }),
        err is Timeout ==> error_suggestion(err, alias) == TIMEOUT_SUGGESTION@,
        err is InvalidArguments ==> error_suggestion(err, alias) == INVALID_ARGUMENTS_SUGGESTION@,
        err is Execution ==> error_suggestion(err, alias) == EXECUTION_SUGGESTION@,
        err is Blocked ==> error_suggestion(err, alias) == BLOCKED_SUGGESTION@,
{
    reveal_strlit("mcp__");
    reveal_strlit("Use `");
    reveal_strlit("`");
    reveal_strlit("Invalid arguments for `");
    reveal_strlit("` failed: ");
    reveal_strlit("` was blocked: ");
    reveal_strlit("` timed out after ");
    reveal_strlit("`: ");
    assert("mcp__"@ == seq!['m', 'c', 'p', '_', '_']);
    match err {
        ToolError::NotFound(name) => {
            if let Some(a) = alias {
                let sg = "Use `"@ + a + "` instead (exact name from the provider tool list)."@;
                assert(sg.subrange(5, 5 + a.len() as int) =~= a);
            }
        },
        ToolError::InvalidArguments(detail) => {
            let m = "Invalid arguments for `"@ + tool_name + "`: "@ + detail@;
            assert(m.take(24 + tool_name.len() as int) =~= "Invalid arguments for `"@ + tool_name + seq!['`']);
        },
        ToolError::Execution(detail) => {
            let m = "`"@ + tool_name + "` failed: "@ + detail@;
            assert(m.take(tool_name.len() as int + 2) =~= seq!['`'] + tool_name + seq!['`']);
        },
        ToolError::Blocked { reason } => {
            let m = "`"@ + tool_name + "` was blocked: "@ + reason@;
            assert(m.take(tool_name.len() as int + 2) =~= seq!['`'] + tool_name + seq!['`']);
        },
        ToolError::Timeout(ms) => {
            let m = "`"@ + tool_name + "` timed out after "@ + decimal(ms as nat) + "ms."@;
            assert(m.take(tool_name.len() as int + 2) =~= seq!['`'] + tool_name + seq!['`']);
        },
    }
}

/// The text held by metadata member `key`, if it is a JSON string.
pub open spec fn meta_text(entries: Seq<(String, JsonValue)>, key: Seq<char>) -> Option<Seq<char>> {
    match entries_get(entries, key) {
        Some(JsonValue::String(s)) => Some(s@),
        _ => None,
    }
}

/// The decimal text held by metadata member `key`, if it is a JSON number.
pub open spec fn meta_number(entries: Seq<(String, JsonValue)>, key: Seq<char>) -> Option<Seq<char>> {
    match entries_get(entries, key) {
        Some(JsonValue::Number(s)) => Some(s@),
        _ => None,
    }
}

/// The flag held by metadata member `key`, if it is a JSON boolean.
pub open spec fn meta_flag(entries: Seq<(String, JsonValue)>, key: Seq<char>) -> Option<bool> {
    match entries_get(entries, key) {
        Some(JsonValue::Bool(b)) => Some(b),
        _ => None,
    }
}

/// The timeout of a `Timeout` error.
pub open spec fn error_timeout(err: ToolError) -> Option<u64> {
    match err {
        ToolError::Timeout(ms) => Some(ms),
        _ => None,
    }
}

/// `r` is an error result of call `call_id` of `tool_name` with `message`
/// and `suggestion`; a timeout is also recorded in the metadata.
pub open spec fn is_error_result(
    r: ToolResult,
    call_id: Seq<char>,
    tool_name: Seq<char>,
    message: Seq<char>,
    suggestion: Seq<char>,
    timeout_ms: Option<u64>,
    duration_ms: u64,
) -> bool {
    let text = message + "\nSuggestion: "@ + suggestion;
    &&& r.call_id@ == call_id
    &&& r.content@ == text
    &&& r.is_error
    &&& r.error matches Some(e) && e@ == text
    &&& r.duration_ms == Some(duration_ms)
    &&& meta_text(r.metadata@, "toolName"@) == Some(tool_name)
    &&& meta_text(r.metadata@, "suggestion"@) == Some(suggestion)
    &&& match timeout_ms {
        Some(ms) => {
            &&& meta_number(r.metadata@, "timeoutMs"@) == Some(decimal(ms as nat))
            &&& entry_keys(r.metadata@) == seq!["toolName"@, "suggestion"@, "timeoutMs"@]
        },
        None => entry_keys(r.metadata@) == seq!["toolName"@, "suggestion"@],
    }
}

/// The message of an interrupted call of `tool_name`.
pub open spec fn interrupted_message(tool_name: Seq<char>) -> Seq<char> {
    "`"@ + tool_name + "` failed: "@ + INTERRUPTED_DETAIL@
}

fn error_parts(tool_name: &str, err: &ToolError, alias: Option<&str>) -> (r: (String, String))
    ensures
        r.0@ == error_message(tool_name@, *err),
        r.1@ == error_suggestion(*err, match alias { Some(a) => Some(a@), None => None }),
{
    match err {
        ToolError::NotFound(name) => {
            let mut message = to_string("Tool `");
            push_str(&mut message, name.as_str());
            push_str(&mut message, "` not found.");
            let suggestion = match alias {
                Some(a) => {
                    let mut s = to_string("Use `");
                    push_str(&mut s, a);
                    push_str(&mut s, "` instead (exact name from the provider tool list).");
                    s
                },
                None => if str_starts_with(name.as_str(), "mcp__") {
                    to_string(MCP_NOT_FOUND_SUGGESTION)
                } else {
                    to_string(NOT_FOUND_SUGGESTION)
                },
            };
            (message, suggestion)
        },
        ToolError::InvalidArguments(detail) => {
            let mut message = to_string("Invalid arguments for `");
            push_str(&mut message, tool_name);
            push_str(&mut message, "`: ");
            push_str(&mut message, detail.as_str());
            (message, to_string(INVALID_ARGUMENTS_SUGGESTION))
        },
        ToolError::Execution(detail) => {
            let mut message = to_string("`");
            push_str(&mut message, tool_name);
            push_str(&mut message, "` failed: ");
            push_str(&mut message, detail.as_str());
            (message, to_string(EXECUTION_SUGGESTION))
        },
        ToolError::Blocked { reason } => {
            let mut message = to_string("`");
            push_str(&mut message, tool_name);
            push_str(&mut message, "` was blocked: ");
            push_str(&mut message, reason.as_str());
            (message, to_string(BLOCKED_SUGGESTION))
        },
        ToolError::Timeout(ms) => {
            let mut message = to_string("`");
            push_str(&mut message, tool_name);
            push_str(&mut message, "` timed out after ");
            push_str(&mut message, u64_to_decimal(*ms).as_str());
            push_str(&mut message, "ms.");
            (message, to_string(TIMEOUT_SUGGESTION))
        },
    }
}

/// The error result of a failed tool call: the message and a suggestion
/// for the model in the content, `toolName` and `suggestion` (and
/// `timeoutMs` for a timeout) in the metadata.  `alias` is the known
/// replacement for a tool that was not found, if there is one.
pub fn error_tool_result(
    call_id: String,
    tool_name: &str,
    err: ToolError,
    duration_ms: u64,
    alias: Option<&str>,
) -> (r: ToolResult)
    ensures
        is_error_result(
            r,
            call_id@,
            tool_name@,
            error_message(tool_name@, err),
            error_suggestion(err, match alias { Some(a) => Some(a@), None => None }),
            error_timeout(err),
            duration_ms,
        ),
{
    let (message, suggestion) = error_parts(tool_name, &err, alias);
    let mut text = message;
    push_str(&mut text, "\nSuggestion: ");
    push_str(&mut text, suggestion.as_str());
    let mut metadata: Vec<(String, JsonValue)> = Vec::new();
    metadata.push((to_string("toolName"), JsonValue::String(to_string(tool_name))));
    metadata.push((to_string("suggestion"), JsonValue::String(suggestion)));
    if let ToolError::Timeout(ms) = &err {
        metadata.push((to_string("timeoutMs"), JsonValue::Number(u64_to_decimal(*ms))));
    }
    proof {
        reveal_strlit("toolName");
        reveal_strlit("suggestion");
        reveal_strlit("timeoutMs");
        reveal_with_fuel(entries_get, 4);
        assert(entry_keys(metadata@) =~= metadata@.map_values(|e: (String, JsonValue)| e.0@));
    }
    let content = to_string(text.as_str());
    let r = ToolResult { call_id, content, is_error: true, error: Some(text), metadata, duration_ms: Some(duration_ms) };
    proof {
        let ali = match alias { Some(a) => Some(a@), None => None::<Seq<char>> };
        let tx = error_message(tool_name@, err) + "\nSuggestion: "@ + error_suggestion(err, ali);
        assert(r.content@ == tx);
        assert(meta_text(r.metadata@, "toolName"@) == Some(tool_name@));
        assert("toolName"@.len() != "suggestion"@.len());
        assert(r.metadata@[0].0@ != "suggestion"@);
        assert(r.metadata@.drop_first()[0] == r.metadata@[1]);
        assert(r.metadata@[1].0@ == "suggestion"@);
        assert(entries_get(r.metadata@.drop_first(), "suggestion"@) == Some(r.metadata@[1].1));
        assert(meta_text(r.metadata@, "suggestion"@) == Some(error_suggestion(err, ali)));
        assert(error_timeout(err) is None ==> entry_keys(r.metadata@) == seq!["toolName"@, "suggestion"@]);
        if let ToolError::Timeout(ms) = err {
            let m = r.metadata@;
            assert(m.len() == 3);
            assert("toolName"@.len() != "timeoutMs"@.len());
            assert("suggestion"@.len() != "timeoutMs"@.len());
            assert(m.drop_first().drop_first()[0] == m[2]);
            assert(entries_get(m.drop_first().drop_first(), "timeoutMs"@) == Some(m[2].1));
            assert(entries_get(m.drop_first(), "timeoutMs"@) == Some(m[2].1));
            assert(meta_number(m, "timeoutMs"@) == Some(decimal(ms as nat)));
            assert(entry_keys(m) =~= seq!["toolName"@, "suggestion"@, "timeoutMs"@]);
        }
    }
    r
}

/// The error result of a call stopped before it finished (cancellation,
/// abort, protocol repair).
pub fn interrupted_tool_result(call_id: String, tool_name: &str, duration_ms: u64) -> (r: ToolResult)
    ensures
        is_error_result(r, call_id@, tool_name@, interrupted_message(tool_name@), EXECUTION_SUGGESTION@, None, duration_ms),
{
    error_tool_result(call_id, tool_name, ToolError::Execution(to_string(INTERRUPTED_DETAIL)), duration_ms, None)
}

// ─── Background policy ──────────────────────────────────────────────────

/// The policy in force for one call: an explicit boolean
/// `runInBackground` in the input overrides the tool's declared policy
/// (`true` backgrounds at once, `false` never); anything else keeps it.
pub open spec fn effective_policy(declared: BackgroundPolicy, tool_input: JsonValue) -> BackgroundPolicy {
    match json_get(tool_input, "runInBackground"@) {
        Some(JsonValue::Bool(true)) => BackgroundPolicy::AutoAfter { threshold_secs: 0 },
        Some(JsonValue::Bool(false)) => BackgroundPolicy::Never,
        _ => declared,
    }
}

/// Decides the background policy of a call from the tool's declared
/// policy and the call's `runInBackground` argument.
pub fn resolve_effective_policy(declared: BackgroundPolicy, tool_input: &JsonValue) -> (r: BackgroundPolicy)
    ensures
        r == effective_policy(declared, *tool_input),
{
    match json_get_member(tool_input, "runInBackground") {
        Some(JsonValue::Bool(b)) => if *b {
            BackgroundPolicy::AutoAfter { threshold_secs: 0 }
        } else {
            BackgroundPolicy::Never
        },
        _ => declared,
    }
}

/// `entries` without the members named `key`.
pub open spec fn entries_without(entries: Seq<(String, JsonValue)>, key: Seq<char>) -> Seq<(String, JsonValue)>
    decreases entries.len(),
{
    if entries.len() == 0 {
        seq![]
    } else if entries.last().0@ == key {
        entries_without(entries.drop_last(), key)
    } else {
        entries_without(entries.drop_last(), key).push(entries.last())
    }
}

proof fn lemma_get_push_other(e: Seq<(String, JsonValue)>, x: (String, JsonValue), k: Seq<char>)
    ensures
        entries_get(e.push(x), k) == (match entries_get(e, k) {
            Some(v) => Some(v),
            None => if x.0@ == k { Some(x.1) } else { None },
        }),
    decreases e.len(),
{
    if e.len() > 0 {
        assert(e.push(x).drop_first() =~= e.drop_first().push(x));
        assert(e.push(x)[0] == e[0]);
        lemma_get_push_other(e.drop_first(), x, k);
    } else {
        assert(e.push(x).drop_first().len() == 0);
        assert(e.push(x)[0] == x);
        assert(entries_get(e.push(x).drop_first(), k) is None);
    }
}

proof fn lemma_get_without(e: Seq<(String, JsonValue)>, key: Seq<char>, k: Seq<char>)
    ensures
        entries_get(entries_without(e, key), k) == (if k == key { None } else { entries_get(e, k) }),
    decreases e.len(),
{
    if e.len() > 0 {
        lemma_get_without(e.drop_last(), key, k);
        lemma_get_push_other(e.drop_last(), e.last(), k);
        assert(e.drop_last().push(e.last()) =~= e);
        if e.last().0@ != key {
            lemma_get_push_other(entries_without(e.drop_last(), key), e.last(), k);
        }
    }
}

/// `value` with member `key` removed when it is an object; anything else
/// is returned unchanged.  The run-in-background switch is taken out of a
/// call's input this way before the tool sees it.
pub fn without_member(value: JsonValue, key: &str) -> (r: JsonValue)
    ensures
        match value {
            JsonValue::Object(entries) => r matches JsonValue::Object(kept) && kept@ == entries_without(entries@, key@),
            _ => r == value,
        },
        value is Object ==> json_get(r, key@) is None,
        forall|k: Seq<char>| k != key@ ==> json_get(r, k) == json_get(value, k),
{
    match value {
        JsonValue::Object(entries) => {
            let ghost e0 = entries@;
            let mut kept: Vec<(String, JsonValue)> = Vec::new();
            let mut rest = entries;
            let n = rest.len();
            let mut i: usize = 0;
            proof {
                assert(e0.take(0) =~= Seq::<(String, JsonValue)>::empty());
                assert(rest@ =~= e0.skip(0));
            }
            while i < n
                invariant
                    n == e0.len(),
                    0 <= i <= n,
                    rest@ == e0.skip(i as int),
                    kept@ == entries_without(e0.take(i as int), key@),
                decreases n - i,
            {
                let item = rest.remove(0);
                proof {
                    assert(item == e0[i as int]);
                    assert(rest@ =~= e0.skip(i + 1));
                    assert(e0.take(i + 1).drop_last() =~= e0.take(i as int));
                    assert(e0.take(i + 1).last() == e0[i as int]);
                }
                if !crate::text::str_eq(item.0.as_str(), key) {
                    kept.push(item);
                }
                i = i + 1;
            }
            proof {
                assert(e0.take(n as int) =~= e0);
                assert forall|k: Seq<char>| k != key@ implies entries_get(kept@, k) == entries_get(e0, k) by {
                    lemma_get_without(e0, key@, k);
                }
                lemma_get_without(e0, key@, key@);
            }
            JsonValue::Object(kept)
        },
        other => other,
    }
}

// ─── Background tasks ───────────────────────────────────────────────────

/// Content of the placeholder result of a call moved to the background.
pub open spec fn placeholder_content(task_id: Seq<char>, command: Option<Seq<char>>) -> Seq<char> {
    let base = "Task moved to background (task: "@ + task_id + "). The result will be available in the next turn."@;
    match command {
        Some(cmd) => base + " Command: "@ + cmd,
        None => base,
    }
}

/// The view of an optional `&str`.
pub open spec fn opt_str_view(o: Option<&str>) -> Option<Seq<char>> {
    match o {
        Some(s) => Some(s@),
        None => None,
    }
}

/// The placeholder result handed to the model when a call moves to the
/// background: it names the task (and the command, if any) and says the
/// result comes in the next turn; the metadata marks it `backgrounded`
/// with its `taskId`.
pub fn backgrounded_placeholder_result(call_id: &str, task_id: &str, tool_name: &str, command: Option<&str>) -> (r: ToolResult)
    ensures
        r.call_id@ == call_id@,
        r.content@ == placeholder_content(task_id@, opt_str_view(command)),
        !r.is_error,
        r.error is None,
        r.duration_ms is None,
        meta_flag(r.metadata@, "backgrounded"@) == Some(true),
        meta_text(r.metadata@, "taskId"@) == Some(task_id@),
        entry_keys(r.metadata@) == seq!["backgrounded"@, "taskId"@],
{
    let mut content = to_string("Task moved to background (task: ");
    push_str(&mut content, task_id);
    push_str(&mut content, "). The result will be available in the next turn.");
    if let Some(cmd) = command {
        push_str(&mut content, " Command: ");
        push_str(&mut content, cmd);
    }
    let mut metadata: Vec<(String, JsonValue)> = Vec::new();
    metadata.push((to_string("backgrounded"), JsonValue::Bool(true)));
    metadata.push((to_string("taskId"), JsonValue::String(to_string(task_id))));
    proof {
        reveal_strlit("backgrounded");
        reveal_strlit("taskId");
        let m = metadata@;
        assert("backgrounded"@.len() != "taskId"@.len());
        assert(m.drop_first()[0] == m[1]);
        assert(entries_get(m.drop_first(), "taskId"@) == Some(m[1].1));
        assert(entry_keys(m) =~= seq!["backgrounded"@, "taskId"@]);
    }
    ToolResult { call_id: to_string(call_id), content, is_error: false, error: None, metadata, duration_ms: None }
}

/// The system text that hands a finished background task's result to the
/// next turn.
pub open spec fn completed_task_text(tool_name: Seq<char>, is_error: bool, error: Option<Seq<char>>, content: Seq<char>) -> Seq<char> {
    let exit_info = if is_error {
        "Failed: "@ + match error {
            Some(e) => e,
            None => "unknown error"@,
        }
    } else {
        "Completed successfully."@
    };
    "<completed-background-task>\nTool: "@ + tool_name + "\n"@ + exit_info + "\nOutput:\n"@ + content
        + "\n</completed-background-task>"@
}

/// The optional string's view.
pub open spec fn opt_string_view(o: Option<String>) -> Option<Seq<char>> {
    match o {
        Some(s) => Some(s@),
        None => None,
    }
}

/// Context message for a background task that finished: the tool, how it
/// ended and its output.
pub fn completed_task_context_message(tool_name: &str, result: &ToolResult) -> (r: String)
    ensures
        r@ == completed_task_text(tool_name@, result.is_error, opt_string_view(result.error), result.content@),
{
    let mut r = to_string("<completed-background-task>\nTool: ");
    push_str(&mut r, tool_name);
    push_str(&mut r, "\n");
    if result.is_error {
        push_str(&mut r, "Failed: ");
        match &result.error {
            Some(e) => push_str(&mut r, e.as_str()),
            None => push_str(&mut r, "unknown error"),
        }
    } else {
        push_str(&mut r, "Completed successfully.");
    }
    push_str(&mut r, "\nOutput:\n");
    push_str(&mut r, result.content.as_str());
    push_str(&mut r, "\n</completed-background-task>");
    r
}

pub const FOREGROUND_MISSING_RESULT: &'static str = "tool task completed but no result available";

pub const BACKGROUND_MISSING_RESULT: &'static str = "background task completed but no result available";

pub const PANICKED_DETAIL: &'static str = "tool task panicked before completion";

/// The text of an optional alias.
pub open spec fn alias_view(alias: Option<&str>) -> Option<Seq<char>> {
    match alias {
        Some(a) => Some(a@),
        None => None,
    }
}

/// What the execution slot held when a call finished: the tool's own
/// result (stamped with the call id and duration), the error result of
/// its failure (`alias` being the known replacement of a tool that was not
/// found), or the error result for `missing` when it held nothing.
pub open spec fn is_finished_result(
    r: ToolResult,
    raw: Option<Result<ToolResult, ToolError>>,
    call_id: Seq<char>,
    tool_name: Seq<char>,
    duration_ms: u64,
    missing: Seq<char>,
    alias: Option<Seq<char>>,
) -> bool {
    match raw {
        Some(Ok(t)) => {
            &&& r.call_id@ == call_id
            &&& r.content == t.content
            &&& r.is_error == t.is_error
            &&& r.error == t.error
            &&& r.metadata == t.metadata
            &&& r.duration_ms == Some(duration_ms)
        },
        Some(Err(e)) => is_error_result(
            r,
            call_id,
            tool_name,
            error_message(tool_name, e),
            error_suggestion(e, alias),
            error_timeout(e),
            duration_ms,
        ),
        None => is_error_result(
            r,
            call_id,
            tool_name,
            "`"@ + tool_name + "` failed: "@ + missing,
            EXECUTION_SUGGESTION@,
            None,
            duration_ms,
        ),
    }
}

/// The result of a finished call from what its execution produced; `alias`
/// is the known replacement of a tool that was not found, if any.
pub fn finished_result(
    raw: Option<Result<ToolResult, ToolError>>,
    call_id: &str,
    tool_name: &str,
    duration_ms: u64,
    missing: &str,
    alias: Option<&str>,
) -> (r: ToolResult)
    ensures
        is_finished_result(r, raw, call_id@, tool_name@, duration_ms, missing@, alias_view(alias)),
{
    match raw {
        Some(Ok(t)) => ToolResult {
            call_id: to_string(call_id),
            content: t.content,
            is_error: t.is_error,
            error: t.error,
            metadata: t.metadata,
            duration_ms: Some(duration_ms),
        },
        Some(Err(e)) => error_tool_result(to_string(call_id), tool_name, e, duration_ms, alias),
        None => error_tool_result(to_string(call_id), tool_name, ToolError::Execution(to_string(missing)), duration_ms, None),
    }
}

/// Content of a background result whose output was written to disk.
pub open spec fn persisted_content(is_error: bool, task_id: Seq<char>, bytes: nat, duration_ms: Option<u64>) -> Seq<char> {
    "Background task "@ + (if is_error { "failed"@ } else { "completed"@ }) + " (task: "@ + task_id + ", output: "@
        + decimal(bytes) + " bytes)"@ + match duration_ms {
        Some(ms) => " ("@ + decimal(ms as nat) + "ms)"@,
        None => seq![],
    } + ".\nUse `task action=result taskId=\""@ + task_id + "\"` to read the output."@
}

/// The final result of a call that ran in the background: the finished
/// result marked with its `task_id`; when its output was persisted
/// (`output_bytes`), the content becomes a short note pointing at the
/// stored output and `outputPersisted` is set.
pub fn background_completion_result(
    raw: Option<Result<ToolResult, ToolError>>,
    call_id: &str,
    tool_name: &str,
    task_id: &str,
    duration_ms: u64,
    output_bytes: Option<usize>,
    alias: Option<&str>,
) -> (r: ToolResult)
    ensures
        exists|f: ToolResult| {
            &&& #[trigger] is_finished_result(
                f,
                raw,
                call_id@,
                tool_name@,
                duration_ms,
                BACKGROUND_MISSING_RESULT@,
                alias_view(alias),
            )
            &&& r.call_id == f.call_id
            &&& r.is_error == f.is_error
            &&& r.error == f.error
            &&& r.duration_ms == f.duration_ms
            &&& meta_text(r.metadata@, "task_id"@) == Some(task_id@)
            &&& match output_bytes {
                Some(bytes) => {
                    &&& r.content@ == persisted_content(f.is_error, task_id@, bytes as nat, f.duration_ms)
                    &&& meta_flag(r.metadata@, "outputPersisted"@) == Some(true)
                    &&& forall|k: Seq<char>| k != "task_id"@ && k != "outputPersisted"@
                        ==> #[trigger] entries_get(r.metadata@, k) == entries_get(f.metadata@, k)
                },
                None => {
                    &&& r.content == f.content
                    &&& forall|k: Seq<char>| k != "task_id"@ ==> #[trigger] entries_get(r.metadata@, k) == entries_get(f.metadata@, k)
                },
            }
        },
{
    let mut result = finished_result(raw, call_id, tool_name, duration_ms, BACKGROUND_MISSING_RESULT, alias);
    let ghost f = result;
    entries_insert(&mut result.metadata, "task_id", JsonValue::String(to_string(task_id)));
    if let Some(bytes) = output_bytes {
        let mut content = to_string("Background task ");
        push_str(&mut content, if result.is_error { "failed" } else { "completed" });
        push_str(&mut content, " (task: ");
        push_str(&mut content, task_id);
        push_str(&mut content, ", output: ");
        push_str(&mut content, usize_to_decimal(bytes).as_str());
        push_str(&mut content, " bytes)");
        if let Some(ms) = result.duration_ms {
            push_str(&mut content, " (");
            push_str(&mut content, u64_to_decimal(ms).as_str());
            push_str(&mut content, "ms)");
        }
        push_str(&mut content, ".\nUse `task action=result taskId=\"");
        push_str(&mut content, task_id);
        push_str(&mut content, "\"` to read the output.");
        result.content = content;
        entries_insert(&mut result.metadata, "outputPersisted", JsonValue::Bool(true));
        proof {
            reveal_strlit("task_id");
            reveal_strlit("outputPersisted");
            assert("task_id"@.len() != "outputPersisted"@.len());
        }
    }
    result
}

/// How waiting on a call that may move to the background ended.
pub enum BackgroundWait {
    /// The turn was cancelled first.
    Cancelled,
    /// The call finished within the threshold; the slot's content.
    Finished(Option<Result<ToolResult, ToolError>>),
    /// The execution task ended without reporting.
    Panicked,
    /// The threshold passed; the call continues in the background.
    TimedOut,
}

/// Why a call moved to the background: `explicit` for a zero threshold,
/// `auto_threshold` otherwise.
pub fn background_reason(threshold_secs: u64) -> (r: &'static str)
    ensures
        r@ == (if threshold_secs == 0 { "explicit"@ } else { "auto_threshold"@ }),
{
    if threshold_secs == 0 { "explicit" } else { "auto_threshold" }
}

/// The `command` argument of a call, when it is a string.
pub open spec fn input_command(tool_input: JsonValue) -> Option<Seq<char>> {
    match json_get(tool_input, "command"@) {
        Some(JsonValue::String(s)) => Some(s@),
        _ => None,
    }
}

/// The result the model receives for a call that may move to the
/// background, from how the wait ended: the interrupted result on
/// cancellation, the finished result within the threshold (`alias` being
/// the known replacement of a tool that was not found), an error when the
/// execution task died, and the placeholder when it timed out.
pub fn settle_background_wait(
    wait: BackgroundWait,
    call_id: &str,
    tool_name: &str,
    task_id: &str,
    tool_input: &JsonValue,
    elapsed_ms: u64,
    alias: Option<&str>,
) -> (r: ToolResult)
    ensures
        match wait {
            BackgroundWait::Cancelled => is_error_result(
                r, call_id@, tool_name@, interrupted_message(tool_name@), EXECUTION_SUGGESTION@, None, elapsed_ms),
            BackgroundWait::Finished(raw) => is_finished_result(
                r, raw, call_id@, tool_name@, elapsed_ms, FOREGROUND_MISSING_RESULT@, alias_view(alias)),
            BackgroundWait::Panicked => is_error_result(
                r, call_id@, tool_name@, "`"@ + tool_name@ + "` failed: "@ + PANICKED_DETAIL@, EXECUTION_SUGGESTION@,
                None, elapsed_ms),
            BackgroundWait::TimedOut => {
                &&& r.call_id@ == call_id@
                &&& r.content@ == placeholder_content(task_id@, input_command(*tool_input))
                &&& !r.is_error
                &&& r.error is None
                &&& r.duration_ms is None
                &&& meta_flag(r.metadata@, "backgrounded"@) == Some(true)
                &&& meta_text(r.metadata@, "taskId"@) == Some(task_id@)
                &&& entry_keys(r.metadata@) == seq!["backgrounded"@, "taskId"@]
            },
        },
{
    match wait {
        BackgroundWait::Cancelled => interrupted_tool_result(to_string(call_id), tool_name, elapsed_ms),
        BackgroundWait::Finished(raw) => finished_result(
            raw, call_id, tool_name, elapsed_ms, FOREGROUND_MISSING_RESULT, alias),
        BackgroundWait::Panicked => error_tool_result(
            to_string(call_id), tool_name, ToolError::Execution(to_string(PANICKED_DETAIL)), elapsed_ms, None),
        BackgroundWait::TimedOut => {
            let command = match json_get_member(tool_input, "command") {
                Some(JsonValue::String(s)) => Some(s.as_str()),
                _ => None,
            };
            backgrounded_placeholder_result(call_id, task_id, tool_name, command)
        },
    }
}

/// What the waiting call does to its task's registry entry once the wait
/// ended.
#[derive(Clone, Copy, Debug, PartialEq, Eq, Structural)]
pub enum RegistryAction {
    /// Abort the task and drop its entry.
    Cancel,
    /// Drop the entry of the finished task.
    Remove,
    /// Leave the entry: the task runs on (or died without reporting).
    Keep,
}

/// The registry step after a wait: a cancelled turn cancels the task, a
/// call that finished within the threshold is unregistered, and a task
/// that moved to the background (or died) keeps its entry.
pub fn wait_registry_action(wait: &BackgroundWait) -> (r: RegistryAction)
    ensures
        match *wait {
            BackgroundWait::Cancelled => r == RegistryAction::Cancel,
            BackgroundWait::Finished(_) => r == RegistryAction::Remove,
            BackgroundWait::Panicked => r == RegistryAction::Keep,
            BackgroundWait::TimedOut => r == RegistryAction::Keep,
        },
{
    match wait {
        BackgroundWait::Cancelled => RegistryAction::Cancel,
        BackgroundWait::Finished(_) => RegistryAction::Remove,
        BackgroundWait::Panicked => RegistryAction::Keep,
        BackgroundWait::TimedOut => RegistryAction::Keep,
    }
}

/// The result recorded for a background call found unfinished when a
/// session is repaired: an error naming the interruption, with `task_id`.
pub fn interrupted_background_tool_result(call_id: &str, task_id: &str) -> (r: ToolResult)
    ensures
        r.call_id@ == call_id@,
        r.content@ == "Background task interrupted before completion"@,
        r.is_error,
        r.error matches Some(e) && e@ == r.content@,
        r.duration_ms is None,
        meta_text(r.metadata@, "task_id"@) == Some(task_id@),
        entry_keys(r.metadata@) == seq!["task_id"@],
{
    let content = to_string("Background task interrupted before completion");
    let mut metadata: Vec<(String, JsonValue)> = Vec::new();
    metadata.push((to_string("task_id"), JsonValue::String(to_string(task_id))));
    proof {
        assert(entry_keys(metadata@) =~= seq!["task_id"@]);
    }
    ToolResult {
        call_id: to_string(call_id),
        content: to_string(content.as_str()),
        is_error: true,
        error: Some(content),
        metadata,
        duration_ms: None,
    }
}

} // verus!
