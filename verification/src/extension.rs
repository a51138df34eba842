//! Extension protocol vocabulary: lifecycle events, hook modes and tool
//! execution modes, with their WASM ABI discriminants and s6r wire names.

use vstd::prelude::*;
use crate::text::str_eq;

verus! {

/// Lifecycle events an extension can subscribe to.
#[derive(Clone, Copy, Debug, PartialEq, Eq, Structural)]
pub enum ExtensionEvent {
    SessionStart,
    SessionShutdown,
    TurnStart,
    TurnEnd,
    PreToolUse,
    PostToolUse,
    BeforeProviderRequest,
    AfterProviderResponse,
    UserPromptSubmit,
    PromptBuild,
    PreCompact,
    PostCompact,
    TurnAborted,
    PostToolUseFailure,
    StepStart,
    StepEnd,
    PostRecap,
    SessionResume,
}

/// How the host treats a hook's answer.
#[derive(Clone, Copy, Debug, PartialEq, Eq, Structural)]
pub enum HookMode {
    Blocking,
    NonBlocking,
    Advisory,
}

/// Whether a tool may run alongside others.
#[derive(Clone, Copy, Debug, PartialEq, Eq, Structural)]
pub enum ExecutionMode {
    Sequential,
    Parallel,
}

// ─── Tables ─────────────────────────────────────────────────────────────

/// The ABI code of each event.
pub open spec fn event_code(e: ExtensionEvent) -> u8 {
    match e {
        ExtensionEvent::SessionStart => 0,
        ExtensionEvent::SessionShutdown => 1,
        ExtensionEvent::TurnStart => 2,
        ExtensionEvent::TurnEnd => 3,
        ExtensionEvent::PreToolUse => 4,
        ExtensionEvent::PostToolUse => 5,
        ExtensionEvent::BeforeProviderRequest => 6,
        ExtensionEvent::AfterProviderResponse => 7,
        ExtensionEvent::UserPromptSubmit => 8,
        ExtensionEvent::PromptBuild => 9,
        ExtensionEvent::PreCompact => 10,
        ExtensionEvent::PostCompact => 11,
        ExtensionEvent::TurnAborted => 12,
        ExtensionEvent::PostToolUseFailure => 13,
        ExtensionEvent::StepStart => 14,
        ExtensionEvent::StepEnd => 15,
        ExtensionEvent::PostRecap => 16,
        ExtensionEvent::SessionResume => 17,
    }
}

/// The s6r wire name of each event.
pub open spec fn event_name(e: ExtensionEvent) -> Seq<char> {
    match e {
        ExtensionEvent::SessionStart => "session_start"@,
        ExtensionEvent::SessionResume => "session_resume"@,
        ExtensionEvent::SessionShutdown => "session_shutdown"@,
        ExtensionEvent::TurnStart => "turn_start"@,
        ExtensionEvent::TurnEnd => "turn_end"@,
        ExtensionEvent::TurnAborted => "turn_aborted"@,
        ExtensionEvent::StepStart => "step_start"@,
        ExtensionEvent::StepEnd => "step_end"@,
        ExtensionEvent::PreToolUse => "pre_tool_use"@,
        ExtensionEvent::PostToolUse => "post_tool_use"@,
        ExtensionEvent::PostToolUseFailure => "post_tool_use_failure"@,
        ExtensionEvent::BeforeProviderRequest => "before_provider_request"@,
        ExtensionEvent::AfterProviderResponse => "after_provider_response"@,
        ExtensionEvent::UserPromptSubmit => "user_prompt_submit"@,
        ExtensionEvent::PromptBuild => "prompt_build"@,
        ExtensionEvent::PreCompact => "pre_compact"@,
        ExtensionEvent::PostCompact => "post_compact"@,
        ExtensionEvent::PostRecap => "post_recap"@,
    }
}

/// The ABI code of each hook mode.
pub open spec fn mode_code(m: HookMode) -> u8 {
    match m {
        HookMode::Blocking => 0,
        HookMode::NonBlocking => 1,
        HookMode::Advisory => 2,
    }
}

/// The s6r wire name of each hook mode.
pub open spec fn mode_name(m: HookMode) -> Seq<char> {
    match m {
        HookMode::Blocking => "blocking"@,
        HookMode::NonBlocking => "non_blocking"@,
        HookMode::Advisory => "advisory"@,
    }
}

/// The ABI code of each execution mode.
pub open spec fn execution_code(m: ExecutionMode) -> u8 {
    match m {
        ExecutionMode::Sequential => 0,
        ExecutionMode::Parallel => 1,
    }
}

// ─── WASM ABI discriminants ─────────────────────────────────────────────

/// ABI code of `event`.
pub fn event_discriminant(event: ExtensionEvent) -> (r: u8)
    ensures
        r == event_code(event),
{
    match event {
        ExtensionEvent::SessionStart => 0,
        ExtensionEvent::SessionShutdown => 1,
        ExtensionEvent::TurnStart => 2,
        ExtensionEvent::TurnEnd => 3,
        ExtensionEvent::PreToolUse => 4,
        ExtensionEvent::PostToolUse => 5,
        ExtensionEvent::BeforeProviderRequest => 6,
        ExtensionEvent::AfterProviderResponse => 7,
        ExtensionEvent::UserPromptSubmit => 8,
        ExtensionEvent::PromptBuild => 9,
        ExtensionEvent::PreCompact => 10,
        ExtensionEvent::PostCompact => 11,
        ExtensionEvent::TurnAborted => 12,
        ExtensionEvent::PostToolUseFailure => 13,
        ExtensionEvent::StepStart => 14,
        ExtensionEvent::StepEnd => 15,
        ExtensionEvent::PostRecap => 16,
        ExtensionEvent::SessionResume => 17,
    }
}

/// The event whose ABI code is `d`; `None` for codes outside `0..18`.
pub fn event_from_discriminant(d: u8) -> (r: Option<ExtensionEvent>)
    ensures
        match r {
            Some(e) => event_code(e) == d,
            None => forall|e: ExtensionEvent| event_code(e) != d,
        },
        r is None <==> d >= 18,
{
    match d {
        0 => Some(ExtensionEvent::SessionStart),
        1 => Some(ExtensionEvent::SessionShutdown),
        2 => Some(ExtensionEvent::TurnStart),
        3 => Some(ExtensionEvent::TurnEnd),
        4 => Some(ExtensionEvent::PreToolUse),
        5 => Some(ExtensionEvent::PostToolUse),
        6 => Some(ExtensionEvent::BeforeProviderRequest),
        7 => Some(ExtensionEvent::AfterProviderResponse),
        8 => Some(ExtensionEvent::UserPromptSubmit),
        9 => Some(ExtensionEvent::PromptBuild),
        10 => Some(ExtensionEvent::PreCompact),
        11 => Some(ExtensionEvent::PostCompact),
        12 => Some(ExtensionEvent::TurnAborted),
        13 => Some(ExtensionEvent::PostToolUseFailure),
        14 => Some(ExtensionEvent::StepStart),
        15 => Some(ExtensionEvent::StepEnd),
        16 => Some(ExtensionEvent::PostRecap),
        17 => Some(ExtensionEvent::SessionResume),
        _ => None,
    }
}

/// ABI code of `mode`.
pub fn mode_discriminant(mode: HookMode) -> (r: u8)
    ensures
        r == mode_code(mode),
{
    match mode {
        HookMode::Blocking => 0,
        HookMode::NonBlocking => 1,
        HookMode::Advisory => 2,
    }
}

/// The hook mode whose ABI code is `d`; `None` for codes above 2.
pub fn mode_from_discriminant(d: u8) -> (r: Option<HookMode>)
    ensures
        match r {
            Some(m) => mode_code(m) == d,
            None => forall|m: HookMode| mode_code(m) != d,
        },
        r is None <==> d >= 3,
{
    match d {
        0 => Some(HookMode::Blocking),
        1 => Some(HookMode::NonBlocking),
        2 => Some(HookMode::Advisory),
        _ => None,
    }
}

/// ABI code of `mode`.
pub fn execution_mode_discriminant(mode: ExecutionMode) -> (r: u8)
    ensures
        r == execution_code(mode),
{
    match mode {
        ExecutionMode::Sequential => 0,
        ExecutionMode::Parallel => 1,
    }
}

/// Code `1` is `Parallel`; every other code falls back to `Sequential`.
pub fn execution_mode_from_discriminant(d: u8) -> (r: ExecutionMode)
    ensures
        r == (if d == 1 { ExecutionMode::Parallel } else { ExecutionMode::Sequential }),
{
    match d {
        1 => ExecutionMode::Parallel,
        _ => ExecutionMode::Sequential,
    }
}

// ─── s6r names ──────────────────────────────────────────────────────────

/// The event named `name` on the wire; `None` for unknown names.
pub fn event_from_name(name: &str) -> (r: Option<ExtensionEvent>)
    ensures
        match r {
            Some(e) => event_name(e) == name@,
            None => forall|e: ExtensionEvent| event_name(e) != name@,
        },
{
    if str_eq(name, "session_start") {
        Some(ExtensionEvent::SessionStart)
    } else if str_eq(name, "session_resume") {
        Some(ExtensionEvent::SessionResume)
    } else if str_eq(name, "session_shutdown") {
        Some(ExtensionEvent::SessionShutdown)
    } else if str_eq(name, "turn_start") {
        Some(ExtensionEvent::TurnStart)
    } else if str_eq(name, "turn_end") {
        Some(ExtensionEvent::TurnEnd)
    } else if str_eq(name, "turn_aborted") {
        Some(ExtensionEvent::TurnAborted)
    } else if str_eq(name, "step_start") {
        Some(ExtensionEvent::StepStart)
    } else if str_eq(name, "step_end") {
        Some(ExtensionEvent::StepEnd)
    } else if str_eq(name, "pre_tool_use") {
        Some(ExtensionEvent::PreToolUse)
    } else if str_eq(name, "post_tool_use") {
        Some(ExtensionEvent::PostToolUse)
    } else if str_eq(name, "post_tool_use_failure") {
        Some(ExtensionEvent::PostToolUseFailure)
    } else if str_eq(name, "before_provider_request") {
        Some(ExtensionEvent::BeforeProviderRequest)
    } else if str_eq(name, "after_provider_response") {
        Some(ExtensionEvent::AfterProviderResponse)
    } else if str_eq(name, "user_prompt_submit") {
        Some(ExtensionEvent::UserPromptSubmit)
    } else if str_eq(name, "prompt_build") {
        Some(ExtensionEvent::PromptBuild)
    } else if str_eq(name, "pre_compact") {
        Some(ExtensionEvent::PreCompact)
    } else if str_eq(name, "post_compact") {
        Some(ExtensionEvent::PostCompact)
    } else if str_eq(name, "post_recap") {
        Some(ExtensionEvent::PostRecap)
    } else {
        None
    }
}

/// The hook mode named `name` on the wire; `None` for unknown names.
pub fn mode_from_name(name: &str) -> (r: Option<HookMode>)
    ensures
        match r {
            Some(m) => mode_name(m) == name@,
            None => forall|m: HookMode| mode_name(m) != name@,
        },
{
    if str_eq(name, "blocking") {
        Some(HookMode::Blocking)
    } else if str_eq(name, "non_blocking") {
        Some(HookMode::NonBlocking)
    } else if str_eq(name, "advisory") {
        Some(HookMode::Advisory)
    } else {
        None
    }
}

/// Wire name of `event`.
pub fn event_to_name(event: &ExtensionEvent) -> (r: &'static str)
    ensures
        r@ == event_name(*event),
{
    match event {
        ExtensionEvent::SessionStart => "session_start",
        ExtensionEvent::SessionResume => "session_resume",
        ExtensionEvent::SessionShutdown => "session_shutdown",
        ExtensionEvent::TurnStart => "turn_start",
        ExtensionEvent::TurnEnd => "turn_end",
        ExtensionEvent::TurnAborted => "turn_aborted",
        ExtensionEvent::StepStart => "step_start",
        ExtensionEvent::StepEnd => "step_end",
        ExtensionEvent::PreToolUse => "pre_tool_use",
        ExtensionEvent::PostToolUse => "post_tool_use",
        ExtensionEvent::PostToolUseFailure => "post_tool_use_failure",
        ExtensionEvent::BeforeProviderRequest => "before_provider_request",
        ExtensionEvent::AfterProviderResponse => "after_provider_response",
        ExtensionEvent::UserPromptSubmit => "user_prompt_submit",
        ExtensionEvent::PromptBuild => "prompt_build",
        ExtensionEvent::PreCompact => "pre_compact",
        ExtensionEvent::PostCompact => "post_compact",
        ExtensionEvent::PostRecap => "post_recap",
    }
}

// ─── Laws ───────────────────────────────────────────────────────────────

/// Decoding the ABI code of an event gives the event back.
pub proof fn law_event_discriminant_roundtrip(e: ExtensionEvent)
    ensures
        event_code(e) < 18,
        forall|f: ExtensionEvent| event_code(f) == event_code(e) ==> f == e,
{
}

/// Every code below 18 is the code of exactly one event.
pub proof fn law_event_discriminant_onto(d: u8)
    requires
        d < 18,
    ensures
        exists|e: ExtensionEvent| event_code(e) == d,
{
    let e = if d == 0 { ExtensionEvent::SessionStart }
        else if d == 1 { ExtensionEvent::SessionShutdown }
        else if d == 2 { ExtensionEvent::TurnStart }
        else if d == 3 { ExtensionEvent::TurnEnd }
        else if d == 4 { ExtensionEvent::PreToolUse }
        else if d == 5 { ExtensionEvent::PostToolUse }
        else if d == 6 { ExtensionEvent::BeforeProviderRequest }
        else if d == 7 { ExtensionEvent::AfterProviderResponse }
        else if d == 8 { ExtensionEvent::UserPromptSubmit }
        else if d == 9 { ExtensionEvent::PromptBuild }
        else if d == 10 { ExtensionEvent::PreCompact }
        else if d == 11 { ExtensionEvent::PostCompact }
        else if d == 12 { ExtensionEvent::TurnAborted }
        else if d == 13 { ExtensionEvent::PostToolUseFailure }
        else if d == 14 { ExtensionEvent::StepStart }
        else if d == 15 { ExtensionEvent::StepEnd }
        else if d == 16 { ExtensionEvent::PostRecap }
        else { ExtensionEvent::SessionResume };
    assert(event_code(e) == d);
}

/// Decoding the ABI code of a hook mode gives the mode back.
pub proof fn law_mode_discriminant_roundtrip(m: HookMode)
    ensures
        mode_code(m) < 3,
        forall|n: HookMode| mode_code(n) == mode_code(m) ==> n == m,
{
}

/// Decoding the ABI code of an execution mode gives the mode back.
pub proof fn law_execution_mode_roundtrip(m: ExecutionMode)
    ensures
        (if execution_code(m) == 1 { ExecutionMode::Parallel } else { ExecutionMode::Sequential }) == m,
{
}

/// Distinct events have distinct wire names, so parsing the name of an
/// event gives the event back.
pub proof fn law_event_name_roundtrip(e: ExtensionEvent)
    ensures
        forall|f: ExtensionEvent| event_name(f) == event_name(e) ==> f == e,
{
    reveal_strlit("session_start");
    reveal_strlit("session_resume");
    reveal_strlit("session_shutdown");
    reveal_strlit("turn_start");
    reveal_strlit("turn_end");
    reveal_strlit("turn_aborted");
    reveal_strlit("step_start");
    reveal_strlit("step_end");
    reveal_strlit("pre_tool_use");
    reveal_strlit("post_tool_use");
    reveal_strlit("post_tool_use_failure");
    reveal_strlit("before_provider_request");
    reveal_strlit("after_provider_response");
    reveal_strlit("user_prompt_submit");
    reveal_strlit("prompt_build");
    reveal_strlit("pre_compact");
    reveal_strlit("post_compact");
    reveal_strlit("post_recap");
    assert forall|f: ExtensionEvent| event_name(f) == event_name(e) implies f == e by {
        if f != e {
            let a = event_name(f);
            let b = event_name(e);
            assert(a.len() != b.len() || a[0] != b[0] || a[1] != b[1] || a[2] != b[2] || a[3]
                != b[3] || a[4] != b[4] || a[5] != b[5] || a[6] != b[6] || a[7] != b[7] || a[8]
                != b[8] || a[9] != b[9] || a[10] != b[10] || a[11] != b[11] || a[12] != b[12]
                || a[13] != b[13] || a[14] != b[14] || a[15] != b[15]);
        }
    }
}

/// Distinct hook modes have distinct wire names.
pub proof fn law_mode_name_roundtrip(m: HookMode)
    ensures
        forall|n: HookMode| mode_name(n) == mode_name(m) ==> n == m,
{
    reveal_strlit("blocking");
    reveal_strlit("non_blocking");
    reveal_strlit("advisory");
    assert forall|n: HookMode| mode_name(n) == mode_name(m) implies n == m by {
        if n != m {
            assert(mode_name(n).len() != mode_name(m).len() || mode_name(n)[0] != mode_name(m)[0]);
        }
    }
}

/// The wire names are those of the extension SDK: a hook subscribed by
/// name fires on the event of that name (`turn_start` at the start of a
/// turn, `turn_end` at its end, and so on for every event).
pub proof fn law_event_wire_names()
    ensures
        event_name(ExtensionEvent::SessionStart) == "session_start"@,
        event_name(ExtensionEvent::SessionShutdown) == "session_shutdown"@,
        event_name(ExtensionEvent::TurnStart) == "turn_start"@,
        event_name(ExtensionEvent::TurnEnd) == "turn_end"@,
        event_name(ExtensionEvent::PreToolUse) == "pre_tool_use"@,
        event_name(ExtensionEvent::PostToolUse) == "post_tool_use"@,
        event_name(ExtensionEvent::BeforeProviderRequest) == "before_provider_request"@,
        event_name(ExtensionEvent::AfterProviderResponse) == "after_provider_response"@,
        event_name(ExtensionEvent::UserPromptSubmit) == "user_prompt_submit"@,
        event_name(ExtensionEvent::PromptBuild) == "prompt_build"@,
        event_name(ExtensionEvent::PreCompact) == "pre_compact"@,
        event_name(ExtensionEvent::PostCompact) == "post_compact"@,
        event_name(ExtensionEvent::TurnAborted) == "turn_aborted"@,
        event_name(ExtensionEvent::PostToolUseFailure) == "post_tool_use_failure"@,
        event_name(ExtensionEvent::StepStart) == "step_start"@,
        event_name(ExtensionEvent::StepEnd) == "step_end"@,
        event_name(ExtensionEvent::PostRecap) == "post_recap"@,
        event_name(ExtensionEvent::SessionResume) == "session_resume"@,
{
}

/// The ABI codes are those of the extension SDK's WASM interface, in the
/// order the events were added to it.
pub proof fn law_event_abi_codes()
    ensures
        event_code(ExtensionEvent::SessionStart) == 0,
        event_code(ExtensionEvent::SessionShutdown) == 1,
        event_code(ExtensionEvent::TurnStart) == 2,
        event_code(ExtensionEvent::TurnEnd) == 3,
        event_code(ExtensionEvent::PreToolUse) == 4,
        event_code(ExtensionEvent::PostToolUse) == 5,
        event_code(ExtensionEvent::BeforeProviderRequest) == 6,
        event_code(ExtensionEvent::AfterProviderResponse) == 7,
        event_code(ExtensionEvent::UserPromptSubmit) == 8,
        event_code(ExtensionEvent::PromptBuild) == 9,
        event_code(ExtensionEvent::PreCompact) == 10,
        event_code(ExtensionEvent::PostCompact) == 11,
        event_code(ExtensionEvent::TurnAborted) == 12,
        event_code(ExtensionEvent::PostToolUseFailure) == 13,
        event_code(ExtensionEvent::StepStart) == 14,
        event_code(ExtensionEvent::StepEnd) == 15,
        event_code(ExtensionEvent::PostRecap) == 16,
        event_code(ExtensionEvent::SessionResume) == 17,
{
}

/// The hook modes' wire names and ABI codes are the SDK's, and the
/// execution modes' codes too.
pub proof fn law_mode_wire_names_and_codes()
    ensures
        mode_name(HookMode::Blocking) == "blocking"@,
        mode_name(HookMode::NonBlocking) == "non_blocking"@,
        mode_name(HookMode::Advisory) == "advisory"@,
        mode_code(HookMode::Blocking) == 0,
        mode_code(HookMode::NonBlocking) == 1,
        mode_code(HookMode::Advisory) == 2,
        execution_code(ExecutionMode::Sequential) == 0,
        execution_code(ExecutionMode::Parallel) == 1,
{
}

/// Parsing a wire name and printing an event agree: the event parsed from
/// the name of `e` is `e`, so a hook subscribed to `turn_start` is a hook
/// on `TurnStart`.
pub proof fn law_event_name_parse(e: ExtensionEvent, parsed: Option<ExtensionEvent>)
    requires
        match parsed {
            Some(f) => event_name(f) == event_name(e),
            None => forall|f: ExtensionEvent| event_name(f) != event_name(e),
        },
    ensures
        parsed == Some(e),
{
    law_event_name_roundtrip(e);
    match parsed {
        Some(f) => {},
        None => {
            let e2 = e;
            assert(event_name(e2) != event_name(e));
        },
    }
}

} // verus!
