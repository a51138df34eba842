//! Dispatch of extension hooks: the order handlers run in, and what each
//! blocking handler's answer does to the hook's running state.  Running
//! the handlers (and their timeouts) is the caller's part.

use vstd::prelude::*;
use crate::extension::HookMode;
use crate::json_value::JsonValue;
use crate::llm::LlmMessage;

verus! {

/// `a` runs before `b`: higher priority first, registration order among
/// equals.
pub open spec fn runs_before(priorities: Seq<i32>, a: int, b: int) -> bool {
    priorities[a] > priorities[b] || (priorities[a] == priorities[b] && a < b)
}

/// `order` lists every handler index below `n` once, in running order.
pub open spec fn is_dispatch_order(priorities: Seq<i32>, order: Seq<usize>) -> bool {
    &&& order.len() == priorities.len()
    &&& forall|k: int| 0 <= k < order.len() ==> #[trigger] order[k] < priorities.len()
    &&& forall|x: int| 0 <= x < priorities.len() ==> #[trigger] order.contains(x as usize)
    &&& forall|a: int, b: int| 0 <= a < b < order.len() ==> runs_before(priorities, #[trigger] order[a] as int, #[trigger] order[b] as int)
}

/// The order in which hook handlers with these priorities run: highest
/// priority first, and in registration order among equal priorities (a
/// stable sort by descending priority).
pub fn dispatch_order(priorities: &[i32]) -> (r: Vec<usize>)
    ensures
        is_dispatch_order(priorities@, r@),
{
    let mut r: Vec<usize> = Vec::new();
    let mut i: usize = 0;
    while i < priorities.len()
        invariant
            0 <= i <= priorities@.len(),
            r@.len() == i,
            forall|k: int| 0 <= k < r@.len() ==> #[trigger] r@[k] < i,
            forall|x: int| 0 <= x < i ==> #[trigger] r@.contains(x as usize),
            forall|a: int, b: int| 0 <= a < b < r@.len() ==> runs_before(priorities@, #[trigger] r@[a] as int, #[trigger] r@[b] as int),
        decreases priorities@.len() - i,
    {
        let p = priorities[i];
        let mut j: usize = 0;
        while j < r.len() && priorities[r[j]] >= p
            invariant
                0 <= j <= r@.len(),
                i < priorities@.len(),
                p == priorities@[i as int],
                forall|k: int| 0 <= k < r@.len() ==> #[trigger] r@[k] < i,
                forall|k: int| 0 <= k < j ==> priorities@[#[trigger] r@[k] as int] >= p,
            decreases r@.len() - j,
        {
            j = j + 1;
        }
        let ghost old_r = r@;
        r.insert(j, i);
        proof {
            assert forall|k: int| 0 <= k < r@.len() implies #[trigger] r@[k] < i + 1 by {
                if k < j {
                    assert(r@[k] == old_r[k]);
                } else if k > j {
                    assert(r@[k] == old_r[k - 1]);
                }
            }
            assert forall|x: int| 0 <= x < i + 1 implies #[trigger] r@.contains(x as usize) by {
                if x < i {
                    assert(old_r.contains(x as usize));
                    let k = choose|k: int| 0 <= k < old_r.len() && old_r[k] == x as usize;
                    if k < j {
                        assert(r@[k] == x as usize);
                    } else {
                        assert(r@[k + 1] == x as usize);
                    }
                } else {
                    assert(r@[j as int] == i);
                }
            }
            assert forall|a: int, b: int| 0 <= a < b < r@.len() implies runs_before(
                priorities@,
                #[trigger] r@[a] as int,
                #[trigger] r@[b] as int,
            ) by {
                if b < j {
                    assert(r@[a] == old_r[a] && r@[b] == old_r[b]);
                } else if b == j {
                    assert(r@[a] == old_r[a]);
                    assert(priorities@[old_r[a] as int] >= p);
                    assert(old_r[a] < i);
                } else if a < j {
                    assert(r@[a] == old_r[a] && r@[b] == old_r[b - 1]);
                } else if a == j {
                    assert(r@[b] == old_r[b - 1]);
                    assert(j < old_r.len());
                    assert(priorities@[old_r[j as int] as int] < p);
                    assert(runs_before(priorities@, old_r[j as int] as int, old_r[b - 1] as int) || b - 1 == j);
                } else {
                    assert(r@[a] == old_r[a - 1] && r@[b] == old_r[b - 1]);
                }
            }
        }
        i = i + 1;
    }
    r
}

/// How the dispatch runs one handler.
#[derive(Clone, Copy, Debug, PartialEq, Eq, Structural)]
pub enum HandlerRun {
    /// Wait for the answer, within the timeout; the answer steers the
    /// dispatch and a failure or timeout ends it with that error.
    AwaitAnswer,
    /// Wait for the handler but ignore its answer; a failure is only
    /// logged.
    AwaitIgnoringFailure,
    /// Start the handler and go on without waiting.
    Detach,
}

/// How a handler registered with `mode` is run.
pub fn handler_run(mode: HookMode) -> (r: HandlerRun)
    ensures
        mode == HookMode::Blocking <==> r == HandlerRun::AwaitAnswer,
        mode == HookMode::Advisory <==> r == HandlerRun::AwaitIgnoringFailure,
        mode == HookMode::NonBlocking <==> r == HandlerRun::Detach,
{
    match mode {
        HookMode::Blocking => HandlerRun::AwaitAnswer,
        HookMode::Advisory => HandlerRun::AwaitIgnoringFailure,
        HookMode::NonBlocking => HandlerRun::Detach,
    }
}

/// What a blocking pre-tool-use handler answered.
pub enum PreToolUseResult {
    Allow,
    Block { reason: String },
    ModifyInput { tool_input: JsonValue },
}

/// Where a pre-tool-use dispatch goes after one blocking answer.
pub enum PreToolUseFlow {
    /// The next handlers see this input.
    Continue { tool_input: JsonValue },
    /// The call is blocked; no more handlers run.
    Blocked { reason: String },
}

/// Applies one blocking answer to a pre-tool-use dispatch: a block stops
/// it, a modified input replaces the input later handlers see.
pub fn pre_tool_use_step(tool_input: JsonValue, result: PreToolUseResult) -> (r: PreToolUseFlow)
    ensures
        match result {
            PreToolUseResult::Allow => r == PreToolUseFlow::Continue { tool_input },
            PreToolUseResult::Block { reason } => r == PreToolUseFlow::Blocked { reason },
            PreToolUseResult::ModifyInput { tool_input: t } => r == PreToolUseFlow::Continue { tool_input: t },
        },
{
    match result {
        PreToolUseResult::Allow => PreToolUseFlow::Continue { tool_input },
        PreToolUseResult::Block { reason } => PreToolUseFlow::Blocked { reason },
        PreToolUseResult::ModifyInput { tool_input: t } => PreToolUseFlow::Continue { tool_input: t },
    }
}

/// What a blocking post-tool-use handler answered.
pub enum PostToolUseResult {
    Allow,
    Block { reason: String },
    ModifyResult { content: String },
}

/// Where a post-tool-use dispatch goes after one blocking answer.
pub enum PostToolUseFlow {
    /// The next handlers see this result content.
    Continue { content: String },
    /// The result is blocked; no more handlers run.
    Blocked { reason: String },
}

/// Applies one blocking answer to a post-tool-use dispatch: a block stops
/// it, a modified content replaces the content later handlers see.
pub fn post_tool_use_step(content: String, result: PostToolUseResult) -> (r: PostToolUseFlow)
    ensures
        match result {
            PostToolUseResult::Allow => r == PostToolUseFlow::Continue { content },
            PostToolUseResult::Block { reason } => r == PostToolUseFlow::Blocked { reason },
            PostToolUseResult::ModifyResult { content: c } => r == PostToolUseFlow::Continue { content: c },
        },
{
    match result {
        PostToolUseResult::Allow => PostToolUseFlow::Continue { content },
        PostToolUseResult::Block { reason } => PostToolUseFlow::Blocked { reason },
        PostToolUseResult::ModifyResult { content: c } => PostToolUseFlow::Continue { content: c },
    }
}

/// What a blocking provider handler answered.
pub enum ProviderResult {
    Allow,
    Block { reason: String },
    ReplaceMessages { messages: Vec<LlmMessage> },
    AppendMessages { messages: Vec<LlmMessage> },
}

/// The messages of a provider dispatch and whether a handler changed them.
pub struct ProviderState {
    pub messages: Vec<LlmMessage>,
    pub modified: bool,
}

/// Where a provider dispatch goes after one blocking answer.
pub enum ProviderFlow {
    Continue(ProviderState),
    Blocked { reason: String },
}

/// Applies one blocking answer to a provider dispatch: a block stops it;
/// replaced or appended messages become the messages later handlers see,
/// and mark the request modified.
pub fn provider_step(state: ProviderState, result: ProviderResult) -> (r: ProviderFlow)
    ensures
        match result {
            ProviderResult::Allow => r matches ProviderFlow::Continue(s) && s.messages@ == state.messages@ && s.modified
                == state.modified,
            ProviderResult::Block { reason } => r matches ProviderFlow::Blocked { reason: x } && x == reason,
            ProviderResult::ReplaceMessages { messages } => r matches ProviderFlow::Continue(s) && s.messages@ == messages@
                && s.modified,
            ProviderResult::AppendMessages { messages } => r matches ProviderFlow::Continue(s) && s.messages@
                == state.messages@ + messages@ && s.modified,
        },
{
    match result {
        ProviderResult::Allow => ProviderFlow::Continue(state),
        ProviderResult::Block { reason } => ProviderFlow::Blocked { reason },
        ProviderResult::ReplaceMessages { messages } => ProviderFlow::Continue(ProviderState { messages, modified: true }),
        ProviderResult::AppendMessages { messages } => {
            let mut all = state.messages;
            let mut extra = messages;
            all.append(&mut extra);
            ProviderFlow::Continue(ProviderState { messages: all, modified: true })
        },
    }
}

/// The answer of a provider dispatch whose handlers all ran: the final
/// messages when any handler changed them, otherwise allow.
pub fn provider_outcome(state: ProviderState) -> (r: ProviderResult)
    ensures
        state.modified ==> (r matches ProviderResult::ReplaceMessages { messages } && messages@ == state.messages@),
        !state.modified ==> r is Allow,
{
    if state.modified {
        ProviderResult::ReplaceMessages { messages: state.messages }
    } else {
        ProviderResult::Allow
    }
}

/// In a dispatch order, a handler of higher priority always runs before
/// one of lower priority, and handlers of equal priority run in the order
/// they were registered; every handler runs exactly once.
pub proof fn law_dispatch_order(priorities: Seq<i32>, order: Seq<usize>)
    requires
        is_dispatch_order(priorities, order),
    ensures
        forall|a: int, b: int| 0 <= a < b < order.len() ==> priorities[#[trigger] order[a] as int] >= priorities[
            #[trigger] order[b] as int],
        forall|a: int, b: int|
            0 <= a < b < order.len() && priorities[#[trigger] order[a] as int] == priorities[#[trigger] order[b] as int]
                ==> order[a] < order[b],
        forall|a: int, b: int| 0 <= a < b < order.len() ==> #[trigger] order[a] != #[trigger] order[b],
{
    assert forall|a: int, b: int| 0 <= a < b < order.len() implies priorities[#[trigger] order[a] as int]
        >= priorities[#[trigger] order[b] as int] by {
        assert(runs_before(priorities, order[a] as int, order[b] as int));
    }
    assert forall|a: int, b: int|
        0 <= a < b < order.len() && priorities[#[trigger] order[a] as int] == priorities[#[trigger] order[b] as int]
            implies order[a] < order[b] by {
        assert(runs_before(priorities, order[a] as int, order[b] as int));
    }
    assert forall|a: int, b: int| 0 <= a < b < order.len() implies #[trigger] order[a] != #[trigger] order[b] by {
        assert(runs_before(priorities, order[a] as int, order[b] as int));
    }
}

} // verus!
