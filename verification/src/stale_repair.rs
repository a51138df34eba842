//! Repair of a session whose runtime state went stale (the process stopped
//! mid-turn): which tool completions, turn ends and child failures the
//! repair records.  Writing the events is the caller's part.

use vstd::prelude::*;
use crate::llm::LlmMessage;
use crate::text::{str_eq, to_string, views};
use crate::tool_result::{interrupted_background_tool_result, meta_text, ToolResult};
use crate::json_value::entry_keys;
use crate::turn_scheduler::{
    call_history, find_tool_call_history, interrupted_pending_tool_result, open_calls, pending_requested_tool_calls,
    requested_calls, TurnScheduleError,
};

verus! {

/// A tool completion that a repair records for a call left without one.
pub struct RepairCompletion {
    pub call_id: String,
    pub tool_name: String,
    /// The arguments of the original call, where the history has them.
    pub arguments_json: Option<serde_json::Value>,
    pub result: ToolResult,
}

/// What repairing a stale turn phase records: a completion for each
/// pending call, then the end of the turn.
pub struct PhaseRepair {
    pub completions: Vec<RepairCompletion>,
    /// The finish reason of the recorded turn end (and of the run).
    pub finish_reason: String,
}

/// The result recorded for a pending call cut off by an interruption.
pub open spec fn is_interrupted_result(r: ToolResult, call_id: Seq<char>) -> bool {
    &&& r.call_id@ == call_id
    &&& r.content@ == "Tool execution interrupted before completion"@
    &&& r.is_error
    &&& r.error matches Some(e) && e@ == r.content@
    &&& r.metadata@.len() == 0
    &&& r.duration_ms is None
}

/// The result recorded for a background call cut off by an interruption.
pub open spec fn is_interrupted_background_result(r: ToolResult, call_id: Seq<char>, task_id: Seq<char>) -> bool {
    &&& r.call_id@ == call_id
    &&& r.content@ == "Background task interrupted before completion"@
    &&& r.is_error
    &&& r.error matches Some(e) && e@ == r.content@
    &&& r.duration_ms is None
    &&& meta_text(r.metadata@, "task_id"@) == Some(task_id)
    &&& entry_keys(r.metadata@) == seq!["task_id"@]
}

/// The (call id, tool name) of each recorded completion.
pub open spec fn completion_calls(cs: Seq<RepairCompletion>) -> Seq<(Seq<char>, Seq<char>)> {
    cs.map_values(|c: RepairCompletion| (c.call_id@, c.tool_name@))
}

/// Plans the repair of a stale turn phase.  A session at rest (idle or
/// failed) has no turn to repair; otherwise every requested call still
/// pending gets an interrupted result, in request order, and the turn
/// ends as interrupted.
pub fn stale_phase_repair(phase_at_rest: bool, messages: &[LlmMessage], pending: &[String]) -> (r: Result<
    PhaseRepair,
    TurnScheduleError,
>)
    ensures
        phase_at_rest <==> r matches Err(TurnScheduleError::NoActiveTurn),
        !phase_at_rest ==> (r matches Ok(p) && {
            &&& completion_calls(p.completions@) == open_calls(requested_calls(messages@), views(pending@).to_set())
            &&& forall|i: int|
                0 <= i < p.completions@.len() ==> (#[trigger] p.completions@[i]).arguments_json is None
                    && is_interrupted_result(p.completions@[i].result, p.completions@[i].call_id@)
            &&& p.finish_reason@ == "interrupted"@
        }),
{
    if phase_at_rest {
        return Err(TurnScheduleError::NoActiveTurn);
    }
    let calls = pending_requested_tool_calls(messages, pending);
    let ghost target = open_calls(requested_calls(messages@), views(pending@).to_set());
    let mut completions: Vec<RepairCompletion> = Vec::new();
    let mut i: usize = 0;
    while i < calls.len()
        invariant
            0 <= i <= calls@.len(),
            calls@.map_values(|p: crate::turn_scheduler::PendingRequestedToolCall| (p.call_id@, p.tool_name@)) == target,
            completion_calls(completions@) == target.take(i as int),
            forall|j: int|
                0 <= j < completions@.len() ==> (#[trigger] completions@[j]).arguments_json is None
                    && is_interrupted_result(completions@[j].result, completions@[j].call_id@),
        decreases calls@.len() - i,
    {
        let call = &calls[i];
        let ghost before = completion_calls(completions@);
        let result = interrupted_pending_tool_result(call.call_id.as_str());
        completions.push(
            RepairCompletion {
                call_id: to_string(call.call_id.as_str()),
                tool_name: to_string(call.tool_name.as_str()),
                arguments_json: None,
                result,
            },
        );
        proof {
            assert(target[i as int] == (calls@[i as int].call_id@, calls@[i as int].tool_name@));
            assert(completion_calls(completions@) =~= before.push((call.call_id@, call.tool_name@)));
            assert(target.take(i + 1) =~= target.take(i as int).push(target[i as int]));
        }
        i = i + 1;
    }
    proof {
        assert(target.take(calls@.len() as int) =~= target);
    }
    Ok(PhaseRepair { completions, finish_reason: to_string("interrupted") })
}

/// The bookkeeping of a call that went to the background.
pub struct BackgroundCallState {
    pub call_id: String,
    pub task_id: String,
    pub completed: bool,
}

/// The background calls a repair completes, in the given order, each with
/// its tool name, arguments and task id: those not completed, whose task
/// no longer runs and whose call the history still holds.
pub open spec fn stale_background(
    calls: Seq<BackgroundCallState>,
    active: Set<Seq<char>>,
    messages: Seq<LlmMessage>,
) -> Seq<(Seq<char>, Seq<char>, serde_json::Value, Seq<char>)>
    decreases calls.len(),
{
    if calls.len() == 0 {
        seq![]
    } else {
        let c = calls.last();
        stale_background(calls.drop_last(), active, messages) + if !c.completed && !active.contains(c.task_id@) && call_history(
            messages,
            c.call_id@,
        ) is Some {
            let h = call_history(messages, c.call_id@)->Some_0;
            seq![(c.call_id@, h.0, h.1, c.task_id@)]
        } else {
            seq![]
        }
    }
}

fn contains_str(items: &[String], x: &str) -> (r: bool)
    ensures
        r <==> views(items@).to_set().contains(x@),
{
    let mut i: usize = 0;
    while i < items.len()
        invariant
            0 <= i <= items@.len(),
            forall|q: int| 0 <= q < i ==> items@[q]@ != x@,
        decreases items@.len() - i,
    {
        if str_eq(items[i].as_str(), x) {
            proof {
                assert(views(items@)[i as int] == x@);
            }
            return true;
        }
        i = i + 1;
    }
    proof {
        if views(items@).to_set().contains(x@) {
            let q = choose|q: int| 0 <= q < views(items@).len() && views(items@)[q] == x@;
            assert(items@[q]@ == x@);
        }
    }
    false
}

/// A recorded completion for the planned `(call id, tool name,
/// arguments, task id)`.
pub open spec fn completion_matches(c: RepairCompletion, s: (Seq<char>, Seq<char>, serde_json::Value, Seq<char>)) -> bool {
    &&& c.call_id@ == s.0
    &&& c.tool_name@ == s.1
    &&& c.arguments_json == Some(s.2)
    &&& is_interrupted_background_result(c.result, s.0, s.3)
}

/// The completions are the planned ones, one for one.
pub open spec fn plan_matches(
    out: Seq<RepairCompletion>,
    plan: Seq<(Seq<char>, Seq<char>, serde_json::Value, Seq<char>)>,
) -> bool {
    &&& out.len() == plan.len()
    &&& forall|j: int| 0 <= j < out.len() ==> completion_matches(#[trigger] out[j], plan[j])
}

proof fn lemma_plan_push(
    out: Seq<RepairCompletion>,
    plan: Seq<(Seq<char>, Seq<char>, serde_json::Value, Seq<char>)>,
    c: RepairCompletion,
    s: (Seq<char>, Seq<char>, serde_json::Value, Seq<char>),
)
    requires
        plan_matches(out, plan),
        completion_matches(c, s),
    ensures
        plan_matches(out.push(c), plan.push(s)),
{
    assert forall|j: int| 0 <= j < out.push(c).len() implies completion_matches(#[trigger] out.push(c)[j], plan.push(s)[j]) by {
        if j < out.len() {
            assert(out.push(c)[j] == out[j]);
            assert(plan.push(s)[j] == plan[j]);
        }
    }
}

/// Plans the repair of background calls left unfinished: each call that
/// is not completed, whose task is not among `active_tasks` and whose
/// request the history holds gets an interrupted result carrying its task
/// id, with the original tool name and arguments.
pub fn stale_background_repairs(
    background_calls: &[BackgroundCallState],
    active_tasks: &[String],
    messages: &[LlmMessage],
) -> (r: Vec<RepairCompletion>)
    ensures
        plan_matches(r@, stale_background(background_calls@, views(active_tasks@).to_set(), messages@)),
{
    let ghost active = views(active_tasks@).to_set();
    let mut out: Vec<RepairCompletion> = Vec::new();
    let mut i: usize = 0;
    while i < background_calls.len()
        invariant
            0 <= i <= background_calls@.len(),
            active == views(active_tasks@).to_set(),
            plan_matches(out@, stale_background(background_calls@.take(i as int), active, messages@)),
        decreases background_calls@.len() - i,
    {
        let ghost prev = stale_background(background_calls@.take(i as int), active, messages@);
        let ghost next = stale_background(background_calls@.take(i + 1), active, messages@);
        proof {
            assert(background_calls@.take(i + 1).drop_last() =~= background_calls@.take(i as int));
            assert(background_calls@.take(i + 1).last() == background_calls@[i as int]);
        }
        let call = &background_calls[i];
        let ghost out0 = out@;
        if !call.completed && !contains_str(active_tasks, call.task_id.as_str()) {
            match find_tool_call_history(messages, call.call_id.as_str()) {
                Some((tool_name, arguments)) => {
                    let result = interrupted_background_tool_result(call.call_id.as_str(), call.task_id.as_str());
                    let c = RepairCompletion {
                        call_id: to_string(call.call_id.as_str()),
                        tool_name,
                        arguments_json: Some(arguments),
                        result,
                    };
                    proof {
                        let s = (call.call_id@, next.last().1, next.last().2, call.task_id@);
                        assert(next =~= prev.push(s));
                        assert(completion_matches(c, s));
                        lemma_plan_push(out0, prev, c, s);
                    }
                    out.push(c);
                },
                None => {
                    proof {
                        assert(next =~= prev);
                    }
                },
            }
        } else {
            proof {
                assert(next =~= prev);
            }
        }
        i = i + 1;
    }
    proof {
        assert(background_calls@.take(background_calls@.len() as int) =~= background_calls@);
    }
    out
}

/// A child session as the parent's record lists it.
pub struct AgentSessionLink {
    pub child_session_id: String,
    pub running: bool,
}

/// The children recorded as running whose run is no longer active, in
/// record order.
pub open spec fn stale_children(links: Seq<AgentSessionLink>, active: Set<Seq<char>>) -> Seq<Seq<char>>
    decreases links.len(),
{
    if links.len() == 0 {
        seq![]
    } else {
        let l = links.last();
        stale_children(links.drop_last(), active) + if l.running && !active.contains(l.child_session_id@) {
            seq![l.child_session_id@]
        } else {
            seq![]
        }
    }
}

/// The child sessions a repair records as failed ("interrupted"): those
/// the parent lists as running whose run is not among `active_children`.
pub fn stale_child_runs(links: &[AgentSessionLink], active_children: &[String]) -> (r: Vec<String>)
    ensures
        views(r@) == stale_children(links@, views(active_children@).to_set()),
{
    let ghost active = views(active_children@).to_set();
    let mut out: Vec<String> = Vec::new();
    let mut i: usize = 0;
    while i < links.len()
        invariant
            0 <= i <= links@.len(),
            active == views(active_children@).to_set(),
            views(out@) == stale_children(links@.take(i as int), active),
        decreases links@.len() - i,
    {
        proof {
            assert(links@.take(i + 1).drop_last() =~= links@.take(i as int));
            assert(links@.take(i + 1).last() == links@[i as int]);
        }
        let ghost before = views(out@);
        let link = &links[i];
        if link.running && !contains_str(active_children, link.child_session_id.as_str()) {
            out.push(to_string(link.child_session_id.as_str()));
            proof {
                assert(views(out@) =~= before.push(link.child_session_id@));
            }
        } else {
            proof {
                assert(before + seq![] =~= before);
            }
        }
        i = i + 1;
    }
    proof {
        assert(links@.take(links@.len() as int) =~= links@);
    }
    out
}

} // verus!
