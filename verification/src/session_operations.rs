//! Decisions of the session operations extensions call on: who may act on
//! which session (a caller reaches itself and its descendants), how deep
//! children may nest, what a child session inherits, and what a submitted
//! turn answers.  Reading the store and running turns are the caller's
//! part.

use vstd::prelude::*;
use crate::text::{decimal, push_str, str_eq, to_string, views};
use crate::turn_scheduler::{TurnScheduleError, TurnSummary};

verus! {

/// Why a session operation failed.
#[derive(Debug)]
pub enum SessionApiError {
    NotFound(String),
    PermissionDenied(String),
    MaxDepthExceeded { current: usize, max: usize },
    Internal(String),
}

// ─── Parent chain ───────────────────────────────────────────────────────

/// A walk up the parent links of a session, one store read at a time.
pub struct ParentWalk {
    /// The ancestors found so far, nearest first.
    pub chain: Vec<String>,
    /// The sessions seen: the start, then the chain.
    pub visited: Vec<String>,
    /// The session whose parent is read next.
    pub current: String,
    pub max_depth: usize,
}

/// What the walk needs next.
pub enum WalkNext {
    /// Read the parent of this session.
    ReadParentOf(String),
    /// The walk ended: the ancestors, or why there are none to give.
    Finished(Result<Vec<String>, SessionApiError>),
}

impl ParentWalk {
    /// The walk's record is coherent: it visited its start and then each
    /// ancestor once, stands at the last one, and is within the depth.
    pub open spec fn wf(&self) -> bool {
        &&& self.visited@.len() == self.chain@.len() + 1
        &&& views(self.visited@).drop_first() == views(self.chain@)
        &&& self.current@ == self.visited@.last()@
        &&& forall|i: int, j: int| 0 <= i < j < self.visited@.len() ==> (#[trigger] self.visited@[i])@ != (#[trigger] self.visited@[j])@
        &&& self.chain@.len() <= self.max_depth
    }
}

/// Starts the walk from `from`: its parent is read first.
pub fn parent_walk_start(from: &str, max_depth: usize) -> (r: (ParentWalk, WalkNext))
    ensures
        r.0.wf(),
        views(r.0.chain@) == Seq::<Seq<char>>::empty(),
        views(r.0.visited@) == seq![from@],
        r.0.max_depth == max_depth,
        r.1 matches WalkNext::ReadParentOf(s) && s@ == from@,
{
    let mut visited: Vec<String> = Vec::new();
    visited.push(to_string(from));
    let walk = ParentWalk { chain: Vec::new(), visited, current: to_string(from), max_depth };
    proof {
        assert(views(walk.visited@).drop_first() =~= views(walk.chain@));
        assert(views(walk.visited@) =~= seq![from@]);
        assert(views(walk.chain@) =~= Seq::<Seq<char>>::empty());
    }
    (walk, WalkNext::ReadParentOf(to_string(from)))
}

fn position_in(items: &Vec<String>, x: &str) -> (r: bool)
    ensures
        r <==> exists|i: int| 0 <= i < items@.len() && (#[trigger] items@[i])@ == x@,
{
    let mut i: usize = 0;
    while i < items.len()
        invariant
            0 <= i <= items@.len(),
            forall|q: int| 0 <= q < i ==> (#[trigger] items@[q])@ != x@,
        decreases items@.len() - i,
    {
        if str_eq(items[i].as_str(), x) {
            return true;
        }
        i = i + 1;
    }
    false
}

/// Applies one store read to the walk.  A failed read ends it as not
/// found; a session without a parent ends it with the chain; a parent
/// already seen ends it as a cycle; a chain longer than the depth limit
/// ends it as too deep; otherwise the parent joins the chain and its own
/// parent is read next.  Each read that continues the walk lengthens the
/// chain by one and keeps it within the limit, so a walk asks for at most
/// `max_depth + 1` reads.
pub fn parent_walk_step(walk: ParentWalk, read: Result<Option<String>, String>) -> (r: (ParentWalk, WalkNext))
    requires
        walk.wf(),
    ensures
        r.0.max_depth == walk.max_depth,
        match read {
            Err(e) => r.1 matches WalkNext::Finished(Err(SessionApiError::NotFound(m))) && m == e,
            Ok(None) => r.1 matches WalkNext::Finished(Ok(c)) && views(c@) == views(walk.chain@),
            Ok(Some(p)) => if views(walk.visited@).contains(p@) {
                r.1 matches WalkNext::Finished(Err(SessionApiError::Internal(m))) && m@
                    == "parent chain cycle detected at session "@ + p@
            } else if walk.chain@.len() + 1 > walk.max_depth {
                r.1 matches WalkNext::Finished(Err(SessionApiError::Internal(m))) && m@
                    == "parent chain exceeds configured max_depth ("@ + decimal(walk.max_depth as nat) + ")"@
            } else {
                &&& r.1 matches WalkNext::ReadParentOf(s) && s@ == p@
                &&& r.0.wf()
                &&& views(r.0.chain@) == views(walk.chain@).push(p@)
                &&& views(r.0.visited@) == views(walk.visited@).push(p@)
            },
        },
{
    match read {
        Err(e) => (walk, WalkNext::Finished(Err(SessionApiError::NotFound(e)))),
        Ok(None) => {
            let chain = copy_all(&walk.chain);
            (walk, WalkNext::Finished(Ok(chain)))
        },
        Ok(Some(parent)) => {
            let seen = position_in(&walk.visited, parent.as_str());
            proof {
                if views(walk.visited@).contains(parent@) {
                    let i = choose|i: int| 0 <= i < views(walk.visited@).len() && views(walk.visited@)[i] == parent@;
                    assert(walk.visited@[i]@ == parent@);
                }
                if seen {
                    let i = choose|i: int| 0 <= i < walk.visited@.len() && (#[trigger] walk.visited@[i])@ == parent@;
                    assert(views(walk.visited@)[i] == parent@);
                }
            }
            if seen {
                let mut m = to_string("parent chain cycle detected at session ");
                push_str(&mut m, parent.as_str());
                return (walk, WalkNext::Finished(Err(SessionApiError::Internal(m))));
            }
            if walk.chain.len() >= walk.max_depth {
                let mut m = to_string("parent chain exceeds configured max_depth (");
                let d = crate::text::usize_to_decimal(walk.max_depth);
                push_str(&mut m, d.as_str());
                push_str(&mut m, ")");
                return (walk, WalkNext::Finished(Err(SessionApiError::Internal(m))));
            }
            let ParentWalk { chain, visited, current: _, max_depth } = walk;
            let ghost old_chain = views(chain@);
            let ghost old_visited = visited@;
            let mut chain = chain;
            let mut visited = visited;
            chain.push(to_string(parent.as_str()));
            visited.push(to_string(parent.as_str()));
            let next = ParentWalk { chain, visited, current: to_string(parent.as_str()), max_depth };
            proof {
                assert(views(next.chain@) =~= old_chain.push(parent@));
                assert(views(next.visited@) =~= views(old_visited).push(parent@));
                assert(views(next.visited@).drop_first() =~= views(next.chain@)) by {
                    assert(views(old_visited).drop_first() == old_chain);
                    assert(views(old_visited).push(parent@).drop_first() =~= views(old_visited).drop_first().push(parent@));
                }
                assert forall|i: int, j: int| 0 <= i < j < next.visited@.len() implies (#[trigger] next.visited@[i])@
                    != (#[trigger] next.visited@[j])@ by {
                    if j == old_visited.len() {
                        assert(next.visited@[j]@ == parent@);
                        assert(next.visited@[i] == old_visited[i]);
                    } else {
                        assert(next.visited@[i] == old_visited[i]);
                        assert(next.visited@[j] == old_visited[j]);
                    }
                }
            }
            (next, WalkNext::ReadParentOf(parent))
        },
    }
}

fn copy_all(items: &Vec<String>) -> (r: Vec<String>)
    ensures
        views(r@) == views(items@),
{
    let mut r: Vec<String> = Vec::new();
    let mut i: usize = 0;
    while i < items.len()
        invariant
            0 <= i <= items@.len(),
            views(r@) == views(items@.take(i as int)),
        decreases items@.len() - i,
    {
        r.push(to_string(items[i].as_str()));
        proof {
            assert(views(items@.take(i + 1)) =~= views(items@.take(i as int)).push(items@[i as int]@));
            assert(views(r@) =~= views(items@.take(i + 1)));
        }
        i = i + 1;
    }
    proof {
        assert(items@.take(items@.len() as int) =~= items@);
    }
    r
}

// ─── Access ─────────────────────────────────────────────────────────────

/// Whether `caller` may act on `target`: itself, or a session whose
/// ancestors include the caller.
pub open spec fn may_access(caller: Seq<char>, target: Seq<char>, target_ancestors: Seq<Seq<char>>) -> bool {
    caller == target || target_ancestors.contains(caller)
}

/// A session may act on itself and on its descendants only: on `target`
/// exactly when it is the target or one of the target's ancestors.
pub proof fn law_access_is_ancestry(caller: Seq<char>, target: Seq<char>, target_ancestors: Seq<Seq<char>>)
    ensures
        may_access(caller, target, target_ancestors) <==> (caller == target || exists|i: int|
            0 <= i < target_ancestors.len() && #[trigger] target_ancestors[i] == caller),
        may_access(target, target, Seq::<Seq<char>>::empty()),
{
    if exists|i: int| 0 <= i < target_ancestors.len() && #[trigger] target_ancestors[i] == caller {
        let i = choose|i: int| 0 <= i < target_ancestors.len() && #[trigger] target_ancestors[i] == caller;
        assert(target_ancestors.contains(caller));
    }
}

/// Checks access of `caller` to `target`, given the target's ancestors
/// (a caller acting on itself needs none, and may pass them empty).
pub fn check_access(caller: &str, target: &str, target_ancestors: &[String]) -> (r: Result<(), SessionApiError>)
    ensures
        may_access(caller@, target@, views(target_ancestors@)) ==> r is Ok,
        !may_access(caller@, target@, views(target_ancestors@)) ==> (r matches Err(SessionApiError::PermissionDenied(m))
            && m@ == "session "@ + target@ + " is not a descendant of "@ + caller@),
{
    if str_eq(caller, target) {
        return Ok(());
    }
    let mut i: usize = 0;
    while i < target_ancestors.len()
        invariant
            0 <= i <= target_ancestors@.len(),
            forall|q: int| 0 <= q < i ==> (#[trigger] target_ancestors@[q])@ != caller@,
        decreases target_ancestors@.len() - i,
    {
        if str_eq(target_ancestors[i].as_str(), caller) {
            proof {
                assert(views(target_ancestors@)[i as int] == caller@);
            }
            return Ok(());
        }
        i = i + 1;
    }
    proof {
        if views(target_ancestors@).contains(caller@) {
            let q = choose|q: int| 0 <= q < views(target_ancestors@).len() && views(target_ancestors@)[q] == caller@;
            assert(target_ancestors@[q]@ == caller@);
        }
    }
    let mut m = to_string("session ");
    push_str(&mut m, target);
    push_str(&mut m, " is not a descendant of ");
    push_str(&mut m, caller);
    Err(SessionApiError::PermissionDenied(m))
}

// ─── Child sessions ─────────────────────────────────────────────────────

/// What a new child session is created with.
pub struct ChildSessionPlan {
    pub working_dir: String,
    pub model_id: String,
    pub task: String,
}

/// A model preference that names a model (not `inherit`, not empty).
pub open spec fn names_model(preference: Seq<char>) -> bool {
    preference != "inherit"@ && preference.len() != 0
}

/// Decides how a child of a session at `parent_depth` is created: refused
/// when the parent already is at the depth limit; otherwise it works in
/// the requested directory (the parent's by default), with the requested
/// model unless that is `inherit` or empty (the parent's then), on the
/// requested task (none by default).
pub fn child_session_plan(
    parent_depth: usize,
    max_depth: usize,
    working_dir: Option<String>,
    model_preference: Option<String>,
    task: Option<String>,
    parent_working_dir: String,
    parent_model_id: String,
) -> (r: Result<ChildSessionPlan, SessionApiError>)
    ensures
        parent_depth >= max_depth ==> (r matches Err(SessionApiError::MaxDepthExceeded { current, max })
            && current == parent_depth && max == max_depth),
        parent_depth < max_depth ==> (r matches Ok(p) && {
            &&& p.working_dir == match working_dir {
                Some(w) => w,
                None => parent_working_dir,
            }
            &&& p.model_id == match model_preference {
                Some(m) => if names_model(m@) {
                    m
                } else {
                    parent_model_id
                },
                None => parent_model_id,
            }
            &&& p.task@ == match task {
                Some(t) => t@,
                None => Seq::<char>::empty(),
            }
        }),
{
    if parent_depth >= max_depth {
        return Err(SessionApiError::MaxDepthExceeded { current: parent_depth, max: max_depth });
    }
    let working_dir = match working_dir {
        Some(w) => w,
        None => parent_working_dir,
    };
    let model_id = match model_preference {
        Some(m) => {
            proof {
                reveal_strlit("inherit");
            }
            if !str_eq(m.as_str(), "inherit") && !m.as_str().is_empty() {
                m
            } else {
                parent_model_id
            }
        },
        None => parent_model_id,
    };
    let task = match task {
        Some(t) => t,
        None => String::new(),
    };
    Ok(ChildSessionPlan { working_dir, model_id, task })
}

/// A child as the parent's record lists it, with the task it was given.
pub struct ChildTaskLink {
    pub child_session_id: String,
    pub task: String,
}

/// Whether a turn submitted to a child must record `task` as the child's
/// task: the task is not empty and the parent lists the child without
/// one.
pub fn needs_task_backfill(links: &[ChildTaskLink], child_session_id: &str, task: &str) -> (r: bool)
    ensures
        r <==> (task@.len() != 0 && exists|i: int|
            0 <= i < links@.len() && (#[trigger] links@[i]).child_session_id@ == child_session_id@ && links@[i].task@.len()
                == 0),
{
    if task.is_empty() {
        return false;
    }
    let mut i: usize = 0;
    while i < links.len()
        invariant
            0 <= i <= links@.len(),
            task@.len() != 0,
            forall|q: int|
                0 <= q < i ==> !((#[trigger] links@[q]).child_session_id@ == child_session_id@ && links@[q].task@.len() == 0),
        decreases links@.len() - i,
    {
        if str_eq(links[i].child_session_id.as_str(), child_session_id) && links[i].task.as_str().is_empty() {
            return true;
        }
        i = i + 1;
    }
    false
}

// ─── Submitted turns ────────────────────────────────────────────────────

/// What a submitted turn answers.
#[derive(Debug)]
pub enum SubmitTurnResult {
    Completed { content: String },
    Backgrounded { task_id: String, session_id: String },
}

/// How a child turn that was waited for ended.
pub enum ChildOutcome {
    Completed { response: Option<String> },
    Failed { error: String },
    Aborted,
    TimedOut,
}

/// What happens to a child session once its turn completes.
#[derive(Clone, Copy, Debug, PartialEq, Eq, Structural)]
pub enum ChildCleanup {
    Recycle,
    Keep,
}

/// The cleanup a child turn asks for.
pub fn child_cleanup(recycle_on_complete: bool) -> (r: ChildCleanup)
    ensures
        recycle_on_complete <==> r == ChildCleanup::Recycle,
{
    if recycle_on_complete {
        ChildCleanup::Recycle
    } else {
        ChildCleanup::Keep
    }
}

/// The answer for a child turn that was waited for: its response, or an
/// internal error naming how it ended otherwise.
pub fn child_turn_answer(outcome: ChildOutcome) -> (r: Result<SubmitTurnResult, SessionApiError>)
    ensures
        match outcome {
            ChildOutcome::Completed { response: Some(content) } => r matches Ok(SubmitTurnResult::Completed { content: c })
                && c == content,
            ChildOutcome::Completed { response: None } => r matches Err(SessionApiError::Internal(m)) && m@
                == "child turn completed without response payload"@,
            ChildOutcome::Failed { error } => r matches Err(SessionApiError::Internal(m)) && m@ == "turn error: "@ + error@,
            ChildOutcome::Aborted => r matches Err(SessionApiError::Internal(m)) && m@ == "turn aborted"@,
            ChildOutcome::TimedOut => r matches Err(SessionApiError::Internal(m)) && m@ == "turn timed out"@,
        },
{
    match outcome {
        ChildOutcome::Completed { response: Some(content) } => Ok(SubmitTurnResult::Completed { content }),
        ChildOutcome::Completed { response: None } => Err(
            SessionApiError::Internal(to_string("child turn completed without response payload")),
        ),
        ChildOutcome::Failed { error } => {
            let mut m = to_string("turn error: ");
            push_str(&mut m, error.as_str());
            Err(SessionApiError::Internal(m))
        },
        ChildOutcome::Aborted => Err(SessionApiError::Internal(to_string("turn aborted"))),
        ChildOutcome::TimedOut => Err(SessionApiError::Internal(to_string("turn timed out"))),
    }
}

/// How a turn submitted to a session is run.
#[derive(Clone, Copy, Debug, PartialEq, Eq, Structural)]
pub enum TurnSubmission {
    /// A turn of a child of the caller, supervised for the parent.
    Child,
    /// The caller's own turn, waited for.
    Wait,
    /// The caller's own turn, left running.
    Background,
}

/// Decides how a turn is submitted: a turn on another session is a child
/// turn; the caller's own turn is waited for if asked, otherwise left to
/// run in the background.
pub fn turn_submission(caller: &str, target: &str, wait_for_result: bool) -> (r: TurnSubmission)
    ensures
        caller@ != target@ ==> r == TurnSubmission::Child,
        caller@ == target@ && wait_for_result ==> r == TurnSubmission::Wait,
        caller@ == target@ && !wait_for_result ==> r == TurnSubmission::Background,
{
    if !str_eq(caller, target) {
        TurnSubmission::Child
    } else if wait_for_result {
        TurnSubmission::Wait
    } else {
        TurnSubmission::Background
    }
}

/// The answer for the caller's own turn that was waited for.
pub fn waited_turn_answer(waited: Result<TurnSummary, TurnScheduleError>) -> (r: Result<SubmitTurnResult, SessionApiError>)
    ensures
        match waited {
            Ok(TurnSummary::Completed { content, .. }) => r matches Ok(SubmitTurnResult::Completed { content: c })
                && c == content,
            Ok(TurnSummary::Failed { error }) => r matches Err(SessionApiError::Internal(m)) && m@ == "turn error: "@
                + error@,
            Ok(TurnSummary::Aborted) => r matches Err(SessionApiError::Internal(m)) && m@ == "turn aborted"@,
            Err(e) => r matches Err(SessionApiError::Internal(m)) && m@ == "submit: "@ + e.message_spec(),
        },
{
    match waited {
        Ok(TurnSummary::Completed { content, .. }) => Ok(SubmitTurnResult::Completed { content }),
        Ok(TurnSummary::Failed { error }) => {
            let mut m = to_string("turn error: ");
            push_str(&mut m, error.as_str());
            Err(SessionApiError::Internal(m))
        },
        Ok(TurnSummary::Aborted) => Err(SessionApiError::Internal(to_string("turn aborted"))),
        Err(e) => {
            let mut m = to_string("submit: ");
            let t = e.message();
            push_str(&mut m, t.as_str());
            Err(SessionApiError::Internal(m))
        },
    }
}

/// The answer for a turn left running: the turn and the session it runs
/// in.
pub fn backgrounded_answer(turn_id: String, session_id: String) -> (r: SubmitTurnResult)
    ensures
        r == (SubmitTurnResult::Backgrounded { task_id: turn_id, session_id }),
{
    SubmitTurnResult::Backgrounded { task_id: turn_id, session_id }
}

/// Where a message injected into a session goes after trying the running
/// turn.
pub enum InjectNext {
    /// The running turn took it.
    Done,
    /// No turn took it: store it as a user message of the idle session.
    Persist,
    /// Injecting failed.
    Fail(SessionApiError),
}

/// Decides what follows an attempt to inject into the running turn
/// (`None` when no turn was running to try): a turn that ended meanwhile
/// leaves the message to be stored; any other failure is reported.
pub fn inject_next(attempt: Option<Result<(), TurnScheduleError>>) -> (r: InjectNext)
    ensures
        match attempt {
            None => r is Persist,
            Some(Ok(())) => r is Done,
            Some(Err(TurnScheduleError::NoActiveTurn)) => r is Persist,
            Some(Err(e)) => r matches InjectNext::Fail(SessionApiError::Internal(m)) && m@ == e.message_spec(),
        },
{
    match attempt {
        None => InjectNext::Persist,
        Some(Ok(())) => InjectNext::Done,
        Some(Err(TurnScheduleError::NoActiveTurn)) => InjectNext::Persist,
        Some(Err(e)) => InjectNext::Fail(SessionApiError::Internal(e.message())),
    }
}

} // verus!
