//! Turn scheduling decisions: the per-session FIFO of inputs waiting for
//! the next turn, the outcome types of submission, and the summaries a
//! finished turn produces.

use vstd::prelude::*;
use crate::keyed::{keys_in, lemma_remove_keyed};
use crate::text::{push_str, str_eq, to_string};
use crate::user_prompt::UserPromptParts;
use crate::llm::{LlmContent, LlmMessage, LlmRole};
use crate::tool_result::ToolResult;

verus! {

/// How a turn ended (shared by handlers, the ACP bridge and extensions).
#[derive(Debug, Clone)]
pub enum TurnSummary {
    Completed { finish_reason: String, content: String },
    Failed { error: String },
    Aborted,
}

/// What became of a submitted prompt.
pub enum SubmitOutcome {
    /// A new turn started; its completion watcher is registered.
    Started { turn_id: String },
    /// The input went into the running turn.
    Injected,
    /// The input waits for the running turn to end.
    Queued,
}

/// What became of user input sent while a turn may be running.
pub enum UserInputOutcome {
    Queued,
    Started { turn_id: String },
}

/// Errors of the session manager.
pub enum SessionManagerError {
    Session(String),
    Storage(String),
    Extension(String),
    MissingStartEvent,
    InvalidCursor(String),
}

impl SessionManagerError {
    /// The error's text.
    pub fn message(&self) -> (r: String)
        ensures
            r@ == match *self {
                SessionManagerError::Session(m) => m@,
                SessionManagerError::Storage(m) => m@,
                SessionManagerError::Extension(m) => m@,
                SessionManagerError::MissingStartEvent => "session created but no events found"@,
                SessionManagerError::InvalidCursor(c) => "invalid fork cursor: "@ + c@,
            },
    {
        match self {
            SessionManagerError::Session(m) => to_string(m.as_str()),
            SessionManagerError::Storage(m) => to_string(m.as_str()),
            SessionManagerError::Extension(m) => to_string(m.as_str()),
            SessionManagerError::MissingStartEvent => to_string("session created but no events found"),
            SessionManagerError::InvalidCursor(c) => {
                let mut r = to_string("invalid fork cursor: ");
                push_str(&mut r, c.as_str());
                r
            },
        }
    }
}

/// Errors of turn scheduling (whether the session exists, whether a turn
/// already runs).  Errors of lower layers carry their text.
pub enum TurnScheduleError {
    TurnAlreadyRunning,
    NoActiveTurn,
    SessionNotFound(String),
    SessionManager(SessionManagerError),
    Session(String),
    Turn(String),
    EventEmit(String),
}

impl TurnScheduleError {
    /// The text of the error.
    pub open spec fn message_spec(&self) -> Seq<char> {
        match *self {
            TurnScheduleError::TurnAlreadyRunning => "A turn is already running"@,
            TurnScheduleError::NoActiveTurn => "No active turn"@,
            TurnScheduleError::SessionNotFound(s) => "Session not found: "@ + s@,
            TurnScheduleError::SessionManager(e) => match e {
                SessionManagerError::Session(m) => m@,
                SessionManagerError::Storage(m) => m@,
                SessionManagerError::Extension(m) => m@,
                SessionManagerError::MissingStartEvent => "session created but no events found"@,
                SessionManagerError::InvalidCursor(c) => "invalid fork cursor: "@ + c@,
            },
            TurnScheduleError::Session(m) => m@,
            TurnScheduleError::Turn(m) => m@,
            TurnScheduleError::EventEmit(_) => "event emit failed"@,
        }
    }

    /// The error's text.
    pub fn message(&self) -> (r: String)
        ensures
            r@ == self.message_spec(),
    {
        match self {
            TurnScheduleError::TurnAlreadyRunning => to_string("A turn is already running"),
            TurnScheduleError::NoActiveTurn => to_string("No active turn"),
            TurnScheduleError::SessionNotFound(s) => {
                let mut r = to_string("Session not found: ");
                push_str(&mut r, s.as_str());
                r
            },
            TurnScheduleError::SessionManager(e) => e.message(),
            TurnScheduleError::Session(m) => to_string(m.as_str()),
            TurnScheduleError::Turn(m) => to_string(m.as_str()),
            TurnScheduleError::EventEmit(_) => to_string("event emit failed"),
        }
    }
}

/// What a finished turn produced, or its error text.
pub struct TurnOutput {
    pub finish_reason: String,
    pub text: String,
}

/// The summary of a turn from what waiting on it gave: its output, its
/// error, or nothing when it was aborted.
pub fn summary_from_wait(wait_result: Option<Result<TurnOutput, String>>) -> (r: TurnSummary)
    ensures
        match wait_result {
            Some(Ok(o)) => r matches TurnSummary::Completed { finish_reason, content }
                && finish_reason == o.finish_reason && content == o.text,
            Some(Err(e)) => r matches TurnSummary::Failed { error } && error == e,
            None => r is Aborted,
        },
{
    match wait_result {
        Some(Ok(output)) => TurnSummary::Completed { finish_reason: output.finish_reason, content: output.text },
        Some(Err(error)) => TurnSummary::Failed { error },
        None => TurnSummary::Aborted,
    }
}

/// What the completion watcher of a session does once a turn finished.
#[derive(Clone, Copy, Debug, PartialEq, Eq, Structural)]
pub struct ChainStep {
    /// Hand the summary to whoever waits on the chain's first turn.
    pub notify_waiter: bool,
    /// Watch the next queued turn, which was just started.
    pub run_next: bool,
    /// Report the session idle, with the summary, to the idle hook.
    pub report_idle: bool,
}

/// Decides the watcher's step after a turn: the waiter, if still there,
/// learns the summary either way; a queued turn that was started is
/// watched next; otherwise the chain ends and the idle hook, if any, hears
/// of it.
pub fn chain_step(waiter_pending: bool, next_started: bool, has_idle_hook: bool) -> (r: ChainStep)
    ensures
        r.notify_waiter == waiter_pending,
        r.run_next == next_started,
        r.report_idle == (!next_started && has_idle_hook),
{
    ChainStep { notify_waiter: waiter_pending, run_next: next_started, report_idle: !next_started && has_idle_hook }
}

/// The marker input that wakes a session when background work finished.
pub fn background_completed_marker(source: &str) -> (r: String)
    ensures
        r@ == "<system type=\"background_completed\" source=\""@ + source@ + "\">"@,
{
    let mut r = to_string("<system type=\"background_completed\" source=\"");
    push_str(&mut r, source);
    push_str(&mut r, "\">");
    r
}

/// Where user input goes: into the queue when a turn runs, otherwise into
/// a new turn.
#[derive(Clone, Copy, Debug, PartialEq, Eq, Structural)]
pub enum InputRoute {
    Enqueue,
    StartTurn,
}

/// Routes input sent as the next turn's input.
pub fn route_user_input(has_active_turn: bool) -> (r: InputRoute)
    ensures
        r == (if has_active_turn { InputRoute::Enqueue } else { InputRoute::StartTurn }),
{
    if has_active_turn { InputRoute::Enqueue } else { InputRoute::StartTurn }
}

/// Where a steering prompt goes: into the running turn, otherwise into a
/// new turn.
#[derive(Clone, Copy, Debug, PartialEq, Eq, Structural)]
pub enum PromptRoute {
    Inject,
    StartTurn,
}

/// Routes a prompt that should reach the model at its next step.
pub fn route_prompt_step(has_active_turn: bool) -> (r: PromptRoute)
    ensures
        r == (if has_active_turn { PromptRoute::Inject } else { PromptRoute::StartTurn }),
{
    if has_active_turn { PromptRoute::Inject } else { PromptRoute::StartTurn }
}

/// The next step of an abort request.
#[derive(Clone, Copy, Debug, PartialEq, Eq, Structural)]
pub enum AbortStep {
    /// Nothing (more) to do: the active turn was aborted, or the session
    /// already rests.
    Done,
    /// The session could not be opened.
    SessionNotFound,
    /// The recorded phase claims a running turn that no longer exists.
    RepairStale,
}

/// The step an abort takes: done when a running turn was aborted;
/// otherwise an error when the session is missing, done when it rests
/// (idle or error phase), and a repair of the stale phase in any other
/// case.
pub open spec fn abort_step_of(aborted_active_turn: bool, session_found: bool, phase_at_rest: bool) -> AbortStep {
    if aborted_active_turn {
        AbortStep::Done
    } else if !session_found {
        AbortStep::SessionNotFound
    } else if phase_at_rest {
        AbortStep::Done
    } else {
        AbortStep::RepairStale
    }
}

/// Decides an abort.
pub fn abort_step(aborted_active_turn: bool, session_found: bool, phase_at_rest: bool) -> (r: AbortStep)
    ensures
        r == abort_step_of(aborted_active_turn, session_found, phase_at_rest),
{
    if aborted_active_turn {
        AbortStep::Done
    } else if !session_found {
        AbortStep::SessionNotFound
    } else if phase_at_rest {
        AbortStep::Done
    } else {
        AbortStep::RepairStale
    }
}

/// Whether an abort writes a turn-completion event: aborting the running
/// turn writes `aborted`, repairing a stale phase writes `interrupted`,
/// and a resting session gets nothing.
pub open spec fn abort_writes_completion(aborted_active_turn: bool, step: AbortStep) -> bool {
    aborted_active_turn || step == AbortStep::RepairStale
}

/// Whether the phase rests after an abort: a written turn completion puts
/// it to rest, and an abort that found it resting leaves it so.
pub open spec fn rests_after_abort(phase_at_rest: bool, aborted_active_turn: bool, step: AbortStep) -> bool {
    abort_writes_completion(aborted_active_turn, step) || (step == AbortStep::Done && phase_at_rest)
}

/// Aborting is idempotent: once an abort of an existing session has
/// returned (and no turn was submitted since, so none runs), aborting it
/// again succeeds and writes no further turn completion.
pub proof fn law_repeated_abort_silent(aborted_active_turn: bool, phase_at_rest: bool)
    ensures
        abort_step_of(aborted_active_turn, true, phase_at_rest) != AbortStep::SessionNotFound,
        rests_after_abort(phase_at_rest, aborted_active_turn, abort_step_of(aborted_active_turn, true, phase_at_rest)),
        ({
            let first = abort_step_of(aborted_active_turn, true, phase_at_rest);
            let again = abort_step_of(false, true, rests_after_abort(phase_at_rest, aborted_active_turn, first));
            again == AbortStep::Done && !abort_writes_completion(false, again)
        }),
{
}

// ─── Pending input queues ───────────────────────────────────────────────

/// The queue of `session` in `m`, empty when it has none.
pub open spec fn queue_of(m: Map<Seq<char>, Seq<UserPromptParts>>, session: Seq<char>) -> Seq<UserPromptParts> {
    if m.contains_key(session) {
        m[session]
    } else {
        seq![]
    }
}

/// Index of the first submittable input of `q`; `q.len()` when none is.
pub open spec fn first_submittable(q: Seq<UserPromptParts>) -> nat
    decreases q.len(),
{
    if q.len() == 0 {
        0
    } else if q[0].submittable() {
        0
    } else {
        1 + first_submittable(q.drop_first())
    }
}

/// `m` with the queue of `session` set to `q`; an empty queue is dropped.
pub open spec fn with_queue(m: Map<Seq<char>, Seq<UserPromptParts>>, session: Seq<char>, q: Seq<UserPromptParts>) -> Map<
    Seq<char>,
    Seq<UserPromptParts>,
> {
    if q.len() == 0 {
        m.remove(session)
    } else {
        m.insert(session, q)
    }
}

/// Per-session FIFO queues of input waiting for the next turn.
pub struct PendingQueues {
    queues: Vec<(String, Vec<UserPromptParts>)>,
}

spec fn queue_map(queues: Seq<(String, Vec<UserPromptParts>)>) -> Map<Seq<char>, Seq<UserPromptParts>>
    decreases queues.len(),
{
    if queues.len() == 0 {
        Map::empty()
    } else {
        queue_map(queues.drop_last()).insert(queues.last().0@, queues.last().1@)
    }
}

spec fn unique_sessions(queues: Seq<(String, Vec<UserPromptParts>)>) -> bool {
    forall|i: int, j: int| 0 <= i < j < queues.len() ==> (#[trigger] queues[i]).0@ != (#[trigger] queues[j]).0@
}

proof fn lemma_queue_map(queues: Seq<(String, Vec<UserPromptParts>)>)
    requires
        unique_sessions(queues),
    ensures
        forall|s: Seq<char>| queue_map(queues).contains_key(s) <==> exists|i: int| 0 <= i < queues.len() && (#[trigger] queues[i]).0@ == s,
        forall|i: int| 0 <= i < queues.len() ==> queue_map(queues)[(#[trigger] queues[i]).0@] == queues[i].1@,
    decreases queues.len(),
{
    if queues.len() > 0 {
        let pre = queues.drop_last();
        lemma_queue_map(pre);
        assert forall|s: Seq<char>| queue_map(queues).contains_key(s) implies exists|i: int| 0 <= i < queues.len() && (#[trigger] queues[i]).0@ == s by {
            if s != queues.last().0@ {
                assert(queue_map(pre).contains_key(s));
                let i = choose|i: int| 0 <= i < pre.len() && (#[trigger] pre[i]).0@ == s;
                assert(queues[i] == pre[i]);
            } else {
                assert(queues[queues.len() - 1].0@ == s);
            }
        }
        assert forall|s: Seq<char>| (exists|i: int| 0 <= i < queues.len() && (#[trigger] queues[i]).0@ == s) implies queue_map(queues).contains_key(s) by {
            let i = choose|i: int| 0 <= i < queues.len() && (#[trigger] queues[i]).0@ == s;
            if i < queues.len() - 1 {
                assert(pre[i] == queues[i]);
            }
        }
        assert forall|i: int| 0 <= i < queues.len() implies queue_map(queues)[(#[trigger] queues[i]).0@] == queues[i].1@ by {
            if i < queues.len() - 1 {
                assert(pre[i] == queues[i]);
                assert(queues[i].0@ != queues[queues.len() - 1].0@);
            }
        }
    }
}

proof fn lemma_queue_map_update(queues: Seq<(String, Vec<UserPromptParts>)>, i: int, r: Seq<(String, Vec<UserPromptParts>)>)
    requires
        unique_sessions(queues),
        0 <= i < queues.len(),
        r.len() == queues.len(),
        r[i].0@ == queues[i].0@,
        forall|j: int| 0 <= j < queues.len() && j != i ==> r[j] == queues[j],
    ensures
        unique_sessions(r),
        queue_map(r) == queue_map(queues).insert(queues[i].0@, r[i].1@),
{
    assert forall|a: int, b: int| 0 <= a < b < r.len() implies (#[trigger] r[a]).0@ != (#[trigger] r[b]).0@ by {
        assert(r[a].0@ == queues[a].0@);
        assert(r[b].0@ == queues[b].0@);
    }
    lemma_queue_map(queues);
    lemma_queue_map(r);
    let m = queue_map(queues).insert(queues[i].0@, r[i].1@);
    assert forall|s: Seq<char>| queue_map(r).contains_key(s) <==> m.contains_key(s) by {
        if queue_map(r).contains_key(s) {
            let k = choose|k: int| 0 <= k < r.len() && (#[trigger] r[k]).0@ == s;
            assert(r[k].0@ == queues[k].0@);
        }
        if m.contains_key(s) && s != queues[i].0@ {
            let k = choose|k: int| 0 <= k < queues.len() && (#[trigger] queues[k]).0@ == s;
            assert(r[k] == queues[k]);
        }
    }
    assert forall|s: Seq<char>| #[trigger] queue_map(r).contains_key(s) implies queue_map(r)[s] == m[s] by {
        let k = choose|k: int| 0 <= k < r.len() && (#[trigger] r[k]).0@ == s;
        if k != i {
            assert(r[k] == queues[k]);
        }
    }
    assert(queue_map(r) =~= m);
}

proof fn lemma_queue_map_remove(queues: Seq<(String, Vec<UserPromptParts>)>, i: int)
    requires
        unique_sessions(queues),
        0 <= i < queues.len(),
    ensures
        unique_sessions(queues.remove(i)),
        queue_map(queues.remove(i)) == queue_map(queues).remove(queues[i].0@),
{
    let r = queues.remove(i);
    let key = |q: (String, Vec<UserPromptParts>)| q.0@;
    lemma_remove_keyed(queues, key, i);
    lemma_queue_map(queues);
    lemma_queue_map(r);
    let m = queue_map(queues).remove(queues[i].0@);
    assert forall|s: Seq<char>| queue_map(r).contains_key(s) <==> m.contains_key(s) by {
        assert(keys_in(r, key).contains(s) == keys_in(queues, key).remove(queues[i].0@).contains(s));
    }
    assert forall|s: Seq<char>| #[trigger] queue_map(r).contains_key(s) implies queue_map(r)[s] == m[s] by {
        let k = choose|k: int| 0 <= k < r.len() && (#[trigger] r[k]).0@ == s;
        assert(r[k] == queues[if k < i { k } else { k + 1 }]);
    }
    assert(queue_map(r) =~= m);
}

impl View for PendingQueues {
    type V = Map<Seq<char>, Seq<UserPromptParts>>;

    closed spec fn view(&self) -> Map<Seq<char>, Seq<UserPromptParts>> {
        queue_map(self.queues@)
    }
}

impl PendingQueues {
    /// Sessions are unique and no stored queue is empty.
    pub closed spec fn wf(&self) -> bool {
        &&& unique_sessions(self.queues@)
        &&& forall|i: int| 0 <= i < self.queues@.len() ==> (#[trigger] self.queues@[i]).1@.len() > 0
    }

    /// No input waits.
    pub fn new() -> (r: Self)
        ensures
            r.wf(),
            r@ == Map::<Seq<char>, Seq<UserPromptParts>>::empty(),
    {
        PendingQueues { queues: Vec::new() }
    }

    /// A session whose queue empties leaves the map: every queue in the
    /// view holds at least one input.
    pub proof fn law_no_empty_queue(&self)
        requires
            self.wf(),
        ensures
            forall|s: Seq<char>| #[trigger] self@.contains_key(s) ==> self@[s].len() > 0,
    {
        lemma_queue_map(self.queues@);
        assert forall|s: Seq<char>| #[trigger] self@.contains_key(s) implies self@[s].len() > 0 by {
            let i = choose|i: int| 0 <= i < self.queues@.len() && (#[trigger] self.queues@[i]).0@ == s;
        }
    }

    fn position(&self, session_id: &str) -> (r: Option<usize>)
        requires
            self.wf(),
        ensures
            match r {
                Some(i) => i < self.queues@.len() && self.queues@[i as int].0@ == session_id@,
                None => !self@.contains_key(session_id@),
            },
    {
        proof {
            lemma_queue_map(self.queues@);
        }
        let mut i: usize = 0;
        while i < self.queues.len()
            invariant
                0 <= i <= self.queues@.len(),
                forall|j: int| 0 <= j < i ==> (#[trigger] self.queues@[j]).0@ != session_id@,
            decreases self.queues@.len() - i,
        {
            if str_eq(self.queues[i].0.as_str(), session_id) {
                return Some(i);
            }
            i = i + 1;
        }
        None
    }

    /// Number of inputs waiting for `session_id`.
    pub fn queue_len(&self, session_id: &str) -> (r: usize)
        requires
            self.wf(),
        ensures
            r == queue_of(self@, session_id@).len(),
    {
        proof {
            lemma_queue_map(self.queues@);
        }
        match self.position(session_id) {
            Some(i) => self.queues[i].1.len(),
            None => 0,
        }
    }

    /// Appends `input` to the end of the queue of `session_id`.
    pub fn enqueue(&mut self, session_id: &str, input: UserPromptParts)
        requires
            old(self).wf(),
        ensures
            final(self).wf(),
            final(self)@ == old(self)@.insert(session_id@, queue_of(old(self)@, session_id@).push(input)),
    {
        proof {
            lemma_queue_map(self.queues@);
        }
        match self.position(session_id) {
            Some(i) => {
                let ghost q0 = self.queues@;
                let (name, mut q) = self.queues.remove(i);
                q.push(input);
                self.queues.insert(i, (name, q));
                proof {
                    assert forall|j: int| 0 <= j < q0.len() && j != i implies self.queues@[j] == q0[j] by {
                        if j < i {
                        } else {
                        }
                    }
                    lemma_queue_map_update(q0, i as int, self.queues@);
                    assert forall|j: int| 0 <= j < self.queues@.len() implies (#[trigger] self.queues@[j]).1@.len() > 0 by {
                        if j != i {
                            assert(self.queues@[j] == q0[j]);
                        }
                    }
                }
            },
            None => {
                let ghost q0 = self.queues@;
                let mut q: Vec<UserPromptParts> = Vec::new();
                q.push(input);
                self.queues.push((to_string(session_id), q));
                proof {
                    assert(self.queues@.drop_last() =~= q0);
                    assert forall|a: int, b: int| 0 <= a < b < self.queues@.len() implies (#[trigger] self.queues@[a]).0@ != (
                    #[trigger] self.queues@[b]).0@ by {
                        assert(self.queues@[a] == q0[a]);
                        if b < q0.len() {
                            assert(self.queues@[b] == q0[b]);
                        } else {
                            assert(queue_map(q0).contains_key(q0[a].0@));
                        }
                    }
                    assert forall|j: int| 0 <= j < self.queues@.len() implies (#[trigger] self.queues@[j]).1@.len() > 0 by {
                        if j < q0.len() {
                            assert(self.queues@[j] == q0[j]);
                        }
                    }
                    assert(seq![input] =~= Seq::<UserPromptParts>::empty().push(input));
                }
            },
        }
    }

    /// Takes the next input for `session_id`: inputs that cannot be
    /// submitted are dropped on the way; the first submittable one is
    /// returned.  A queue that runs empty is removed.
    pub fn dequeue_next(&mut self, session_id: &str) -> (r: Option<UserPromptParts>)
        requires
            old(self).wf(),
        ensures
            final(self).wf(),
            ({
                let q = queue_of(old(self)@, session_id@);
                let k = first_submittable(q);
                if k < q.len() {
                    &&& r == Some(q[k as int])
                    &&& final(self)@ == with_queue(old(self)@, session_id@, q.skip(k as int + 1))
                } else {
                    &&& r is None
                    &&& final(self)@ == old(self)@.remove(session_id@)
                }
            }),
    {
        proof {
            lemma_queue_map(self.queues@);
        }
        let i = match self.position(session_id) {
            Some(i) => i,
            None => {
                proof {
                    assert(self@.remove(session_id@) =~= self@);
                }
                return None;
            },
        };
        let ghost q0 = self.queues@;
        let ghost q = q0[i as int].1@;
        proof {
            lemma_queue_map_remove(q0, i as int);
        }
        let (name, items) = self.queues.remove(i);
        let mut rest = items;
        let total = rest.len();
        let mut skipped: usize = 0;
        proof {
            lemma_first_submittable_bound(q);
            assert(rest@ =~= q.skip(0));
            lemma_queue_map(q0);
        }
        while rest.len() > 0
            invariant
                q.len() == total,
                i < q0.len(),
                q == q0[i as int].1@,
                self.queues@ == q0.remove(i as int),
                unique_sessions(q0),
                forall|j: int| 0 <= j < q0.len() ==> (#[trigger] q0[j]).1@.len() > 0,
                name@ == q0[i as int].0@,
                name@ == session_id@,
                queue_of(old(self)@, session_id@) == q,
                old(self)@ == queue_map(q0),
                self@ == queue_map(q0).remove(session_id@),
                rest@ == q.skip(skipped as int),
                skipped <= q.len(),
                skipped <= first_submittable(q),
                first_submittable(q) <= q.len(),
                forall|j: int| 0 <= j < skipped ==> !(#[trigger] q[j]).submittable(),
            decreases rest@.len(),
        {
            let input = rest.remove(0);
            proof {
                assert(input == q[skipped as int]);
                assert(rest@ =~= q.skip(skipped + 1));
                lemma_first_submittable(q, skipped as int);
            }
            if input.is_submittable() {
                proof {
                    assert(first_submittable(q) == skipped);
                }
                if rest.len() > 0 {
                    let ghost before = self.queues@;
                    self.queues.insert(i, (name, rest));
                    proof {
                        assert forall|j: int| 0 <= j < q0.len() && j != i implies self.queues@[j] == q0[j] by {
                            if j < i {
                                assert(self.queues@[j] == before[j]);
                            } else {
                                assert(self.queues@[j] == before[j - 1]);
                            }
                        }
                        lemma_queue_map_update(q0, i as int, self.queues@);
                        assert forall|j: int| 0 <= j < self.queues@.len() implies (#[trigger] self.queues@[j]).1@.len() > 0 by {
                            if j != i {
                                assert(self.queues@[j] == q0[j]);
                            }
                        }
                    }
                }
                return Some(input);
            }
            proof {
                lemma_first_submittable(q, skipped + 1);
            }
            skipped = skipped + 1;
        }
        proof {
            lemma_first_submittable(q, skipped as int);
            assert(skipped == q.len());
            assert forall|j: int| 0 <= j < self.queues@.len() implies (#[trigger] self.queues@[j]).1@.len() > 0 by {
                let j2 = if j < i { j } else { j + 1 };
                assert(self.queues@[j] == q0[j2]);
            }
        }
        None
    }

    /// Drops the queue of `session_id`; true when there was one.
    pub fn clear(&mut self, session_id: &str) -> (r: bool)
        requires
            old(self).wf(),
        ensures
            final(self).wf(),
            r == old(self)@.contains_key(session_id@),
            final(self)@ == old(self)@.remove(session_id@),
    {
        proof {
            lemma_queue_map(self.queues@);
        }
        match self.position(session_id) {
            Some(i) => {
                let ghost q0 = self.queues@;
                proof {
                    lemma_queue_map_remove(q0, i as int);
                }
                let _dropped = self.queues.remove(i);
                proof {
                    assert forall|j: int| 0 <= j < self.queues@.len() implies (#[trigger] self.queues@[j]).1@.len() > 0 by {
                        let j2 = if j < i { j } else { j + 1 };
                        assert(self.queues@[j] == q0[j2]);
                    }
                }
                true
            },
            None => {
                proof {
                    assert(self@.remove(session_id@) =~= self@);
                }
                false
            },
        }
    }
}

/// `first_submittable` stops at the first submittable input.
proof fn lemma_first_submittable(q: Seq<UserPromptParts>, k: int)
    requires
        0 <= k <= q.len(),
        forall|j: int| 0 <= j < k ==> !(#[trigger] q[j]).submittable(),
    ensures
        first_submittable(q) >= k,
        first_submittable(q) <= q.len(),
        k < q.len() && q[k].submittable() ==> first_submittable(q) == k,
        k == q.len() ==> first_submittable(q) == q.len(),
    decreases k,
{
    if k > 0 {
        assert(!q[0].submittable());
        assert forall|j: int| 0 <= j < k - 1 implies !(#[trigger] q.drop_first()[j]).submittable() by {
            assert(q.drop_first()[j] == q[j + 1]);
        }
        lemma_first_submittable(q.drop_first(), k - 1);
        if k < q.len() {
            assert(q.drop_first()[k - 1] == q[k]);
        }
    } else {
        lemma_first_submittable_bound(q);
    }
}

proof fn lemma_first_submittable_bound(q: Seq<UserPromptParts>)
    ensures
        first_submittable(q) <= q.len(),
        first_submittable(q) < q.len() ==> q[first_submittable(q) as int].submittable(),
        forall|j: int| 0 <= j < first_submittable(q) ==> !(#[trigger] q[j]).submittable(),
    decreases q.len(),
{
    if q.len() > 0 && !q[0].submittable() {
        lemma_first_submittable_bound(q.drop_first());
        assert forall|j: int| 0 <= j < first_submittable(q) implies !(#[trigger] q[j]).submittable() by {
            if j > 0 {
                assert(q[j] == q.drop_first()[j - 1]);
            }
        }
        if first_submittable(q) < q.len() {
            assert(q[first_submittable(q) as int] == q.drop_first()[first_submittable(q.drop_first()) as int]);
        }
    }
}

/// Inputs leave in arrival order: input added behind a queue is taken
/// only after every submittable input already waiting.
pub proof fn law_queue_fifo(q: Seq<UserPromptParts>, x: UserPromptParts)
    ensures
        first_submittable(q) < q.len() ==> first_submittable(q.push(x)) == first_submittable(q),
        first_submittable(q) == q.len() && x.submittable() ==> first_submittable(q.push(x)) == q.len(),
        first_submittable(q) == q.len() && !x.submittable() ==> first_submittable(q.push(x)) == q.len() + 1,
    decreases q.len(),
{
    lemma_first_submittable_bound(q);
    if q.len() > 0 {
        assert(q.push(x).drop_first() =~= q.drop_first().push(x));
        assert(q.push(x)[0] == q[0]);
        law_queue_fifo(q.drop_first(), x);
    } else {
        assert(q.push(x)[0] == x);
        assert(q.push(x).drop_first().len() == 0);
        assert(first_submittable(q.push(x).drop_first()) == 0);
    }
}

/// Taking input for one session leaves every other session's queue as it
/// was.
pub proof fn law_dequeue_isolated(m: Map<Seq<char>, Seq<UserPromptParts>>, session: Seq<char>, q: Seq<UserPromptParts>, other: Seq<char>)
    requires
        other != session,
    ensures
        queue_of(with_queue(m, session, q), other) == queue_of(m, other),
        queue_of(m.remove(session), other) == queue_of(m, other),
        queue_of(m.insert(session, q), other) == queue_of(m, other),
{
}

// ─── Repair of interrupted turns ────────────────────────────────────────

/// The tool calls requested in one message's content, as (call id, tool
/// name), in order.
pub open spec fn content_calls(content: Seq<LlmContent>) -> Seq<(Seq<char>, Seq<char>)>
    decreases content.len(),
{
    if content.len() == 0 {
        seq![]
    } else {
        content_calls(content.drop_last()) + match content.last() {
            LlmContent::ToolCall { call_id, name, .. } => seq![(call_id@, name@)],
            _ => seq![],
        }
    }
}

/// The tool calls the assistant requested in `messages`, in order.
pub open spec fn requested_calls(messages: Seq<LlmMessage>) -> Seq<(Seq<char>, Seq<char>)>
    decreases messages.len(),
{
    if messages.len() == 0 {
        seq![]
    } else {
        requested_calls(messages.drop_last()) + if messages.last().role == LlmRole::Assistant {
            content_calls(messages.last().content@)
        } else {
            seq![]
        }
    }
}

/// The calls among `calls` still open in `remaining`, each reported once,
/// at its first request.
pub open spec fn open_calls(calls: Seq<(Seq<char>, Seq<char>)>, remaining: Set<Seq<char>>) -> Seq<(Seq<char>, Seq<char>)>
    decreases calls.len(),
{
    if calls.len() == 0 {
        seq![]
    } else if remaining.contains(calls[0].0) {
        seq![calls[0]] + open_calls(calls.drop_first(), remaining.remove(calls[0].0))
    } else {
        open_calls(calls.drop_first(), remaining)
    }
}

/// A tool call the model requested that never got a result.
pub struct PendingRequestedToolCall {
    pub call_id: String,
    pub tool_name: String,
}

fn collect_requested_calls(messages: &[LlmMessage]) -> (r: Vec<(String, String)>)
    ensures
        r@.map_values(|p: (String, String)| (p.0@, p.1@)) == requested_calls(messages@),
{
    let mut r: Vec<(String, String)> = Vec::new();
    let mut i: usize = 0;
    while i < messages.len()
        invariant
            0 <= i <= messages@.len(),
            r@.map_values(|p: (String, String)| (p.0@, p.1@)) == requested_calls(messages@.take(i as int)),
        decreases messages@.len() - i,
    {
        proof {
            assert(messages@.take(i + 1).drop_last() =~= messages@.take(i as int));
            assert(messages@.take(i + 1).last() == messages@[i as int]);
        }
        let ghost before = r@.map_values(|p: (String, String)| (p.0@, p.1@));
        if messages[i].role == LlmRole::Assistant {
            let content = &messages[i].content;
            let mut k: usize = 0;
            proof {
                assert(r@.map_values(|p: (String, String)| (p.0@, p.1@)) =~= before + content_calls(content@.take(0)));
            }
            while k < content.len()
                invariant
                    0 <= k <= content@.len(),
                    r@.map_values(|p: (String, String)| (p.0@, p.1@)) == before + content_calls(content@.take(k as int)),
                decreases content@.len() - k,
            {
                proof {
                    assert(content@.take(k + 1).drop_last() =~= content@.take(k as int));
                    assert(content@.take(k + 1).last() == content@[k as int]);
                }
                match &content[k] {
                    LlmContent::ToolCall { call_id, name, .. } => {
                        let ghost mid = r@.map_values(|p: (String, String)| (p.0@, p.1@));
                        r.push((call_id.clone(), name.clone()));
                        proof {
                            assert(r@.map_values(|p: (String, String)| (p.0@, p.1@)) =~= mid.push((call_id@, name@)));
                            assert(before + content_calls(content@.take(k + 1)) =~= before + content_calls(content@.take(k as int))
                                + seq![(call_id@, name@)]);
                        }
                    },
                    _ => {
                        proof {
                            assert(before + content_calls(content@.take(k + 1)) =~= before + content_calls(content@.take(k as int)));
                        }
                    },
                }
                k = k + 1;
            }
            proof {
                assert(content@.take(content@.len() as int) =~= content@);
            }
        } else {
            proof {
                assert(before + seq![] =~= before);
            }
        }
        i = i + 1;
    }
    proof {
        assert(messages@.take(messages@.len() as int) =~= messages@);
    }
    r
}

fn without_name(names: &Vec<String>, id: &str) -> (r: Vec<String>)
    ensures
        forall|x: Seq<char>| crate::text::views(r@).contains(x) <==> (crate::text::views(names@).contains(x) && x != id@),
{
    let mut r: Vec<String> = Vec::new();
    let mut k: usize = 0;
    while k < names.len()
        invariant
            0 <= k <= names@.len(),
            forall|x: Seq<char>| crate::text::views(r@).contains(x) <==> (crate::text::views(names@.take(k as int)).contains(x)
                && x != id@),
        decreases names@.len() - k,
    {
        let ghost before = r@;
        if !str_eq(names[k].as_str(), id) {
            r.push(names[k].clone());
        }
        proof {
            let nk = crate::text::views(names@.take(k + 1));
            assert(nk =~= crate::text::views(names@.take(k as int)).push(names@[k as int]@));
            assert forall|x: Seq<char>| crate::text::views(r@).contains(x) <==> (nk.contains(x) && x != id@) by {
                if crate::text::views(r@).contains(x) {
                    let q = choose|q: int| 0 <= q < crate::text::views(r@).len() && crate::text::views(r@)[q] == x;
                    if q < before.len() {
                        assert(crate::text::views(before)[q] == x);
                        assert(crate::text::views(before).contains(x));
                        let p = choose|p: int| 0 <= p < crate::text::views(names@.take(k as int)).len()
                            && crate::text::views(names@.take(k as int))[p] == x;
                        assert(nk[p] == x);
                    } else {
                        assert(nk[k as int] == x);
                    }
                }
                if nk.contains(x) && x != id@ {
                    let p = choose|p: int| 0 <= p < nk.len() && nk[p] == x;
                    if p < k {
                        assert(crate::text::views(names@.take(k as int))[p] == x);
                        assert(crate::text::views(before).contains(x));
                        let q = choose|q: int| 0 <= q < crate::text::views(before).len() && crate::text::views(before)[q] == x;
                        assert(crate::text::views(r@)[q] == x);
                    } else {
                        assert(crate::text::views(r@)[before.len() as int] == x);
                    }
                }
            }
        }
        k = k + 1;
    }
    proof {
        assert(names@.take(names@.len() as int) =~= names@);
    }
    r
}

fn position_of(names: &Vec<String>, id: &str) -> (r: Option<usize>)
    ensures
        match r {
            Some(k) => k < names@.len() && names@[k as int]@ == id@,
            None => forall|q: int| 0 <= q < names@.len() ==> names@[q]@ != id@,
        },
{
    let mut k: usize = 0;
    while k < names.len()
        invariant
            0 <= k <= names@.len(),
            forall|q: int| 0 <= q < k ==> names@[q]@ != id@,
        decreases names@.len() - k,
    {
        if str_eq(names[k].as_str(), id) {
            return Some(k);
        }
        k = k + 1;
    }
    None
}

/// The calls the assistant requested that are still pending, in request
/// order, each once.
pub fn pending_requested_tool_calls(messages: &[LlmMessage], pending: &[String]) -> (r: Vec<PendingRequestedToolCall>)
    ensures
        r@.map_values(|p: PendingRequestedToolCall| (p.call_id@, p.tool_name@)) == open_calls(
            requested_calls(messages@),
            crate::text::views(pending@).to_set(),
        ),
{
    let calls = collect_requested_calls(messages);
    let ghost cv = calls@.map_values(|p: (String, String)| (p.0@, p.1@));
    let mut remaining: Vec<String> = Vec::new();
    let mut j: usize = 0;
    while j < pending.len()
        invariant
            0 <= j <= pending@.len(),
            crate::text::views(remaining@) == crate::text::views(pending@.take(j as int)),
        decreases pending@.len() - j,
    {
        remaining.push(pending[j].clone());
        proof {
            assert(crate::text::views(pending@.take(j + 1)) =~= crate::text::views(pending@.take(j as int)).push(pending@[j as int]@));
            assert(crate::text::views(remaining@) =~= crate::text::views(pending@.take(j as int)).push(pending@[j as int]@));
        }
        j = j + 1;
    }
    proof {
        assert(pending@.take(pending@.len() as int) =~= pending@);
    }
    let mut out: Vec<PendingRequestedToolCall> = Vec::new();
    let mut i: usize = 0;
    proof {
        assert(cv.skip(0) =~= cv);
        assert(out@.map_values(|p: PendingRequestedToolCall| (p.call_id@, p.tool_name@)) =~= Seq::<(Seq<char>, Seq<char>)>::empty());
    }
    while i < calls.len()
        invariant
            0 <= i <= calls@.len(),
            cv == calls@.map_values(|p: (String, String)| (p.0@, p.1@)),
            open_calls(cv, crate::text::views(pending@).to_set()) == out@.map_values(
                |p: PendingRequestedToolCall| (p.call_id@, p.tool_name@),
            ) + open_calls(cv.skip(i as int), crate::text::views(remaining@).to_set()),
        decreases calls@.len() - i,
    {
        let ghost rest = cv.skip(i as int);
        proof {
            assert(rest[0] == (calls@[i as int].0@, calls@[i as int].1@));
            assert(rest.drop_first() =~= cv.skip(i + 1));
        }
        let id = calls[i].0.as_str();
        let pos = position_of(&remaining, id);
        if let Some(k) = pos {
            let ghost before_set = crate::text::views(remaining@).to_set();
            let ghost rv = remaining@;
            remaining = without_name(&remaining, id);
            let ghost before_out = out@.map_values(|p: PendingRequestedToolCall| (p.call_id@, p.tool_name@));
            out.push(PendingRequestedToolCall { call_id: calls[i].0.clone(), tool_name: calls[i].1.clone() });
            proof {
                assert(out@.map_values(|p: PendingRequestedToolCall| (p.call_id@, p.tool_name@)) =~= before_out.push(rest[0]));
                assert(before_set.contains(id@)) by {
                    assert(crate::text::views(rv)[k as int] == id@);
                }
                assert(crate::text::views(remaining@).to_set() =~= before_set.remove(id@));
                assert(before_out + open_calls(rest, before_set) =~= before_out.push(rest[0]) + open_calls(
                    cv.skip(i + 1),
                    before_set.remove(id@),
                ));
            }
        } else {
            proof {
                assert(!crate::text::views(remaining@).to_set().contains(id@)) by {
                    if crate::text::views(remaining@).to_set().contains(id@) {
                        let q = choose|q: int| 0 <= q < crate::text::views(remaining@).len() && crate::text::views(remaining@)[q] == id@;
                        assert(remaining@[q]@ == id@);
                    }
                }
            }
        }
        i = i + 1;
    }
    proof {
        assert(cv.skip(i as int).len() == 0);
        assert(out@.map_values(|p: PendingRequestedToolCall| (p.call_id@, p.tool_name@)) + Seq::<(Seq<char>, Seq<char>)>::empty()
            =~= out@.map_values(|p: PendingRequestedToolCall| (p.call_id@, p.tool_name@)));
    }
    out
}

/// The result recorded for a requested call left without one when a turn
/// was interrupted.
pub fn interrupted_pending_tool_result(call_id: &str) -> (r: ToolResult)
    ensures
        r.call_id@ == call_id@,
        r.content@ == "Tool execution interrupted before completion"@,
        r.is_error,
        r.error matches Some(e) && e@ == r.content@,
        r.metadata@.len() == 0,
        r.duration_ms is None,
{
    let content = to_string("Tool execution interrupted before completion");
    ToolResult {
        call_id: to_string(call_id),
        content: to_string(content.as_str()),
        is_error: true,
        error: Some(content),
        metadata: Vec::new(),
        duration_ms: None,
    }
}

/// The tool calls requested in one message's content with their
/// arguments, in order.
pub open spec fn content_calls_with_args(content: Seq<LlmContent>) -> Seq<(Seq<char>, Seq<char>, serde_json::Value)>
    decreases content.len(),
{
    if content.len() == 0 {
        seq![]
    } else {
        content_calls_with_args(content.drop_last()) + match content.last() {
            LlmContent::ToolCall { call_id, name, arguments } => seq![(call_id@, name@, arguments)],
            _ => seq![],
        }
    }
}

/// The tool calls the assistant requested in `messages` with their
/// arguments, in order.
pub open spec fn requested_calls_with_args(messages: Seq<LlmMessage>) -> Seq<(Seq<char>, Seq<char>, serde_json::Value)>
    decreases messages.len(),
{
    if messages.len() == 0 {
        seq![]
    } else {
        requested_calls_with_args(messages.drop_last()) + if messages.last().role == LlmRole::Assistant {
            content_calls_with_args(messages.last().content@)
        } else {
            seq![]
        }
    }
}

/// The name and arguments of the first requested call with id `target`.
pub open spec fn call_history(messages: Seq<LlmMessage>, target: Seq<char>) -> Option<(Seq<char>, serde_json::Value)> {
    let calls = requested_calls_with_args(messages);
    if exists|j: int| 0 <= j < calls.len() && (#[trigger] calls[j]).0 == target {
        let j = choose|j: int|
            0 <= j < calls.len() && (#[trigger] calls[j]).0 == target && forall|q: int| 0 <= q < j ==> calls[q].0 != target;
        Some((calls[j].1, calls[j].2))
    } else {
        None
    }
}

fn collect_calls_with_args(messages: &[LlmMessage]) -> (r: Vec<(String, String, serde_json::Value)>)
    ensures
        r@.map_values(|p: (String, String, serde_json::Value)| (p.0@, p.1@, p.2)) == requested_calls_with_args(messages@),
{
    let mut r: Vec<(String, String, serde_json::Value)> = Vec::new();
    let mut i: usize = 0;
    while i < messages.len()
        invariant
            0 <= i <= messages@.len(),
            r@.map_values(|p: (String, String, serde_json::Value)| (p.0@, p.1@, p.2)) == requested_calls_with_args(
                messages@.take(i as int),
            ),
        decreases messages@.len() - i,
    {
        proof {
            assert(messages@.take(i + 1).drop_last() =~= messages@.take(i as int));
            assert(messages@.take(i + 1).last() == messages@[i as int]);
        }
        let ghost before = r@.map_values(|p: (String, String, serde_json::Value)| (p.0@, p.1@, p.2));
        if messages[i].role == LlmRole::Assistant {
            let content = &messages[i].content;
            let mut k: usize = 0;
            proof {
                assert(r@.map_values(|p: (String, String, serde_json::Value)| (p.0@, p.1@, p.2)) =~= before
                    + content_calls_with_args(content@.take(0)));
            }
            while k < content.len()
                invariant
                    0 <= k <= content@.len(),
                    r@.map_values(|p: (String, String, serde_json::Value)| (p.0@, p.1@, p.2)) == before + content_calls_with_args(
                        content@.take(k as int),
                    ),
                decreases content@.len() - k,
            {
                proof {
                    assert(content@.take(k + 1).drop_last() =~= content@.take(k as int));
                    assert(content@.take(k + 1).last() == content@[k as int]);
                }
                match &content[k] {
                    LlmContent::ToolCall { call_id, name, arguments } => {
                        let ghost mid = r@.map_values(|p: (String, String, serde_json::Value)| (p.0@, p.1@, p.2));
                        r.push((call_id.clone(), name.clone(), crate::json::json_clone(arguments)));
                        proof {
                            assert(r@.map_values(|p: (String, String, serde_json::Value)| (p.0@, p.1@, p.2)) =~= mid.push(
                                (call_id@, name@, *arguments),
                            ));
                            assert(before + content_calls_with_args(content@.take(k + 1)) =~= before + content_calls_with_args(
                                content@.take(k as int),
                            ) + seq![(call_id@, name@, *arguments)]);
                        }
                    },
                    _ => {
                        proof {
                            assert(before + content_calls_with_args(content@.take(k + 1)) =~= before + content_calls_with_args(
                                content@.take(k as int),
                            ));
                        }
                    },
                }
                k = k + 1;
            }
            proof {
                assert(content@.take(content@.len() as int) =~= content@);
            }
        } else {
            proof {
                assert(before + seq![] =~= before);
            }
        }
        i = i + 1;
    }
    proof {
        assert(messages@.take(messages@.len() as int) =~= messages@);
    }
    r
}

/// Finds the tool name and arguments of the call `target_call_id` in the
/// assistant's messages.
pub fn find_tool_call_history(messages: &[LlmMessage], target_call_id: &str) -> (r: Option<(String, serde_json::Value)>)
    ensures
        match r {
            Some((name, args)) => call_history(messages@, target_call_id@) == Some((name@, args)),
            None => call_history(messages@, target_call_id@) is None,
        },
{
    let calls = collect_calls_with_args(messages);
    let ghost all = requested_calls_with_args(messages@);
    let mut rest = calls;
    let n = rest.len();
    let mut i: usize = 0;
    proof {
        assert(rest@.map_values(|p: (String, String, serde_json::Value)| (p.0@, p.1@, p.2)) =~= all.skip(0));
        assert(rest@.len() == rest@.map_values(|p: (String, String, serde_json::Value)| (p.0@, p.1@, p.2)).len());
    }
    while i < n
        invariant
            0 <= i <= n,
            n == all.len(),
            rest@.len() == n - i,
            all == requested_calls_with_args(messages@),
            rest@.map_values(|p: (String, String, serde_json::Value)| (p.0@, p.1@, p.2)) == all.skip(i as int),
            forall|q: int| 0 <= q < i ==> (#[trigger] all[q]).0 != target_call_id@,
        decreases n - i,
    {
        let ghost r0 = rest@;
        let (id, name, args) = rest.remove(0);
        proof {
            assert(r0.map_values(|p: (String, String, serde_json::Value)| (p.0@, p.1@, p.2))[0] == all.skip(i as int)[0]);
            assert((id@, name@, args) == all[i as int]);
            let f = |p: (String, String, serde_json::Value)| (p.0@, p.1@, p.2);
            assert(rest@ =~= r0.drop_first());
            assert forall|j: int| 0 <= j < rest@.len() implies #[trigger] rest@.map_values(f)[j] == all.skip(i + 1)[j] by {
                assert(rest@[j] == r0[j + 1]);
                assert(r0.map_values(f)[j + 1] == all.skip(i as int)[j + 1]);
            }
            assert(rest@.map_values(f) =~= all.skip(i + 1));
        }
        if str_eq(id.as_str(), target_call_id) {
            proof {
                let j = choose|j: int|
                    0 <= j < all.len() && (#[trigger] all[j]).0 == target_call_id@ && forall|q: int| 0 <= q < j ==> all[q].0
                        != target_call_id@;
                assert(j == i) by {
                    if j > i {
                        assert(all[i as int].0 == target_call_id@);
                    }
                }
            }
            return Some((name, args));
        }
        i = i + 1;
    }
    None
}

} // verus!
