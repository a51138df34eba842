//! The Agent Client Protocol bridge: which session updates the client sees
//! for the runtime's events, what text a prompt carries, and when a prompt
//! turn stops and why.  The protocol connection itself is the caller's
//! part; these types hold what the bridge reads and writes of it.

use vstd::prelude::*;
use crate::events::EventPayload;
use crate::json::json_clone;
use crate::text::{push_str, str_eq, to_string};

verus! {

/// Why a prompt turn stopped, as the bridge reports it.
#[derive(Clone, Copy, Debug, PartialEq, Eq, Structural)]
pub enum StopReason {
    EndTurn,
    Cancelled,
}

/// The stop reason of a turn that finished with `finish_reason`: an
/// aborted or cancelled turn was cancelled, any other ended.
pub open spec fn stop_reason_of(finish_reason: Seq<char>) -> StopReason {
    if finish_reason == "aborted"@ || finish_reason == "cancelled"@ {
        StopReason::Cancelled
    } else {
        StopReason::EndTurn
    }
}

/// Maps a finish reason to the stop reason the client sees.
pub fn stop_reason_for(finish_reason: &str) -> (r: StopReason)
    ensures
        r == stop_reason_of(finish_reason@),
{
    proof {
        reveal_strlit("aborted");
        reveal_strlit("cancelled");
    }
    if str_eq(finish_reason, "aborted") || str_eq(finish_reason, "cancelled") {
        StopReason::Cancelled
    } else {
        StopReason::EndTurn
    }
}

/// A content block of a prompt, as far as the bridge reads it.
pub enum PromptBlock {
    Text(String),
    /// An image, a resource or another kind of block.
    Other,
}

/// The text of a prompt: its text blocks, newline-separated, others left
/// out (a separator goes in only once some text was gathered).
pub open spec fn prompt_text(blocks: Seq<PromptBlock>) -> Seq<char>
    decreases blocks.len(),
{
    if blocks.len() == 0 {
        seq![]
    } else {
        let before = prompt_text(blocks.drop_last());
        match blocks.last() {
            PromptBlock::Text(t) => if before.len() == 0 {
                t@
            } else {
                before + "\n"@ + t@
            },
            PromptBlock::Other => before,
        }
    }
}

/// Gathers the text of a prompt's blocks.
pub fn extract_text(blocks: &[PromptBlock]) -> (r: String)
    ensures
        r@ == prompt_text(blocks@),
{
    let mut text = String::new();
    let mut i: usize = 0;
    while i < blocks.len()
        invariant
            0 <= i <= blocks@.len(),
            text@ == prompt_text(blocks@.take(i as int)),
        decreases blocks@.len() - i,
    {
        proof {
            assert(blocks@.take(i + 1).drop_last() =~= blocks@.take(i as int));
            assert(blocks@.take(i + 1).last() == blocks@[i as int]);
        }
        match &blocks[i] {
            PromptBlock::Text(t) => {
                if !text.as_str().is_empty() {
                    push_str(&mut text, "\n");
                }
                push_str(&mut text, t.as_str());
            },
            PromptBlock::Other => {},
        }
        i = i + 1;
    }
    proof {
        assert(blocks@.take(blocks@.len() as int) =~= blocks@);
    }
    text
}

/// The state of a tool call in the client's view.
#[derive(Clone, Copy, Debug, PartialEq, Eq, Structural)]
pub enum ToolCallStatus {
    InProgress,
    Completed,
    Failed,
}

/// What a finished tool call reports as its raw output.
pub struct ToolRawOutput {
    pub content: String,
    pub is_error: bool,
}

/// A session update sent to the client.
pub enum SessionUpdate {
    /// A piece of the agent's message.
    AgentMessageChunk(String),
    /// A piece of the agent's reasoning.
    AgentThoughtChunk(String),
    /// A tool call began.
    ToolCall { call_id: String, title: String },
    /// A tool call changed.
    ToolCallUpdate {
        call_id: String,
        title: Option<String>,
        status: ToolCallStatus,
        raw_input: Option<serde_json::Value>,
        raw_output: Option<ToolRawOutput>,
    },
}

/// The update `u` is the one the client gets for `payload`; `false` when
/// the event has no counterpart in the protocol.
pub open spec fn update_for(payload: EventPayload, u: SessionUpdate) -> bool {
    match payload {
        EventPayload::AssistantTextDelta { delta, .. } => u matches SessionUpdate::AgentMessageChunk(t) && t@ == delta@,
        EventPayload::ThinkingDelta { delta, .. } => u matches SessionUpdate::AgentThoughtChunk(t) && t@ == delta@,
        EventPayload::ToolCallStarted { call_id, tool_name } => u matches SessionUpdate::ToolCall { call_id: c, title }
            && c@ == call_id@ && title@ == tool_name@,
        EventPayload::ToolCallRequested { call_id, tool_name, arguments } => u matches SessionUpdate::ToolCallUpdate {
            call_id: c,
            title,
            status,
            raw_input,
            raw_output,
        } && c@ == call_id@ && (title matches Some(t) && t@ == tool_name@) && status == ToolCallStatus::InProgress
            && raw_input == Some(arguments) && raw_output is None,
        EventPayload::ToolCallCompleted { call_id, result, .. } => u matches SessionUpdate::ToolCallUpdate {
            call_id: c,
            title,
            status,
            raw_input,
            raw_output,
        } && c@ == call_id@ && title is None && status == (if result.is_error {
            ToolCallStatus::Failed
        } else {
            ToolCallStatus::Completed
        }) && raw_input is None && (raw_output matches Some(o) && o.content@ == result.content@ && o.is_error
            == result.is_error),
        EventPayload::ErrorOccurred { message, .. } => u matches SessionUpdate::AgentMessageChunk(t) && t@ == "[Error] "@
            + message@,
        _ => false,
    }
}

/// Whether the event has a counterpart in the protocol.
pub open spec fn has_update(payload: EventPayload) -> bool {
    match payload {
        EventPayload::AssistantTextDelta { .. } | EventPayload::ThinkingDelta { .. } | EventPayload::ToolCallStarted { .. }
        | EventPayload::ToolCallRequested { .. } | EventPayload::ToolCallCompleted { .. } | EventPayload::ErrorOccurred {
            ..
        } => true,
        _ => false,
    }
}

/// The session update the client gets for an event: text and reasoning
/// deltas as message and thought chunks, tool calls as tool call updates,
/// errors as an `[Error]` message chunk; `None` for other events.
pub fn to_session_update(payload: &EventPayload) -> (r: Option<SessionUpdate>)
    ensures
        has_update(*payload) ==> (r matches Some(u) && update_for(*payload, u)),
        !has_update(*payload) ==> r is None,
{
    match payload {
        EventPayload::AssistantTextDelta { delta, .. } => Some(SessionUpdate::AgentMessageChunk(to_string(delta.as_str()))),
        EventPayload::ThinkingDelta { delta, .. } => Some(SessionUpdate::AgentThoughtChunk(to_string(delta.as_str()))),
        EventPayload::ToolCallStarted { call_id, tool_name } => Some(
            SessionUpdate::ToolCall { call_id: to_string(call_id.as_str()), title: to_string(tool_name.as_str()) },
        ),
        EventPayload::ToolCallRequested { call_id, tool_name, arguments } => Some(
            SessionUpdate::ToolCallUpdate {
                call_id: to_string(call_id.as_str()),
                title: Some(to_string(tool_name.as_str())),
                status: ToolCallStatus::InProgress,
                raw_input: Some(json_clone(arguments)),
                raw_output: None,
            },
        ),
        EventPayload::ToolCallCompleted { call_id, result, .. } => Some(
            SessionUpdate::ToolCallUpdate {
                call_id: to_string(call_id.as_str()),
                title: None,
                status: if result.is_error {
                    ToolCallStatus::Failed
                } else {
                    ToolCallStatus::Completed
                },
                raw_input: None,
                raw_output: Some(ToolRawOutput { content: to_string(result.content.as_str()), is_error: result.is_error }),
            },
        ),
        EventPayload::ErrorOccurred { message, .. } => {
            let mut t = to_string("[Error] ");
            push_str(&mut t, message.as_str());
            Some(SessionUpdate::AgentMessageChunk(t))
        },
        _ => None,
    }
}

/// What the prompt loop does with an event while its turn runs.
pub struct PromptEventAction {
    /// The update to send the client first, if any.
    pub forward: Option<SessionUpdate>,
    /// How the turn stops, if the event ends it.
    pub resolve: Option<StopReason>,
}

/// Decides what the loop waiting on a prompt turn of `turn_session` does
/// with an event of `event_session`: events of other sessions are
/// skipped; a completed turn resolves the prompt with its stop reason and
/// is not forwarded; any other event is forwarded when the protocol has a
/// counterpart, and an error that is not recoverable then ends the turn.
pub fn prompt_event_action(turn_session: &str, event_session: &str, payload: &EventPayload) -> (r: PromptEventAction)
    ensures
        turn_session@ != event_session@ ==> r.forward is None && r.resolve is None,
        turn_session@ == event_session@ ==> match *payload {
            EventPayload::TurnCompleted { finish_reason } => r.forward is None && r.resolve == Some(
                stop_reason_of(finish_reason@),
            ),
            _ => {
                &&& has_update(*payload) ==> (r.forward matches Some(u) && update_for(*payload, u))
                &&& !has_update(*payload) ==> r.forward is None
                &&& r.resolve == if payload matches EventPayload::ErrorOccurred { recoverable: false, .. } {
                    Some(StopReason::EndTurn)
                } else {
                    None
                }
            },
        },
{
    if !str_eq(turn_session, event_session) {
        return PromptEventAction { forward: None, resolve: None };
    }
    if let EventPayload::TurnCompleted { finish_reason } = payload {
        return PromptEventAction { forward: None, resolve: Some(stop_reason_for(finish_reason.as_str())) };
    }
    let forward = to_session_update(payload);
    let resolve = match payload {
        EventPayload::ErrorOccurred { recoverable, .. } => if !*recoverable {
            Some(StopReason::EndTurn)
        } else {
            None
        },
        _ => None,
    };
    PromptEventAction { forward, resolve }
}

/// The stop reason a prompt answers with once its turn resolved: the
/// turn's own, or cancelled when the turn was dropped without one (the
/// session was cancelled).
pub fn prompt_stop_reason(resolved: Option<StopReason>) -> (r: StopReason)
    ensures
        r == match resolved {
            Some(s) => s,
            None => StopReason::Cancelled,
        },
{
    match resolved {
        Some(s) => s,
        None => StopReason::Cancelled,
    }
}

/// A turn that finished as `aborted` or `cancelled` is reported to the
/// client as cancelled; every other finish (`stop`, `length`, an error…)
/// as an ordinary end of turn.
pub proof fn law_stop_reasons(finish_reason: Seq<char>)
    ensures
        stop_reason_of(finish_reason) == StopReason::Cancelled <==> (finish_reason == "aborted"@ || finish_reason
            == "cancelled"@),
        stop_reason_of(finish_reason) != StopReason::Cancelled ==> stop_reason_of(finish_reason) == StopReason::EndTurn,
{
}

/// What the client sees of each event: the agent's text as message chunks
/// and its reasoning as thought chunks (never the other way round), a tool
/// call's updates under the call's own id, a finished call as failed
/// exactly when its result is an error, and an error as a message chunk
/// marked `[Error] `.
pub proof fn law_session_updates(payload: EventPayload, u: SessionUpdate)
    requires
        update_for(payload, u),
    ensures
        payload is AssistantTextDelta ==> u is AgentMessageChunk,
        payload is ThinkingDelta ==> u is AgentThoughtChunk,
        payload is ErrorOccurred ==> (u matches SessionUpdate::AgentMessageChunk(t) && t@.len() >= 8 && t@.take(8)
            == seq!['[', 'E', 'r', 'r', 'o', 'r', ']', ' ']),
        match payload {
            EventPayload::ToolCallStarted { call_id, .. } => u matches SessionUpdate::ToolCall { call_id: c, .. } && c@
                == call_id@,
            EventPayload::ToolCallRequested { call_id, .. } => u matches SessionUpdate::ToolCallUpdate {
                call_id: c,
                status,
                ..
            } && c@ == call_id@ && status == ToolCallStatus::InProgress,
            EventPayload::ToolCallCompleted { call_id, result, .. } => u matches SessionUpdate::ToolCallUpdate {
                call_id: c,
                status,
                ..
            } && c@ == call_id@ && status != ToolCallStatus::InProgress && (status == ToolCallStatus::Failed
                <==> result.is_error),
            _ => true,
        },
{
    if let EventPayload::ErrorOccurred { message, .. } = payload {
        reveal_strlit("[Error] ");
        if let SessionUpdate::AgentMessageChunk(t) = u {
            assert(t@.take(8) =~= seq!['[', 'E', 'r', 'r', 'o', 'r', ']', ' ']);
        }
    }
}

/// What reaches a waiting prompt besides its session's events.
#[derive(Clone, Copy, Debug, PartialEq, Eq, Structural)]
pub enum PromptSignal {
    /// Submitting the prompt failed; no turn started.
    SubmitFailed,
    /// The prompt's event subscription fell behind and skipped events.
    FeedLagged,
    /// The event feed closed: the server is shutting down.
    FeedClosed,
    /// A notification that is not a session event.
    OtherNotification,
}

/// How a signal ends the prompt's turn, if it does: a failed submit and a
/// closed feed end it as an ordinary end of turn; the others are passed
/// over.
pub fn prompt_signal_resolution(signal: PromptSignal) -> (r: Option<StopReason>)
    ensures
        r == match signal {
            PromptSignal::SubmitFailed => Some(StopReason::EndTurn),
            PromptSignal::FeedClosed => Some(StopReason::EndTurn),
            _ => None,
        },
{
    match signal {
        PromptSignal::SubmitFailed => Some(StopReason::EndTurn),
        PromptSignal::FeedClosed => Some(StopReason::EndTurn),
        _ => None,
    }
}

// ─── Pending prompt turns ───────────────────────────────────────────────

/// How a prompt turn ended.
#[derive(Clone, Copy, Debug, PartialEq, Eq, Structural)]
pub enum TurnOutcome {
    Completed { stop_reason: StopReason },
}

/// `tokio::sync::oneshot::Sender`, the side that resolves a waiting prompt.
#[verifier::external_type_specification]
#[verifier::external_body]
#[verifier::reject_recursive_types(T)]
pub struct ExOneshotSender<T>(tokio::sync::oneshot::Sender<T>);

/// `tokio::sync::oneshot::Receiver`, the side a prompt waits on.
#[verifier::external_type_specification]
#[verifier::external_body]
#[verifier::reject_recursive_types(T)]
pub struct ExOneshotReceiver<T>(tokio::sync::oneshot::Receiver<T>);

/// `tokio::sync::oneshot::error::RecvError`, what a prompt gets when its
/// turn's sender was dropped.
#[verifier::external_type_specification]
#[verifier::external_body]
pub struct ExOneshotRecvError(tokio::sync::oneshot::error::RecvError);

/// The sending half of a turn's channel, labelled with the number of the
/// channel it belongs to.
pub struct TurnSender {
    tx: tokio::sync::oneshot::Sender<TurnOutcome>,
    channel: Ghost<nat>,
}

/// What a prompt waits on: the receiving half of its turn's channel,
/// labelled with the number of that channel.
pub struct TurnWaiter {
    rx: tokio::sync::oneshot::Receiver<TurnOutcome>,
    channel: Ghost<nat>,
}

impl TurnWaiter {
    /// The number of the channel this waiter receives on.
    pub closed spec fn channel(&self) -> nat {
        self.channel@
    }

    /// The receiving half, to wait on.
    pub fn into_receiver(self) -> tokio::sync::oneshot::Receiver<TurnOutcome> {
        self.rx
    }
}

/// The channels opened for waiting prompts and the outcomes handed to
/// them: each outcome with the (session, turn) and the channel it went to,
/// oldest first.
struct TurnLedger {
    delivered: Ghost<Seq<((Seq<char>, Seq<char>), nat, TurnOutcome)>>,
    next_channel: Ghost<nat>,
}

/// `tokio::sync::oneshot::channel`: a fresh channel, both halves labelled
/// with the ledger's next channel number, which then moves on.
#[verifier::external_body]
fn turn_channel(ledger: &mut TurnLedger) -> (r: (TurnSender, TurnWaiter))
    ensures
        r.0.channel@ == old(ledger).next_channel@,
        r.1.channel() == old(ledger).next_channel@,
        final(ledger).next_channel@ == old(ledger).next_channel@ + 1,
        final(ledger).delivered@ == old(ledger).delivered@,
{
    let (tx, rx) = tokio::sync::oneshot::channel();
    (TurnSender { tx, channel: Ghost(ledger.next_channel@) }, TurnWaiter { rx, channel: Ghost(ledger.next_channel@) })
}

/// `oneshot::Sender::send`: hands the outcome of turn `turn_id` of
/// `session_id` to the prompt waiting on the sender's channel, and records
/// the hand-over; when the prompt stopped waiting the outcome is dropped,
/// which is not claimed either way.
#[verifier::external_body]
fn send_outcome(ledger: &mut TurnLedger, session_id: &str, turn_id: &str, tx: TurnSender, outcome: TurnOutcome)
    ensures
        final(ledger).delivered@ == old(ledger).delivered@.push(((session_id@, turn_id@), tx.channel@, outcome)),
        final(ledger).next_channel@ == old(ledger).next_channel@,
{
    let _ = tx.tx.send(outcome);
}

/// `dashmap::DashMap`, the concurrent map the waiting turns are kept in.
#[verifier::external_type_specification]
#[verifier::external_body]
#[verifier::reject_recursive_types(K)]
#[verifier::reject_recursive_types(V)]
#[verifier::reject_recursive_types(S)]
pub struct ExDashMap<K, V, S>(dashmap::DashMap<K, V, S>);

/// The map of waiting turns: each (session, turn) to its sender.
pub type TurnMap = dashmap::DashMap<(String, String), TurnSender>;

/// What a map of waiting turns holds: for each (session, turn) key, the
/// number of the channel its sender belongs to.
pub uninterp spec fn waiting_turns(map: TurnMap) -> Map<
    (Seq<char>, Seq<char>),
    nat,
>;

/// `DashMap::new`: an empty map.
#[verifier::external_body]
fn new_turn_map() -> (r: TurnMap)
    ensures
        waiting_turns(r).dom().is_empty(),
{
    dashmap::DashMap::new()
}

/// `DashMap::insert`: the sender is stored under (session, turn); a sender
/// stored there before is dropped.
#[verifier::external_body]
fn insert_turn(map: &mut TurnMap, session_id: String, turn_id: String, tx: TurnSender)
    ensures
        waiting_turns(*final(map)) == waiting_turns(*old(map)).insert((session_id@, turn_id@), tx.channel@),
{
    let _replaced = map.insert((session_id, turn_id), tx);
}

/// `DashMap::remove`: takes out the sender stored under (session, turn),
/// when there is one.
#[verifier::external_body]
fn remove_turn(map: &mut TurnMap, session_id: &str, turn_id: &str) -> (r: Option<
    TurnSender,
>)
    ensures
        waiting_turns(*final(map)) == waiting_turns(*old(map)).remove((session_id@, turn_id@)),
        match r {
            Some(tx) => waiting_turns(*old(map)).contains_key((session_id@, turn_id@)) && tx.channel@ == waiting_turns(
                *old(map),
            )[(session_id@, turn_id@)],
            None => !waiting_turns(*old(map)).contains_key((session_id@, turn_id@)),
        },
{
    map.remove(&(session_id.to_string(), turn_id.to_string())).map(|(_, tx)| tx)
}

/// `DashMap::contains_key` for (session, turn).
#[verifier::external_body]
fn contains_turn(map: &TurnMap, session_id: &str, turn_id: &str) -> (r: bool)
    ensures
        r == waiting_turns(*map).contains_key((session_id@, turn_id@)),
{
    map.contains_key(&(session_id.to_string(), turn_id.to_string()))
}

/// Whether a turn of `turn_session` stays when `session_id` is cancelled.
fn keep_turn(turn_session: &String, session_id: &str) -> (r: bool)
    ensures
        r == (turn_session@ != session_id@),
{
    !str_eq(turn_session.as_str(), session_id)
}

/// `DashMap::retain`, keeping the turns of sessions other than
/// `session_id` (the others' senders are dropped).
#[verifier::external_body]
fn retain_other_sessions(map: &mut TurnMap, session_id: &str)
    ensures
        waiting_turns(*final(map)) == waiting_turns(*old(map)).restrict(
            waiting_turns(*old(map)).dom().filter(|k: (Seq<char>, Seq<char>)| k.0 != session_id@),
        ),
{
    map.retain(|key, _| keep_turn(&key.0, session_id));
}

/// The prompt turns waiting for their outcome, keyed by session and turn.
/// Dropping a waiter's sender tells its prompt that the turn was
/// cancelled.
pub struct ActiveTurnTracker {
    turns: TurnMap,
    log: TurnLedger,
}

/// The turns of sessions other than `session_id`.
pub open spec fn turns_outside(turns: Set<(Seq<char>, Seq<char>)>, session_id: Seq<char>) -> Set<(Seq<char>, Seq<char>)> {
    turns.filter(|k: (Seq<char>, Seq<char>)| k.0 != session_id)
}

impl View for ActiveTurnTracker {
    type V = Set<(Seq<char>, Seq<char>)>;

    closed spec fn view(&self) -> Set<(Seq<char>, Seq<char>)> {
        waiting_turns(self.turns).dom()
    }
}

impl ActiveTurnTracker {
    /// Every waiting turn and every delivered outcome is on a channel
    /// opened before.
    pub closed spec fn wf(&self) -> bool {
        &&& forall|k: (Seq<char>, Seq<char>)| #[trigger] waiting_turns(self.turns).contains_key(k)
            ==> waiting_turns(self.turns)[k] < self.log.next_channel@
        &&& forall|i: int| 0 <= i < self.log.delivered@.len() ==> (#[trigger] self.log.delivered@[i]).1 < self.log.next_channel@
    }

    /// The outcomes handed to waiting prompts so far, each with the
    /// (session, turn) it was for and the channel it went to, oldest first.
    pub closed spec fn delivered(&self) -> Seq<((Seq<char>, Seq<char>), nat, TurnOutcome)> {
        self.log.delivered@
    }

    /// The channel the prompt waiting on `key` receives on.
    pub closed spec fn waiter_channel(&self, key: (Seq<char>, Seq<char>)) -> nat {
        waiting_turns(self.turns)[key]
    }

    /// A tracker with no waiting turn.
    pub fn new() -> (r: Self)
        ensures
            r.wf(),
            r@ == Set::<(Seq<char>, Seq<char>)>::empty(),
            r.delivered() == Seq::<((Seq<char>, Seq<char>), nat, TurnOutcome)>::empty(),
    {
        let r = ActiveTurnTracker {
            turns: new_turn_map(),
            log: TurnLedger { delivered: Ghost(Seq::empty()), next_channel: Ghost(0) },
        };
        proof {
            assert(waiting_turns(r.turns).dom() =~= Set::<(Seq<char>, Seq<char>)>::empty());
        }
        r
    }

    /// Whether a prompt waits on this turn.
    pub fn is_pending(&self, session_id: &str, turn_id: &str) -> (r: bool)
        ensures
            r == self@.contains((session_id@, turn_id@)),
    {
        contains_turn(&self.turns, session_id, turn_id)
    }

    /// Registers a prompt waiting on a turn and returns what it waits on: a
    /// fresh channel, the one the turn's outcome will be delivered to.  A
    /// waiter already registered for the same turn is dropped (its prompt
    /// sees a cancellation).
    pub fn register_turn(&mut self, session_id: String, turn_id: String) -> (r: TurnWaiter)
        requires
            old(self).wf(),
        ensures
            final(self).wf(),
            final(self)@ == old(self)@.insert((session_id@, turn_id@)),
            final(self).delivered() == old(self).delivered(),
            final(self).waiter_channel((session_id@, turn_id@)) == r.channel(),
            forall|k: (Seq<char>, Seq<char>)|
                final(self)@.contains(k) && k != (session_id@, turn_id@) ==> #[trigger] final(self).waiter_channel(k)
                    != r.channel(),
            forall|i: int| 0 <= i < old(self).delivered().len() ==> (#[trigger] old(self).delivered()[i]).1 != r.channel(),
    {
        let (tx, rx) = turn_channel(&mut self.log);
        insert_turn(&mut self.turns, session_id, turn_id, tx);
        proof {
            assert(self@ =~= old(self)@.insert((session_id@, turn_id@)));
        }
        rx
    }

    /// Resolves a waiting turn with its outcome and forgets it; a turn no
    /// prompt waits on is ignored.
    pub fn resolve_turn(&mut self, session_id: &str, turn_id: &str, outcome: TurnOutcome)
        requires
            old(self).wf(),
        ensures
            final(self).wf(),
            final(self)@ == old(self)@.remove((session_id@, turn_id@)),
            old(self)@.contains((session_id@, turn_id@)) ==> final(self).delivered() == old(self).delivered().push(
                ((session_id@, turn_id@), old(self).waiter_channel((session_id@, turn_id@)), outcome),
            ),
            !old(self)@.contains((session_id@, turn_id@)) ==> final(self).delivered() == old(self).delivered(),
    {
        if let Some(tx) = remove_turn(&mut self.turns, session_id, turn_id) {
            send_outcome(&mut self.log, session_id, turn_id, tx, outcome);
        }
        proof {
            assert(self@ =~= old(self)@.remove((session_id@, turn_id@)));
        }
    }

    /// Drops every turn of a session: each of its prompts sees a
    /// cancellation.
    pub fn cancel_session(&mut self, session_id: &str)
        requires
            old(self).wf(),
        ensures
            final(self).wf(),
            final(self)@ == turns_outside(old(self)@, session_id@),
            final(self).delivered() == old(self).delivered(),
    {
        retain_other_sessions(&mut self.turns, session_id);
        proof {
            assert(self@ =~= turns_outside(old(self)@, session_id@));
        }
    }
}

} // verus!
