//! Host-side permission checks for WASM extensions: which manifest
//! capability a host call needs, and whether an extension event may be
//! emitted under its declaration.

use vstd::prelude::*;
use crate::events::{EventPayload, ExtensionError};
use crate::json::{json_error_text, json_text, json_to_string};
use crate::utf8_len::{str_byte_len, utf8_len};
use crate::text::{decimal, is_blank_str, push_str, starts_with, str_eq, to_string, trim, usize_to_decimal};

verus! {

/// Host capabilities an extension manifest can ask for.
#[derive(Clone, Copy, Debug, PartialEq, Eq, Structural)]
pub enum ExtensionCapability {
    SessionState,
    SessionControl,
    SmallModel,
    SessionHistory,
    EmitEvents,
    WorkspaceRead,
    ProcessSpawn,
    NetworkClient,
}

/// Wire name of each capability.
pub open spec fn capability_name(cap: ExtensionCapability) -> Seq<char> {
    match cap {
        ExtensionCapability::SessionState => "session_state"@,
        ExtensionCapability::SessionControl => "session_control"@,
        ExtensionCapability::SmallModel => "small_model"@,
        ExtensionCapability::SessionHistory => "session_history"@,
        ExtensionCapability::EmitEvents => "emit_events"@,
        ExtensionCapability::WorkspaceRead => "workspace_read"@,
        ExtensionCapability::ProcessSpawn => "process_spawn"@,
        ExtensionCapability::NetworkClient => "network_client"@,
    }
}

/// The capability a `host_invoke` call needs: `small_llm.chat` needs
/// `SmallModel`, every other call needs none (the backend decides).
pub open spec fn required_capability_spec(cap: Seq<char>) -> Option<ExtensionCapability> {
    if cap == "small_llm.chat"@ {
        Some(ExtensionCapability::SmallModel)
    } else {
        None
    }
}

/// The text of a denied call.
pub open spec fn denied_message(cap: ExtensionCapability) -> Seq<char> {
    "permission denied: "@ + capability_name(cap) + " not declared"@
}

/// `declared` contains `cap`.
fn contains_capability(declared: &[ExtensionCapability], cap: ExtensionCapability) -> (r: bool)
    ensures
        r == declared@.contains(cap),
{
    let mut i: usize = 0;
    while i < declared.len()
        invariant
            0 <= i <= declared@.len(),
            forall|j: int| 0 <= j < i ==> declared@[j] != cap,
        decreases declared@.len() - i,
    {
        if declared[i] == cap {
            proof {
                assert(declared@[i as int] == cap);
            }
            return true;
        }
        i = i + 1;
    }
    false
}

/// Whether the manifest declared `emit_events`.
pub fn authorize_emit(declared: &[ExtensionCapability]) -> (r: Result<(), String>)
    ensures
        r is Ok <==> declared@.contains(ExtensionCapability::EmitEvents),
        r matches Err(e) ==> e@ == denied_message(ExtensionCapability::EmitEvents),
{
    if contains_capability(declared, ExtensionCapability::EmitEvents) {
        Ok(())
    } else {
        let mut e = to_string("permission denied: ");
        push_str(&mut e, "emit_events");
        push_str(&mut e, " not declared");
        Err(e)
    }
}

/// The capability a `host_invoke` call needs.
pub fn required_capability(cap: &str) -> (r: Option<ExtensionCapability>)
    ensures
        r == required_capability_spec(cap@),
{
    if str_eq(cap, "small_llm.chat") {
        Some(ExtensionCapability::SmallModel)
    } else {
        None
    }
}

/// Wire name of `cap`.
pub fn capability_wire_name(cap: ExtensionCapability) -> (r: &'static str)
    ensures
        r@ == capability_name(cap),
{
    match cap {
        ExtensionCapability::SessionState => "session_state",
        ExtensionCapability::SessionControl => "session_control",
        ExtensionCapability::SmallModel => "small_model",
        ExtensionCapability::SessionHistory => "session_history",
        ExtensionCapability::EmitEvents => "emit_events",
        ExtensionCapability::WorkspaceRead => "workspace_read",
        ExtensionCapability::ProcessSpawn => "process_spawn",
        ExtensionCapability::NetworkClient => "network_client",
    }
}

/// Whether the manifest allows the `host_invoke` call `cap`.  Calls that
/// need no capability are passed on to the backend.
pub fn authorize(cap: &str, declared: &[ExtensionCapability]) -> (r: Result<(), String>)
    ensures
        match required_capability_spec(cap@) {
            None => r is Ok,
            Some(req) => (r is Ok <==> declared@.contains(req)) && (r matches Err(e) ==> e@
                == denied_message(req)),
        },
{
    let required = match required_capability(cap) {
        None => {
            return Ok(());
        },
        Some(req) => req,
    };
    if contains_capability(declared, required) {
        Ok(())
    } else {
        let mut e = to_string("permission denied: ");
        push_str(&mut e, capability_wire_name(required));
        push_str(&mut e, " not declared");
        Err(e)
    }
}

// ─── Extension event declarations ──────────────────────────────────────

/// An extension's declaration of an event type it may emit.
#[derive(Debug, Clone)]
pub struct ExtensionEventDecl {
    pub event_type: String,
    pub schema_version: u32,
    pub durable: bool,
    pub max_payload_bytes: usize,
}

impl ExtensionEventDecl {
    /// A field-by-field copy.
    pub fn duplicate(&self) -> (r: Self)
        ensures
            r == *self,
    {
        ExtensionEventDecl {
            event_type: self.event_type.clone(),
            schema_version: self.schema_version,
            durable: self.durable,
            max_payload_bytes: self.max_payload_bytes,
        }
    }
}

/// The declaration that wins for `event_type`: the last one in `decls`.
pub open spec fn decl_lookup(decls: Seq<ExtensionEventDecl>, event_type: Seq<char>) -> Option<ExtensionEventDecl>
    decreases decls.len(),
{
    if decls.len() == 0 {
        None
    } else if decls.last().event_type@ == event_type {
        Some(decls.last())
    } else {
        decl_lookup(decls.drop_last(), event_type)
    }
}

/// Event declarations looked up by event type; a later declaration of the
/// same type replaces an earlier one.
pub struct EventDeclTable {
    decls: Vec<ExtensionEventDecl>,
}

impl View for EventDeclTable {
    type V = Seq<ExtensionEventDecl>;

    closed spec fn view(&self) -> Seq<ExtensionEventDecl> {
        self.decls@
    }
}

impl EventDeclTable {
    /// The declaration of `event_type`, if any.
    pub fn get(&self, event_type: &str) -> (r: Option<&ExtensionEventDecl>)
        ensures
            match decl_lookup(self@, event_type@) {
                None => r is None,
                Some(d) => r == Some(&d),
            },
    {
        let mut i: usize = self.decls.len();
        proof {
            assert(self@.take(i as int) =~= self@);
        }
        while i > 0
            invariant
                0 <= i <= self.decls@.len(),
                decl_lookup(self@, event_type@) == decl_lookup(self@.take(i as int), event_type@),
            decreases i,
        {
            let ghost prefix = self@.take(i as int);
            proof {
                assert(prefix.drop_last() =~= self@.take(i - 1));
                assert(prefix.last() == self@[i - 1]);
            }
            if str_eq(self.decls[i - 1].event_type.as_str(), event_type) {
                return Some(&self.decls[i - 1]);
            }
            i = i - 1;
        }
        None
    }
}

/// Lookup table of `decls` by event type.
pub fn decls_to_map(decls: &[ExtensionEventDecl]) -> (r: EventDeclTable)
    ensures
        r@ == decls@,
{
    let mut v: Vec<ExtensionEventDecl> = Vec::new();
    let mut i: usize = 0;
    while i < decls.len()
        invariant
            0 <= i <= decls@.len(),
            v@ == decls@.take(i as int),
        decreases decls@.len() - i,
    {
        v.push(decls[i].duplicate());
        proof {
            assert(decls@.take(i + 1) =~= decls@.take(i as int).push(decls@[i as int]));
        }
        i = i + 1;
    }
    proof {
        assert(decls@.take(i as int) =~= decls@);
    }
    EventDeclTable { decls: v }
}

/// Outcome of checking an event of `event_type` with a serialized payload
/// of `payload_bytes` bytes against the declarations.
pub open spec fn emit_check(decls: Seq<ExtensionEventDecl>, event_type: Seq<char>, schema_version: u32, payload_bytes: nat) -> Result<(), Seq<char>> {
    match decl_lookup(decls, event_type) {
        None => Err("undeclared extension event type: "@ + event_type),
        Some(d) => if schema_version > d.schema_version {
            Err("schema_version "@ + decimal(schema_version as nat) + " exceeds declared "@
                + decimal(d.schema_version as nat) + " for "@ + event_type)
        } else if payload_bytes > d.max_payload_bytes {
            Err("payload exceeds "@ + decimal(d.max_payload_bytes as nat) + " bytes for "@ + event_type)
        } else {
            Ok(())
        },
    }
}

/// `r` is `Err(e)` exactly when `spec` is `Err(e@)`.
pub open spec fn same_outcome(r: Result<(), String>, spec: Result<(), Seq<char>>) -> bool {
    match (r, spec) {
        (Ok(_), Ok(_)) => true,
        (Err(e), Err(s)) => e@ == s,
        _ => false,
    }
}

/// Checks an event against its declaration, given the byte length of its
/// serialized payload.
pub fn check_emit(table: &EventDeclTable, event_type: &str, schema_version: u32, payload_bytes: usize) -> (r: Result<(), String>)
    ensures
        same_outcome(r, emit_check(table@, event_type@, schema_version, payload_bytes as nat)),
{
    let decl = match table.get(event_type) {
        None => {
            let mut e = to_string("undeclared extension event type: ");
            push_str(&mut e, event_type);
            return Err(e);
        },
        Some(d) => d,
    };
    if schema_version > decl.schema_version {
        let mut e = to_string("schema_version ");
        push_str(&mut e, usize_to_decimal(schema_version as usize).as_str());
        push_str(&mut e, " exceeds declared ");
        push_str(&mut e, usize_to_decimal(decl.schema_version as usize).as_str());
        push_str(&mut e, " for ");
        push_str(&mut e, event_type);
        return Err(e);
    }
    if payload_bytes > decl.max_payload_bytes {
        let mut e = to_string("payload exceeds ");
        push_str(&mut e, usize_to_decimal(decl.max_payload_bytes).as_str());
        push_str(&mut e, " bytes for ");
        push_str(&mut e, event_type);
        return Err(e);
    }
    Ok(())
}

/// An emitted event passes the declaration checks: its type is declared,
/// its schema version is not newer than the declared one, and its payload
/// serializes to JSON text of at most the declared byte count.
pub open spec fn passes_emit_checks(
    decls: Seq<ExtensionEventDecl>,
    event_type: Seq<char>,
    schema_version: u32,
    payload: serde_json::Value,
) -> bool {
    &&& decl_lookup(decls, event_type) matches Some(d)
    &&& schema_version <= d.schema_version
    &&& json_text(payload) matches Some(t)
    &&& utf8_len(t) <= d.max_payload_bytes
}

/// What checking an emitted event answers: an undeclared type or a too-new
/// schema version is refused as [`emit_check`] says, without serializing;
/// otherwise the outcome is that of [`emit_check`] on the byte length of
/// the payload's JSON text, or a `serialize payload:` error when it does
/// not serialize.
pub open spec fn emit_validated(
    r: Result<(), String>,
    decls: Seq<ExtensionEventDecl>,
    event_type: Seq<char>,
    schema_version: u32,
    payload: serde_json::Value,
) -> bool {
    match decl_lookup(decls, event_type) {
        None => same_outcome(r, emit_check(decls, event_type, schema_version, 0)),
        Some(d) => if schema_version > d.schema_version {
            same_outcome(r, emit_check(decls, event_type, schema_version, 0))
        } else {
            match json_text(payload) {
                Some(t) => same_outcome(r, emit_check(decls, event_type, schema_version, utf8_len(t))),
                None => r matches Err(e) && starts_with(e@, "serialize payload: "@),
            }
        },
    }
}

/// Checks an event against its declaration, serializing the payload to
/// measure it; `Ok` exactly when the event passes the checks.
pub fn validate_emit(table: &EventDeclTable, event_type: &str, schema_version: u32, payload: &serde_json::Value) -> (r: Result<(), String>)
    ensures
        emit_validated(r, table@, event_type@, schema_version, *payload),
        r is Ok <==> passes_emit_checks(table@, event_type@, schema_version, *payload),
{
    let decl = match table.get(event_type) {
        None => {
            return check_emit(table, event_type, schema_version, 0);
        },
        Some(d) => d,
    };
    if schema_version > decl.schema_version {
        return check_emit(table, event_type, schema_version, 0);
    }
    match json_to_string(payload) {
        Ok(serialized) => check_emit(table, event_type, schema_version, str_byte_len(serialized.as_str())),
        Err(error) => {
            proof {
                reveal_strlit("serialize payload: ");
            }
            let mut e = to_string("serialize payload: ");
            push_str(&mut e, json_error_text(&error).as_str());
            proof {
                assert(e@.take("serialize payload: "@.len() as int) =~= "serialize payload: "@);
            }
            Err(e)
        },
    }
}

/// `tokio::sync::mpsc::UnboundedSender`, the live event channel of a session.
#[verifier::external_type_specification]
#[verifier::external_body]
#[verifier::reject_recursive_types(T)]
pub struct ExUnboundedSender<T>(tokio::sync::mpsc::UnboundedSender<T>);

/// A session's live event channel, with the record of every event the
/// library handed to it.
pub struct EventSender {
    tx: tokio::sync::mpsc::UnboundedSender<EventPayload>,
    handed: Ghost<Seq<EventPayload>>,
}

impl EventSender {
    /// The events handed to the channel so far, oldest first.
    pub closed spec fn handed(&self) -> Seq<EventPayload> {
        self.handed@
    }

    /// The sending side of a session's event channel; nothing handed yet.
    pub fn new(tx: tokio::sync::mpsc::UnboundedSender<EventPayload>) -> (r: Self)
        ensures
            r.handed() == Seq::<EventPayload>::empty(),
    {
        EventSender { tx, handed: Ghost(Seq::empty()) }
    }
}

/// `UnboundedSender::send`: hands `event` to the channel (recorded in
/// `handed`); `true` when it was queued, `false` when the receiving side is
/// gone.  Which of the two happens depends on the receiver, so nothing more
/// is claimed of the result.
#[verifier::external_body]
fn send_event(sink: &mut EventSender, event: EventPayload) -> (queued: bool)
    ensures
        final(sink).handed() == old(sink).handed().push(event),
{
    sink.tx.send(event).is_ok()
}

/// `e` is the extension event of `extension_id` with this type, schema
/// version and payload.
pub open spec fn is_extension_event(
    e: EventPayload,
    extension_id: Seq<char>,
    event_type: Seq<char>,
    schema_version: u32,
    payload: serde_json::Value,
) -> bool {
    e matches EventPayload::ExtensionEvent { extension_id: x, event_type: t, schema_version: v, payload: p } && x@
        == extension_id && t@ == event_type && v == schema_version && p == payload
}

/// The event an extension emits.
pub fn extension_event(extension_id: &str, event_type: &str, schema_version: u32, payload: serde_json::Value) -> (e:
    EventPayload)
    ensures
        is_extension_event(e, extension_id@, event_type@, schema_version, payload),
{
    EventPayload::ExtensionEvent {
        extension_id: to_string(extension_id),
        event_type: to_string(event_type),
        schema_version,
        payload,
    }
}

/// `after` is `before` with one more event, the extension event described.
pub open spec fn handed_one(
    before: Seq<EventPayload>,
    after: Seq<EventPayload>,
    extension_id: Seq<char>,
    event_type: Seq<char>,
    schema_version: u32,
    payload: serde_json::Value,
) -> bool {
    &&& after.len() == before.len() + 1
    &&& after.drop_last() == before
    &&& is_extension_event(after.last(), extension_id, event_type, schema_version, payload)
}

/// Checks an emitted event against the declarations and, when it passes,
/// hands it to the session's event channel as an `ExtensionEvent`.  A
/// refused event is never handed over and is answered as
/// [`validate_emit`] answers; an event that passes is handed over exactly
/// once, and the result is `Ok` unless the channel's receiver is gone.
pub fn try_emit_to_channel(
    extension_id: &str,
    declarations: &EventDeclTable,
    event_tx: &mut EventSender,
    event_type: &str,
    schema_version: u32,
    payload: serde_json::Value,
) -> (r: Result<(), String>)
    ensures
        !passes_emit_checks(declarations@, event_type@, schema_version, payload) ==> {
            &&& emit_validated(r, declarations@, event_type@, schema_version, payload)
            &&& final(event_tx).handed() == old(event_tx).handed()
        },
        passes_emit_checks(declarations@, event_type@, schema_version, payload) ==> {
            &&& handed_one(old(event_tx).handed(), final(event_tx).handed(), extension_id@, event_type@, schema_version, payload)
            &&& (r is Ok || (r matches Err(e) && e@ == "event channel closed"@))
        },
{
    let checked = validate_emit(declarations, event_type, schema_version, &payload);
    if let Err(e) = checked {
        return Err(e);
    }
    let event = extension_event(extension_id, event_type, schema_version, payload);
    let ghost before = event_tx.handed();
    if send_event(event_tx, event) {
        proof {
            assert(event_tx.handed().drop_last() =~= before);
        }
        Ok(())
    } else {
        proof {
            reveal_strlit("event channel closed");
            assert(event_tx.handed().drop_last() =~= before);
        }
        Err(to_string("event channel closed"))
    }
}

/// The answer of [`try_emit_to_channel`], its error wrapped as an internal
/// extension error.
pub open spec fn wrapped_emit(r: Result<(), ExtensionError>, inner: Result<(), String>) -> bool {
    match inner {
        Ok(_) => r is Ok,
        Err(e) => r matches Err(ExtensionError::Internal(w)) && w@ == e@,
    }
}

/// [`try_emit_to_channel`] with its error wrapped as an internal extension error.
pub fn emit_for_sink(
    extension_id: &str,
    declarations: &EventDeclTable,
    event_tx: &mut EventSender,
    event_type: &str,
    schema_version: u32,
    payload: serde_json::Value,
) -> (r: Result<(), ExtensionError>)
    ensures
        !passes_emit_checks(declarations@, event_type@, schema_version, payload) ==> {
            &&& exists|inner: Result<(), String>| #[trigger] emit_validated(inner, declarations@, event_type@, schema_version, payload)
                && wrapped_emit(r, inner)
            &&& final(event_tx).handed() == old(event_tx).handed()
        },
        passes_emit_checks(declarations@, event_type@, schema_version, payload) ==> {
            &&& handed_one(old(event_tx).handed(), final(event_tx).handed(), extension_id@, event_type@, schema_version, payload)
            &&& (r is Ok || (r matches Err(ExtensionError::Internal(e)) && e@ == "event channel closed"@))
        },
{
    match try_emit_to_channel(extension_id, declarations, event_tx, event_type, schema_version, payload) {
        Ok(()) => Ok(()),
        Err(e) => Err(ExtensionError::Internal(e)),
    }
}

/// Checks the fields of a parsed `host_emit` request: the event type must
/// not be blank.
pub fn check_emit_request(event_type: String, schema_version: u32, payload: serde_json::Value) -> (r: Result<(String, u32, serde_json::Value), String>)
    ensures
        trim(event_type@).len() == 0 ==> (r matches Err(e) && e@ == "event_type is empty"@),
        trim(event_type@).len() != 0 ==> (r matches Ok(t) && t.0 == event_type && t.1 == schema_version && t.2 == payload),
{
    if is_blank_str(event_type.as_str()) {
        return Err(to_string("event_type is empty"));
    }
    Ok((event_type, schema_version, payload))
}

/// The capability names are the manifest's wire names, and the only
/// `host_invoke` call that needs a declared capability is `small_llm.chat`,
/// which needs `small_model`: a manifest that does not declare it is told
/// "permission denied: small_model not declared".
pub proof fn law_capabilities()
    ensures
        capability_name(ExtensionCapability::SessionState) == "session_state"@,
        capability_name(ExtensionCapability::SessionControl) == "session_control"@,
        capability_name(ExtensionCapability::SmallModel) == "small_model"@,
        capability_name(ExtensionCapability::SessionHistory) == "session_history"@,
        capability_name(ExtensionCapability::EmitEvents) == "emit_events"@,
        capability_name(ExtensionCapability::WorkspaceRead) == "workspace_read"@,
        capability_name(ExtensionCapability::ProcessSpawn) == "process_spawn"@,
        capability_name(ExtensionCapability::NetworkClient) == "network_client"@,
        required_capability_spec("small_llm.chat"@) == Some(ExtensionCapability::SmallModel),
        forall|call: Seq<char>| call != "small_llm.chat"@ ==> #[trigger] required_capability_spec(call) is None,
        denied_message(ExtensionCapability::SmallModel) == "permission denied: small_model not declared"@,
        denied_message(ExtensionCapability::EmitEvents) == "permission denied: emit_events not declared"@,
{
    reveal_strlit("permission denied: ");
    reveal_strlit(" not declared");
    reveal_strlit("small_model");
    reveal_strlit("emit_events");
    reveal_strlit("permission denied: small_model not declared");
    reveal_strlit("permission denied: emit_events not declared");
    assert("permission denied: "@ + "small_model"@ + " not declared"@ =~= "permission denied: small_model not declared"@);
    assert("permission denied: "@ + "emit_events"@ + " not declared"@ =~= "permission denied: emit_events not declared"@);
}

/// An emitted event passes only when its type is declared, its schema
/// version is not newer than the declared one and its payload text is
/// within the declared byte count; the first failing check names the
/// refusal.
pub proof fn law_emit_checks(decls: Seq<ExtensionEventDecl>, event_type: Seq<char>, schema_version: u32, n: nat)
    ensures
        emit_check(decls, event_type, schema_version, n) is Ok <==> (decl_lookup(decls, event_type) matches Some(d)
            && schema_version <= d.schema_version && n <= d.max_payload_bytes),
        decl_lookup(decls, event_type) is None ==> emit_check(decls, event_type, schema_version, n) == Err::<(), Seq<char>>(
            "undeclared extension event type: "@ + event_type,
        ),
{
}

} // verus!
