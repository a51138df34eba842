//! Host-side limits of WASM extensions, reads of guest memory, and the
//! choice among extensions that register the same slash command.

use vstd::prelude::*;
use crate::text::{decimal, push_str, str_eq, to_string, usize_to_decimal, views};

verus! {

/// Fuel a single guest call may burn by default.
pub const DEFAULT_WASM_FUEL: u64 = 10000000;

/// Default cap of a guest's linear memory (64 MiB).
pub const DEFAULT_WASM_MEMORY_BYTES: usize = 67108864;

/// Most table entries a guest may grow to.
pub const TABLE_ENTRY_LIMIT: usize = 1024;

/// Per-store state of an extension instance: its resource limits.
pub struct HostState {
    pub fuel_budget: u64,
    pub memory_limit: usize,
}

impl HostState {
    /// The default limits.
    pub fn new() -> (r: Self)
        ensures
            r.fuel_budget == DEFAULT_WASM_FUEL,
            r.memory_limit == DEFAULT_WASM_MEMORY_BYTES,
    {
        HostState { fuel_budget: DEFAULT_WASM_FUEL, memory_limit: DEFAULT_WASM_MEMORY_BYTES }
    }

    /// The same state with the given fuel budget and memory cap.
    pub fn with_limits(self, fuel: u64, memory_bytes: usize) -> (r: Self)
        ensures
            r.fuel_budget == fuel,
            r.memory_limit == memory_bytes,
    {
        let mut s = self;
        s.fuel_budget = fuel;
        s.memory_limit = memory_bytes;
        s
    }

    /// Whether linear memory may grow to `desired` bytes.
    pub fn memory_growing(&self, current: usize, desired: usize, maximum: Option<usize>) -> (r: bool)
        ensures
            r == (desired <= self.memory_limit),
    {
        desired <= self.memory_limit
    }

    /// Whether a table may grow to `desired` entries.
    pub fn table_growing(&self, current: usize, desired: usize, maximum: Option<usize>) -> (r: bool)
        ensures
            r == (desired <= TABLE_ENTRY_LIMIT),
    {
        desired <= TABLE_ENTRY_LIMIT
    }
}

impl Default for HostState {
    fn default() -> (r: Self)
        ensures
            r.fuel_budget == DEFAULT_WASM_FUEL,
            r.memory_limit == DEFAULT_WASM_MEMORY_BYTES,
    {
        HostState::new()
    }
}

// ─── Guest memory ───────────────────────────────────────────────────────

/// The text of the error for a read past the end of guest memory.
pub open spec fn out_of_bounds_text(ptr: nat, len: nat, mem_size: nat) -> Seq<char> {
    "out-of-bounds read: ptr="@ + decimal(ptr) + ", len="@ + decimal(len) + ", mem_size="@ + decimal(mem_size)
}

/// The bytes `[ptr, ptr + len)` of a guest memory of `mem_size` bytes:
/// `Ok((start, end))` when they lie inside it, an error otherwise.
pub fn guest_range(ptr: u32, len: u32, mem_size: usize) -> (r: Result<(usize, usize), String>)
    ensures
        ptr + len <= mem_size ==> r == Ok::<(usize, usize), String>((ptr as usize, (ptr + len) as usize)),
        ptr + len > mem_size ==> (r matches Err(e) && (e@ == out_of_bounds_text(ptr as nat, len as nat, mem_size as nat)
            || (ptr + len > usize::MAX && e@ == "ptr+len overflow"@))),
{
    let start = ptr as usize;
    let n = len as usize;
    if start > usize::MAX - n {
        return Err(to_string("ptr+len overflow"));
    }
    let end = start + n;
    if end > mem_size {
        let mut e = to_string("out-of-bounds read: ptr=");
        push_str(&mut e, usize_to_decimal(start).as_str());
        push_str(&mut e, ", len=");
        push_str(&mut e, usize_to_decimal(n).as_str());
        push_str(&mut e, ", mem_size=");
        push_str(&mut e, usize_to_decimal(mem_size).as_str());
        return Err(e);
    }
    Ok((start, end))
}

/// What `String::from_utf8_lossy` makes of `bytes`: the text they encode,
/// with U+FFFD in place of each invalid sequence.
pub uninterp spec fn lossy_utf8_text(bytes: Seq<u8>) -> Seq<char>;

/// `String::from_utf8_lossy(bytes).into_owned()`.  std documents that valid
/// UTF-8 comes back as the text it encodes; for other input the result is
/// named (`lossy_utf8_text`).
#[verifier::external_body]
fn utf8_lossy(bytes: &[u8]) -> (r: String)
    ensures
        r@ == lossy_utf8_text(bytes@),
        vstd::utf8::valid_utf8(bytes@) ==> r@ == vstd::utf8::decode_utf8(bytes@),
{
    String::from_utf8_lossy(bytes).into_owned()
}

/// Reads `len` bytes at `ptr` of guest memory `data` as text: empty for
/// `len == 0`, an error when the range leaves the memory.
pub fn read_str_from_memory(data: &[u8], ptr: u32, len: u32) -> (r: Result<String, String>)
    ensures
        len == 0 ==> (r matches Ok(s) && s@.len() == 0),
        len > 0 && ptr + len <= data@.len() ==> (r matches Ok(s) && s@ == lossy_utf8_text(
            data@.subrange(ptr as int, ptr + len),
        )),
        len > 0 && ptr + len > data@.len() ==> r is Err,
{
    if len == 0 {
        return Ok(String::new());
    }
    match guest_range(ptr, len, data.len()) {
        Ok((start, end)) => {
            let mut bytes: Vec<u8> = Vec::new();
            let mut i = start;
            while i < end
                invariant
                    start <= i <= end <= data@.len(),
                    bytes@ == data@.subrange(start as int, i as int),
                decreases end - i,
            {
                bytes.push(data[i]);
                proof {
                    assert(data@.subrange(start as int, i + 1) =~= data@.subrange(start as int, i as int).push(data@[i as int]));
                }
                i = i + 1;
            }
            Ok(utf8_lossy(bytes.as_slice()))
        },
        Err(e) => Err(e),
    }
}

/// Text a guest passed to a host import: empty when `len` is 0 or the
/// range leaves the memory, otherwise the bytes read as UTF-8 (lossy).
pub fn read_caller_string(data: &[u8], ptr: u32, len: u32) -> (r: String)
    ensures
        len == 0 || ptr + len > data@.len() ==> r@.len() == 0,
        len > 0 && ptr + len <= data@.len() ==> r@ == lossy_utf8_text(data@.subrange(ptr as int, ptr + len)),
{
    match read_str_from_memory(data, ptr, len) {
        Ok(s) => s,
        Err(_) => String::new(),
    }
}

/// Where `len` bytes go in a guest memory of `mem_size` bytes after the
/// guest allocated them at `ptr`: `Ok((start, end))`, or an error when the
/// allocation does not lie inside the memory.
pub fn guest_write_range(ptr: u32, len: usize, mem_size: usize) -> (r: Result<(usize, usize), String>)
    ensures
        ptr + len <= mem_size ==> r == Ok::<(usize, usize), String>((ptr as usize, (ptr + len) as usize)),
        ptr + len > usize::MAX ==> (r matches Err(e) && e@ == "ptr+len overflow in write_to_guest"@),
        usize::MAX >= ptr + len > mem_size ==> (r matches Err(e) && e@ == "wasm alloc returned out-of-bounds pointer"@),
{
    let start = ptr as usize;
    if start > usize::MAX - len {
        return Err(to_string("ptr+len overflow in write_to_guest"));
    }
    let end = start + len;
    if end > mem_size {
        return Err(to_string("wasm alloc returned out-of-bounds pointer"));
    }
    Ok((start, end))
}

/// The log level of a guest's `host_log` call.
#[derive(Clone, Copy, Debug, PartialEq, Eq, Structural)]
pub enum GuestLogLevel {
    Trace,
    Debug,
    Info,
    Warn,
    Error,
}

/// The level of a `host_log` call: 0 trace, 1 debug, 3 warn, 4 error, and
/// info for anything else.
pub fn guest_log_level(level: i32) -> (r: GuestLogLevel)
    ensures
        r == (if level == 0 {
            GuestLogLevel::Trace
        } else if level == 1 {
            GuestLogLevel::Debug
        } else if level == 3 {
            GuestLogLevel::Warn
        } else if level == 4 {
            GuestLogLevel::Error
        } else {
            GuestLogLevel::Info
        }),
{
    if level == 0 {
        GuestLogLevel::Trace
    } else if level == 1 {
        GuestLogLevel::Debug
    } else if level == 3 {
        GuestLogLevel::Warn
    } else if level == 4 {
        GuestLogLevel::Error
    } else {
        GuestLogLevel::Info
    }
}

/// The pointer and length packed into a guest's `i64` return value as
/// `ptr << 32 | len`.
pub fn unpack_ptr_len(packed: i64) -> (r: (u32, u32))
    ensures
        r.0 == ((packed as u64) >> 32u64) as u32,
        r.1 == ((packed as u64) & 0xffff_ffffu64) as u32,
{
    let bits = packed as u64;
    (((bits >> 32u64) as u32), ((bits & 0xffff_ffffu64) as u32))
}

// ─── Slash command dispatch ─────────────────────────────────────────────

/// A slash command as an extension registers it.
#[derive(Debug, Clone)]
pub struct SlashCommand {
    pub name: String,
    pub description: String,
}

/// A slash command together with the extension that registered it.
#[derive(Debug, Clone)]
pub struct RegisteredSlashCommand {
    pub extension_id: String,
    pub command: SlashCommand,
}

/// Dispatch order of an extension's commands: the skill extension's come
/// after every other extension's.
pub open spec fn dispatch_priority(extension_id: Seq<char>) -> u8 {
    if extension_id == "astrcode-skill"@ {
        1
    } else {
        0
    }
}

/// The dispatch priority of commands registered by `extension_id`.
pub fn command_dispatch_priority(extension_id: &str) -> (r: u8)
    ensures
        r == dispatch_priority(extension_id@),
{
    if str_eq(extension_id, "astrcode-skill") {
        1
    } else {
        0
    }
}

/// Among the registrations named `name`, the one dispatched: the first of
/// the lowest priority (a stable sort by priority, then the first).
pub open spec fn is_dispatch_choice(commands: Seq<RegisteredSlashCommand>, name: Seq<char>, k: int) -> bool {
    &&& 0 <= k < commands.len()
    &&& commands[k].command.name@ == name
    &&& forall|j: int| 0 <= j < commands.len() && #[trigger] commands[j].command.name@ == name ==> dispatch_priority(
        commands[k].extension_id@,
    ) <= dispatch_priority(commands[j].extension_id@)
    &&& forall|j: int| 0 <= j < k && #[trigger] commands[j].command.name@ == name ==> dispatch_priority(
        commands[k].extension_id@,
    ) < dispatch_priority(commands[j].extension_id@)
}

/// Picks the registration that handles `name`; `None` when no extension
/// registered it.
pub fn select_command(commands: &[RegisteredSlashCommand], name: &str) -> (r: Option<usize>)
    ensures
        match r {
            Some(k) => is_dispatch_choice(commands@, name@, k as int),
            None => forall|j: int| 0 <= j < commands@.len() ==> #[trigger] commands@[j].command.name@ != name@,
        },
{
    let mut best: Option<usize> = None;
    let mut i: usize = 0;
    while i < commands.len()
        invariant
            0 <= i <= commands@.len(),
            match best {
                Some(k) => {
                    &&& k < i
                    &&& commands@[k as int].command.name@ == name@
                    &&& forall|j: int| 0 <= j < i && #[trigger] commands@[j].command.name@ == name@ ==> dispatch_priority(
                        commands@[k as int].extension_id@,
                    ) <= dispatch_priority(commands@[j].extension_id@)
                    &&& forall|j: int| 0 <= j < k && #[trigger] commands@[j].command.name@ == name@ ==> dispatch_priority(
                        commands@[k as int].extension_id@,
                    ) < dispatch_priority(commands@[j].extension_id@)
                },
                None => forall|j: int| 0 <= j < i ==> #[trigger] commands@[j].command.name@ != name@,
            },
        decreases commands@.len() - i,
    {
        if str_eq(commands[i].command.name.as_str(), name) {
            let p = command_dispatch_priority(commands[i].extension_id.as_str());
            match best {
                Some(k) => {
                    let q = command_dispatch_priority(commands[k].extension_id.as_str());
                    if p < q {
                        best = Some(i);
                    }
                },
                None => {
                    best = Some(i);
                },
            }
        }
        i = i + 1;
    }
    best
}

// ─── Diagnostics ────────────────────────────────────────────────────────

/// What registering an extension does.
#[derive(Clone, Copy, Debug, PartialEq, Eq, Structural)]
pub enum Registration {
    /// An extension with this id is already registered: skip it.
    SkipDuplicate,
    /// Add the extension; with a capability record when it registered any
    /// handler, tool or command.
    Add { with_record: bool },
}

/// Decides how an extension with `id` is registered next to the
/// `registered` ones: a duplicate id is skipped, so no id is ever
/// registered twice.
pub fn extension_registration(registered: &[String], id: &str, registered_capabilities: bool) -> (r: Registration)
    ensures
        views(registered@).contains(id@) ==> r == Registration::SkipDuplicate,
        !views(registered@).contains(id@) ==> r == (Registration::Add { with_record: registered_capabilities }),
{
    let mut i: usize = 0;
    while i < registered.len()
        invariant
            0 <= i <= registered@.len(),
            forall|q: int| 0 <= q < i ==> (#[trigger] registered@[q])@ != id@,
        decreases registered@.len() - i,
    {
        if str_eq(registered[i].as_str(), id) {
            proof {
                assert(views(registered@)[i as int] == id@);
            }
            return Registration::SkipDuplicate;
        }
        i = i + 1;
    }
    proof {
        if views(registered@).contains(id@) {
            let q = choose|q: int| 0 <= q < views(registered@).len() && views(registered@)[q] == id@;
            assert(registered@[q]@ == id@);
        }
    }
    Registration::Add { with_record: registered_capabilities }
}

/// How far one lifecycle stage of an extension got.
#[derive(Clone, Copy, Debug, PartialEq, Eq, Structural)]
pub enum ExtensionStageStatus {
    Unknown,
    Running,
    Succeeded,
    Failed,
    Skipped,
}

/// The wire name of a stage status.
pub open spec fn stage_status_name(status: ExtensionStageStatus) -> Seq<char> {
    match status {
        ExtensionStageStatus::Unknown => "unknown"@,
        ExtensionStageStatus::Running => "running"@,
        ExtensionStageStatus::Succeeded => "succeeded"@,
        ExtensionStageStatus::Failed => "failed"@,
        ExtensionStageStatus::Skipped => "skipped"@,
    }
}

/// The wire name of `status`.
pub fn extension_stage_status_string(status: ExtensionStageStatus) -> (r: &'static str)
    ensures
        r@ == stage_status_name(status),
{
    match status {
        ExtensionStageStatus::Unknown => "unknown",
        ExtensionStageStatus::Running => "running",
        ExtensionStageStatus::Succeeded => "succeeded",
        ExtensionStageStatus::Failed => "failed",
        ExtensionStageStatus::Skipped => "skipped",
    }
}

/// What a lifecycle stage of an extension reported.
pub struct ExtensionStageDiagnostics {
    pub status: ExtensionStageStatus,
    pub duration_ms: Option<u64>,
    pub error: Option<String>,
}

/// A stage report as the HTTP API sends it.
pub struct ExtensionStageDiagnosticsDto {
    pub status: String,
    pub duration_ms: Option<u64>,
    pub error: Option<String>,
}

/// The wire form of a stage report: the status by name, the rest as is.
pub fn extension_stage_diagnostics_dto(diagnostics: ExtensionStageDiagnostics) -> (r: ExtensionStageDiagnosticsDto)
    ensures
        r.status@ == stage_status_name(diagnostics.status),
        r.duration_ms == diagnostics.duration_ms,
        r.error == diagnostics.error,
{
    ExtensionStageDiagnosticsDto {
        status: to_string(extension_stage_status_string(diagnostics.status)),
        duration_ms: diagnostics.duration_ms,
        error: diagnostics.error,
    }
}

} // verus!
