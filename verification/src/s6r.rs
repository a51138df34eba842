//! The s6r message contract between WASM extensions and the host: the
//! manifest an extension declares, the calls the host makes, and the
//! responses it reads back.

use vstd::prelude::*;
use crate::json_value::{json_get, json_get_member, JsonValue};
use crate::text::to_string;

verus! {

/// Protocol version an extension's manifest must declare.
pub const S6R_VERSION: &'static str = "1";

/// A tool declared in a manifest.
pub struct ManifestTool {
    pub name: String,
    pub description: String,
    pub parameters: JsonValue,
    /// `sequential` (the default) or `parallel`.
    pub mode: String,
}

/// A slash command declared in a manifest.
pub struct ManifestCommand {
    pub name: String,
    pub description: String,
}

/// A hook subscription declared in a manifest.
pub struct ManifestHook {
    /// The s6r event name, such as `pre_tool_use`.
    pub on: String,
    /// `blocking`, `non_blocking` or `advisory`.
    pub mode: String,
}

/// Everything an extension declares about itself.
pub struct Manifest {
    pub s6r: String,
    pub id: String,
    pub version: String,
    pub description: String,
    pub capabilities: Vec<String>,
    pub tools: Vec<ManifestTool>,
    pub commands: Vec<ManifestCommand>,
    pub hooks: Vec<ManifestHook>,
}

/// The execution mode of a tool whose manifest entry names none.
pub fn sequential_mode() -> (r: String)
    ensures
        r@ == "sequential"@,
{
    to_string("sequential")
}

/// The schema version of an emitted event that names none.
pub fn default_schema_version() -> (r: u32)
    ensures
        r == 1,
{
    1
}

/// A call from the host into an extension.
pub enum CallRequest {
    Tool { id: String, name: String, input: JsonValue },
    Hook { id: String, on: String, input: JsonValue },
    Command { id: String, name: String, input: JsonValue },
}

impl CallRequest {
    /// The request id, whatever the kind of call.
    pub fn id(&self) -> (r: &str)
        ensures
            r@ == match *self {
                CallRequest::Tool { id, .. } => id@,
                CallRequest::Hook { id, .. } => id@,
                CallRequest::Command { id, .. } => id@,
            },
    {
        match self {
            CallRequest::Tool { id, .. } => id.as_str(),
            CallRequest::Hook { id, .. } => id.as_str(),
            CallRequest::Command { id, .. } => id.as_str(),
        }
    }
}

/// An extension's answer to a call.
pub struct CallResponse {
    pub id: String,
    pub ok: bool,
    pub effect: Option<String>,
    pub data: Option<JsonValue>,
    pub error: Option<String>,
}

impl CallResponse {
    /// The effect named by the response; `ok` when it names none.
    pub fn effect(&self) -> (r: &str)
        ensures
            r@ == match self.effect {
                Some(e) => e@,
                None => "ok"@,
            },
    {
        match &self.effect {
            Some(e) => e.as_str(),
            None => "ok",
        }
    }

    /// The string at `data[key]`; empty when there is none.
    pub fn data_str(&self, key: &str) -> (r: &str)
        ensures
            r@ == match self.data {
                Some(d) => match json_get(d, key@) {
                    Some(JsonValue::String(s)) => s@,
                    _ => seq![],
                },
                None => seq![],
            },
    {
        proof {
            reveal_strlit("");
        }
        match &self.data {
            Some(d) => match json_get_member(d, key) {
                Some(JsonValue::String(s)) => s.as_str(),
                _ => "",
            },
            None => "",
        }
    }

    /// The value at `data[key]`.
    pub fn data_value(&self, key: &str) -> (r: Option<&JsonValue>)
        ensures
            match self.data {
                Some(d) => match r {
                    Some(v) => json_get(d, key@) == Some(*v),
                    None => json_get(d, key@) is None,
                },
                None => r is None,
            },
    {
        match &self.data {
            Some(d) => json_get_member(d, key),
            None => None,
        }
    }
}

} // verus!
