//! Protocol version exchange between client and server.

use vstd::prelude::*;

verus! {

/// Handshake request sent by a client.
#[derive(Debug, Clone)]
pub struct InitializeRequest {
    pub protocol_version: u32,
    pub client_info: ClientInfo,
}

/// Server answer to an [`InitializeRequest`].
#[derive(Debug, Clone)]
pub struct InitializeResponse {
    pub accepted_version: u32,
    pub server_info: ServerInfo,
}

#[derive(Debug, Clone)]
pub struct ClientInfo {
    pub name: String,
    pub version: String,
}

#[derive(Debug, Clone)]
pub struct ServerInfo {
    pub name: String,
    pub version: String,
    pub protocol_versions: Vec<u32>,
    pub capabilities: ServerCapabilities,
}

/// Feature flags advertised by a server.
#[derive(Debug, Clone, Copy, PartialEq, Eq)]
pub struct ServerCapabilities {
    pub streaming: bool,
    pub session_fork: bool,
    pub compaction: bool,
    pub extensions: bool,
}

impl Default for ServerCapabilities {
    fn default() -> (r: Self)
        ensures
            !r.streaming && !r.session_fork && !r.compaction && !r.extensions,
    {
        ServerCapabilities { streaming: false, session_fork: false, compaction: false, extensions: false }
    }
}

/// A version the server supports and the client can speak.
pub open spec fn compatible(client_requested: u32, server_supported: Seq<u32>, v: u32) -> bool {
    server_supported.contains(v) && v <= client_requested
}

/// Picks the highest server-supported version that does not exceed the
/// client's requested version; `None` when no such version exists.
pub fn negotiate_version(client_requested: u32, server_supported: &[u32]) -> (r: Option<u32>)
    ensures
        match r {
            Some(v) => compatible(client_requested, server_supported@, v) && forall|w: u32|
                compatible(client_requested, server_supported@, w) ==> w <= v,
            None => forall|w: u32| !compatible(client_requested, server_supported@, w),
        },
{
    let mut best: Option<u32> = None;
    let mut i: usize = 0;
    while i < server_supported.len()
        invariant
            0 <= i <= server_supported@.len(),
            match best {
                Some(v) => (exists|k: int| 0 <= k < i && server_supported@[k] == v) && v <= client_requested
                    && forall|j: int| 0 <= j < i && server_supported@[j] <= client_requested
                        ==> server_supported@[j] <= v,
                None => forall|j: int| 0 <= j < i ==> server_supported@[j] > client_requested,
            },
        decreases server_supported@.len() - i,
    {
        let v = server_supported[i];
        if v <= client_requested {
            match best {
                Some(b) => {
                    if v > b {
                        best = Some(v);
                    }
                },
                None => {
                    best = Some(v);
                },
            }
        }
        i = i + 1;
    }
    proof {
        if let Some(v) = best {
            let k = choose|k: int| 0 <= k < i && server_supported@[k] == v;
            assert(server_supported@.contains(v)) by {
                assert(server_supported@[k] == v);
            }
        }
        assert forall|w: u32| compatible(client_requested, server_supported@, w) implies (match best {
            Some(v) => w <= v,
            None => false,
        }) by {
            let k = choose|k: int| 0 <= k < server_supported@.len() && server_supported@[k] == w;
            assert(server_supported@[k] == w);
        }
    }
    best
}

} // verus!
