//! Responses of MCP servers over streamable HTTP: which body form a
//! response has, the JSON-RPC messages framed in a server-sent event
//! stream, and what a JSON-RPC response means for the request it answers.

use vstd::prelude::*;
use crate::json_value::JsonValue;
use crate::prompt::lines;
use crate::text::{chars_of, is_blank, is_blank_str, join, join_strings, push_char, push_str, starts_with, str_starts_with, to_string, trim_start, trim_start_string, views};

verus! {

/// Content type of an event-stream body.
pub const CONTENT_TYPE_EVENT_STREAM: &'static str = "text/event-stream";

/// What a response answers.
#[derive(Clone, Copy, Debug, PartialEq, Eq, Structural)]
pub enum ResponseKind {
    /// A notification: no result is expected.
    Notification,
    /// A request with this id.
    Request { expected_id: u64 },
}

/// A JSON-RPC error object.
#[derive(Debug)]
pub struct JsonRpcError {
    pub code: i64,
    pub message: String,
}

/// A JSON-RPC response.
#[derive(Debug)]
pub struct JsonRpcResponse {
    pub id: Option<u64>,
    pub result: Option<JsonValue>,
    pub error: Option<JsonRpcError>,
}

/// Why talking to an MCP server failed.
#[derive(Debug)]
pub enum McpClientError {
    Http { message: String },
    HttpTimeout { url: String },
    Rpc { code: i64, message: String, stderr: String },
    MismatchedResponse { expected: u64, actual: Option<u64>, stderr: String },
}

/// `r` is what the JSON-RPC response carries for `kind`: its error as an
/// RPC error; for a request, a mismatch unless the id matches; otherwise
/// the result, `null` when absent.
pub open spec fn rpc_outcome(rpc_response: JsonRpcResponse, kind: ResponseKind, r: Result<JsonValue, McpClientError>) -> bool {
    match rpc_response.error {
        Some(e) => r matches Err(McpClientError::Rpc { code, message, stderr }) && code == e.code && message == e.message
            && stderr@.len() == 0,
        None => {
            let value = match rpc_response.result {
                Some(v) => v,
                None => JsonValue::Null,
            };
            match kind {
                ResponseKind::Request { expected_id } => if rpc_response.id != Some(expected_id) {
                    r matches Err(McpClientError::MismatchedResponse { expected, actual, stderr }) && expected == expected_id
                        && actual == rpc_response.id && stderr@.len() == 0
                } else {
                    r == Ok::<JsonValue, McpClientError>(value)
                },
                ResponseKind::Notification => r == Ok::<JsonValue, McpClientError>(value),
            }
        },
    }
}

/// The result a JSON-RPC response carries for `kind`.
pub fn response_result(rpc_response: JsonRpcResponse, kind: ResponseKind) -> (r: Result<JsonValue, McpClientError>)
    ensures
        rpc_outcome(rpc_response, kind, r),
{
    if let Some(error) = rpc_response.error {
        return Err(McpClientError::Rpc { code: error.code, message: error.message, stderr: String::new() });
    }
    if let ResponseKind::Request { expected_id } = kind {
        match rpc_response.id {
            None => {
                return Err(McpClientError::MismatchedResponse { expected: expected_id, actual: None, stderr: String::new() });
            },
            Some(actual_id) => {
                if actual_id != expected_id {
                    return Err(McpClientError::MismatchedResponse {
                        expected: expected_id,
                        actual: Some(actual_id),
                        stderr: String::new(),
                    });
                }
            },
        }
    }
    match rpc_response.result {
        Some(v) => Ok(v),
        None => Ok(JsonValue::Null),
    }
}

/// How a response body is read.
#[derive(Debug)]
pub enum BodyRoute {
    /// Nothing to read: the answer is `null`.
    Null,
    /// The response failed.
    Fail(McpClientError),
    /// A server-sent event stream.
    EventStream,
    /// A plain JSON-RPC body.
    Json,
}

/// `c` with an ASCII capital lowercased.
pub open spec fn lower(c: char) -> char {
    crate::mcp_names::ascii_lower(c)
}

/// The content type names an event stream (ASCII case ignored).
pub open spec fn is_event_stream(content_type: Seq<char>) -> bool {
    let p = CONTENT_TYPE_EVENT_STREAM@;
    &&& content_type.len() >= p.len()
    &&& forall|i: int| 0 <= i < p.len() ==> lower(#[trigger] content_type[i]) == p[i]
}

fn is_event_stream_exec(content_type: &str) -> (r: bool)
    ensures
        r == is_event_stream(content_type@),
{
    let v = chars_of(content_type);
    let p = chars_of(CONTENT_TYPE_EVENT_STREAM);
    if v.len() < p.len() {
        return false;
    }
    let mut i: usize = 0;
    while i < p.len()
        invariant
            0 <= i <= p@.len(),
            p@.len() <= v@.len(),
            v@ == content_type@,
            p@ == CONTENT_TYPE_EVENT_STREAM@,
            forall|j: int| 0 <= j < i ==> lower(#[trigger] v@[j]) == p@[j],
        decreases p@.len() - i,
    {
        let c = v[i];
        let l = if 'A' <= c && c <= 'Z' {
            let b: u8 = (c as u32 + 32) as u8;
            b as char
        } else {
            c
        };
        if l != p[i] {
            return false;
        }
        i = i + 1;
    }
    true
}

/// How the body of a response from `url` is read: an accepted
/// notification and a blank notification body are `null`; a status
/// outside 2xx or a blank request body fails; an event-stream content
/// type is read as events, anything else as JSON.
pub open spec fn body_route_ok(
    url: Seq<char>,
    status: u16,
    status_text: Seq<char>,
    content_type: Option<Seq<char>>,
    body: Seq<char>,
    kind: ResponseKind,
    r: BodyRoute,
) -> bool {
    if kind == ResponseKind::Notification && status == 202 {
        r is Null
    } else if !(200 <= status && status <= 299) {
        r matches BodyRoute::Fail(McpClientError::Http { message }) && message@ == "HTTP "@ + status_text + " from "@ + url
            + "; body: "@ + body
    } else if is_blank(body) {
        match kind {
            ResponseKind::Notification => r is Null,
            ResponseKind::Request { .. } => r matches BodyRoute::Fail(McpClientError::Http { message }) && message@
                == "empty JSON-RPC response body from "@ + url,
        }
    } else {
        match content_type {
            Some(t) => if is_event_stream(t) {
                r is EventStream
            } else {
                r is Json
            },
            None => r is Json,
        }
    }
}

/// Decides how a response body is read.  `status_text` is the status as
/// the HTTP client prints it (`200 OK`).
pub fn classify_response(
    url: &str,
    status: u16,
    status_text: &str,
    content_type: Option<&str>,
    body: &str,
    kind: ResponseKind,
) -> (r: BodyRoute)
    ensures
        body_route_ok(
            url@,
            status,
            status_text@,
            match content_type {
                Some(t) => Some(t@),
                None => None,
            },
            body@,
            kind,
            r,
        ),
{
    if kind == ResponseKind::Notification && status == 202 {
        return BodyRoute::Null;
    }
    if !(200 <= status && status <= 299) {
        let mut m = to_string("HTTP ");
        push_str(&mut m, status_text);
        push_str(&mut m, " from ");
        push_str(&mut m, url);
        push_str(&mut m, "; body: ");
        push_str(&mut m, body);
        return BodyRoute::Fail(McpClientError::Http { message: m });
    }
    if is_blank_str(body) {
        return match kind {
            ResponseKind::Notification => BodyRoute::Null,
            ResponseKind::Request { .. } => {
                let mut m = to_string("empty JSON-RPC response body from ");
                push_str(&mut m, url);
                BodyRoute::Fail(McpClientError::Http { message: m })
            },
        };
    }
    match content_type {
        Some(t) => if is_event_stream_exec(t) {
            BodyRoute::EventStream
        } else {
            BodyRoute::Json
        },
        None => BodyRoute::Json,
    }
}

/// `l` without trailing carriage returns.
pub open spec fn strip_cr(l: Seq<char>) -> Seq<char>
    decreases l.len(),
{
    if l.len() > 0 && l.last() == '\r' {
        strip_cr(l.drop_last())
    } else {
        l
    }
}

/// The data of the events in `ls`, given the data lines of the event
/// being read: a blank line ends an event, `data:` lines add to it, other
/// lines are ignored; events without data are dropped.
pub open spec fn events_acc(data: Seq<Seq<char>>, ls: Seq<Seq<char>>) -> Seq<Seq<char>>
    decreases ls.len(),
{
    if ls.len() == 0 {
        if data.len() > 0 {
            seq![join(data, "\n"@)]
        } else {
            seq![]
        }
    } else {
        let l = strip_cr(ls[0]);
        if l.len() == 0 {
            if data.len() > 0 {
                seq![join(data, "\n"@)] + events_acc(seq![], ls.drop_first())
            } else {
                events_acc(seq![], ls.drop_first())
            }
        } else if starts_with(l, "data:"@) {
            events_acc(data.push(trim_start(l.skip(5))), ls.drop_first())
        } else {
            events_acc(data, ls.drop_first())
        }
    }
}

/// The data payloads of the events of an event-stream body, in order.
pub open spec fn sse_payloads(body: Seq<char>) -> Seq<Seq<char>> {
    events_acc(seq![], lines(body))
}

fn strip_cr_exec(l: &str) -> (r: String)
    ensures
        r@ == strip_cr(l@),
{
    let v = chars_of(l);
    let mut n = v.len();
    proof {
        assert(v@.take(v@.len() as int) =~= v@);
    }
    while n > 0 && v[n - 1] == '\r'
        invariant
            0 <= n <= v@.len(),
            strip_cr(v@) == strip_cr(v@.take(n as int)),
        decreases n,
    {
        proof {
            assert(v@.take(n as int).drop_last() =~= v@.take(n - 1));
        }
        n = n - 1;
    }
    proof {
        assert(v@.take(v@.len() as int) =~= v@);
    }
    let r = crate::text::string_from_range(&v, 0, n);
    proof {
        assert(v@.subrange(0, n as int) =~= v@.take(n as int));
    }
    r
}

/// Splits `s` into its lines (`str::lines`).
pub fn split_lines(s: &str) -> (r: Vec<String>)
    ensures
        views(r@) == lines(s@),
{
    let v = chars_of(s);
    let mut out: Vec<String> = Vec::new();
    if v.len() == 0 {
        proof {
            assert(views(out@) =~= Seq::<Seq<char>>::empty());
        }
        return out;
    }
    let n: usize = if v[v.len() - 1] == '\n' { v.len() - 1 } else { v.len() };
    let ghost src = v@.take(n as int);
    proof {
        if v@.last() == '\n' {
            assert(src =~= v@.drop_last());
        } else {
            assert(src =~= v@);
        }
    }
    let mut cur = String::new();
    let mut i: usize = 0;
    proof {
        assert(src.skip(0) =~= src);
        assert(cur@ =~= seq![]);
        assert(views(out@) =~= Seq::<Seq<char>>::empty());
    }
    while i < n
        invariant
            0 <= i <= n <= v.len(),
            src == v@.take(n as int),
            lines(s@) == crate::prompt::split_acc(seq![], src),
            crate::prompt::split_acc(seq![], src) == views(out@) + crate::prompt::split_acc(cur@, src.skip(i as int)),
        decreases n - i,
    {
        let c = v[i];
        proof {
            assert(src.skip(i as int)[0] == c);
            assert(src.skip(i as int).drop_first() =~= src.skip(i + 1));
        }
        if c == '\n' {
            let ghost before = views(out@);
            let ghost last = cur@;
            out.push(cur);
            cur = String::new();
            proof {
                assert(views(out@) =~= before.push(last));
                assert(before + (seq![last] + crate::prompt::split_acc(seq![], src.skip(i + 1))) =~= views(out@)
                    + crate::prompt::split_acc(cur@, src.skip(i + 1)));
            }
        } else {
            push_char(&mut cur, c);
        }
        i = i + 1;
    }
    let ghost before = views(out@);
    let ghost last = cur@;
    out.push(cur);
    proof {
        assert(src.skip(i as int).len() == 0);
        assert(views(out@) =~= before.push(last));
    }
    out
}

/// The data payloads of the events of an event-stream body, in order:
/// each event's `data:` lines (leading whitespace trimmed) joined by
/// newlines.
pub fn sse_event_payloads(body: &str) -> (r: Vec<String>)
    ensures
        views(r@) == sse_payloads(body@),
{
    let ls = split_lines(body);
    let ghost lv = views(ls@);
    let mut out: Vec<String> = Vec::new();
    let mut data: Vec<String> = Vec::new();
    let mut i: usize = 0;
    proof {
        assert(lv.skip(0) =~= lv);
        assert(views(out@) =~= Seq::<Seq<char>>::empty());
        assert(views(data@) =~= Seq::<Seq<char>>::empty());
    }
    while i < ls.len()
        invariant
            0 <= i <= ls@.len(),
            lv == views(ls@),
            lv == lines(body@),
            sse_payloads(body@) == views(out@) + events_acc(views(data@), lv.skip(i as int)),
        decreases ls@.len() - i,
    {
        let l = strip_cr_exec(ls[i].as_str());
        proof {
            assert(lv.skip(i as int)[0] == ls@[i as int]@);
            assert(lv.skip(i as int).drop_first() =~= lv.skip(i + 1));
            reveal_strlit("data:");
        }
        if l.as_str().is_empty() {
            if data.len() > 0 {
                let joined = join_strings(&data, "\n");
                let ghost before = views(out@);
                out.push(joined);
                data = Vec::new();
                proof {
                    assert(views(out@) =~= before.push(joined@));
                    assert(views(data@) =~= Seq::<Seq<char>>::empty());
                }
            } else {
                proof {
                    assert(views(data@) =~= Seq::<Seq<char>>::empty());
                }
            }
        } else if str_starts_with(l.as_str(), "data:") {
            let lv2 = chars_of(l.as_str());
            let rest = crate::text::string_from_range(&lv2, 5, lv2.len());
            let item = trim_start_string(rest.as_str());
            let ghost before = views(data@);
            proof {
                assert(lv2@.subrange(5, lv2@.len() as int) =~= l@.skip(5));
            }
            data.push(item);
            proof {
                assert(views(data@) =~= before.push(item@));
            }
        }
        i = i + 1;
    }
    if data.len() > 0 {
        let joined = join_strings(&data, "\n");
        let ghost before = views(out@);
        out.push(joined);
        proof {
            assert(views(out@) =~= before.push(joined@));
        }
    } else {
        proof {
            assert(views(out@) + events_acc(views(data@), lv.skip(i as int)) =~= views(out@));
        }
    }
    out
}

/// A parsed event is passed over: it answers another request.
pub open spec fn skipped(item: Result<JsonRpcResponse, String>, kind: ResponseKind) -> bool {
    match item {
        Ok(resp) => match kind {
            ResponseKind::Request { expected_id } => resp.id != Some(expected_id),
            ResponseKind::Notification => false,
        },
        Err(_) => false,
    }
}

/// Index of the first event that decides the outcome (a parse error or
/// an answer); `parsed.len()` when none does.
pub open spec fn first_decisive(parsed: Seq<Result<JsonRpcResponse, String>>, kind: ResponseKind) -> int
    decreases parsed.len(),
{
    if parsed.len() == 0 {
        0
    } else if !skipped(parsed[0], kind) {
        0
    } else {
        1 + first_decisive(parsed.drop_first(), kind)
    }
}

proof fn lemma_first_decisive(parsed: Seq<Result<JsonRpcResponse, String>>, kind: ResponseKind, i: int)
    requires
        0 <= i <= parsed.len(),
        forall|j: int| 0 <= j < i ==> skipped(#[trigger] parsed[j], kind),
    ensures
        i < parsed.len() && !skipped(parsed[i], kind) ==> first_decisive(parsed, kind) == i,
        i == parsed.len() ==> first_decisive(parsed, kind) == parsed.len(),
    decreases i,
{
    if i > 0 {
        assert(skipped(parsed[0], kind));
        assert forall|j: int| 0 <= j < i - 1 implies skipped(#[trigger] parsed.drop_first()[j], kind) by {
            assert(parsed.drop_first()[j] == parsed[j + 1]);
        }
        lemma_first_decisive(parsed.drop_first(), kind, i - 1);
        if i < parsed.len() {
            assert(parsed.drop_first()[i - 1] == parsed[i]);
        }
    }
}

/// The outcome of an event stream whose event payloads parsed as `parsed`
/// (the parser's error text for one that did not): the first parse error
/// or answer for the request ends the stream; responses to other request
/// ids are skipped; without an answer the stream fails.
pub fn sse_response_result(
    url: &str,
    payloads: &Vec<String>,
    parsed: Vec<Result<JsonRpcResponse, String>>,
    kind: ResponseKind,
) -> (r: Result<JsonValue, McpClientError>)
    requires
        payloads@.len() == parsed@.len(),
    ensures
        ({
            let k = first_decisive(parsed@, kind);
            if k < parsed@.len() {
                match parsed@[k] {
                    Err(source) => r matches Err(McpClientError::Http { message }) && message@
                        == "parse SSE JSON-RPC response from "@ + url@ + ": "@ + source@ + "; data: "@ + payloads@[k]@,
                    Ok(resp) => rpc_outcome(resp, kind, r),
                }
            } else {
                r matches Err(McpClientError::Http { message }) && message@ == "SSE response from "@ + url@
                    + " did not contain the expected JSON-RPC response"@
            }
        }),
{
    let ghost p0 = parsed@;
    let n = parsed.len();
    let mut rest = parsed;
    let mut i: usize = 0;
    proof {
        assert(rest@ =~= p0.skip(0));
    }
    while i < n
        invariant
            0 <= i <= n,
            n == payloads@.len(),
            n == p0.len(),
            p0 == parsed@,
            rest@ == p0.skip(i as int),
            forall|j: int| 0 <= j < i ==> skipped(#[trigger] p0[j], kind),
        decreases n - i,
    {
        let item = rest.remove(0);
        proof {
            assert(item == p0[i as int]);
            assert(rest@ =~= p0.skip(i + 1));
        }
        match item {
            Err(source) => {
                proof {
                    lemma_first_decisive(p0, kind, i as int);
                }
                let mut m = to_string("parse SSE JSON-RPC response from ");
                push_str(&mut m, url);
                push_str(&mut m, ": ");
                push_str(&mut m, source.as_str());
                push_str(&mut m, "; data: ");
                push_str(&mut m, payloads[i].as_str());
                return Err(McpClientError::Http { message: m });
            },
            Ok(response) => {
                let skip = match kind {
                    ResponseKind::Request { expected_id } => match response.id {
                        Some(id) => id != expected_id,
                        None => true,
                    },
                    ResponseKind::Notification => false,
                };
                if !skip {
                    proof {
                        lemma_first_decisive(p0, kind, i as int);
                    }
                    return response_result(response, kind);
                }
            },
        }
        i = i + 1;
    }
    proof {
        lemma_first_decisive(p0, kind, n as int);
    }
    let mut m = to_string("SSE response from ");
    push_str(&mut m, url);
    push_str(&mut m, " did not contain the expected JSON-RPC response");
    Err(McpClientError::Http { message: m })
}

/// The outcome of a plain JSON body that parsed as `parsed` (the parser's
/// error text when it did not).
pub fn json_response_result(url: &str, body: &str, parsed: Result<JsonRpcResponse, String>, kind: ResponseKind) -> (r: Result<
    JsonValue,
    McpClientError,
>)
    ensures
        match parsed {
            Err(source) => r matches Err(McpClientError::Http { message }) && message@ == "parse JSON-RPC response from "@
                + url@ + ": "@ + source@ + "; body: "@ + body@,
            Ok(resp) => rpc_outcome(resp, kind, r),
        },
{
    match parsed {
        Err(source) => {
            let mut m = to_string("parse JSON-RPC response from ");
            push_str(&mut m, url);
            push_str(&mut m, ": ");
            push_str(&mut m, source.as_str());
            push_str(&mut m, "; body: ");
            push_str(&mut m, body);
            Err(McpClientError::Http { message: m })
        },
        Ok(response) => response_result(response, kind),
    }
}

// ─── Requests ───────────────────────────────────────────────────────────

/// Content type of a JSON body.
pub const CONTENT_TYPE_JSON: &'static str = "application/json";

/// The header naming the negotiated protocol version.
pub const MCP_PROTOCOL_VERSION_HEADER: &'static str = "MCP-Protocol-Version";

/// The header carrying the server's session id.
pub const MCP_SESSION_ID_HEADER: &'static str = "Mcp-Session-Id";

/// What the client keeps of an initialized session.
#[derive(Debug)]
pub struct HttpMcpSession {
    pub session_id: Option<String>,
    pub protocol_version: String,
}

/// Header pairs as text.
pub open spec fn header_views(h: Seq<(String, String)>) -> Seq<(Seq<char>, Seq<char>)> {
    h.map_values(|p: (String, String)| (p.0@, p.1@))
}

/// The headers of a request: the configured ones, then the JSON content
/// type, the accepted body forms, the protocol version (the session's, or
/// `default_version` before one exists) and the session id if the server
/// gave one.
pub open spec fn request_header_list(
    configured: Seq<(Seq<char>, Seq<char>)>,
    session: Option<HttpMcpSession>,
    default_version: Seq<char>,
) -> Seq<(Seq<char>, Seq<char>)> {
    configured + seq![
        ("content-type"@, CONTENT_TYPE_JSON@),
        ("accept"@, CONTENT_TYPE_JSON@ + ", "@ + CONTENT_TYPE_EVENT_STREAM@),
        (MCP_PROTOCOL_VERSION_HEADER@, match session {
            Some(s) => s.protocol_version@,
            None => default_version,
        }),
    ] + match session {
        Some(s) => match s.session_id {
            Some(id) => seq![(MCP_SESSION_ID_HEADER@, id@)],
            None => seq![],
        },
        None => seq![],
    }
}

fn copy_headers(h: &[(String, String)]) -> (r: Vec<(String, String)>)
    ensures
        header_views(r@) == header_views(h@),
{
    let mut r: Vec<(String, String)> = Vec::new();
    let mut i: usize = 0;
    while i < h.len()
        invariant
            0 <= i <= h@.len(),
            header_views(r@) == header_views(h@.take(i as int)),
        decreases h@.len() - i,
    {
        r.push((to_string(h[i].0.as_str()), to_string(h[i].1.as_str())));
        proof {
            assert(header_views(h@.take(i + 1)) =~= header_views(h@.take(i as int)).push((h@[i as int].0@, h@[i as int].1@)));
            assert(header_views(r@) =~= header_views(h@.take(i + 1)));
        }
        i = i + 1;
    }
    proof {
        assert(h@.take(h@.len() as int) =~= h@);
    }
    r
}

/// The headers to send with a JSON-RPC message, in order.
pub fn request_headers(
    configured: &[(String, String)],
    session: Option<&HttpMcpSession>,
    default_protocol_version: &str,
) -> (r: Vec<(String, String)>)
    ensures
        header_views(r@) == request_header_list(
            header_views(configured@),
            match session {
                Some(s) => Some(*s),
                None => None,
            },
            default_protocol_version@,
        ),
{
    let mut r = copy_headers(configured);
    let ghost c = header_views(r@);
    let mut accept = to_string(CONTENT_TYPE_JSON);
    push_str(&mut accept, ", ");
    push_str(&mut accept, CONTENT_TYPE_EVENT_STREAM);
    let version = match session {
        Some(s) => to_string(s.protocol_version.as_str()),
        None => to_string(default_protocol_version),
    };
    r.push((to_string("content-type"), to_string(CONTENT_TYPE_JSON)));
    r.push((to_string("accept"), accept));
    r.push((to_string(MCP_PROTOCOL_VERSION_HEADER), version));
    let ghost fixed = header_views(r@);
    proof {
        assert(fixed =~= c + seq![
            ("content-type"@, CONTENT_TYPE_JSON@),
            ("accept"@, CONTENT_TYPE_JSON@ + ", "@ + CONTENT_TYPE_EVENT_STREAM@),
            (MCP_PROTOCOL_VERSION_HEADER@, version@),
        ]);
    }
    match session {
        Some(s) => match &s.session_id {
            Some(id) => {
                r.push((to_string(MCP_SESSION_ID_HEADER), to_string(id.as_str())));
                proof {
                    assert(header_views(r@) =~= fixed + seq![(MCP_SESSION_ID_HEADER@, id@)]);
                }
            },
            None => {
                proof {
                    assert(fixed + seq![] =~= fixed);
                }
            },
        },
        None => {
            proof {
                assert(fixed + seq![] =~= fixed);
            }
        },
    }
    r
}

/// The session id a response announces: the header's text, unless blank.
pub fn session_id_from_header(value: Option<&str>) -> (r: Option<String>)
    ensures
        match value {
            Some(v) => if is_blank(v@) {
                r is None
            } else {
                r matches Some(id) && id@ == v@
            },
            None => r is None,
        },
{
    match value {
        Some(v) => if is_blank_str(v) {
            None
        } else {
            Some(to_string(v))
        },
        None => None,
    }
}

/// The error of a request that could not be sent: a timeout names the
/// server, any other failure carries the transport's text.
pub fn send_error(url: &str, timed_out: bool, source: &str) -> (r: McpClientError)
    ensures
        timed_out ==> (r matches McpClientError::HttpTimeout { url: u } && u@ == url@),
        !timed_out ==> (r matches McpClientError::Http { message } && message@ == "send request to "@ + url@ + ": "@
            + source@),
{
    if timed_out {
        McpClientError::HttpTimeout { url: to_string(url) }
    } else {
        let mut m = to_string("send request to ");
        push_str(&mut m, url);
        push_str(&mut m, ": ");
        push_str(&mut m, source);
        McpClientError::Http { message: m }
    }
}

/// The session an `initialize` exchange opens: the id the response
/// announced, and the protocol version the server chose, or
/// `default_version` if it named none.
pub fn initialized_session(
    session_id: Option<String>,
    protocol_version: Option<String>,
    default_version: &str,
) -> (r: HttpMcpSession)
    ensures
        r.session_id == session_id,
        r.protocol_version@ == match protocol_version {
            Some(v) => v@,
            None => default_version@,
        },
{
    let protocol_version = match protocol_version {
        Some(v) => v,
        None => to_string(default_version),
    };
    HttpMcpSession { session_id, protocol_version }
}

// ─── Exchange order ─────────────────────────────────────────────────────

/// Where an MCP exchange over HTTP stands: each operation (listing tools,
/// calling one) opens a session first.
#[derive(Clone, Copy, Debug, PartialEq, Eq, Structural)]
pub enum McpExchangeStep {
    /// Nothing sent yet.
    Initialize,
    /// The initialize response is in; the session is known.
    NotifyInitialized,
    /// The server accepted the initialized notification.
    Operate,
    /// The operation's response is in.
    Done,
}

/// The message a step sends.
#[derive(Clone, Copy, Debug, PartialEq, Eq, Structural)]
pub enum McpMessage {
    /// The `initialize` request.
    InitializeRequest,
    /// The `notifications/initialized` notification.
    InitializedNotification,
    /// The operation's own request (`tools/list` or `tools/call`).
    OperationRequest,
}

/// What to send at a step and where a successful answer leads.
#[derive(Clone, Copy, Debug, PartialEq, Eq, Structural)]
pub struct McpSend {
    pub message: McpMessage,
    /// The JSON-RPC id the response must carry; none for a notification.
    pub expected_id: Option<u64>,
    /// Whether the session's headers (protocol version, session id) go with it.
    pub with_session: bool,
    pub next: McpExchangeStep,
}

/// The plan of `step`: `initialize` (id 1) without a session, then the
/// initialized notification and the operation (id 2) within the session
/// it opened; nothing once done.  A failed answer ends the exchange with
/// its error.
pub open spec fn exchange_plan(step: McpExchangeStep) -> Option<McpSend> {
    match step {
        McpExchangeStep::Initialize => Some(
            McpSend {
                message: McpMessage::InitializeRequest,
                expected_id: Some(1),
                with_session: false,
                next: McpExchangeStep::NotifyInitialized,
            },
        ),
        McpExchangeStep::NotifyInitialized => Some(
            McpSend {
                message: McpMessage::InitializedNotification,
                expected_id: None,
                with_session: true,
                next: McpExchangeStep::Operate,
            },
        ),
        McpExchangeStep::Operate => Some(
            McpSend {
                message: McpMessage::OperationRequest,
                expected_id: Some(2),
                with_session: true,
                next: McpExchangeStep::Done,
            },
        ),
        McpExchangeStep::Done => None,
    }
}

/// What to send at `step`.
pub fn plan_exchange_step(step: McpExchangeStep) -> (r: Option<McpSend>)
    ensures
        r == exchange_plan(step),
{
    match step {
        McpExchangeStep::Initialize => Some(
            McpSend {
                message: McpMessage::InitializeRequest,
                expected_id: Some(1),
                with_session: false,
                next: McpExchangeStep::NotifyInitialized,
            },
        ),
        McpExchangeStep::NotifyInitialized => Some(
            McpSend {
                message: McpMessage::InitializedNotification,
                expected_id: None,
                with_session: true,
                next: McpExchangeStep::Operate,
            },
        ),
        McpExchangeStep::Operate => Some(
            McpSend {
                message: McpMessage::OperationRequest,
                expected_id: Some(2),
                with_session: true,
                next: McpExchangeStep::Done,
            },
        ),
        McpExchangeStep::Done => None,
    }
}

/// An exchange that succeeds sends exactly three messages, in order:
/// `initialize` without a session, then the initialized notification and
/// the operation's request, both within the session.
pub proof fn law_exchange_order()
    ensures
        ({
            let first = exchange_plan(McpExchangeStep::Initialize);
            let second = exchange_plan(first->0.next);
            let third = exchange_plan(second->0.next);
            &&& first matches Some(a) && a.message == McpMessage::InitializeRequest && !a.with_session
            &&& second matches Some(b) && b.message == McpMessage::InitializedNotification && b.with_session
            &&& third matches Some(c) && c.message == McpMessage::OperationRequest && c.with_session
            &&& exchange_plan(third->0.next) is None
        }),
{
}

} // verus!
