use astrcode::json_value::JsonValue;
use astrcode::mcp_http::{
    classify_response, json_response_result, response_result, sse_event_payloads, sse_response_result, BodyRoute,
    JsonRpcError, JsonRpcResponse, McpClientError, ResponseKind, plan_exchange_step, McpExchangeStep, McpMessage,
};

fn ok(id: u64, value: JsonValue) -> JsonRpcResponse {
    JsonRpcResponse { id: Some(id), result: Some(value), error: None }
}

#[test]
fn body_routes() {
    let req = ResponseKind::Request { expected_id: 1 };
    assert!(matches!(
        classify_response("u", 202, "202 Accepted", None, "", ResponseKind::Notification),
        BodyRoute::Null
    ));
    match classify_response("http://x", 500, "500 Internal Server Error", None, "oops", req) {
        BodyRoute::Fail(McpClientError::Http { message }) => {
            assert_eq!(message, "HTTP 500 Internal Server Error from http://x; body: oops")
        },
        other => panic!("unexpected {other:?}"),
    }
    match classify_response("http://x", 200, "200 OK", None, "  ", req) {
        BodyRoute::Fail(McpClientError::Http { message }) => assert_eq!(message, "empty JSON-RPC response body from http://x"),
        other => panic!("unexpected {other:?}"),
    }
    assert!(matches!(classify_response("u", 200, "200 OK", None, " ", ResponseKind::Notification), BodyRoute::Null));
    assert!(matches!(
        classify_response("u", 200, "200 OK", Some("Text/Event-Stream; charset=utf-8"), "data: {}", req),
        BodyRoute::EventStream
    ));
    assert!(matches!(classify_response("u", 200, "200 OK", Some("application/json"), "{}", req), BodyRoute::Json));
}

#[test]
fn event_stream_payloads() {
    let body = "event: message\r\ndata: {\"a\":\r\ndata:  1}\r\n\r\n: comment\n\ndata: second\n";
    assert_eq!(sse_event_payloads(body), vec!["{\"a\":\n1}".to_string(), "second".to_string()]);
    assert!(sse_event_payloads("\n\n").is_empty());
}

#[test]
fn rpc_results() {
    let req = ResponseKind::Request { expected_id: 2 };
    assert_eq!(response_result(ok(2, JsonValue::Bool(true)), req).unwrap(), JsonValue::Bool(true));
    assert_eq!(
        response_result(JsonRpcResponse { id: Some(2), result: None, error: None }, req).unwrap(),
        JsonValue::Null
    );
    match response_result(ok(3, JsonValue::Null), req) {
        Err(McpClientError::MismatchedResponse { expected, actual, .. }) => {
            assert_eq!(expected, 2);
            assert_eq!(actual, Some(3));
        },
        other => panic!("unexpected {other:?}"),
    }
    let failed = JsonRpcResponse { id: Some(2), result: None, error: Some(JsonRpcError { code: -32601, message: "no".into() }) };
    assert!(matches!(response_result(failed, req), Err(McpClientError::Rpc { code: -32601, .. })));
}

#[test]
fn event_stream_skips_other_ids() {
    let req = ResponseKind::Request { expected_id: 2 };
    let payloads = vec!["p1".to_string(), "p2".to_string()];
    let parsed = vec![Ok(ok(1, JsonValue::Null)), Ok(ok(2, JsonValue::Bool(false)))];
    assert_eq!(sse_response_result("u", &payloads, parsed, req).unwrap(), JsonValue::Bool(false));
    let parsed = vec![Ok(ok(1, JsonValue::Null))];
    match sse_response_result("u", &vec!["p1".to_string()], parsed, req) {
        Err(McpClientError::Http { message }) => {
            assert_eq!(message, "SSE response from u did not contain the expected JSON-RPC response")
        },
        other => panic!("unexpected {other:?}"),
    }
    let parsed = vec![Err("bad json".to_string())];
    match sse_response_result("u", &vec!["{".to_string()], parsed, req) {
        Err(McpClientError::Http { message }) => assert_eq!(message, "parse SSE JSON-RPC response from u: bad json; data: {"),
        other => panic!("unexpected {other:?}"),
    }
    match json_response_result("u", "x", Err("eof".into()), req) {
        Err(McpClientError::Http { message }) => assert_eq!(message, "parse JSON-RPC response from u: eof; body: x"),
        other => panic!("unexpected {other:?}"),
    }
}

use astrcode::mcp_http::{initialized_session, request_headers, send_error, session_id_from_header, HttpMcpSession};

fn pair(k: &str, v: &str) -> (String, String) {
    (k.to_string(), v.to_string())
}

#[test]
fn request_headers_before_initialize() {
    let configured = vec![pair("Authorization", "Bearer t")];
    let headers = request_headers(&configured, None, "2025-06-18");
    assert_eq!(
        headers,
        vec![
            pair("Authorization", "Bearer t"),
            pair("content-type", "application/json"),
            pair("accept", "application/json, text/event-stream"),
            pair("MCP-Protocol-Version", "2025-06-18"),
        ]
    );
}

#[test]
fn request_headers_carry_session() {
    let session = HttpMcpSession { session_id: Some("sess-1".into()), protocol_version: "2024-11-05".into() };
    let headers = request_headers(&[], Some(&session), "2025-06-18");
    assert_eq!(headers[2], pair("MCP-Protocol-Version", "2024-11-05"));
    assert_eq!(headers[3], pair("Mcp-Session-Id", "sess-1"));
    assert_eq!(headers.len(), 4);
    let no_id = HttpMcpSession { session_id: None, protocol_version: "v".into() };
    assert_eq!(request_headers(&[], Some(&no_id), "d").len(), 3);
}

#[test]
fn blank_session_header_is_ignored() {
    assert_eq!(session_id_from_header(Some("abc")), Some("abc".to_string()));
    assert_eq!(session_id_from_header(Some("  ")), None);
    assert_eq!(session_id_from_header(None), None);
}

#[test]
fn send_errors_distinguish_timeouts() {
    match send_error("http://x/mcp", true, "deadline") {
        McpClientError::HttpTimeout { url } => assert_eq!(url, "http://x/mcp"),
        other => panic!("unexpected {other:?}"),
    }
    match send_error("http://x/mcp", false, "refused") {
        McpClientError::Http { message } => assert_eq!(message, "send request to http://x/mcp: refused"),
        other => panic!("unexpected {other:?}"),
    }
}

#[test]
fn initialize_falls_back_to_default_version() {
    let s = initialized_session(Some("id".into()), None, "2025-06-18");
    assert_eq!(s.protocol_version, "2025-06-18");
    assert_eq!(s.session_id, Some("id".to_string()));
    let s = initialized_session(None, Some("2024-11-05".into()), "2025-06-18");
    assert_eq!(s.protocol_version, "2024-11-05");
    assert_eq!(s.session_id, None);
}

#[test]
fn exchange_initializes_notifies_then_operates() {
    let mut step = McpExchangeStep::Initialize;
    let mut sent = Vec::new();
    while let Some(send) = plan_exchange_step(step) {
        sent.push((send.message, send.expected_id, send.with_session));
        step = send.next;
    }
    assert_eq!(
        sent,
        vec![
            (McpMessage::InitializeRequest, Some(1), false),
            (McpMessage::InitializedNotification, None, true),
            (McpMessage::OperationRequest, Some(2), true),
        ]
    );
    assert_eq!(step, McpExchangeStep::Done);
}
