use mcsoftsolution_chat::json::{json_text, parse_json, Json};
use mcsoftsolution_chat::mcp::{
    decode_body, empty_object_schema, initialize_request, initialized_notification, rpc_outcome, rpc_request,
    session_lost, tool_call_params, tool_list_fresh, tool_result_text, tools_member, truncate, try_decode_body,
};

fn j(text: &str) -> Json {
    parse_json(text).unwrap()
}

#[test]
fn requests_have_the_json_rpc_shape() {
    assert_eq!(
        json_text(&rpc_request(7, "tools/list", j("{}"))),
        r#"{"id":7,"jsonrpc":"2.0","method":"tools/list","params":{}}"#
    );
    assert_eq!(
        json_text(&initialize_request("0.1.0")),
        r#"{"id":1,"jsonrpc":"2.0","method":"initialize","params":{"capabilities":{},"clientInfo":{"name":"mcsoftsolution-chat","version":"0.1.0"},"protocolVersion":"2025-06-18"}}"#
    );
    assert_eq!(
        json_text(&initialized_notification()),
        r#"{"jsonrpc":"2.0","method":"notifications/initialized"}"#
    );
    assert_eq!(
        json_text(&tool_call_params("get_blog", j(r#"{"limit":3}"#))),
        r#"{"arguments":{"limit":3},"name":"get_blog"}"#
    );
    assert_eq!(json_text(&empty_object_schema()), r#"{"properties":{},"type":"object"}"#);
}

#[test]
fn rpc_outcome_reads_result_or_error() {
    let ok = rpc_outcome("tools/list", &j(r#"{"jsonrpc":"2.0","id":3,"result":{"tools":[]}}"#)).unwrap();
    assert_eq!(json_text(&ok), r#"{"tools":[]}"#);
    assert!(matches!(rpc_outcome("x", &j(r#"{"jsonrpc":"2.0"}"#)), Ok(Json::Null)));
    assert_eq!(
        rpc_outcome("tools/call", &j(r#"{"error":{"code":-1,"message":"bad"}}"#)).unwrap_err(),
        "mcp error from tools/call: bad"
    );
    assert_eq!(
        rpc_outcome("tools/call", &j(r#"{"error":{"code":-1}}"#)).unwrap_err(),
        "mcp error from tools/call: unknown error"
    );
}

#[test]
fn session_lost_detects_dropped_sessions() {
    assert!(session_lost("calling tools/list: MCP HTTP 401 Unauthorized: Session not found"));
    assert!(session_lost("Session not found"));
    assert!(session_lost("MCP HTTP 401 Unauthorized: "));
    assert!(!session_lost("MCP HTTP 500 Internal Server Error: oops"));
}

#[test]
fn tool_result_text_joins_text_blocks() {
    let r = j(r#"{"content":[{"type":"text","text":"one"},{"type":"image"},{"type":"text","text":"two"}]}"#);
    assert_eq!(tool_result_text(&r).unwrap(), "one\n\ntwo");
    let e = j(r#"{"isError":true,"content":[{"type":"text","text":"nope"}]}"#);
    assert_eq!(tool_result_text(&e).unwrap_err(), "tool error: nope");
    let bare = j(r#"{"structured":{"x":1}}"#);
    assert_eq!(tool_result_text(&bare).unwrap(), r#"{"structured":{"x":1}}"#);
    let empty_text = j(r#"{"content":[{"type":"text","text":""},{"type":"text","text":"b"}]}"#);
    assert_eq!(tool_result_text(&empty_text).unwrap(), "b");
}

#[test]
fn tools_member_requires_tools() {
    assert!(tools_member(&j(r#"{"tools":[]}"#)).is_ok());
    assert_eq!(tools_member(&j("{}")).unwrap_err(), "tools/list response missing 'tools' field");
}

#[test]
fn tool_list_is_fresh_for_fifteen_minutes() {
    assert!(tool_list_fresh(0));
    assert!(tool_list_fresh(899));
    assert!(!tool_list_fresh(900));
}

#[test]
fn decode_body_reads_plain_json() {
    let v = decode_body("application/json", r#"{"result":1}"#).unwrap();
    assert_eq!(json_text(&v), r#"{"result":1}"#);
    assert_eq!(decode_body("application/json", "").unwrap_err(), "empty MCP response body");
    assert_eq!(decode_body("application/json", "oops").unwrap_err(), "parsing MCP JSON response: oops");
}

#[test]
fn decode_body_takes_the_first_json_event() {
    let body = "event: message\ndata: [DONE]\n\ndata: not json\n\ndata: {\"id\":2,\n data: junk\ndata: \"result\":{}}\n\ndata: {\"second\":true}\n\n";
    let v = decode_body("Text/Event-Stream; charset=utf-8", body).unwrap();
    assert_eq!(json_text(&v), r#"{"id":2,"result":{}}"#);
    assert_eq!(
        decode_body("text/event-stream", "data: nope\n\n").unwrap_err(),
        "MCP SSE response had no parseable JSON-RPC payload"
    );
}

#[test]
fn truncate_cuts_at_a_byte_count() {
    assert_eq!(truncate("short", 256), "short");
    assert_eq!(truncate("abcdef", 3), "abc\u{2026}");
    assert_eq!(truncate("h\u{e9}llo", 3), "h\u{e9}\u{2026}");
}

#[test]
fn decode_body_error_message_is_truncated() {
    let body = "x".repeat(300);
    let err = decode_body("application/json", &body).unwrap_err();
    assert_eq!(err, format!("parsing MCP JSON response: {}\u{2026}", "x".repeat(256)));
}

#[test]
fn try_decode_body_refuses_to_cut_a_character() {
    let body = format!("{}\u{e9}tail", "x".repeat(255));
    assert!(try_decode_body("application/json", &body).is_none());
    let ok_body = format!("{}\u{e9}tail", "x".repeat(254));
    assert!(matches!(try_decode_body("application/json", &ok_body), Some(Err(_))));
    assert!(matches!(try_decode_body("text/event-stream", &body), Some(Err(_))));
}
